//! Folds streamed completion chunks into one text, and says what to forward to the caller
//! for each chunk.
use crate::action::ProposedAction;
use crate::client::{ChatChunk, UsageInfo};
use crate::event::opt_str_view;
use vstd::prelude::*;
use vstd::string::*;

verus! {

/// What the caller of a streamed run is told as the run goes.
#[derive(Debug)]
pub enum StreamChunk {
    Text(String),
    Thinking(String),
    ActionStart { id: String, summary: String },
    ActionComplete(Box<ProposedAction>),
    Error(String),
    Done,
}

/// The new text of a chunk: the content of its first choice, if any.
pub open spec fn chunk_text(c: ChatChunk) -> Option<Seq<char>> {
    if c.choices@.len() > 0 {
        opt_str_view(c.choices@[0].delta.content)
    } else {
        None
    }
}

/// The first choice of the chunk finished with reason `stop`.
pub open spec fn chunk_stops(c: ChatChunk) -> bool {
    c.choices@.len() > 0 && opt_str_view(c.choices@[0].finish_reason) == Some("stop"@)
}

/// The text of the chunks, concatenated.
pub open spec fn folded_text(cs: Seq<ChatChunk>) -> Seq<char>
    decreases cs.len(),
{
    if cs.len() == 0 {
        Seq::empty()
    } else {
        match chunk_text(cs.last()) {
            Some(t) => folded_text(cs.drop_last()) + t,
            None => folded_text(cs.drop_last()),
        }
    }
}

/// The usage of the last chunk that reports one.
pub open spec fn last_usage(cs: Seq<ChatChunk>) -> Option<UsageInfo>
    decreases cs.len(),
{
    if cs.len() == 0 {
        None
    } else {
        match cs.last().usage {
            Some(u) => Some(u),
            None => last_usage(cs.drop_last()),
        }
    }
}

/// Whether a finish reason is `stop`.
pub fn is_finish_stop(reason: &Option<String>) -> (r: bool)
    ensures
        r == (opt_str_view(*reason) == Some("stop"@)),
{
    match reason {
        Some(s) => crate::text::str_eq(s.as_str(), "stop"),
        None => false,
    }
}

/// Keeps the usage of `chunk` where it reports one.
pub fn update_usage(usage: &mut Option<UsageInfo>, chunk: &ChatChunk)
    ensures
        *final(usage) == match chunk.usage {
            Some(u) => Some(u),
            None => *old(usage),
        },
{
    match chunk.usage {
        Some(u) => {
            *usage = Some(u);
        },
        None => {},
    }
}

/// The fold of a stream so far: the text received and the latest usage.
pub struct StreamHandler {
    content: String,
    usage: Option<UsageInfo>,
}

impl StreamHandler {
    pub closed spec fn text(&self) -> Seq<char> {
        self.content@
    }

    pub closed spec fn usage_spec(&self) -> Option<UsageInfo> {
        self.usage
    }

    /// Nothing received yet.
    pub fn new() -> (r: Self)
        ensures
            r.text() == Seq::<char>::empty(),
            r.usage_spec() is None,
    {
        StreamHandler { content: String::new(), usage: None }
    }

    /// Takes in one chunk and returns what to forward: its text, then `Done` where its first
    /// choice finished with `stop`.
    pub fn feed(&mut self, chunk: &ChatChunk) -> (r: Vec<StreamChunk>)
        ensures
            final(self).text() == old(self).text() + match chunk_text(*chunk) {
                Some(t) => t,
                None => Seq::empty(),
            },
            final(self).usage_spec() == match chunk.usage {
                Some(u) => Some(u),
                None => old(self).usage_spec(),
            },
            r@.len() == (if chunk_text(*chunk) is Some { 1int } else { 0int }) + (if chunk_stops(
                *chunk,
            ) {
                1int
            } else {
                0int
            }),
            chunk_text(*chunk) matches Some(t) ==> (r@[0] matches StreamChunk::Text(x) && x@ == t),
            chunk_stops(*chunk) ==> r@.last() is Done,
    {
        let mut out: Vec<StreamChunk> = Vec::new();
        update_usage(&mut self.usage, chunk);
        if chunk.choices.len() > 0 {
            let choice = &chunk.choices[0];
            match &choice.delta.content {
                Some(text) => {
                    self.content.append(text.as_str());
                    out.push(StreamChunk::Text(String::from_str(text.as_str())));
                },
                None => {},
            }
            if is_finish_stop(&choice.finish_reason) {
                out.push(StreamChunk::Done);
            }
        }
        proof {
            if chunk_text(*chunk) is None {
                assert(final(self).text() =~= old(self).text());
            }
        }
        out
    }

    /// The text and the last usage received.
    pub fn finish(self) -> (r: (String, Option<UsageInfo>))
        ensures
            r.0@ == self.text(),
            r.1 == self.usage_spec(),
    {
        (self.content, self.usage)
    }

    /// The text of all chunks, and the usage of the last chunk that reports one.
    pub fn accumulate(chunks: &Vec<ChatChunk>) -> (r: (String, Option<UsageInfo>))
        ensures
            r.0@ == folded_text(chunks@),
            r.1 == last_usage(chunks@),
    {
        let mut h = StreamHandler::new();
        let mut i: usize = 0;
        while i < chunks.len()
            invariant
                i <= chunks.len(),
                h.text() == folded_text(chunks@.subrange(0, i as int)),
                h.usage_spec() == last_usage(chunks@.subrange(0, i as int)),
            decreases chunks.len() - i,
        {
            proof {
                assert(chunks@.subrange(0, i + 1).drop_last() =~= chunks@.subrange(0, i as int));
            }
            let _ = h.feed(&chunks[i]);
            i = i + 1;
        }
        assert(chunks@.subrange(0, i as int) =~= chunks@);
        h.finish()
    }
}

} // verus!
