//! The decisions of the streaming transport: server-sent-event framing, which failures are
//! retried, how long to wait between attempts, and what the caller finally sees.
use crate::error::NexusError;
use crate::settings::views;
use crate::text::{
    chars_of, matches_at, parse_u64, parse_u64_spec, starts_with, string_of_range,
};
use vstd::prelude::*;
use vstd::string::*;
use vstd::utf8::{decode_utf8, valid_utf8};

verus! {

/// One message of a chat request.
#[derive(Debug, Clone)]
pub struct ChatMessage {
    pub role: String,
    pub content: String,
}

/// One streamed delta of a completion.
#[derive(Debug, Clone)]
pub struct ChatChunk {
    pub id: String,
    pub object: String,
    pub created: i64,
    pub model: String,
    pub choices: Vec<ChunkChoice>,
    pub usage: Option<UsageInfo>,
}

/// One choice of a streamed delta.
#[derive(Debug, Clone)]
pub struct ChunkChoice {
    pub index: u32,
    pub delta: Delta,
    pub finish_reason: Option<String>,
}

/// The new text of a choice.
#[derive(Debug, Clone)]
pub struct Delta {
    pub content: Option<String>,
    pub role: Option<String>,
}

/// Token counts of a completion.
#[derive(Debug, Clone, Copy, PartialEq, Eq, Structural)]
pub struct UsageInfo {
    pub prompt_tokens: u32,
    pub completion_tokens: u32,
    pub total_tokens: u32,
}

/// Options of a streamed request.
#[derive(Debug, Clone, Copy)]
pub struct StreamOptions {
    pub include_usage: bool,
}

pub const DEFAULT_BASE_URL: &'static str = "https://api.openai.com/v1";
pub const DEFAULT_MAX_RETRIES: usize = 3;
pub const REQUEST_TIMEOUT_SECS: u64 = 60;
pub const RETRY_BASE_MILLIS: u64 = 100;
pub const RETRY_MAX_MILLIS: u64 = 30000;

/// Where a client sends its requests and how often it retries.
pub struct ClientConfig {
    pub base_url: String,
    pub max_retries: usize,
}

/// `s` with every trailing `c` removed.
pub open spec fn strip_trailing(s: Seq<char>, c: char) -> Seq<char>
    decreases s.len(),
{
    if s.len() > 0 && s.last() == c {
        strip_trailing(s.drop_last(), c)
    } else {
        s
    }
}

/// The base URL a client uses for `url`: trailing slashes removed, the default where
/// nothing is left.
pub open spec fn effective_base_url(url: Seq<char>) -> Seq<char> {
    if strip_trailing(url, '/').len() == 0 {
        DEFAULT_BASE_URL@
    } else {
        strip_trailing(url, '/')
    }
}

/// The end of `v[..hi]` with every trailing `c` removed.
fn strip_trailing_end(v: &Vec<char>, hi: usize, c: char) -> (r: usize)
    requires
        hi <= v.len(),
    ensures
        r <= hi,
        v@.subrange(0, r as int) == strip_trailing(v@.subrange(0, hi as int), c),
{
    let mut e = hi;
    while e > 0 && v[e - 1] == c
        invariant
            e <= hi <= v.len(),
            strip_trailing(v@.subrange(0, hi as int), c) == strip_trailing(
                v@.subrange(0, e as int),
                c,
            ),
        decreases e,
    {
        assert(v@.subrange(0, e as int).drop_last() =~= v@.subrange(0, e - 1));
        e = e - 1;
    }
    e
}

impl ClientConfig {
    /// The default endpoint with the default number of retries.
    pub fn new() -> (r: Self)
        ensures
            r.base_url@ == DEFAULT_BASE_URL@,
            r.max_retries == DEFAULT_MAX_RETRIES,
    {
        ClientConfig { base_url: String::from_str(DEFAULT_BASE_URL), max_retries: DEFAULT_MAX_RETRIES }
    }

    /// This configuration with another base URL; trailing slashes are dropped, and an
    /// empty URL means the default.
    pub fn with_base_url(self, url: &str) -> (r: Self)
        ensures
            r.base_url@ == effective_base_url(url@),
            r.max_retries == self.max_retries,
    {
        let v = chars_of(url);
        let e = strip_trailing_end(&v, v.len(), '/');
        assert(v@.subrange(0, v.len() as int) =~= v@);
        let base_url = if e == 0 {
            String::from_str(DEFAULT_BASE_URL)
        } else {
            string_of_range(&v, 0, e)
        };
        ClientConfig { base_url, max_retries: self.max_retries }
    }

    /// This configuration with another number of retries.
    pub fn with_max_retries(self, retries: usize) -> (r: Self)
        ensures
            r.base_url == self.base_url,
            r.max_retries == retries,
    {
        ClientConfig { base_url: self.base_url, max_retries: retries }
    }

    /// `{base}/chat/completions`.
    pub fn completions_url(&self) -> (r: String)
        ensures
            r@ == strip_trailing(self.base_url@, '/') + "/chat/completions"@,
    {
        let v = chars_of(self.base_url.as_str());
        let e = strip_trailing_end(&v, v.len(), '/');
        assert(v@.subrange(0, v.len() as int) =~= v@);
        let mut s = string_of_range(&v, 0, e);
        s.append("/chat/completions");
        s
    }
}

/// A failure of one attempt, and whether another attempt may follow.
#[derive(Debug)]
pub enum RetryableError {
    Retryable(NexusError),
    Fatal(NexusError),
}

impl RetryableError {
    pub fn is_retryable(&self) -> (r: bool)
        ensures
            r == (*self is Retryable),
    {
        match self {
            RetryableError::Retryable(_) => true,
            RetryableError::Fatal(_) => false,
        }
    }

    /// The failure itself.
    pub fn into_nexus(self) -> (r: NexusError)
        ensures
            r == match self {
                RetryableError::Retryable(e) => e,
                RetryableError::Fatal(e) => e,
            },
    {
        match self {
            RetryableError::Retryable(e) => e,
            RetryableError::Fatal(e) => e,
        }
    }
}

/// HTTP statuses worth another attempt: 408, 429 and every 5xx.
pub open spec fn retryable_status(status: u16) -> bool {
    status == 408 || status == 429 || (500 <= status && status <= 599)
}

pub fn is_retryable_status(status: u16) -> (r: bool)
    ensures
        r == retryable_status(status),
{
    status == 408 || status == 429 || (500 <= status && status <= 599)
}

/// The seconds a `Retry-After` header asks for, where it is an integer.
pub fn parse_retry_after(value: Option<&str>) -> (r: Option<u64>)
    ensures
        r == match value {
            Some(v) => parse_u64_spec(v@),
            None => None,
        },
{
    match value {
        Some(v) => parse_u64(v),
        None => None,
    }
}

/// The outcome of an attempt that got an unsuccessful status: 429 is a retryable rate
/// limit; anything else is an API error carrying the body, or a generic message where the
/// body is empty, retryable exactly for the retryable statuses.
pub fn classify_status(status: u16, status_text: &str, retry_after: Option<u64>, body: &str) -> (r:
    RetryableError)
    ensures
        status == 429 ==> r == RetryableError::Retryable((NexusError::RateLimited { retry_after })),
        status != 429 ==> (r is Retryable <==> retryable_status(status)),
        status != 429 ==> match r {
            RetryableError::Retryable(NexusError::ApiError { message, status_code })
            | RetryableError::Fatal(NexusError::ApiError { message, status_code }) => status_code
                == Some(status) && message@ == if body@.len() == 0 {
                "request failed with status "@ + status_text@
            } else {
                body@
            },
            _ => false,
        },
{
    if status == 429 {
        return RetryableError::Retryable(NexusError::RateLimited { retry_after });
    }
    let message = if body.unicode_len() == 0 {
        let mut m = String::from_str("request failed with status ");
        m.append(status_text);
        m
    } else {
        String::from_str(body)
    };
    let err = NexusError::ApiError { message, status_code: Some(status) };
    if is_retryable_status(status) {
        RetryableError::Retryable(err)
    } else {
        RetryableError::Fatal(err)
    }
}

/// The outcome of an attempt that failed before any status: a timeout or a connection
/// error may be retried, anything else may not.
pub fn classify_request_error(is_timeout: bool, is_connect: bool, detail: &str) -> (r:
    RetryableError)
    ensures
        is_timeout ==> r == RetryableError::Retryable(
            (NexusError::RequestTimeout { timeout_secs: REQUEST_TIMEOUT_SECS }),
        ),
        !is_timeout && is_connect ==> (r matches RetryableError::Retryable(
            NexusError::ApiError { message, status_code },
        ) && message@ == "connection error"@ && status_code is None),
        !is_timeout && !is_connect ==> (r matches RetryableError::Fatal(
            NexusError::ApiError { message, status_code },
        ) && message@ == "request failed"@ && status_code is None),
{
    if is_timeout {
        return RetryableError::Retryable(
            NexusError::RequestTimeout { timeout_secs: REQUEST_TIMEOUT_SECS },
        );
    }
    if is_connect {
        return RetryableError::Retryable(
            NexusError::ApiError { message: String::from_str("connection error"), status_code: None },
        );
    }
    RetryableError::Fatal(
        NexusError::ApiError { message: String::from_str("request failed"), status_code: None },
    )
}

/// The error for a failure while the body streams: a timeout, or an interruption.
pub fn classify_stream_error(is_timeout: bool, detail: &str) -> (r: NexusError)
    ensures
        is_timeout ==> r == (NexusError::RequestTimeout { timeout_secs: REQUEST_TIMEOUT_SECS }),
        !is_timeout ==> (r matches NexusError::StreamInterrupted { message } && message@
            == "stream error: "@ + detail@),
{
    if is_timeout {
        NexusError::RequestTimeout { timeout_secs: REQUEST_TIMEOUT_SECS }
    } else {
        let mut m = String::from_str("stream error: ");
        m.append(detail);
        NexusError::StreamInterrupted { message: m }
    }
}

pub open spec fn pow2(k: nat) -> nat
    decreases k,
{
    if k == 0 {
        1
    } else {
        2 * pow2((k - 1) as nat)
    }
}

/// The wait before retry `k` (0-based), before jitter: 100 ms doubled each time, at most
/// 30 s.
pub open spec fn backoff_spec(k: nat) -> nat {
    if RETRY_BASE_MILLIS * pow2(k) > RETRY_MAX_MILLIS {
        RETRY_MAX_MILLIS as nat
    } else {
        (RETRY_BASE_MILLIS * pow2(k)) as nat
    }
}

proof fn lemma_pow2_grows(k: nat)
    ensures
        pow2(k) >= 1,
        pow2(k + 1) == 2 * pow2(k),
    decreases k,
{
    if k > 0 {
        lemma_pow2_grows((k - 1) as nat);
    }
}

/// The wait before retry `k` (0-based), in milliseconds, before jitter.
pub fn backoff_delay_ms(k: usize) -> (r: u64)
    ensures
        r == backoff_spec(k as nat),
        r <= RETRY_MAX_MILLIS,
{
    let mut d: u64 = RETRY_BASE_MILLIS;
    let mut i: usize = 0;
    while i < k && d <= RETRY_MAX_MILLIS
        invariant
            i <= k,
            d == RETRY_BASE_MILLIS * pow2(i as nat),
            d <= 2 * RETRY_MAX_MILLIS,
        decreases k - i,
    {
        proof {
            lemma_pow2_grows(i as nat);
        }
        d = d * 2;
        i = i + 1;
    }
    if d > RETRY_MAX_MILLIS {
        proof {
            lemma_pow2_monotone(i as nat, k as nat);
        }
        RETRY_MAX_MILLIS
    } else {
        d
    }
}

proof fn lemma_pow2_monotone(i: nat, k: nat)
    requires
        i <= k,
    ensures
        pow2(i) <= pow2(k),
    decreases k - i,
{
    if i < k {
        lemma_pow2_monotone(i, (k - 1) as nat);
        lemma_pow2_grows((k - 1) as nat);
    }
}

/// Relies on `rand::Rng::gen_range` over `rand::thread_rng()`: a uniform draw from `0..=max`.
#[verifier::external_body]
fn draw_up_to(max: u64) -> (r: u64)
    ensures
        r <= max,
{
    rand::Rng::gen_range(&mut rand::thread_rng(), 0..=max)
}

/// `delay` plus a jitter `draw` of at most half of it.
pub fn with_jitter(delay: u64, draw: u64) -> (r: u64)
    requires
        delay <= RETRY_MAX_MILLIS,
        draw <= delay / 2,
    ensures
        r == delay + draw,
{
    delay + draw
}

/// The wait before retry `k`: the backoff delay plus a random jitter of at most half of it.
pub fn jittered_delay_ms(k: usize) -> (r: u64)
    ensures
        backoff_spec(k as nat) <= r <= backoff_spec(k as nat) + backoff_spec(k as nat) / 2,
{
    let d = backoff_delay_ms(k);
    if d == 0 {
        return d;
    }
    let j = draw_up_to(d / 2);
    with_jitter(d, j)
}

/// What to do after a failed attempt.
#[derive(Debug)]
pub enum RetryStep {
    /// Wait, then make attempt number `attempt + 1`.
    Retry { retry: usize },
    /// Stop and report the error.
    GiveUp(NexusError),
}

/// After attempt `attempt` (0-based) failed with `err`: retry while the failure is
/// retryable and fewer than `max_retries` retries have been made, else give up with the
/// failure itself.
pub fn retry_step(attempt: usize, max_retries: usize, err: RetryableError) -> (r: RetryStep)
    ensures
        (err is Retryable && attempt < max_retries) ==> r == (RetryStep::Retry { retry: attempt }),
        !(err is Retryable && attempt < max_retries) ==> r == RetryStep::GiveUp(
            match err {
                RetryableError::Retryable(e) => e,
                RetryableError::Fatal(e) => e,
            },
        ),
{
    if err.is_retryable() && attempt < max_retries {
        RetryStep::Retry { retry: attempt }
    } else {
        RetryStep::GiveUp(err.into_nexus())
    }
}

/// Server-sent-event frames are separated by a blank line.
pub open spec fn delim_at(b: Seq<u8>, i: int) -> bool {
    0 <= i && i + 1 < b.len() && b[i] == 10 && b[i + 1] == 10
}

/// The first frame separator at or after `k`.
pub open spec fn first_delim_from(b: Seq<u8>, k: int) -> Option<int>
    decreases b.len() - k,
{
    if k < 0 || k + 1 >= b.len() {
        None
    } else if delim_at(b, k) {
        Some(k)
    } else {
        first_delim_from(b, k + 1)
    }
}

proof fn lemma_first_delim_range(b: Seq<u8>, k: int)
    requires
        0 <= k,
    ensures
        match first_delim_from(b, k) {
            Some(i) => k <= i && i + 1 < b.len(),
            None => true,
        },
    decreases b.len() - k,
{
    if k + 1 < b.len() && !delim_at(b, k) {
        lemma_first_delim_range(b, k + 1);
    }
}

/// The index of the first `\n\n` of `buffer`.
pub fn find_delimiter(buffer: &Vec<u8>) -> (r: Option<usize>)
    ensures
        match r {
            Some(i) => first_delim_from(buffer@, 0) == Some(i as int),
            None => first_delim_from(buffer@, 0) is None,
        },
{
    if buffer.len() < 2 {
        return None;
    }
    let mut k: usize = 0;
    while k < buffer.len() - 1
        invariant
            buffer.len() >= 2,
            first_delim_from(buffer@, 0) == first_delim_from(buffer@, k as int),
        decreases buffer.len() - k,
    {
        if buffer[k] == 10 && buffer[k + 1] == 10 {
            return Some(k);
        }
        k = k + 1;
    }
    None
}

/// What one frame says.
#[derive(Debug)]
pub enum SseEvent {
    /// The joined `data:` lines, to be decoded as a chunk.
    Data(String),
    /// The `[DONE]` sentinel.
    Done,
    /// No `data:` line.
    Empty,
}

/// The payload of a `data:` line, trailing `\r` removed and one leading space dropped.
pub open spec fn data_payload(l: Seq<char>) -> Option<Seq<char>> {
    let l2 = strip_trailing(l, '\r');
    if starts_with(l2, "data:"@) {
        let p = l2.subrange(5, l2.len() as int);
        Some(
            if p.len() > 0 && p[0] == ' ' {
                p.drop_first()
            } else {
                p
            },
        )
    } else {
        None
    }
}

/// The payloads of the `data:` lines, in order.
pub open spec fn data_lines(ls: Seq<Seq<char>>) -> Seq<Seq<char>>
    decreases ls.len(),
{
    if ls.len() == 0 {
        Seq::empty()
    } else {
        match data_payload(ls.last()) {
            Some(p) => data_lines(ls.drop_last()).push(p),
            None => data_lines(ls.drop_last()),
        }
    }
}

/// The pieces joined with `\n` between them.
pub open spec fn join_nl(ls: Seq<Seq<char>>) -> Seq<char>
    decreases ls.len(),
{
    if ls.len() == 0 {
        Seq::empty()
    } else if ls.len() == 1 {
        ls[0]
    } else {
        join_nl(ls.drop_last()) + "\n"@ + ls.last()
    }
}

/// The data of a frame's text, where it has any.
pub open spec fn event_data(e: Seq<char>) -> Seq<char> {
    join_nl(data_lines(crate::parser::split_nl(e)))
}

/// Reads one frame.
pub fn parse_event(event: &str) -> (r: SseEvent)
    ensures
        data_lines(crate::parser::split_nl(event@)).len() == 0 ==> r is Empty,
        data_lines(crate::parser::split_nl(event@)).len() > 0 && event_data(event@) == "[DONE]"@
            ==> r is Done,
        data_lines(crate::parser::split_nl(event@)).len() > 0 && event_data(event@) != "[DONE]"@
            ==> (r matches SseEvent::Data(d) && d@ == event_data(event@)),
{
    let v = chars_of(event);
    let lines = crate::parser::split_lines(&v);
    let ghost ls = lines@.map_values(|l: Vec<char>| l@);
    let data = chars_of("data:");
    proof {
        reveal_strlit("data:");
    }
    let mut joined = String::new();
    let mut count: usize = 0;
    let mut i: usize = 0;
    while i < lines.len()
        invariant
            i <= lines.len(),
            ls == lines@.map_values(|l: Vec<char>| l@),
            ls == crate::parser::split_nl(event@),
            data@ == "data:"@,
            count == data_lines(ls.subrange(0, i as int)).len(),
            joined@ == join_nl(data_lines(ls.subrange(0, i as int))),
            count <= i,
        decreases lines.len() - i,
    {
        proof {
            assert(ls.subrange(0, i + 1).drop_last() =~= ls.subrange(0, i as int));
        }
        let line = &lines[i];
        let e = strip_trailing_end(line, line.len(), '\r');
        assert(line@.subrange(0, line@.len() as int) =~= line@);
        assert(ls[i as int] == line@);
        proof {
            reveal_strlit("data:");
        }
        let ghost d_old = data_lines(ls.subrange(0, i as int));
        assert(ls.subrange(0, i + 1).last() == line@);
        if e >= 5 && matches_at(line, 0, &data) {
            let mut start: usize = 5;
            if e > 5 && line[5] == ' ' {
                start = 6;
            }
            let payload = string_of_range(line, start, e);
            proof {
                let l2 = line@.subrange(0, e as int);
                assert(l2.subrange(0, 5) =~= line@.subrange(0, 5));
                let p = l2.subrange(5, l2.len() as int);
                if p.len() > 0 && p[0] == ' ' {
                    assert(p.drop_first() =~= line@.subrange(6, e as int));
                } else {
                    assert(p =~= line@.subrange(5, e as int));
                }
            }
            assert(data_payload(line@) == Some(payload@));
            assert(data_lines(ls.subrange(0, i + 1)) == d_old.push(payload@));
            let ghost j_old = joined@;
            if count > 0 {
                crate::text::push_char(&mut joined, '\n');
            }
            joined.append(payload.as_str());
            proof {
                reveal_strlit("\n");
                if count > 0 {
                    assert(d_old.push(payload@).drop_last() =~= d_old);
                    assert(joined@ =~= j_old + "\n"@ + payload@);
                } else {
                    assert(d_old.push(payload@) =~= seq![payload@]);
                }
            }
            count = count + 1;
        } else {
            proof {
                let l2 = line@.subrange(0, e as int);
                if e >= 5 {
                    assert(l2.subrange(0, 5) =~= line@.subrange(0, 5));
                }
                assert(data_payload(line@) is None);
                assert(data_lines(ls.subrange(0, i + 1)) == d_old);
            }
        }
        i = i + 1;
    }
    assert(ls.subrange(0, i as int) =~= ls);
    if count == 0 {
        return SseEvent::Empty;
    }
    if crate::text::str_eq(joined.as_str(), "[DONE]") {
        return SseEvent::Done;
    }
    SseEvent::Data(joined)
}

/// What consuming a buffer gives: the data of each frame, what is left unconsumed, whether
/// `[DONE]` came, and whether a frame was not UTF-8.
pub struct SseOutcome {
    pub items: Seq<Seq<char>>,
    pub rest: Seq<u8>,
    pub done: bool,
    pub failed: bool,
}

/// Consumes every complete frame of `b`: empty frames and frames without data are
/// skipped, `[DONE]` stops, and a frame that is not UTF-8 stops with a failure.
pub open spec fn consume(b: Seq<u8>) -> SseOutcome
    decreases b.len(),
{
    match first_delim_from(b, 0) {
        None => SseOutcome { items: Seq::empty(), rest: b, done: false, failed: false },
        Some(i) => if i < 0 || i + 2 > b.len() {
            SseOutcome { items: Seq::empty(), rest: b, done: false, failed: false }
        } else {
            let ev = b.subrange(0, i);
            let after = b.subrange(i + 2, b.len() as int);
            if ev.len() == 0 {
                consume(after)
            } else if !valid_utf8(ev) {
                SseOutcome { items: Seq::empty(), rest: after, done: false, failed: true }
            } else {
                let text = decode_utf8(ev);
                if data_lines(crate::parser::split_nl(text)).len() == 0 {
                    consume(after)
                } else if event_data(text) == "[DONE]"@ {
                    SseOutcome { items: Seq::empty(), rest: after, done: true, failed: false }
                } else {
                    let o = consume(after);
                    SseOutcome { items: seq![event_data(text)] + o.items, ..o }
                }
            }
        },
    }
}

/// Relies on `std::str::from_utf8`: the text of the bytes where they are valid UTF-8.
#[verifier::external_body]
fn utf8_text(b: &Vec<u8>) -> (r: Option<String>)
    ensures
        r is Some <==> valid_utf8(b@),
        r matches Some(s) ==> s@ == decode_utf8(b@),
{
    std::str::from_utf8(b.as_slice()).ok().map(|s| s.to_string())
}

/// The bytes `b[lo..hi]`.
fn byte_range(b: &Vec<u8>, lo: usize, hi: usize) -> (r: Vec<u8>)
    requires
        lo <= hi <= b.len(),
    ensures
        r@ == b@.subrange(lo as int, hi as int),
{
    let mut out: Vec<u8> = Vec::new();
    let mut i = lo;
    while i < hi
        invariant
            lo <= i <= hi <= b.len(),
            out@ == b@.subrange(lo as int, i as int),
        decreases hi - i,
    {
        out.push(b[i]);
        i = i + 1;
        assert(out@ =~= b@.subrange(lo as int, i as int));
    }
    out
}

/// Consumes the complete frames of `buffer`, appending the data of each to `pending`.
/// Returns whether `[DONE]` came; a frame that is not UTF-8 is an interruption.
pub fn parse_sse_events(buffer: &mut Vec<u8>, pending: &mut Vec<String>) -> (r: Result<
    bool,
    NexusError,
>)
    ensures
        views(final(pending)@) == views(old(pending)@) + consume(old(buffer)@).items,
        final(buffer)@ == consume(old(buffer)@).rest,
        match r {
            Ok(done) => !consume(old(buffer)@).failed && done == consume(old(buffer)@).done,
            Err(e) => consume(old(buffer)@).failed && e is StreamInterrupted,
        },
{
    let ghost orig = buffer@;
    let ghost start = views(pending@);
    loop
        invariant
            orig == old(buffer)@,
            start == views(old(pending)@),
            consume(orig) == (SseOutcome {
                items: views(pending@).subrange(start.len() as int, views(pending@).len() as int)
                    + consume(buffer@).items,
                ..consume(buffer@)
            }),
            views(pending@).len() >= start.len(),
            views(pending@).subrange(0, start.len() as int) == start,
        decreases buffer@.len(),
    {
        let ghost cur = buffer@;
        let ghost pushed = views(pending@).subrange(start.len() as int, views(pending@).len() as int);
        match find_delimiter(buffer) {
            None => {
                assert(views(pending@) =~= start + pushed);
                assert(consume(buffer@) == (SseOutcome {
                    items: Seq::empty(),
                    rest: buffer@,
                    done: false,
                    failed: false,
                }));
                assert(consume(buffer@).items =~= Seq::<Seq<char>>::empty());
                assert(pushed + consume(buffer@).items =~= pushed);
                return Ok(false);
            },
            Some(i) => {
                proof {
                    lemma_first_delim_range(cur, 0);
                }
                assert(i + 1 < buffer.len());
                let ev = byte_range(buffer, 0, i);
                let rest = byte_range(buffer, i + 2, buffer.len());
                *buffer = rest;
                if ev.len() == 0 {
                    continue;
                }
                match utf8_text(&ev) {
                    None => {
                        assert(views(pending@) =~= start + pushed);
                        return Err(
                            NexusError::StreamInterrupted {
                                message: String::from_str("invalid UTF-8 in SSE event"),
                            },
                        );
                    },
                    Some(text) => {
                        match parse_event(text.as_str()) {
                            SseEvent::Empty => {},
                            SseEvent::Done => {
                                assert(views(pending@) =~= start + pushed);
                                return Ok(true);
                            },
                            SseEvent::Data(d) => {
                                pending.push(d);
                                proof {
                                    let np = views(pending@);
                                    assert(np.subrange(0, start.len() as int) =~= start);
                                    assert(np.subrange(start.len() as int, np.len() as int)
                                        =~= pushed.push(event_data(text@)));
                                    assert(pushed.push(event_data(text@)) + consume(buffer@).items
                                        =~= pushed + (seq![event_data(text@)] + consume(
                                        buffer@,
                                    ).items));
                                }
                            },
                        }
                    },
                }
            },
        }
    }
}

/// What the end of the body means: bytes of an unfinished frame left in the buffer are an
/// interruption, an empty buffer a clean end.
pub fn stream_end_error(buffer: &Vec<u8>) -> (r: Option<NexusError>)
    ensures
        buffer@.len() == 0 ==> r is None,
        buffer@.len() > 0 ==> (r matches Some(NexusError::StreamInterrupted { message }) && message@
            == "stream closed with incomplete event"@),
{
    if buffer.len() == 0 {
        None
    } else {
        Some(
            NexusError::StreamInterrupted {
                message: String::from_str("stream closed with incomplete event"),
            },
        )
    }
}

} // verus!
