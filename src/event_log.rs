//! The logic of the append-only JSONL event log: where a run's log lives, how sequence
//! numbers continue across writers, how a record is framed as one line, and how lines are
//! read back.
use crate::error::NexusError;
use crate::event::RunEvent;
use crate::run_id::{
    has_no_separators, is_nonblank, run_id_no_separators, run_id_nonblank, run_id_valid,
};
use crate::text::{
    chars_of, dec, push_char, push_decimal, trim,
};
use vstd::prelude::*;
use vstd::string::*;

verus! {

/// `a` joined with relative path `b`, as `Path::join` does on Unix.
pub open spec fn join_path(a: Seq<char>, b: Seq<char>) -> Seq<char> {
    if a.len() == 0 {
        b
    } else if a.last() == '/' {
        a + b
    } else {
        a + "/"@ + b
    }
}

fn join(a: &str, b: &str) -> (r: String)
    ensures
        r@ == join_path(a@, b@),
{
    let v = chars_of(a);
    let mut s = String::from_str(a);
    if v.len() > 0 && v[v.len() - 1] != '/' {
        push_char(&mut s, '/');
    }
    s.append(b);
    proof {
        reveal_strlit("/");
    }
    assert(s@ =~= join_path(a@, b@));
    s
}

/// Where the logs of a project's runs live: `<project>/.nexus/runs/{run_id}.jsonl`.
pub struct EventLogPath {
    base_dir: String,
}

/// Why a run identifier is refused, in the order the checks run.
pub open spec fn run_id_error(run_id: Seq<char>, e: NexusError) -> bool {
    if !run_id_nonblank(run_id) {
        e matches NexusError::InvalidRunId(m) && m@ == "empty run_id"@
    } else if !run_id_no_separators(run_id) {
        e matches NexusError::InvalidRunId(m) && m@ == "run_id contains invalid characters: "@
            + run_id
    } else {
        e matches NexusError::InvalidRunId(m) && m@ == "run_id exceeds 255 characters"@
    }
}

impl EventLogPath {
    pub closed spec fn base(&self) -> Seq<char> {
        self.base_dir@
    }

    /// The log directory of the project rooted at `project_root`.
    pub fn new(project_root: &str) -> (r: Self)
        ensures
            r.base() == join_path(join_path(project_root@, ".nexus"@), "runs"@),
    {
        let nexus = join(project_root, ".nexus");
        let base_dir = join(nexus.as_str(), "runs");
        EventLogPath { base_dir }
    }

    /// The directory that holds the logs.
    pub fn base_dir(&self) -> (r: &str)
        ensures
            r@ == self.base(),
    {
        self.base_dir.as_str()
    }

    /// The log file of run `run_id`, once the identifier is checked.
    pub fn for_run(&self, run_id: &str) -> (r: Result<String, NexusError>)
        ensures
            match r {
                Ok(p) => run_id_valid(run_id@) && p@ == join_path(self.base(), run_id@ + ".jsonl"@),
                Err(e) => !run_id_valid(run_id@) && run_id_error(run_id@, e),
            },
    {
        match Self::validate_run_id(run_id) {
            Err(e) => Err(e),
            Ok(()) => {
                let mut name = String::from_str(run_id);
                name.append(".jsonl");
                Ok(join(self.base_dir.as_str(), name.as_str()))
            },
        }
    }

    /// Checks that `run_id` is non-blank, holds no separator and no `..`, and fits in 255
    /// bytes.
    pub fn validate_run_id(run_id: &str) -> (r: Result<(), NexusError>)
        ensures
            match r {
                Ok(()) => run_id_valid(run_id@),
                Err(e) => !run_id_valid(run_id@) && run_id_error(run_id@, e),
            },
    {
        if !is_nonblank(run_id) {
            return Err(NexusError::InvalidRunId(String::from_str("empty run_id")));
        }
        if !has_no_separators(run_id) {
            let mut m = String::from_str("run_id contains invalid characters: ");
            m.append(run_id);
            return Err(NexusError::InvalidRunId(m));
        }
        if !crate::run_id::run_id_is_valid(run_id) {
            return Err(NexusError::InvalidRunId(String::from_str("run_id exceeds 255 characters")));
        }
        Ok(())
    }
}

/// What `serde_json` reads as the unsigned integer field `key` of a JSON text: `None` where
/// the text is no JSON value, or has no such field, or the field is no unsigned integer.
pub uninterp spec fn json_u64_field(text: Seq<char>, key: Seq<char>) -> Option<u64>;

/// Relies on `serde_json::from_str::<serde_json::Value>` with `Value::get` and
/// `Value::as_u64`: field `key` of the text, where it decodes and has one.
#[verifier::external_body]
fn json_u64_field_of(text: &str, key: &str) -> (r: Option<u64>)
    ensures
        r == json_u64_field(text@, key@),
{
    match serde_json::from_str::<serde_json::Value>(text) {
        Ok(v) => v.get(key).and_then(|s| s.as_u64()),
        Err(_) => None,
    }
}

/// The sequence number a log line carries.
pub open spec fn json_event_seq(line: Seq<char>) -> Option<u64> {
    json_u64_field(line, "event_seq"@)
}

/// The largest sequence number among the lines, blank lines skipped; 0 where there is none.
pub open spec fn max_seq(seqs: Seq<Option<u64>>) -> u64
    decreases seqs.len(),
{
    if seqs.len() == 0 {
        0
    } else {
        let m = max_seq(seqs.drop_last());
        match seqs.last() {
            Some(s) => if s > m {
                s
            } else {
                m
            },
            None => m,
        }
    }
}

/// The sequence number each line carries, `None` for a blank one.
pub open spec fn line_seqs(lines: Seq<Seq<char>>) -> Seq<Option<u64>> {
    lines.map_values(
        |l: Seq<char>|
            if trim(l).len() == 0 {
                None
            } else {
                json_event_seq(l)
            },
    )
}

/// Hands out the sequence numbers of one writer: one more than the largest already in the
/// file, then one more on each append.
pub struct EventSequencer {
    next: u64,
}

impl EventSequencer {
    pub closed spec fn next_spec(&self) -> u64 {
        self.next
    }

    /// A sequencer that continues after the sequence numbers already in a file, one entry
    /// per line (`None` for a line without one).
    pub fn from_seqs(seqs: &Vec<Option<u64>>) -> (r: Result<Self, NexusError>)
        ensures
            match r {
                Ok(s) => max_seq(seqs@) < u64::MAX && s.next_spec() == max_seq(seqs@) + 1,
                Err(e) => max_seq(seqs@) == u64::MAX && e is ValidationError,
            },
    {
        let mut m: u64 = 0;
        let mut i: usize = 0;
        while i < seqs.len()
            invariant
                i <= seqs.len(),
                m == max_seq(seqs@.subrange(0, i as int)),
            decreases seqs.len() - i,
        {
            proof {
                assert(seqs@.subrange(0, i + 1).drop_last() =~= seqs@.subrange(0, i as int));
            }
            match seqs[i] {
                Some(s) => {
                    if s > m {
                        m = s;
                    }
                },
                None => {},
            }
            i = i + 1;
        }
        assert(seqs@.subrange(0, i as int) =~= seqs@);
        if m == u64::MAX {
            return Err(
                NexusError::ValidationError {
                    message: String::from_str("event_seq space exhausted"),
                    field: Some(String::from_str("event_seq")),
                },
            );
        }
        Ok(EventSequencer { next: m + 1 })
    }

    /// A sequencer that continues after the existing lines of a log file: blank lines are
    /// skipped, and so are lines that do not decode or carry no number.
    pub fn from_lines(lines: &Vec<String>) -> (r: Result<Self, NexusError>)
        ensures
            match r {
                Ok(s) => max_seq(line_seqs(lines@.map_values(|l: String| l@))) < u64::MAX
                    && s.next_spec() == max_seq(line_seqs(lines@.map_values(|l: String| l@))) + 1,
                Err(e) => max_seq(line_seqs(lines@.map_values(|l: String| l@))) == u64::MAX
                    && e is ValidationError,
            },
    {
        let ghost all = lines@.map_values(|l: String| l@);
        let mut seqs: Vec<Option<u64>> = Vec::new();
        let mut i: usize = 0;
        while i < lines.len()
            invariant
                i <= lines.len(),
                all == lines@.map_values(|l: String| l@),
                seqs@ == line_seqs(all.subrange(0, i as int)),
            decreases lines.len() - i,
        {
            let line = lines[i].as_str();
            let seq = if crate::run_id::is_nonblank(line) {
                json_u64_field_of(line, "event_seq")
            } else {
                None
            };
            seqs.push(seq);
            i = i + 1;
            assert(seqs@ =~= line_seqs(all.subrange(0, i as int)));
        }
        assert(all.subrange(0, i as int) =~= all);
        Self::from_seqs(&seqs)
    }

    /// The number the next append will carry.
    pub fn next_seq(&self) -> (r: u64)
        ensures
            r == self.next_spec(),
    {
        self.next
    }

    /// Frames the JSON object text of one event as a log line: `event_seq` is added as the
    /// object's last field with this writer's next number, and the line ends in one `\n`.
    /// The number is used up only by `advance`, once the line is written.
    pub fn frame(&self, object_json: &str) -> (r: Result<String, NexusError>)
        ensures
            match r {
                Ok(line) => is_object_text(object_json@) && self.next_spec() < u64::MAX
                    && line@ == framed_line(object_json@, self.next_spec()),
                Err(e) => (!is_object_text(object_json@) ==> e is Serialization) && (
                is_object_text(object_json@) ==> self.next_spec() == u64::MAX
                    && e is ValidationError),
            },
    {
        let v = chars_of(object_json);
        if v.len() < 2 || v[0] != '{' || v[v.len() - 1] != '}' {
            return Err(
                NexusError::Serialization(
                    String::from_str("RunEvent did not serialize to a JSON object"),
                ),
            );
        }
        if self.next == u64::MAX {
            return Err(
                NexusError::ValidationError {
                    message: String::from_str("event_seq space exhausted"),
                    field: Some(String::from_str("event_seq")),
                },
            );
        }
        let body_end = v.len() - 1;
        let mut line = crate::text::string_of_range(&v, 0, body_end);
        if body_end > 1 {
            push_char(&mut line, ',');
        }
        line.append("\"event_seq\":");
        push_decimal(&mut line, self.next);
        push_char(&mut line, '}');
        push_char(&mut line, '\n');
        proof {
            reveal_strlit(",");
            reveal_strlit("}\n");
        }
        assert(line@ =~= framed_line(object_json@, self.next));
        Ok(line)
    }

    /// Uses up the next number, once the line that carries it is written.
    pub fn advance(&mut self)
        requires
            old(self).next_spec() < u64::MAX,
        ensures
            final(self).next_spec() == old(self).next_spec() + 1,
    {
        self.next = self.next + 1;
    }
}

/// Text that begins with `{` and ends with `}`.
pub open spec fn is_object_text(s: Seq<char>) -> bool {
    s.len() >= 2 && s[0] == '{' && s.last() == '}'
}

/// The log line for object text `obj` with sequence number `n`.
pub open spec fn framed_line(obj: Seq<char>, n: u64) -> Seq<char> {
    let body = obj.subrange(0, obj.len() - 1);
    let sep = if obj.len() > 2 {
        ","@
    } else {
        Seq::empty()
    };
    body + sep + "\"event_seq\":"@ + dec(n as nat) + "}\n"@
}

/// The sequence numbers `from, from + 1, ..., from + k - 1`.
pub open spec fn seq_run(from: nat, k: nat) -> Seq<Option<u64>> {
    Seq::new(k, |i: int| Some((from + i) as u64))
}

proof fn lemma_max_of_run(m: nat)
    requires
        m <= u64::MAX,
    ensures
        max_seq(seq_run(1, m)) == m,
    decreases m,
{
    if m > 0 {
        lemma_max_of_run((m - 1) as nat);
        assert(seq_run(1, m).drop_last() =~= seq_run(1, (m - 1) as nat));
    }
}

/// Sequence numbers continue across writers: where the lines of a log carry exactly
/// `1, 2, ..., m`, a writer opened on it hands out `m + 1, m + 2, ..., m + k` for its next
/// `k` appends, so that the whole file carries `1, 2, ..., m + k`.
pub proof fn lemma_sequence_continuity(lines: Seq<Seq<char>>, m: nat, k: nat)
    requires
        line_seqs(lines) == seq_run(1, m),
        m + k < u64::MAX,
    ensures
        max_seq(line_seqs(lines)) + 1 == m + 1,
        line_seqs(lines) + seq_run(m + 1, k) == seq_run(1, m + k),
{
    lemma_max_of_run(m);
    assert(seq_run(1, m) + seq_run(m + 1, k) =~= seq_run(1, m + k));
}

proof fn lemma_split_without_newline(s: Seq<char>)
    requires
        !s.contains('\n'),
    ensures
        crate::parser::split_nl(s) == seq![s],
    decreases s.len(),
{
    if s.len() > 0 {
        assert(!s.drop_last().contains('\n')) by {
            if s.drop_last().contains('\n') {
                let k = choose|k: int| 0 <= k < s.drop_last().len() && s.drop_last()[k] == '\n';
                assert(s[k] == '\n');
            }
        }
        lemma_split_without_newline(s.drop_last());
        assert(s.last() != '\n') by {
            if s.last() == '\n' {
                assert(s[s.len() - 1] == '\n');
            }
        }
        assert(s.drop_last().push(s.last()) =~= s);
        let init = crate::parser::split_nl(s.drop_last());
        assert(init.len() == 1 && init.last() == s.drop_last());
        assert(init.update(0, s.drop_last().push(s.last())) =~= seq![s]);
    } else {
        assert(s =~= Seq::<char>::empty());
    }
}

/// A framed record reads back as one line: where the object text holds no newline (as
/// compact JSON never does), the framed line splits into the record's own line and nothing
/// else, that line starts with the object's fields, and the reader decodes it rather than
/// skipping it.
pub proof fn lemma_frame_reads_back(obj: Seq<char>, n: u64)
    requires
        is_object_text(obj),
        !obj.contains('\n'),
    ensures
        framed_line(obj, n).last() == '\n',
        crate::parser::split_nl(framed_line(obj, n)) == seq![framed_line(obj, n).drop_last(), Seq::<char>::empty()],
        framed_line(obj, n).drop_last().subrange(0, obj.len() - 1) == obj.subrange(0, obj.len() - 1),
        trim(framed_line(obj, n).drop_last()).len() > 0,
{
    reveal_strlit("}\n");
    reveal_strlit("\"event_seq\":");
    reveal_strlit(",");
    let line = framed_line(obj, n);
    let body = line.drop_last();
    crate::text::lemma_dec_digits(n as nat);
    assert(!body.contains('\n')) by {
        if body.contains('\n') {
            let k = choose|k: int| 0 <= k < body.len() && body[k] == '\n';
            if k < obj.len() - 1 {
                assert(obj[k] == '\n');
            }
        }
    }
    lemma_split_without_newline(body);
    assert(body.push('\n') =~= line);
    assert(body[0] == '{');
    crate::text::lemma_trim_keeps_first(body);
    assert(body.subrange(0, obj.len() - 1) =~= obj.subrange(0, obj.len() - 1));
}

/// A line the reader sees: one to skip, or one to decode as the event at this 1-based line.
pub enum LineStep {
    Skip,
    Decode { line: usize },
}

/// Counts the lines a reader has consumed.
pub struct LineCursor {
    line_number: usize,
}

impl LineCursor {
    pub closed spec fn count(&self) -> nat {
        self.line_number as nat
    }

    /// A cursor before the first line.
    pub fn new() -> (r: Self)
        ensures
            r.count() == 0,
    {
        LineCursor { line_number: 0 }
    }

    /// The number of lines consumed so far.
    pub fn line_number(&self) -> (r: usize)
        ensures
            r == self.count(),
    {
        self.line_number
    }

    /// Consumes one line: a blank one is skipped, any other is to be decoded, with its
    /// 1-based number.
    pub fn step(&mut self, line: &str) -> (r: LineStep)
        requires
            old(self).count() < usize::MAX,
        ensures
            final(self).count() == old(self).count() + 1,
            trim(line@).len() == 0 ==> r is Skip,
            trim(line@).len() > 0 ==> r == (LineStep::Decode { line: final(self).count() as usize }),
    {
        self.line_number = self.line_number + 1;
        if crate::run_id::is_nonblank(line) {
            LineStep::Decode { line: self.line_number }
        } else {
            LineStep::Skip
        }
    }
}

/// The error for a line that did not decode.
pub fn corrupted(line: usize, message: &str) -> (r: NexusError)
    ensures
        r matches NexusError::EventLogCorrupted { line: l, message: m } && l == line && m@
            == message@,
{
    NexusError::EventLogCorrupted { line, message: String::from_str(message) }
}

/// What loading all events keeps: the events read, corrupted lines skipped, up to the first
/// other error.
pub open spec fn loaded(results: Seq<Result<RunEvent, NexusError>>) -> Result<Seq<RunEvent>, int>
    decreases results.len(),
{
    if results.len() == 0 {
        Ok(Seq::empty())
    } else {
        match loaded(results.drop_last()) {
            Err(i) => Err(i),
            Ok(evs) => match results.last() {
                Ok(e) => Ok(evs.push(e)),
                Err(NexusError::EventLogCorrupted { .. }) => Ok(evs),
                Err(_) => Err(results.len() - 1),
            },
        }
    }
}

proof fn lemma_loaded_stops(results: Seq<Result<RunEvent, NexusError>>, i: int)
    requires
        0 <= i < results.len(),
        loaded(results.subrange(0, i)) is Ok,
        results[i] is Err,
        !(results[i]->Err_0 is EventLogCorrupted),
    ensures
        loaded(results) == Err::<Seq<RunEvent>, int>(i),
{
    lemma_loaded_prefix_err(results, i, results.len() as int);
    assert(results.subrange(0, results.len() as int) =~= results);
}

proof fn lemma_loaded_prefix_err(results: Seq<Result<RunEvent, NexusError>>, i: int, j: int)
    requires
        0 <= i < j <= results.len(),
        loaded(results.subrange(0, i)) is Ok,
        results[i] is Err,
        !(results[i]->Err_0 is EventLogCorrupted),
    ensures
        loaded(results.subrange(0, j)) == Err::<Seq<RunEvent>, int>(i),
    decreases j - i,
{
    if j == i + 1 {
        assert(results.subrange(0, j).drop_last() =~= results.subrange(0, i));
    } else {
        lemma_loaded_prefix_err(results, i, j - 1);
        assert(results.subrange(0, j).drop_last() =~= results.subrange(0, j - 1));
    }
}

/// `r` is what loading `results` gives: the kept events, or the error that stopped it.
pub open spec fn load_outcome(
    results: Seq<Result<RunEvent, NexusError>>,
    r: Result<Vec<RunEvent>, NexusError>,
) -> bool {
    match loaded(results) {
        Ok(evs) => r is Ok && r->Ok_0@ == evs,
        Err(i) => r is Err && 0 <= i < results.len() && r->Err_0 == results[i]->Err_0,
    }
}

/// Collects the events of a read: keeps every event, skips corrupted lines, and stops at
/// the first other error, which it returns.
pub fn load_all(results: Vec<Result<RunEvent, NexusError>>) -> (r: Result<Vec<RunEvent>, NexusError>)
    ensures
        load_outcome(results@, r),
{
    let ghost all = results@;
    let mut rest = results;
    let n = rest.len();
    let mut events: Vec<RunEvent> = Vec::new();
    let mut i: usize = 0;
    while rest.len() > 0
        invariant
            all.len() == n,
            all == results@,
            i <= all.len(),
            rest@ == all.subrange(i as int, all.len() as int),
            loaded(all.subrange(0, i as int)) == Ok::<Seq<RunEvent>, int>(events@),
        decreases rest.len(),
    {
        proof {
            assert(all.subrange(0, i + 1).drop_last() =~= all.subrange(0, i as int));
        }
        let x = rest.remove(0);
        assert(x == all[i as int]);
        match x {
            Ok(e) => {
                events.push(e);
            },
            Err(NexusError::EventLogCorrupted { line, message }) => {
                let ghost _ = (line, message);
            },
            Err(e) => {
                proof {
                    lemma_loaded_stops(all, i as int);
                }
                assert(loaded(all) == Err::<Seq<RunEvent>, int>(i as int));
                assert(all[i as int]->Err_0 == e);
                return Err(e);
            },
        }
        i = i + 1;
        assert(rest@ =~= all.subrange(i as int, all.len() as int));
    }
    assert(all.subrange(0, i as int) =~= all);
    Ok(events)
}

/// Keeps the events of run `run_id` and every error, in order.
pub open spec fn keep_run(results: Seq<Result<RunEvent, NexusError>>, run_id: Seq<char>) -> Seq<
    Result<RunEvent, NexusError>,
>
    decreases results.len(),
{
    if results.len() == 0 {
        results
    } else {
        let init = keep_run(results.drop_last(), run_id);
        match results.last() {
            Ok(e) => if e.run_id@ == run_id {
                init.push(results.last())
            } else {
                init
            },
            Err(_) => init.push(results.last()),
        }
    }
}

/// Keeps the events of type `t` and every error, in order.
pub open spec fn keep_type(results: Seq<Result<RunEvent, NexusError>>, t: Seq<char>) -> Seq<
    Result<RunEvent, NexusError>,
>
    decreases results.len(),
{
    if results.len() == 0 {
        results
    } else {
        let init = keep_type(results.drop_last(), t);
        match results.last() {
            Ok(e) => if e.event_type@ == t {
                init.push(results.last())
            } else {
                init
            },
            Err(_) => init.push(results.last()),
        }
    }
}

/// The events of run `run_id`, with every error passed through, in order.
pub fn filter_by_run(results: Vec<Result<RunEvent, NexusError>>, run_id: &str) -> (r: Vec<
    Result<RunEvent, NexusError>,
>)
    ensures
        r@ == keep_run(results@, run_id@),
{
    let ghost all = results@;
    let mut rest = results;
    let n = rest.len();
    let mut out: Vec<Result<RunEvent, NexusError>> = Vec::new();
    let mut i: usize = 0;
    while rest.len() > 0
        invariant
            all.len() == n,
            i <= all.len(),
            rest@ == all.subrange(i as int, all.len() as int),
            out@ == keep_run(all.subrange(0, i as int), run_id@),
        decreases rest.len(),
    {
        proof {
            assert(all.subrange(0, i + 1).drop_last() =~= all.subrange(0, i as int));
        }
        let x = rest.remove(0);
        let keep = match &x {
            Ok(e) => crate::text::str_eq(e.run_id.as_str(), run_id),
            Err(_) => true,
        };
        if keep {
            out.push(x);
        }
        i = i + 1;
        assert(rest@ =~= all.subrange(i as int, all.len() as int));
    }
    assert(all.subrange(0, i as int) =~= all);
    out
}

/// The events of type `event_type`, with every error passed through, in order.
pub fn filter_by_type(results: Vec<Result<RunEvent, NexusError>>, event_type: &str) -> (r: Vec<
    Result<RunEvent, NexusError>,
>)
    ensures
        r@ == keep_type(results@, event_type@),
{
    let ghost all = results@;
    let mut rest = results;
    let n = rest.len();
    let mut out: Vec<Result<RunEvent, NexusError>> = Vec::new();
    let mut i: usize = 0;
    while rest.len() > 0
        invariant
            all.len() == n,
            i <= all.len(),
            rest@ == all.subrange(i as int, all.len() as int),
            out@ == keep_type(all.subrange(0, i as int), event_type@),
        decreases rest.len(),
    {
        proof {
            assert(all.subrange(0, i + 1).drop_last() =~= all.subrange(0, i as int));
        }
        let x = rest.remove(0);
        let keep = match &x {
            Ok(e) => crate::text::str_eq(e.event_type.as_str(), event_type),
            Err(_) => true,
        };
        if keep {
            out.push(x);
        }
        i = i + 1;
        assert(rest@ =~= all.subrange(i as int, all.len() as int));
    }
    assert(all.subrange(0, i as int) =~= all);
    out
}

} // verus!
