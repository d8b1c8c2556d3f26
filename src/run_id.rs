//! Run identifiers: what makes one safe to use as a file name, and how a fresh one is formed.
use crate::text::{
    contains, dec, occurs_at, push_char, push_decimal_padded, str_contains, trim, trim_str, zero_pad,
};
use crate::error::NexusError;
use vstd::prelude::*;
use vstd::string::*;
use vstd::utf8::encode_utf8;

verus! {

/// The longest run identifier, in bytes.
pub const MAX_RUN_ID_BYTES: usize = 255;

/// Non-empty after trimming.
pub open spec fn run_id_nonblank(s: Seq<char>) -> bool {
    trim(s).len() > 0
}

/// Free of path separators and of `..`.
pub open spec fn run_id_no_separators(s: Seq<char>) -> bool {
    !contains(s, "/"@) && !contains(s, "\\"@) && !contains(s, ".."@)
}

/// At most `MAX_RUN_ID_BYTES` bytes in UTF-8.
pub open spec fn run_id_short(s: Seq<char>) -> bool {
    encode_utf8(s).len() <= MAX_RUN_ID_BYTES
}

/// A run identifier that is safe as a file name.
pub open spec fn run_id_valid(s: Seq<char>) -> bool {
    run_id_nonblank(s) && run_id_no_separators(s) && run_id_short(s)
}

/// Whether `s` is non-empty after trimming.
pub fn is_nonblank(s: &str) -> (r: bool)
    ensures
        r == run_id_nonblank(s@),
{
    let t = trim_str(s);
    t.as_str().unicode_len() > 0
}

/// Whether `s` holds no `/`, no `\` and no `..`.
pub fn has_no_separators(s: &str) -> (r: bool)
    ensures
        r == run_id_no_separators(s@),
{
    !str_contains(s, "/") && !str_contains(s, "\\") && !str_contains(s, "..")
}

proof fn lemma_encode_len_bounds(s: Seq<char>)
    ensures
        s.len() <= encode_utf8(s).len() <= 4 * s.len(),
    decreases s.len(),
{
    if s.len() > 0 {
        lemma_encode_len_bounds(s.drop_first());
    }
}

/// Whether `s` is a valid run identifier.
pub fn run_id_is_valid(s: &str) -> (r: bool)
    ensures
        r == run_id_valid(s@),
{
    proof {
        lemma_encode_len_bounds(s@);
    }
    if s.unicode_len() > MAX_RUN_ID_BYTES {
        return false;
    }
    is_nonblank(s) && has_no_separators(s) && s.len() <= MAX_RUN_ID_BYTES
}

/// A moment in UTC, to the millisecond, as calendar fields.
#[derive(Debug, Clone, Copy, PartialEq, Eq, Structural)]
pub struct UtcTime {
    pub year: i32,
    pub month: u32,
    pub day: u32,
    pub hour: u32,
    pub minute: u32,
    pub second: u32,
    /// Milliseconds past the second; a leap second reaches past 999.
    pub millis: u32,
}

impl UtcTime {
    /// Fields within their calendar ranges.
    pub open spec fn wf(self) -> bool {
        &&& 1 <= self.month <= 12
        &&& 1 <= self.day <= 31
        &&& self.hour < 24
        &&& self.minute < 60
        &&& self.second < 60
        &&& self.millis < 2000
    }
}

/// Relies on `std::time::SystemTime::now` with `duration_since(UNIX_EPOCH)`,
/// `chrono::DateTime::<Utc>::from_timestamp`, and the `Datelike`/`Timelike` accessors: the
/// fields of the current moment, each in its documented range. `None` where the clock reads
/// before 1970 or past what chrono can represent.
#[verifier::external_body]
pub(crate) fn now_utc() -> (t: Option<UtcTime>)
    ensures
        t matches Some(u) ==> u.wf(),
{
    let since = std::time::SystemTime::now().duration_since(std::time::UNIX_EPOCH).ok()?;
    let secs = i64::try_from(since.as_secs()).ok()?;
    let now = chrono::DateTime::<chrono::Utc>::from_timestamp(secs, since.subsec_nanos())?;
    Some(UtcTime {
        year: chrono::Datelike::year(&now),
        month: chrono::Datelike::month(&now),
        day: chrono::Datelike::day(&now),
        hour: chrono::Timelike::hour(&now),
        minute: chrono::Timelike::minute(&now),
        second: chrono::Timelike::second(&now),
        millis: now.timestamp_subsec_millis(),
    })
}

/// The error for a clock that gives no usable time.
pub open spec fn clock_error(e: NexusError) -> bool {
    e matches NexusError::ValidationError { message, .. } && message@ == "system clock is out of range"@
}

/// The error for a clock that gives no usable time.
pub fn clock_unavailable() -> (e: NexusError)
    ensures
        clock_error(e),
{
    NexusError::ValidationError {
        message: String::from_str("system clock is out of range"),
        field: Some(String::from_str("time")),
    }
}

/// `n` in decimal with at least `w` digits.
pub open spec fn padded(n: nat, w: nat) -> Seq<char> {
    zero_pad(dec(n), w)
}

/// Year field as `%Y` writes it: four digits for years 0 to 9999, a sign otherwise.
pub open spec fn year_digits(y: i32) -> Seq<char> {
    if y < 0 {
        "-"@ + padded((-(y as int)) as nat, 4)
    } else if y > 9999 {
        "+"@ + dec(y as nat)
    } else {
        padded(y as nat, 4)
    }
}

/// `run_{YYYYMMDD}_{HHMMSS}_{mmm}` for moment `t`.
pub open spec fn run_id_for(t: UtcTime) -> Seq<char> {
    "run_"@ + year_digits(t.year) + padded(t.month as nat, 2) + padded(t.day as nat, 2) + "_"@
        + padded(t.hour as nat, 2) + padded(t.minute as nat, 2) + padded(t.second as nat, 2)
        + "_"@ + padded(t.millis as nat, 3)
}

/// Appends the year field.
fn push_year(out: &mut String, y: i32)
    ensures
        final(out)@ == old(out)@ + year_digits(y),
{
    if y < 0 {
        push_char(out, '-');
        let m: i64 = -(y as i64);
        push_decimal_padded(out, m as u64, 4);
        proof {
            reveal_strlit("-");
        }
        assert(final(out)@ =~= old(out)@ + year_digits(y));
    } else if y > 9999 {
        push_char(out, '+');
        crate::text::push_decimal(out, y as u64);
        proof {
            reveal_strlit("+");
        }
        assert(final(out)@ =~= old(out)@ + year_digits(y));
    } else {
        push_decimal_padded(out, y as u64, 4);
    }
}

/// The run identifier for moment `t`: `run_{YYYYMMDD}_{HHMMSS}_{mmm}`.
pub fn run_id_from_time(t: &UtcTime) -> (r: String)
    ensures
        r@ == run_id_for(*t),
{
    let mut s = String::from_str("run_");
    push_year(&mut s, t.year);
    push_decimal_padded(&mut s, t.month as u64, 2);
    push_decimal_padded(&mut s, t.day as u64, 2);
    push_char(&mut s, '_');
    push_decimal_padded(&mut s, t.hour as u64, 2);
    push_decimal_padded(&mut s, t.minute as u64, 2);
    push_decimal_padded(&mut s, t.second as u64, 2);
    push_char(&mut s, '_');
    push_decimal_padded(&mut s, t.millis as u64, 3);
    proof {
        reveal_strlit("_");
    }
    assert(s@ =~= run_id_for(*t));
    s
}

/// A character a generated run identifier may hold.
pub open spec fn id_char(c: char) -> bool {
    ('0' <= c <= '9') || c == '_' || c == 'r' || c == 'u' || c == 'n' || c == '-' || c == '+'
}

pub open spec fn all_id_chars(s: Seq<char>) -> bool {
    forall|k: int| 0 <= k < s.len() ==> id_char(#[trigger] s[k])
}

proof fn lemma_padded_chars(n: nat, w: nat)
    ensures
        all_id_chars(padded(n, w)),
        padded(n, w).len() <= if dec(n).len() >= w { dec(n).len() } else { w },
{
    crate::text::lemma_dec_digits(n);
    let d = dec(n);
    if d.len() < w {
        let z = Seq::new((w - d.len()) as nat, |i: int| '0');
        assert forall|k: int| 0 <= k < padded(n, w).len() implies id_char(#[trigger] padded(n, w)[k]) by {
            if k < z.len() {
                assert(padded(n, w)[k] == '0');
            } else {
                assert(padded(n, w)[k] == d[k - z.len()]);
            }
        }
    }
}

proof fn lemma_concat_id_chars(a: Seq<char>, b: Seq<char>)
    requires
        all_id_chars(a),
        all_id_chars(b),
    ensures
        all_id_chars(a + b),
{
    assert forall|k: int| 0 <= k < (a + b).len() implies id_char(#[trigger] (a + b)[k]) by {
        if k < a.len() {
            assert((a + b)[k] == a[k]);
        } else {
            assert((a + b)[k] == b[k - a.len()]);
        }
    }
}

proof fn lemma_no_char(s: Seq<char>, t: Seq<char>, c: char)
    requires
        all_id_chars(s),
        !id_char(c),
        t.len() > 0,
        t[0] == c,
    ensures
        !contains(s, t),
{
    assert forall|i: int| !occurs_at(s, t, i) by {
        if occurs_at(s, t, i) {
            assert(s.subrange(i, i + t.len())[0] == s[i]);
        }
    }
}

/// Every identifier `run_id_for` forms is a valid run identifier.
pub proof fn lemma_generated_run_id_valid(t: UtcTime)
    requires
        t.wf(),
    ensures
        run_id_valid(run_id_for(t)),
{
    reveal_strlit("run_");
    reveal_strlit("_");
    reveal_strlit("-");
    reveal_strlit("+");
    reveal_strlit("/");
    reveal_strlit("\\");
    reveal_strlit("..");
    let p10 = crate::text::pow10(10);
    reveal_with_fuel(crate::text::pow10, 11);
    assert(crate::text::pow10(2) == 100);
    assert(crate::text::pow10(4) == 10000);
    assert(crate::text::pow10(10) == 10000000000);
    let y = year_digits(t.year);
    if t.year < 0 {
        let m = (-(t.year as int)) as nat;
        crate::text::lemma_dec_len_bound(m, 10, p10);
        lemma_padded_chars(m, 4);
        lemma_concat_id_chars("-"@, padded(m, 4));
    } else if t.year > 9999 {
        crate::text::lemma_dec_len_bound(t.year as nat, 10, p10);
        crate::text::lemma_dec_digits(t.year as nat);
        lemma_concat_id_chars("+"@, dec(t.year as nat));
    } else {
        crate::text::lemma_dec_len_bound(t.year as nat, 10, p10);
        lemma_padded_chars(t.year as nat, 4);
    }
    assert(y.len() <= 11);
    assert(all_id_chars(y));
    crate::text::lemma_dec_len_bound(t.month as nat, 2, 100);
    crate::text::lemma_dec_len_bound(t.day as nat, 2, 100);
    crate::text::lemma_dec_len_bound(t.hour as nat, 2, 100);
    crate::text::lemma_dec_len_bound(t.minute as nat, 2, 100);
    crate::text::lemma_dec_len_bound(t.second as nat, 2, 100);
    crate::text::lemma_dec_len_bound(t.millis as nat, 4, 10000);
    lemma_padded_chars(t.month as nat, 2);
    lemma_padded_chars(t.day as nat, 2);
    lemma_padded_chars(t.hour as nat, 2);
    lemma_padded_chars(t.minute as nat, 2);
    lemma_padded_chars(t.second as nat, 2);
    lemma_padded_chars(t.millis as nat, 3);
    let s = run_id_for(t);
    let parts = seq![
        "run_"@,
        y,
        padded(t.month as nat, 2),
        padded(t.day as nat, 2),
        "_"@,
        padded(t.hour as nat, 2),
        padded(t.minute as nat, 2),
        padded(t.second as nat, 2),
        "_"@,
        padded(t.millis as nat, 3),
    ];
    let mut acc = parts[0];
    lemma_concat_id_chars(acc, parts[1]);
    acc = acc + parts[1];
    lemma_concat_id_chars(acc, parts[2]);
    acc = acc + parts[2];
    lemma_concat_id_chars(acc, parts[3]);
    acc = acc + parts[3];
    lemma_concat_id_chars(acc, parts[4]);
    acc = acc + parts[4];
    lemma_concat_id_chars(acc, parts[5]);
    acc = acc + parts[5];
    lemma_concat_id_chars(acc, parts[6]);
    acc = acc + parts[6];
    lemma_concat_id_chars(acc, parts[7]);
    acc = acc + parts[7];
    lemma_concat_id_chars(acc, parts[8]);
    acc = acc + parts[8];
    lemma_concat_id_chars(acc, parts[9]);
    acc = acc + parts[9];
    assert(acc == s);
    assert(s.len() <= 40);
    assert(s[0] == 'r');
    crate::text::lemma_trim_keeps_first(s);
    lemma_no_char(s, "/"@, '/');
    lemma_no_char(s, "\\"@, '\\');
    lemma_no_char(s, ".."@, '.');
    lemma_encode_len_bounds(s);
}

/// A fresh run identifier from the current UTC time; it is always a valid one. Fails only
/// where the clock gives no usable time.
pub fn generate_run_id() -> (r: Result<String, NexusError>)
    ensures
        r matches Ok(id) ==> exists|t: UtcTime| t.wf() && id@ == run_id_for(t),
        r matches Ok(id) ==> run_id_valid(id@),
        r matches Err(e) ==> clock_error(e),
{
    match now_utc() {
        Some(t) => {
            proof {
                lemma_generated_run_id_valid(t);
            }
            Ok(run_id_from_time(&t))
        },
        None => Err(clock_unavailable()),
    }
}

} // verus!
