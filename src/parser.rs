//! Recovers proposed edits from free-form model output: fenced or raw unified diffs,
//! search/replace blocks, and JSON arrays of actions.
use crate::action::{
    patch_details_plain, ActionDetails, ActionKindTag, MatchMode, PatchDetails, PatchFormat, ProposedAction, SearchReplaceBlock,
};
use crate::error::NexusError;
use crate::run_id::{
    run_id_is_valid, run_id_valid,
};
use crate::settings::views;
use crate::text::{
    char_is_whitespace, chars_of, contains, dec, is_ws, matches_at, occurs_at, push_decimal, starts_with, str_contains, string_of, string_of_range, trim, trim_range, trim_str,
};
use vstd::prelude::*;
use vstd::string::*;

verus! {

/// Fenced diff blocks; group `diff` is the body.
pub const DIFF_FENCED: &'static str = "(?s)```diff\\s*(?P<diff>.*?)```";

/// A line that starts a raw diff.
pub const DIFF_RAW: &'static str = "(?m)^---\\s+a/.*$";

/// Search/replace blocks; groups `path` (on the marker line), `search`, `replace`.
pub const SEARCH_REPLACE: &'static str = "(?s)<<<<<<< SEARCH(?:[ \\t]+(?P<path>[^\\r\\n]+))?\\r?\\n(?P<search>.*?)\\r?\\n=======\\r?\\n(?P<replace>.*?)\\r?\\n>>>>>>> REPLACE";

/// Fenced JSON arrays; group `json` is the array.
pub const JSON_FENCED: &'static str = "(?s)```json\\s*(?P<json>\\[.*\\])\\s*```";

/// For each match of `pattern` in `text`, leftmost first and without overlap, the text of
/// each group named in `groups`, or `None` where the group took no part.
pub uninterp spec fn regex_capture_groups(
    pattern: Seq<char>,
    groups: Seq<Seq<char>>,
    text: Seq<char>,
) -> Seq<Seq<Option<Seq<char>>>>;

/// The texts of the matches of `pattern` in `text`, leftmost first and without overlap.
pub uninterp spec fn regex_found(pattern: Seq<char>, text: Seq<char>) -> Seq<Seq<char>>;

/// The pieces of `text` between the matches of `pattern`.
pub uninterp spec fn regex_pieces(pattern: Seq<char>, text: Seq<char>) -> Seq<Seq<char>>;

/// `text` with every match of `pattern` replaced by `rep`, taken literally where it holds
/// no `$`.
pub uninterp spec fn regex_replaced(pattern: Seq<char>, text: Seq<char>, rep: Seq<char>) -> Seq<char>;

pub open spec fn opt_view(o: Option<String>) -> Option<Seq<char>> {
    match o {
        Some(s) => Some(s@),
        None => None,
    }
}

pub open spec fn capture_rows_view(r: Seq<Vec<Option<String>>>) -> Seq<Seq<Option<Seq<char>>>> {
    r.map_values(|row: Vec<Option<String>>| row@.map_values(|o: Option<String>| opt_view(o)))
}

/// Relies on `regex::Regex::new` and `Regex::captures_iter` with `Captures::name`.
#[verifier::external_body]
fn regex_captures(pattern: &str, groups: &Vec<&str>, text: &str) -> (r: Vec<Vec<Option<String>>>)
    ensures
        capture_rows_view(r@) == regex_capture_groups(
            pattern@,
            groups@.map_values(|g: &str| g@),
            text@,
        ),
{
    match regex::Regex::new(pattern) {
        Ok(re) => re.captures_iter(text).map(
            |c| groups.iter().map(|g| c.name(g).map(|m| m.as_str().to_string())).collect(),
        ).collect(),
        Err(_) => Vec::new(),
    }
}

/// Relies on `regex::Regex::new` and `Regex::find_iter`.
#[verifier::external_body]
fn regex_find_all(pattern: &str, text: &str) -> (r: Vec<String>)
    ensures
        views(r@) == regex_found(pattern@, text@),
{
    match regex::Regex::new(pattern) {
        Ok(re) => re.find_iter(text).map(|m| m.as_str().to_string()).collect(),
        Err(_) => Vec::new(),
    }
}

/// Relies on `regex::Regex::new` and `Regex::split`.
#[verifier::external_body]
fn regex_split(pattern: &str, text: &str) -> (r: Vec<String>)
    ensures
        views(r@) == regex_pieces(pattern@, text@),
{
    match regex::Regex::new(pattern) {
        Ok(re) => re.split(text).map(|p| p.to_string()).collect(),
        Err(_) => Vec::new(),
    }
}

/// Relies on `regex::Regex::new` and `Regex::replace_all`.
#[verifier::external_body]
fn regex_replace_all(pattern: &str, text: &str, rep: &str) -> (r: String)
    ensures
        r@ == regex_replaced(pattern@, text@, rep@),
{
    match regex::Regex::new(pattern) {
        Ok(re) => re.replace_all(text, rep).into_owned(),
        Err(_) => text.to_string(),
    }
}

/// `s` with every `\r\n` replaced by `\n`.
pub open spec fn normalize(s: Seq<char>) -> Seq<char>
    decreases s.len(),
{
    if s.len() == 0 {
        s
    } else if s.len() >= 2 && s[0] == '\r' && s[1] == '\n' {
        seq!['\n'] + normalize(s.subrange(2, s.len() as int))
    } else {
        seq![s[0]] + normalize(s.subrange(1, s.len() as int))
    }
}

/// Replaces every `\r\n` of `input` by `\n`.
pub fn normalize_line_endings(input: &str) -> (r: String)
    ensures
        r@ == normalize(input@),
{
    let v = chars_of(input);
    let mut out: Vec<char> = Vec::new();
    let mut i: usize = 0;
    assert(v@.subrange(0, v.len() as int) =~= v@);
    while i < v.len()
        invariant
            i <= v.len(),
            v@ == input@,
            out@ + normalize(v@.subrange(i as int, v.len() as int)) == normalize(input@),
        decreases v.len() - i,
    {
        let ghost rest = v@.subrange(i as int, v.len() as int);
        if v[i] == '\r' && i + 1 < v.len() && v[i + 1] == '\n' {
            proof {
                assert(rest.subrange(2, rest.len() as int) =~= v@.subrange(i + 2, v.len() as int));
            }
            out.push('\n');
            i = i + 2;
        } else {
            proof {
                assert(rest.subrange(1, rest.len() as int) =~= v@.subrange(i + 1, v.len() as int));
            }
            out.push(v[i]);
            i = i + 1;
        }
        assert(out@ + normalize(v@.subrange(i as int, v.len() as int)) =~= normalize(input@));
    }
    assert(v@.subrange(i as int, v.len() as int) =~= Seq::<char>::empty());
    assert(out@ =~= normalize(input@));
    string_of(&out)
}

/// The lines of `s` split at each `\n`; a trailing `\n` leaves an empty last piece.
pub open spec fn split_nl(s: Seq<char>) -> Seq<Seq<char>>
    decreases s.len(),
{
    if s.len() == 0 {
        seq![Seq::empty()]
    } else {
        let init = split_nl(s.drop_last());
        if s.last() == '\n' {
            init.push(Seq::empty())
        } else {
            init.update(init.len() - 1, init.last().push(s.last()))
        }
    }
}

proof fn lemma_split_nl_nonempty(s: Seq<char>)
    ensures
        split_nl(s).len() >= 1,
    decreases s.len(),
{
    if s.len() > 0 {
        lemma_split_nl_nonempty(s.drop_last());
    }
}

/// The pieces of `v` between its `\n` characters.
pub(crate) fn split_lines(v: &Vec<char>) -> (r: Vec<Vec<char>>)
    ensures
        r@.map_values(|l: Vec<char>| l@) == split_nl(v@),
{
    let mut done: Vec<Vec<char>> = Vec::new();
    let mut cur: Vec<char> = Vec::new();
    let mut i: usize = 0;
    while i < v.len()
        invariant
            i <= v.len(),
            done@.map_values(|l: Vec<char>| l@).push(cur@) == split_nl(v@.subrange(0, i as int)),
        decreases v.len() - i,
    {
        proof {
            assert(v@.subrange(0, i + 1).drop_last() =~= v@.subrange(0, i as int));
            lemma_split_nl_nonempty(v@.subrange(0, i as int));
        }
        if v[i] == '\n' {
            done.push(cur);
            cur = Vec::new();
        } else {
            cur.push(v[i]);
        }
        i = i + 1;
        assert(done@.map_values(|l: Vec<char>| l@).push(cur@) =~= split_nl(
            v@.subrange(0, i as int),
        ));
    }
    done.push(cur);
    assert(v@.subrange(0, v.len() as int) =~= v@);
    assert(done@.map_values(|l: Vec<char>| l@) =~= split_nl(v@));
    done
}

/// `tok` with one leading `a/` or `b/` removed, where it has one.
pub open spec fn strip_side_prefix(tok: Seq<char>) -> Seq<char> {
    if tok.len() >= 2 && (tok[0] == 'a' || tok[0] == 'b') && tok[1] == '/' {
        tok.subrange(2, tok.len() as int)
    } else {
        tok
    }
}

/// The leading run of non-whitespace characters.
pub open spec fn first_token(s: Seq<char>) -> Seq<char>
    decreases s.len(),
{
    if s.len() == 0 || is_ws(s[0]) {
        Seq::empty()
    } else {
        seq![s[0]] + first_token(s.drop_first())
    }
}

/// The file that a `--- ` or `+++ ` line of a diff names.
pub open spec fn line_path(line: Seq<char>) -> Option<Seq<char>> {
    if !(starts_with(line, "--- "@) || starts_with(line, "+++ "@)) {
        None
    } else {
        let t = trim(line.subrange(4, line.len() as int));
        let tok = first_token(t);
        if t.len() == 0 || tok == "/dev/null"@ {
            None
        } else {
            let n = strip_side_prefix(tok);
            if n.len() == 0 {
                None
            } else {
                Some(n)
            }
        }
    }
}

/// The files named by the lines, in order.
pub open spec fn line_paths(lines: Seq<Seq<char>>) -> Seq<Seq<char>>
    decreases lines.len(),
{
    if lines.len() == 0 {
        Seq::empty()
    } else {
        let init = line_paths(lines.drop_last());
        match line_path(lines.last()) {
            Some(p) => init.push(p),
            None => init,
        }
    }
}

/// `s` with every repeated element dropped after its first occurrence.
pub open spec fn dedupe(s: Seq<Seq<char>>) -> Seq<Seq<char>>
    decreases s.len(),
{
    if s.len() == 0 {
        s
    } else {
        let d = dedupe(s.drop_last());
        if d.contains(s.last()) {
            d
        } else {
            d.push(s.last())
        }
    }
}

/// The files a diff touches, first occurrence first.
pub open spec fn diff_files(diff: Seq<char>) -> Seq<Seq<char>> {
    dedupe(line_paths(split_nl(diff)))
}

/// The file named by a diff line, as `line_path` gives it.
fn extract_path_from_diff_line(line: &Vec<char>) -> (r: Option<String>)
    ensures
        opt_view(r) == line_path(line@),
{
    let dashes = chars_of("--- ");
    let pluses = chars_of("+++ ");
    if !(matches_at(line, 0, &dashes) || matches_at(line, 0, &pluses)) {
        return None;
    }
    proof {
        reveal_strlit("--- ");
        reveal_strlit("+++ ");
    }
    let (a, b) = trim_range(line, 4, line.len());
    let ghost t = line@.subrange(a as int, b as int);
    let mut e = a;
    while e < b && !char_is_whitespace(line[e])
        invariant
            a <= e <= b <= line.len(),
            t == line@.subrange(a as int, b as int),
            first_token(t) == line@.subrange(a as int, e as int) + first_token(
                line@.subrange(e as int, b as int),
            ),
        decreases b - e,
    {
        proof {
            let u = line@.subrange(e as int, b as int);
            assert(u.drop_first() =~= line@.subrange(e + 1, b as int));
            assert(line@.subrange(a as int, e + 1) =~= line@.subrange(a as int, e as int).push(
                line@[e as int],
            ));
            assert(line@.subrange(a as int, e as int) + (seq![u[0]] + first_token(u.drop_first()))
                =~= line@.subrange(a as int, e + 1) + first_token(
                line@.subrange(e + 1, b as int),
            ));
        }
        e = e + 1;
    }
    assert(first_token(line@.subrange(e as int, b as int)) =~= Seq::<char>::empty());
    assert(first_token(t) =~= line@.subrange(a as int, e as int));
    if a == b {
        return None;
    }
    let dev_null = chars_of("/dev/null");
    if e - a == dev_null.len() && matches_at(line, a, &dev_null) {
        assert(line@.subrange(a as int, e as int) =~= "/dev/null"@);
        return None;
    }
    assert(line@.subrange(a as int, e as int) != "/dev/null"@) by {
        if line@.subrange(a as int, e as int) == "/dev/null"@ {
            assert(occurs_at(line@, dev_null@, a as int));
        }
    }
    let mut start = a;
    if e - a >= 2 && (line[a] == 'a' || line[a] == 'b') && line[a + 1] == '/' {
        start = a + 2;
    }
    proof {
        let tok = line@.subrange(a as int, e as int);
        assert(strip_side_prefix(tok) =~= line@.subrange(start as int, e as int));
    }
    if start == e {
        return None;
    }
    Some(string_of_range(line, start, e))
}

/// Whether `s` holds an element whose characters are `t`.
fn holds_view(s: &Vec<String>, t: &String) -> (r: bool)
    ensures
        r == views(s@).contains(t@),
{
    let mut i: usize = 0;
    while i < s.len()
        invariant
            forall|j: int| 0 <= j < i ==> s@[j]@ != t@,
        decreases s.len() - i,
    {
        if s[i] == *t {
            assert(views(s@)[i as int] == t@);
            return true;
        }
        i = i + 1;
    }
    assert(!views(s@).contains(t@)) by {
        if views(s@).contains(t@) {
            let j = choose|j: int| 0 <= j < views(s@).len() && views(s@)[j] == t@;
            assert(s@[j]@ == t@);
        }
    }
    false
}

/// The number of lines of `s` as `str::lines` counts them.
pub open spec fn line_count(s: Seq<char>) -> nat {
    if s.len() == 0 {
        0
    } else if s.last() == '\n' {
        (split_nl(s).len() - 1) as nat
    } else {
        split_nl(s).len()
    }
}

/// The summary of a diff with the files it touches.
pub open spec fn diff_summary(diff: Seq<char>, files: Seq<Seq<char>>) -> Seq<char> {
    if files.len() == 0 {
        if line_count(diff) <= 2 {
            "Apply patch"@
        } else {
            "Apply multi-file patch"@
        }
    } else if files.len() == 1 {
        "Apply patch to "@ + files[0]
    } else {
        "Apply patch to "@ + files[0] + " and "@ + dec((files.len() - 1) as nat) + " other files"@
    }
}

/// The summary of a search/replace block for `file`.
pub open spec fn search_replace_summary(file: Seq<char>) -> Seq<char> {
    if trim(file).len() == 0 {
        "Apply search/replace block"@
    } else {
        "Apply search/replace to "@ + file
    }
}

/// The identifier of the `n`th action of a run.
pub open spec fn action_id_spec(run_id: Seq<char>, n: nat) -> Seq<char> {
    run_id + "-action-"@ + dec(n)
}

/// The fields that every action the parser builds shares.
pub open spec fn parsed_action_shape(a: ProposedAction, run_id: Seq<char>, n: nat) -> bool {
    &&& a.id@ == action_id_spec(run_id, n)
    &&& a.why is None
    &&& a.risk == 1
    &&& a.policy_tags@.len() == 0
    &&& a.requires_approval
    &&& a.created_by is None
    &&& a.approval_group is None
    &&& a.kind == ActionKindTag::Patch
}

/// `a` is the `n`th action of a run, proposing unified diff `diff`.
pub open spec fn unified_action(a: ProposedAction, run_id: Seq<char>, n: nat, diff: Seq<char>) -> bool {
    &&& parsed_action_shape(a, run_id, n)
    &&& a.summary@ == diff_summary(diff, diff_files(diff))
    &&& match a.details {
        ActionDetails::Patch(d) => {
            &&& d.format == PatchFormat::Unified
            &&& opt_view(d.diff) == Some(diff)
            &&& d.search_replace_blocks is None
            &&& views(d.files@) == diff_files(diff)
            &&& patch_details_plain(d)
        },
        _ => false,
    }
}

/// A search/replace block as (file, search, replace).
pub open spec fn block_view(b: SearchReplaceBlock) -> (Seq<char>, Seq<char>, Seq<char>) {
    (b.file@, b.search@, b.replace@)
}

/// `a` is the `n`th action of a run, proposing search/replace block `blk`.
pub open spec fn search_replace_action(
    a: ProposedAction,
    run_id: Seq<char>,
    n: nat,
    blk: (Seq<char>, Seq<char>, Seq<char>),
) -> bool {
    &&& parsed_action_shape(a, run_id, n)
    &&& a.summary@ == search_replace_summary(blk.0)
    &&& match a.details {
        ActionDetails::Patch(d) => {
            &&& d.format == PatchFormat::SearchReplace
            &&& d.diff is None
            &&& match d.search_replace_blocks {
                Some(bs) => bs@.len() == 1 && block_view(bs@[0]) == blk && bs@[0].match_mode
                    == MatchMode::Exact,
                None => false,
            }
            &&& views(d.files@) == if blk.0.len() == 0 {
                Seq::empty()
            } else {
                seq![blk.0]
            }
            &&& patch_details_plain(d)
        },
        _ => false,
    }
}

/// The bodies of fenced diffs, trimmed, the empty ones left out.
pub open spec fn fenced_bodies(rows: Seq<Seq<Option<Seq<char>>>>) -> Seq<Seq<char>>
    decreases rows.len(),
{
    if rows.len() == 0 {
        Seq::empty()
    } else {
        let init = fenced_bodies(rows.drop_last());
        let row = rows.last();
        if row.len() > 0 && row[0] is Some && trim(row[0]->Some_0).len() > 0 {
            init.push(trim(row[0]->Some_0))
        } else {
            init
        }
    }
}

/// The raw diffs of the first `n` matches: each match with the text up to the next match,
/// trimmed, the empty ones left out.
pub open spec fn raw_blocks(found: Seq<Seq<char>>, pieces: Seq<Seq<char>>, n: nat) -> Seq<Seq<char>>
    decreases n,
{
    if n == 0 {
        Seq::empty()
    } else {
        let init = raw_blocks(found, pieces, (n - 1) as nat);
        let k = n - 1;
        if k < found.len() && k + 1 < pieces.len() && trim(found[k] + pieces[k + 1]).len() > 0 {
            init.push(trim(found[k] + pieces[k + 1]))
        } else {
            init
        }
    }
}

/// The unified diffs found in normalized text `s`: fenced ones first, then raw ones in
/// what is left once the fenced ones are removed.
pub open spec fn unified_diffs(s: Seq<char>) -> Seq<Seq<char>> {
    let rest = regex_replaced(DIFF_FENCED@, s, Seq::empty());
    let found = regex_found(DIFF_RAW@, rest);
    fenced_bodies(regex_capture_groups(DIFF_FENCED@, seq!["diff"@], s)) + raw_blocks(
        found,
        regex_pieces(DIFF_RAW@, rest),
        found.len(),
    )
}

pub open spec fn or_empty(o: Option<Seq<char>>) -> Seq<char> {
    match o {
        Some(s) => s,
        None => Seq::empty(),
    }
}

pub open spec fn group_at(row: Seq<Option<Seq<char>>>, i: int) -> Option<Seq<char>> {
    if 0 <= i < row.len() {
        row[i]
    } else {
        None
    }
}

/// The block that one search/replace match gives: path trimmed, absent parts empty.
pub open spec fn row_block(row: Seq<Option<Seq<char>>>) -> (Seq<char>, Seq<char>, Seq<char>) {
    (trim(or_empty(group_at(row, 0))), or_empty(group_at(row, 1)), or_empty(group_at(row, 2)))
}

/// The search/replace blocks found in normalized text `s`.
pub open spec fn search_replace_blocks(s: Seq<char>) -> Seq<(Seq<char>, Seq<char>, Seq<char>)> {
    regex_capture_groups(SEARCH_REPLACE@, seq!["path"@, "search"@, "replace"@], s).map_values(
        |row: Seq<Option<Seq<char>>>| row_block(row),
    )
}

/// The text of the first fenced JSON array, if any.
pub open spec fn first_present(rows: Seq<Seq<Option<Seq<char>>>>) -> Option<Seq<char>>
    decreases rows.len(),
{
    if rows.len() == 0 {
        None
    } else if rows[0].len() > 0 && rows[0][0] is Some {
        rows[0][0]
    } else {
        first_present(rows.drop_first())
    }
}

/// What the JSON scanner tracks between characters.
pub struct ScanState {
    pub start: Option<int>,
    pub depth: nat,
    pub in_string: bool,
    pub escape: bool,
}

/// The bracket-balanced arrays found from position `i` of `s` on, scanning from state `st`.
/// Brackets inside string literals do not count; a backslash escapes the next character.
pub open spec fn json_arrays_from(s: Seq<char>, i: int, st: ScanState) -> Seq<Seq<char>>
    decreases s.len() - i,
{
    if i < 0 || i >= s.len() {
        Seq::empty()
    } else {
        let c = s[i];
        if st.in_string {
            if st.escape {
                json_arrays_from(s, i + 1, ScanState { escape: false, ..st })
            } else if c == '\\' {
                json_arrays_from(s, i + 1, ScanState { escape: true, ..st })
            } else if c == '"' {
                json_arrays_from(s, i + 1, ScanState { in_string: false, ..st })
            } else {
                json_arrays_from(s, i + 1, st)
            }
        } else if c == '"' {
            json_arrays_from(s, i + 1, ScanState { in_string: true, ..st })
        } else if c == '[' {
            let start = if st.depth == 0 {
                Some(i)
            } else {
                st.start
            };
            json_arrays_from(s, i + 1, ScanState { start, depth: st.depth + 1, ..st })
        } else if c == ']' && st.depth > 0 {
            if st.depth == 1 && st.start is Some {
                seq![s.subrange(st.start->Some_0, i + 1)] + json_arrays_from(
                    s,
                    i + 1,
                    ScanState { start: None, depth: 0, ..st },
                )
            } else if st.depth == 1 {
                json_arrays_from(s, i + 1, ScanState { depth: 0, ..st })
            } else {
                json_arrays_from(s, i + 1, ScanState { depth: (st.depth - 1) as nat, ..st })
            }
        } else {
            json_arrays_from(s, i + 1, st)
        }
    }
}

pub open spec fn initial_scan() -> ScanState {
    ScanState { start: None, depth: 0, in_string: false, escape: false }
}

/// The bracket-balanced top-level arrays of `s`, in order.
pub open spec fn json_arrays(s: Seq<char>) -> Seq<Seq<char>> {
    json_arrays_from(s, 0, initial_scan())
}

/// Finds every bracket-balanced top-level `[...]` of `text`, skipping brackets inside
/// string literals.
pub fn extract_json_arrays(text: &str) -> (r: Vec<String>)
    ensures
        views(r@) == json_arrays(text@),
{
    let v = chars_of(text);
    let mut arrays: Vec<String> = Vec::new();
    let mut start: Option<usize> = None;
    let mut depth: usize = 0;
    let mut in_string = false;
    let mut escape = false;
    let mut i: usize = 0;
    while i < v.len()
        invariant
            v@ == text@,
            i <= v.len(),
            depth <= i,
            match start {
                Some(s) => s < i,
                None => true,
            },
            views(arrays@) + json_arrays_from(
                v@,
                i as int,
                ScanState {
                    start: match start {
                        Some(s) => Some(s as int),
                        None => None,
                    },
                    depth: depth as nat,
                    in_string,
                    escape,
                },
            ) == json_arrays(text@),
        decreases v.len() - i,
    {
        let c = v[i];
        let ghost before = views(arrays@);
        if in_string {
            if escape {
                escape = false;
            } else if c == '\\' {
                escape = true;
            } else if c == '"' {
                in_string = false;
            }
        } else if c == '"' {
            in_string = true;
        } else if c == '[' {
            if depth == 0 {
                start = Some(i);
            }
            depth = depth + 1;
        } else if c == ']' && depth > 0 {
            depth = depth - 1;
            if depth == 0 {
                match start {
                    Some(s) => {
                        let a = string_of_range(&v, s, i + 1);
                        arrays.push(a);
                        proof {
                            assert(views(arrays@) =~= before.push(v@.subrange(s as int, i + 1)));
                        }
                    },
                    None => {},
                }
                start = None;
            }
        }
        i = i + 1;
        proof {
            if views(arrays@) != before {
                assert(views(arrays@) + json_arrays_from(
                    v@,
                    i as int,
                    ScanState {
                        start: None,
                        depth: 0,
                        in_string,
                        escape,
                    },
                ) =~= before + (seq![views(arrays@).last()] + json_arrays_from(
                    v@,
                    i as int,
                    ScanState {
                        start: None,
                        depth: 0,
                        in_string,
                        escape,
                    },
                )));
            }
        }
    }
    assert(views(arrays@) =~= json_arrays(text@));
    arrays
}

/// Whether a JSON candidate mentions both `"kind"` and `"details"`.
pub fn looks_like_action_array(candidate: &str) -> (r: bool)
    ensures
        r == (contains(candidate@, "\"kind\""@) && contains(candidate@, "\"details\""@)),
{
    str_contains(candidate, "\"kind\"") && str_contains(candidate, "\"details\"")
}

/// The first candidate that mentions both `"kind"` and `"details"`.
pub open spec fn first_action_array(c: Seq<Seq<char>>) -> Option<Seq<char>>
    decreases c.len(),
{
    if c.len() == 0 {
        None
    } else if contains(c[0], "\"kind\""@) && contains(c[0], "\"details\""@) {
        Some(c[0])
    } else {
        first_action_array(c.drop_first())
    }
}

/// Where the JSON actions of normalized text `s` are: the first fenced JSON array, else the
/// first inline array that mentions both `"kind"` and `"details"`.
pub open spec fn json_actions_text(s: Seq<char>) -> Option<Seq<char>> {
    match first_present(regex_capture_groups(JSON_FENCED@, seq!["json"@], s)) {
        Some(j) => Some(j),
        None => first_action_array(json_arrays(s)),
    }
}

/// What parsing a response gives: actions built from diffs or search/replace blocks, or the
/// text of a JSON array of actions, to be decoded by the caller.
#[derive(Debug)]
pub enum ParsedResponse {
    Actions(Vec<ProposedAction>),
    JsonActions(String),
}

/// `r` is the list of unified-diff actions for `diffs`.
pub open spec fn unified_actions(r: Seq<ProposedAction>, run_id: Seq<char>, diffs: Seq<Seq<char>>) -> bool {
    r.len() == diffs.len() && forall|k: int|
        0 <= k < r.len() ==> unified_action(#[trigger] r[k], run_id, (k + 1) as nat, diffs[k])
}

/// `r` is the list of search/replace actions for `blocks`.
pub open spec fn search_replace_actions(
    r: Seq<ProposedAction>,
    run_id: Seq<char>,
    blocks: Seq<(Seq<char>, Seq<char>, Seq<char>)>,
) -> bool {
    r.len() == blocks.len() && forall|k: int|
        0 <= k < r.len() ==> search_replace_action(
            #[trigger] r[k],
            run_id,
            (k + 1) as nat,
            blocks[k],
        )
}

/// The result of parsing `response` for `run_id`.
pub open spec fn parse_outcome(
    response: Seq<char>,
    run_id: Seq<char>,
    r: Result<ParsedResponse, NexusError>,
) -> bool {
    let s = normalize(response);
    if !run_id_valid(run_id) {
        r matches Err(NexusError::InvalidRunId(m)) && m@ == run_id
    } else if unified_diffs(s).len() > 0 {
        r matches Ok(ParsedResponse::Actions(a)) && unified_actions(a@, run_id, unified_diffs(s))
    } else if search_replace_blocks(s).len() > 0 {
        r matches Ok(ParsedResponse::Actions(a)) && search_replace_actions(
            a@,
            run_id,
            search_replace_blocks(s),
        )
    } else {
        match json_actions_text(s) {
            Some(j) => r matches Ok(ParsedResponse::JsonActions(t)) && t@ == j,
            None => r matches Ok(ParsedResponse::Actions(a)) && a@.len() == 0,
        }
    }
}

/// Builds patch actions from model output.
pub struct ResponseParser {}

impl Default for ResponseParser {
    fn default() -> (r: Self) {
        ResponseParser {  }
    }
}

impl ResponseParser {
    pub fn new() -> (r: Self) {
        ResponseParser {  }
    }

    /// Parses `response` for run `run_id`. Formats are tried in order, and the first that
    /// yields anything wins: unified diffs, then search/replace blocks, then a JSON array.
    pub fn parse(&self, response: &str, run_id: &str) -> (r: Result<ParsedResponse, NexusError>)
        ensures
            parse_outcome(response@, run_id@, r),
    {
        if !run_id_is_valid(run_id) {
            return Err(NexusError::InvalidRunId(String::from_str(run_id)));
        }
        let actions = self.parse_unified_diffs(response, run_id);
        if actions.len() > 0 {
            return Ok(ParsedResponse::Actions(actions));
        }
        let actions = self.parse_search_replace(response, run_id);
        if actions.len() > 0 {
            return Ok(ParsedResponse::Actions(actions));
        }
        match self.parse_json_actions(response) {
            Some(j) => Ok(ParsedResponse::JsonActions(j)),
            None => Ok(ParsedResponse::Actions(Vec::new())),
        }
    }

    /// The unified-diff actions of `response`.
    pub fn parse_unified_diffs(&self, response: &str, run_id: &str) -> (r: Vec<ProposedAction>)
        ensures
            unified_actions(r@, run_id@, unified_diffs(normalize(response@))),
    {
        let normalized = normalize_line_endings(response);
        let diffs = self.collect_unified_diffs(normalized.as_str());
        self.build_patch_actions_from_diffs(&diffs, run_id)
    }

    /// The search/replace actions of `response`.
    pub fn parse_search_replace(&self, response: &str, run_id: &str) -> (r: Vec<ProposedAction>)
        ensures
            search_replace_actions(r@, run_id@, search_replace_blocks(normalize(response@))),
    {
        let normalized = normalize_line_endings(response);
        let blocks = self.collect_search_replace_blocks(normalized.as_str());
        self.build_search_replace_actions(&blocks, run_id)
    }

    /// The text of the JSON array of actions in `response`, if there is one.
    pub fn parse_json_actions(&self, response: &str) -> (r: Option<String>)
        ensures
            opt_view(r) == json_actions_text(normalize(response@)),
    {
        let normalized = normalize_line_endings(response);
        let fenced = self.parse_fenced_json_actions(normalized.as_str());
        if fenced.is_some() {
            return fenced;
        }
        self.parse_inline_json_actions(normalized.as_str())
    }

    /// The files a diff touches: the path of each `--- `/`+++ ` line with `a/`/`b/`
    /// stripped, `/dev/null` skipped, each once, first occurrence first.
    pub fn extract_files_from_diff(&self, diff: &str) -> (r: Vec<String>)
        ensures
            views(r@) == diff_files(diff@),
    {
        let v = chars_of(diff);
        let lines = split_lines(&v);
        let mut files: Vec<String> = Vec::new();
        let mut i: usize = 0;
        while i < lines.len()
            invariant
                lines@.map_values(|l: Vec<char>| l@) == split_nl(diff@),
                i <= lines.len(),
                views(files@) == dedupe(
                    line_paths(lines@.map_values(|l: Vec<char>| l@).subrange(0, i as int)),
                ),
            decreases lines.len() - i,
        {
            let ghost ls = lines@.map_values(|l: Vec<char>| l@);
            proof {
                assert(ls.subrange(0, i + 1).drop_last() =~= ls.subrange(0, i as int));
            }
            match extract_path_from_diff_line(&lines[i]) {
                Some(p) => {
                    proof {
                        assert(line_paths(ls.subrange(0, i + 1)) == line_paths(
                            ls.subrange(0, i as int),
                        ).push(p@));
                        let lp = line_paths(ls.subrange(0, i + 1));
                        assert(lp.drop_last() =~= line_paths(ls.subrange(0, i as int)));
                    }
                    if !holds_view(&files, &p) {
                        files.push(p);
                        assert(views(files@) =~= dedupe(line_paths(ls.subrange(0, i + 1))));
                    }
                },
                None => {},
            }
            i = i + 1;
        }
        assert(lines@.map_values(|l: Vec<char>| l@).subrange(0, i as int) =~= split_nl(diff@));
        files
    }

    /// The summary of a patch: by the files it touches, or by its length where it names none.
    pub fn generate_summary_from_diff(&self, diff: &str, files: &Vec<String>) -> (r: String)
        ensures
            r@ == diff_summary(diff@, views(files@)),
    {
        if files.len() == 0 {
            return summary_from_diff_fallback(diff);
        }
        let mut s = String::from_str("Apply patch to ");
        s.append(files[0].as_str());
        if files.len() == 1 {
            return s;
        }
        s.append(" and ");
        push_decimal(&mut s, (files.len() - 1) as u64);
        s.append(" other files");
        s
    }

    /// `{run_id}-action-{index}`.
    pub fn generate_action_id(&self, run_id: &str, index: usize) -> (r: String)
        ensures
            r@ == action_id_spec(run_id@, index as nat),
    {
        let mut s = String::from_str(run_id);
        s.append("-action-");
        push_decimal(&mut s, index as u64);
        s
    }

    /// The unified diffs of normalized text `response`.
    pub fn collect_unified_diffs(&self, response: &str) -> (r: Vec<String>)
        ensures
            views(r@) == unified_diffs(response@),
    {
        let mut groups: Vec<&str> = Vec::new();
        groups.push("diff");
        let rows = regex_captures(DIFF_FENCED, &groups, response);
        proof {
            assert(groups@.map_values(|g: &str| g@) =~= seq!["diff"@]);
        }
        let mut diffs = fenced_diff_bodies(&rows);
        let rest = regex_replace_all(DIFF_FENCED, response, "");
        proof {
            reveal_strlit("");
            assert(""@ =~= Seq::<char>::empty());
        }
        let found = regex_find_all(DIFF_RAW, rest.as_str());
        let pieces = regex_split(DIFF_RAW, rest.as_str());
        let raw = raw_diff_blocks(&found, &pieces);
        let ghost head = views(diffs@);
        let mut k: usize = 0;
        while k < raw.len()
            invariant
                views(diffs@) == head + views(raw@).subrange(0, k as int),
                k <= raw.len(),
            decreases raw.len() - k,
        {
            let ghost old_k = k;
            let ghost before = views(diffs@);
            diffs.push(String::from_str(raw[k].as_str()));
            k = k + 1;
            assert(views(diffs@) =~= before.push(raw@[old_k as int]@));
            assert(views(raw@).subrange(0, k as int) =~= views(raw@).subrange(0, old_k as int).push(
                raw@[old_k as int]@,
            ));
            assert(views(diffs@) =~= head + views(raw@).subrange(0, k as int));
        }
        assert(views(raw@).subrange(0, k as int) =~= views(raw@));
        diffs
    }

    /// The search/replace blocks of normalized text `response`.
    pub fn collect_search_replace_blocks(&self, response: &str) -> (r: Vec<SearchReplaceBlock>)
        ensures
            r@.map_values(|b: SearchReplaceBlock| block_view(b)) == search_replace_blocks(
                response@,
            ),
            forall|k: int| 0 <= k < r@.len() ==> (#[trigger] r@[k]).match_mode == MatchMode::Exact,
    {
        let mut groups: Vec<&str> = Vec::new();
        groups.push("path");
        groups.push("search");
        groups.push("replace");
        let rows = regex_captures(SEARCH_REPLACE, &groups, response);
        proof {
            assert(groups@.map_values(|g: &str| g@) =~= seq!["path"@, "search"@, "replace"@]);
        }
        search_replace_blocks_from_rows(&rows)
    }

    /// Builds the `k`th unified-diff action, for each diff `k`.
    pub fn build_patch_actions_from_diffs(&self, diffs: &Vec<String>, run_id: &str) -> (r: Vec<
        ProposedAction,
    >)
        ensures
            unified_actions(r@, run_id@, views(diffs@)),
    {
        let mut out: Vec<ProposedAction> = Vec::new();
        let mut k: usize = 0;
        while k < diffs.len()
            invariant
                k <= diffs.len(),
                out@.len() == k,
                forall|j: int|
                    0 <= j < k ==> unified_action(
                        #[trigger] out@[j],
                        run_id@,
                        (j + 1) as nat,
                        diffs@[j]@,
                    ),
            decreases diffs.len() - k,
        {
            let diff = diffs[k].as_str();
            let files = self.extract_files_from_diff(diff);
            let summary = self.generate_summary_from_diff(diff, &files);
            let details = patch_details_from_diff(String::from_str(diff), files);
            let action = self.build_patch_action(run_id, k + 1, summary, details);
            out.push(action);
            k = k + 1;
        }
        out
    }

    /// Builds the `k`th search/replace action, for each block `k`.
    pub fn build_search_replace_actions(
        &self,
        blocks: &Vec<SearchReplaceBlock>,
        run_id: &str,
    ) -> (r: Vec<ProposedAction>)
        requires
            forall|k: int| 0 <= k < blocks@.len() ==> (#[trigger] blocks@[k]).match_mode == MatchMode::Exact,
        ensures
            search_replace_actions(
                r@,
                run_id@,
                blocks@.map_values(|b: SearchReplaceBlock| block_view(b)),
            ),
    {
        let mut out: Vec<ProposedAction> = Vec::new();
        let mut k: usize = 0;
        while k < blocks.len()
            invariant
                k <= blocks.len(),
                out@.len() == k,
                forall|k: int| 0 <= k < blocks@.len() ==> (#[trigger] blocks@[k]).match_mode == MatchMode::Exact,
                forall|j: int|
                    0 <= j < k ==> search_replace_action(
                        #[trigger] out@[j],
                        run_id@,
                        (j + 1) as nat,
                        block_view(blocks@[j]),
                    ),
            decreases blocks.len() - k,
        {
            let block = &blocks[k];
            let summary = summary_from_search_replace(block.file.as_str());
            let details = patch_details_from_search_replace(block);
            let action = self.build_patch_action(run_id, k + 1, summary, details);
            out.push(action);
            k = k + 1;
        }
        assert(out@.len() == blocks@.map_values(|b: SearchReplaceBlock| block_view(b)).len());
        out
    }

    /// A patch action with the standard shape, numbered `index`.
    fn build_patch_action(
        &self,
        run_id: &str,
        index: usize,
        summary: String,
        details: PatchDetails,
    ) -> (r: ProposedAction)
        ensures
            parsed_action_shape(r, run_id@, index as nat),
            r.summary == summary,
            r.details == ActionDetails::Patch(details),
    {
        ProposedAction {
            id: self.generate_action_id(run_id, index),
            summary,
            why: None,
            risk: 1,
            policy_tags: Vec::new(),
            requires_approval: true,
            created_by: None,
            approval_group: None,
            kind: ActionKindTag::Patch,
            details: ActionDetails::Patch(details),
        }
    }

    /// The first fenced JSON array of normalized text `response`.
    fn parse_fenced_json_actions(&self, response: &str) -> (r: Option<String>)
        ensures
            opt_view(r) == first_present(regex_capture_groups(JSON_FENCED@, seq!["json"@], response@)),
    {
        let mut groups: Vec<&str> = Vec::new();
        groups.push("json");
        let rows = regex_captures(JSON_FENCED, &groups, response);
        proof {
            assert(groups@.map_values(|g: &str| g@) =~= seq!["json"@]);
        }
        first_present_group(&rows)
    }

    /// The first inline array of normalized text `response` that looks like actions.
    fn parse_inline_json_actions(&self, response: &str) -> (r: Option<String>)
        ensures
            opt_view(r) == first_action_array(json_arrays(response@)),
    {
        let candidates = extract_json_arrays(response);
        let mut k: usize = 0;
        assert(views(candidates@).subrange(0, candidates@.len() as int) =~= views(candidates@));
        while k < candidates.len()
            invariant
                k <= candidates.len(),
                views(candidates@) == json_arrays(response@),
                first_action_array(views(candidates@)) == first_action_array(
                    views(candidates@).subrange(k as int, candidates@.len() as int),
                ),
            decreases candidates.len() - k,
        {
            let ghost rest = views(candidates@).subrange(k as int, candidates@.len() as int);
            if looks_like_action_array(candidates[k].as_str()) {
                assert(rest[0] == candidates@[k as int]@);
                assert(rest.len() > 0);
                assert(first_action_array(rest) == Some(rest[0]));
                return Some(String::from_str(candidates[k].as_str()));
            }
            assert(rest.drop_first() =~= views(candidates@).subrange(k + 1, candidates@.len() as int));
            k = k + 1;
        }
        None
    }
}

/// The trimmed, non-empty bodies of fenced diffs.
pub fn fenced_diff_bodies(rows: &Vec<Vec<Option<String>>>) -> (r: Vec<String>)
    ensures
        views(r@) == fenced_bodies(capture_rows_view(rows@)),
{
    let mut out: Vec<String> = Vec::new();
    let mut k: usize = 0;
    while k < rows.len()
        invariant
            k <= rows.len(),
            views(out@) == fenced_bodies(capture_rows_view(rows@).subrange(0, k as int)),
        decreases rows.len() - k,
    {
        let ghost all = capture_rows_view(rows@);
        proof {
            assert(all.subrange(0, k + 1).drop_last() =~= all.subrange(0, k as int));
        }
        let row = &rows[k];
        if row.len() > 0 {
            match &row[0] {
                Some(body) => {
                    let t = trim_str(body.as_str());
                    if t.as_str().unicode_len() > 0 {
                        out.push(t);
                        assert(views(out@) =~= fenced_bodies(all.subrange(0, k + 1)));
                    }
                },
                None => {},
            }
        }
        k = k + 1;
    }
    assert(capture_rows_view(rows@).subrange(0, k as int) =~= capture_rows_view(rows@));
    out
}

/// The raw diffs: each match with the piece after it, trimmed, the empty ones left out.
pub fn raw_diff_blocks(found: &Vec<String>, pieces: &Vec<String>) -> (r: Vec<String>)
    ensures
        views(r@) == raw_blocks(views(found@), views(pieces@), found@.len()),
{
    let mut out: Vec<String> = Vec::new();
    let mut k: usize = 0;
    while k < found.len()
        invariant
            k <= found.len(),
            views(out@) == raw_blocks(views(found@), views(pieces@), k as nat),
        decreases found.len() - k,
    {
        if k + 1 < pieces.len() {
            let mut block = found[k].clone();
            block.append(pieces[k + 1].as_str());
            assert(block@ == views(found@)[k as int] + views(pieces@)[k + 1]);
            let t = trim_str(block.as_str());
            if t.as_str().unicode_len() > 0 {
                out.push(t);
                assert(views(out@) =~= raw_blocks(views(found@), views(pieces@), (k + 1) as nat));
            }
        }
        k = k + 1;
    }
    out
}

/// The blocks of search/replace matches.
pub fn search_replace_blocks_from_rows(rows: &Vec<Vec<Option<String>>>) -> (r: Vec<
    SearchReplaceBlock,
>)
    ensures
        r@.map_values(|b: SearchReplaceBlock| block_view(b)) == capture_rows_view(rows@).map_values(
            |row: Seq<Option<Seq<char>>>| row_block(row),
        ),
        forall|k: int| 0 <= k < r@.len() ==> (#[trigger] r@[k]).match_mode == MatchMode::Exact,
{
    let mut out: Vec<SearchReplaceBlock> = Vec::new();
    let mut k: usize = 0;
    while k < rows.len()
        invariant
            k <= rows.len(),
            out@.len() == k,
            forall|j: int|
                0 <= j < k ==> block_view(#[trigger] out@[j]) == row_block(
                    capture_rows_view(rows@)[j],
                ) && out@[j].match_mode == MatchMode::Exact,
        decreases rows.len() - k,
    {
        let row = &rows[k];
        let file = group_text(row, 0, true);
        let search = group_text(row, 1, false);
        let replace = group_text(row, 2, false);
        out.push(SearchReplaceBlock { file, search, replace, match_mode: MatchMode::Exact });
        k = k + 1;
    }
    assert(out@.map_values(|b: SearchReplaceBlock| block_view(b)) =~= capture_rows_view(
        rows@,
    ).map_values(|row: Seq<Option<Seq<char>>>| row_block(row)));
    out
}

/// The text of group `i` of a match, empty where absent, trimmed if asked.
fn group_text(row: &Vec<Option<String>>, i: usize, trimmed: bool) -> (r: String)
    ensures
        r@ == if trimmed {
            trim(or_empty(group_at(row@.map_values(|o: Option<String>| opt_view(o)), i as int)))
        } else {
            or_empty(group_at(row@.map_values(|o: Option<String>| opt_view(o)), i as int))
        },
{
    if i < row.len() {
        match &row[i] {
            Some(s) => if trimmed {
                trim_str(s.as_str())
            } else {
                String::from_str(s.as_str())
            },
            None => {
                let e = String::new();
                proof {
                    assert(trim(Seq::<char>::empty()) =~= Seq::<char>::empty());
                }
                e
            },
        }
    } else {
        proof {
            assert(trim(Seq::<char>::empty()) =~= Seq::<char>::empty());
        }
        String::new()
    }
}

/// The first match whose first group is present.
pub fn first_present_group(rows: &Vec<Vec<Option<String>>>) -> (r: Option<String>)
    ensures
        opt_view(r) == first_present(capture_rows_view(rows@)),
{
    let mut k: usize = 0;
    assert(capture_rows_view(rows@).subrange(0, rows@.len() as int) =~= capture_rows_view(rows@));
    while k < rows.len()
        invariant
            k <= rows.len(),
            first_present(capture_rows_view(rows@)) == first_present(
                capture_rows_view(rows@).subrange(k as int, rows@.len() as int),
            ),
        decreases rows.len() - k,
    {
        let ghost rest = capture_rows_view(rows@).subrange(k as int, rows@.len() as int);
        if rows[k].len() > 0 {
            match &rows[k][0] {
                Some(s) => {
                    return Some(String::from_str(s.as_str()));
                },
                None => {},
            }
        }
        assert(rest.drop_first() =~= capture_rows_view(rows@).subrange(k + 1, rows@.len() as int));
        k = k + 1;
    }
    None
}

/// The summary of a patch that names no file.
pub fn summary_from_diff_fallback(diff: &str) -> (r: String)
    ensures
        r@ == (if line_count(diff@) <= 2 {
            "Apply patch"@
        } else {
            "Apply multi-file patch"@
        }),
{
    let v = chars_of(diff);
    let lines = split_lines(&v);
    proof {
        lemma_split_nl_nonempty(v@);
    }
    let mut count = lines.len();
    if v.len() == 0 {
        count = 0;
    } else if v[v.len() - 1] == '\n' {
        count = count - 1;
    }
    if count <= 2 {
        String::from_str("Apply patch")
    } else {
        String::from_str("Apply multi-file patch")
    }
}

/// The summary of a search/replace block for `file`.
pub fn summary_from_search_replace(file: &str) -> (r: String)
    ensures
        r@ == search_replace_summary(file@),
{
    let t = trim_str(file);
    if t.as_str().unicode_len() == 0 {
        return String::from_str("Apply search/replace block");
    }
    let mut s = String::from_str("Apply search/replace to ");
    s.append(file);
    s
}

/// The patch payload of one unified diff.
fn patch_details_from_diff(diff: String, files: Vec<String>) -> (r: PatchDetails)
    ensures
        r.format == PatchFormat::Unified,
        r.diff == Some(diff),
        r.search_replace_blocks is None,
        r.files == files,
        patch_details_plain(r),
{
    let mut d = PatchDetails::default();
    d.diff = Some(diff);
    d.files = files;
    d
}

/// The patch payload of one search/replace block.
fn patch_details_from_search_replace(block: &SearchReplaceBlock) -> (r: PatchDetails)
    requires
        block.match_mode == MatchMode::Exact,
    ensures
        r.format == PatchFormat::SearchReplace,
        r.diff is None,
        match r.search_replace_blocks {
            Some(bs) => bs@.len() == 1 && block_view(bs@[0]) == block_view(*block)
                && bs@[0].match_mode == MatchMode::Exact,
            None => false,
        },
        views(r.files@) == if block.file@.len() == 0 {
            Seq::empty()
        } else {
            seq![block.file@]
        },
        patch_details_plain(r),
{
    let mut files: Vec<String> = Vec::new();
    if block.file.as_str().unicode_len() > 0 {
        files.push(String::from_str(block.file.as_str()));
    }
    assert(views(files@) =~= if block.file@.len() == 0 {
        Seq::empty()
    } else {
        seq![block.file@]
    });
    let copy = SearchReplaceBlock {
        file: String::from_str(block.file.as_str()),
        search: String::from_str(block.search.as_str()),
        replace: String::from_str(block.replace.as_str()),
        match_mode: MatchMode::Exact,
    };
    let mut blocks: Vec<SearchReplaceBlock> = Vec::new();
    blocks.push(copy);
    let mut d = PatchDetails::default();
    d.format = PatchFormat::SearchReplace;
    d.search_replace_blocks = Some(blocks);
    d.files = files;
    d
}

/// The parts of a parsed patch action that a reader sees: identifier, summary, risk,
/// approval flag, kind, and the patch payload's format, diff, blocks and files.
pub open spec fn action_model(a: ProposedAction) -> (
    Seq<char>,
    Seq<char>,
    u8,
    bool,
    ActionKindTag,
    Option<(PatchFormat, Option<Seq<char>>, Option<Seq<(Seq<char>, Seq<char>, Seq<char>)>>, Seq<Seq<char>>)>,
) {
    (
        a.id@,
        a.summary@,
        a.risk,
        a.requires_approval,
        a.kind,
        match a.details {
            ActionDetails::Patch(d) => Some(
                (
                    d.format,
                    opt_view(d.diff),
                    match d.search_replace_blocks {
                        Some(bs) => Some(bs@.map_values(|b: SearchReplaceBlock| block_view(b))),
                        None => None,
                    },
                    views(d.files@),
                ),
            ),
            _ => None,
        },
    )
}

/// Two parse results that agree: the same error, the same JSON text, or the same actions in
/// the same order.
pub open spec fn same_parse(r1: Result<ParsedResponse, NexusError>, r2: Result<ParsedResponse, NexusError>) -> bool {
    match (r1, r2) {
        (Err(NexusError::InvalidRunId(m1)), Err(NexusError::InvalidRunId(m2))) => m1@ == m2@,
        (Ok(ParsedResponse::JsonActions(t1)), Ok(ParsedResponse::JsonActions(t2))) => t1@ == t2@,
        (Ok(ParsedResponse::Actions(a1)), Ok(ParsedResponse::Actions(a2))) => a1@.len()
            == a2@.len() && forall|k: int|
            0 <= k < a1@.len() ==> action_model(#[trigger] a1@[k]) == action_model(a2@[k]),
        _ => false,
    }
}

/// Parsing is deterministic: parsing one response twice for one run identifier gives the
/// same actions, in the same order, with the same identifiers, summaries and payloads.
pub proof fn lemma_parse_idempotent(
    response: Seq<char>,
    run_id: Seq<char>,
    r1: Result<ParsedResponse, NexusError>,
    r2: Result<ParsedResponse, NexusError>,
)
    requires
        parse_outcome(response, run_id, r1),
        parse_outcome(response, run_id, r2),
    ensures
        same_parse(r1, r2),
{
    let s = normalize(response);
    if run_id_valid(run_id) && (unified_diffs(s).len() > 0 || search_replace_blocks(s).len() > 0) {
        if let (Ok(ParsedResponse::Actions(a1)), Ok(ParsedResponse::Actions(a2))) = (r1, r2) {
            assert forall|k: int| 0 <= k < a1@.len() implies action_model(#[trigger] a1@[k])
                == action_model(a2@[k]) by {
                if let (ActionDetails::Patch(d1), ActionDetails::Patch(d2)) = (
                    a1@[k].details,
                    a2@[k].details,
                ) {
                    if let (Some(b1), Some(b2)) = (d1.search_replace_blocks, d2.search_replace_blocks) {
                        assert(b1@.map_values(|b: SearchReplaceBlock| block_view(b)) =~= b2@.map_values(
                            |b: SearchReplaceBlock| block_view(b),
                        ));
                    }
                }
            }
        }
    }
}

} // verus!
