//! Position recovery: a second, tolerant scan of the raw text that gives
//! every arena entry its line and columns, and every parameter its line
//! and key span.
//!
//! The structural reader discards coordinates, so the scanner searches
//! each line for the reserved key — bare, or wrapped in one matching pair
//! of single or double quotes, followed by optional whitespace and a
//! colon — and hands the matches, in line order, to the arena entries in
//! their discovery order.  A target's `value_start` is the first
//! non-whitespace column after the colon, moved one further when that
//! character is an opening quote.  After a target's line is set, the
//! following lines whose leading indentation equals the target's
//! `key_start` are handed, in order, to its parameters.

use vstd::prelude::*;
use vstd::string::StrSliceExecFns;

use crate::target_extract::arena_model;
use crate::target_extract::reserved_key;
use crate::target_extract::Em;
use crate::target_extract::Parameter;
use crate::target_extract::Pm;
use crate::target_extract::TargetInfo;
use crate::text::is_ws;
use crate::text::match_at;

verus! {

/// A single or double quote.
pub open spec fn is_quote(c: char) -> bool {
    c == '"' || c == '\''
}

/// The first column at or after `j`, and before `b`, holding a
/// non-whitespace character; `b` when there is none.
pub open spec fn skip_ws_from(s: Seq<char>, b: int, j: int) -> int
    decreases b - j,
{
    if j < b && 0 <= j < s.len() && is_ws(s[j]) {
        skip_ws_from(s, b, j + 1)
    } else {
        j
    }
}

/// The reserved key stands bare at column `p` of the window ending at `b`.
pub open spec fn unquoted_key_at(s: Seq<char>, b: int, p: int) -> bool {
    p + reserved_key().len() <= b && match_at(s, reserved_key(), p)
}

/// The reserved key stands at column `p` wrapped in one matching pair of
/// single or double quotes.
pub open spec fn quoted_key_at(s: Seq<char>, b: int, p: int) -> bool {
    &&& 0 <= p
    &&& p + reserved_key().len() + 2 <= b
    &&& b <= s.len()
    &&& is_quote(s[p])
    &&& s[p + reserved_key().len() + 1] == s[p]
    &&& match_at(s, reserved_key(), p + 1)
}

/// The column just past the reserved key token (and its closing quote).
pub open spec fn key_end(s: Seq<char>, b: int, p: int) -> int {
    if unquoted_key_at(s, b, p) {
        p + reserved_key().len()
    } else {
        p + reserved_key().len() + 2
    }
}

/// The reserved key occurs at column `p`, followed by optional whitespace
/// and a colon, within the window ending at `b`.
pub open spec fn key_match_at(s: Seq<char>, b: int, p: int) -> bool {
    &&& (unquoted_key_at(s, b, p) || quoted_key_at(s, b, p))
    &&& {
        let j = skip_ws_from(s, b, key_end(s, b, p));
        j < b && 0 <= j < s.len() && s[j] == ':'
    }
}

/// The colon that closes the key match at column `p`.
pub open spec fn colon_of(s: Seq<char>, b: int, p: int) -> int {
    skip_ws_from(s, b, key_end(s, b, p))
}

/// Where the printed target value begins after the match at `p`: the
/// first non-whitespace column after the colon, one further when that
/// character is an opening quote; the window's end when nothing follows.
pub open spec fn value_col(s: Seq<char>, b: int, p: int) -> int {
    let w = skip_ws_from(s, b, colon_of(s, b, p) + 1);
    if w < b && 0 <= w < s.len() && is_quote(s[w]) {
        w + 1
    } else {
        w
    }
}

/// The first key match in the window `[a, b)`, if any.
pub open spec fn first_key_match(s: Seq<char>, a: int, b: int) -> Option<int>
    decreases b - a,
{
    if a >= b {
        None
    } else if key_match_at(s, b, a) {
        Some(a)
    } else {
        first_key_match(s, a + 1, b)
    }
}

/// All key matches of the document from line `k` on, in line order: for
/// each matching line, its index, the match column and the value column,
/// both relative to the line start.
pub open spec fn doc_matches(s: Seq<char>, r: Seq<(usize, usize)>, k: int) -> Seq<(int, int, int)>
    decreases r.len() - k,
{
    if k < 0 || k >= r.len() {
        Seq::empty()
    } else {
        let rest = doc_matches(s, r, k + 1);
        match first_key_match(s, r[k].0 as int, r[k].1 as int) {
            Some(p) => seq![(k, p - r[k].0, value_col(s, r[k].1 as int, p) - r[k].0)] + rest,
            None => rest,
        }
    }
}

/// The arena with each entry's line and columns taken, in order, from the
/// document's key matches; entries past the matches keep their zeros.
pub open spec fn with_target_positions(arena: Seq<Em>, ms: Seq<(int, int, int)>) -> Seq<Em> {
    Seq::new(
        arena.len(),
        |j: int|
            if j < ms.len() {
                Em {
                    value: arena[j].value,
                    line: ms[j].0,
                    key_start: ms[j].1,
                    value_start: ms[j].2,
                    params: arena[j].params,
                }
            } else {
                arena[j]
            },
    )
}

/// The leading indentation of a line window, relative to its start;
/// `None` for a line of nothing but whitespace.
pub open spec fn line_indent_rel(s: Seq<char>, w: (usize, usize)) -> Option<int> {
    let j = skip_ws_from(s, w.1 as int, w.0 as int);
    if j < w.1 {
        Some(j - w.0)
    } else {
        None
    }
}

/// The lines that carry a target's parameters: scanning from line `from`,
/// each line whose leading indentation equals `c` takes the next of the
/// `n` pending parameters.
pub open spec fn param_slots(s: Seq<char>, r: Seq<(usize, usize)>, from: int, c: int, n: nat) -> Seq<
    int,
>
    decreases r.len() - from,
{
    if from < 0 || from >= r.len() || n == 0 {
        Seq::empty()
    } else if line_indent_rel(s, r[from]) == Some(c) {
        seq![from] + param_slots(s, r, from + 1, c, (n - 1) as nat)
    } else {
        param_slots(s, r, from + 1, c, n)
    }
}

/// `x`, capped so that it fits a `u32` column.
pub open spec fn cap_u32(x: int) -> int {
    if x > u32::MAX as int {
        u32::MAX as int
    } else {
        x
    }
}

/// The parameters with their lines and key spans filled from the assigned
/// slots; parameters without a slot keep their zeros.  A parameter's key
/// span starts at the target's `key_start` indentation `c` and covers the
/// key's characters.
pub open spec fn with_param_positions(params: Seq<Pm>, slots: Seq<int>, c: int) -> Seq<Pm> {
    Seq::new(
        params.len(),
        |i: int|
            if i < slots.len() {
                Pm {
                    key: params[i].key,
                    line: cap_u32(slots[i]),
                    key_span: (c, cap_u32(c + params[i].key.len())),
                    value: params[i].value,
                }
            } else {
                params[i]
            },
    )
}

/// The whole arena after position recovery over text `s` with line
/// partition `r`.
pub open spec fn with_positions(s: Seq<char>, r: Seq<(usize, usize)>, arena: Seq<Em>) -> Seq<Em> {
    let ms = doc_matches(s, r, 0);
    let a1 = with_target_positions(arena, ms);
    Seq::new(
        a1.len(),
        |j: int|
            if j < ms.len() {
                Em {
                    value: a1[j].value,
                    line: a1[j].line,
                    key_start: a1[j].key_start,
                    value_start: a1[j].value_start,
                    params: with_param_positions(
                        a1[j].params,
                        param_slots(s, r, a1[j].line + 1, a1[j].key_start, a1[j].params.len()),
                        a1[j].key_start,
                    ),
                }
            } else {
                a1[j]
            },
    )
}

/// Everything the whitespace skip passes over is whitespace.
pub proof fn lemma_skip_ws_all_ws(s: Seq<char>, b: int, j: int)
    ensures
        forall|t: int| j <= t < skip_ws_from(s, b, j) ==> is_ws(s[t]),
    decreases b - j,
{
    if j < b && 0 <= j < s.len() && is_ws(s[j]) {
        lemma_skip_ws_all_ws(s, b, j + 1);
    }
}

/// What the recovered value column means in the text: between the
/// match's colon and the value column stand only whitespace and, directly
/// before the value, at most one opening quote.  The value column is
/// therefore the first character of the printed target string, whether
/// the key or the value is quoted or not.
pub proof fn lemma_value_col_meaning(s: Seq<char>, b: int, p: int)
    requires
        key_match_at(s, b, p),
    ensures
        ({
            let c = colon_of(s, b, p);
            let w = skip_ws_from(s, b, c + 1);
            &&& c < value_col(s, b, p) <= b
            &&& forall|j: int| c < j < w ==> is_ws(s[j])
            &&& (value_col(s, b, p) == w || (0 <= w < s.len() && is_quote(s[w]) && value_col(
                s,
                b,
                p,
            ) == w + 1))
        }),
{
    let c = colon_of(s, b, p);
    lemma_skip_ws_all_ws(s, b, c + 1);
    lemma_skip_ws_bounds(s, b, c + 1);
}

/// `skip_ws_from` stays within `[j, b]` when it starts there.
pub proof fn lemma_skip_ws_bounds(s: Seq<char>, b: int, j: int)
    ensures
        skip_ws_from(s, b, j) >= j,
        j <= b ==> skip_ws_from(s, b, j) <= b,
    decreases b - j,
{
    if j < b && 0 <= j < s.len() && is_ws(s[j]) {
        lemma_skip_ws_bounds(s, b, j + 1);
    }
}

/// Computes `skip_ws_from`.
pub fn skip_ws_exec(v: &Vec<char>, b: usize, j: usize) -> (r: usize)
    requires
        j <= b <= v@.len(),
    ensures
        r == skip_ws_from(v@, b as int, j as int),
        j <= r <= b,
{
    let mut i: usize = j;
    while i < b
        invariant
            j <= i <= b <= v@.len(),
            skip_ws_from(v@, b as int, i as int) == skip_ws_from(v@, b as int, j as int),
        decreases b - i,
    {
        let c = v[i];
        if !(c == ' ' || c == '\t') {
            proof {
                lemma_skip_ws_bounds(v@, b as int, j as int);
            }
            return i;
        }
        i = i + 1;
    }
    proof {
        lemma_skip_ws_bounds(v@, b as int, j as int);
    }
    b
}

/// Tests for a key match at column `p` of the window ending at `b`.
pub fn key_match_at_exec(v: &Vec<char>, pat: &Vec<char>, b: usize, p: usize) -> (r: bool)
    requires
        pat@ == reserved_key(),
        p <= b,
        b <= v@.len(),
    ensures
        r == key_match_at(v@, b as int, p as int),
{
    proof {
        reveal_strlit("_target_");
        assert(pat@.len() == 8);
    }
    let kl = pat.len();
    let unq = b - p >= kl && crate::text::occurs_at(v, pat, p);
    let qed = b - p >= kl + 2 && {
        let c0 = v[p];
        (c0 == '"' || c0 == '\'') && v[p + kl + 1] == c0 && crate::text::occurs_at(v, pat, p + 1)
    };
    if !(unq || qed) {
        return false;
    }
    let e: usize = if unq {
        p + kl
    } else {
        p + kl + 2
    };
    proof {
        assert(e as int == key_end(v@, b as int, p as int));
    }
    let j = skip_ws_exec(v, b, e);
    j < b && v[j] == ':'
}

/// Computes the value column for the match at `p`.
pub fn value_col_exec(v: &Vec<char>, pat: &Vec<char>, b: usize, p: usize) -> (r: usize)
    requires
        pat@ == reserved_key(),
        p <= b,
        b <= v@.len(),
        key_match_at(v@, b as int, p as int),
    ensures
        r == value_col(v@, b as int, p as int),
        p <= r <= b,
{
    proof {
        reveal_strlit("_target_");
        assert(pat@.len() == 8);
    }
    let kl = pat.len();
    let unq = b - p >= kl && crate::text::occurs_at(v, pat, p);
    let e: usize = if unq {
        p + kl
    } else {
        p + kl + 2
    };
    proof {
        assert(e as int == key_end(v@, b as int, p as int));
        lemma_skip_ws_bounds(v@, b as int, e as int);
    }
    let colon = skip_ws_exec(v, b, e);
    let w = skip_ws_exec(v, b, colon + 1);
    if w < b {
        let c = v[w];
        if c == '"' || c == '\'' {
            return w + 1;
        }
    }
    w
}

/// A reported first match is a key match inside the window.
pub proof fn lemma_first_key_match(s: Seq<char>, a: int, b: int)
    ensures
        first_key_match(s, a, b) matches Some(p) ==> a <= p < b && key_match_at(s, b, p),
    decreases b - a,
{
    if a < b && !key_match_at(s, b, a) {
        lemma_first_key_match(s, a + 1, b);
    }
}

/// Finds the first key match in the window `[a, b)`.
#[verifier::loop_isolation(false)]
pub fn first_key_match_exec(v: &Vec<char>, pat: &Vec<char>, a: usize, b: usize) -> (r: Option<
    usize,
>)
    requires
        pat@ == reserved_key(),
        a <= b <= v@.len(),
    ensures
        match r {
            Some(p) => a <= p < b && Some(p as int) == first_key_match(v@, a as int, b as int),
            None => first_key_match(v@, a as int, b as int) is None,
        },
{
    let mut p: usize = a;
    while p < b
        invariant
            a <= p <= b <= v@.len(),
            first_key_match(v@, p as int, b as int) == first_key_match(v@, a as int, b as int),
        decreases b - p,
    {
        if key_match_at_exec(v, pat, b, p) {
            return Some(p);
        }
        p = p + 1;
    }
    None
}

/// Model of a collected match list.
pub open spec fn ms_model(ms: Seq<(usize, u32, u32)>) -> Seq<(int, int, int)> {
    Seq::new(ms.len(), |i: int| (ms[i].0 as int, ms[i].1 as int, ms[i].2 as int))
}

/// Model of a collected slot list.
pub open spec fn slots_model(slots: Seq<usize>) -> Seq<int> {
    Seq::new(slots.len(), |i: int| slots[i] as int)
}

/// In a line partition, line `k` starts no earlier than position `k`.
pub proof fn lemma_partition_starts(s: Seq<char>, r: Seq<(usize, usize)>, k: int)
    requires
        crate::text::is_line_partition(s, r),
        0 <= k < r.len(),
    ensures
        k <= r[k].0,
    decreases k,
{
    if k > 0 {
        lemma_partition_starts(s, r, k - 1);
    }
}

/// Collects every line's first key match, in line order.
#[verifier::loop_isolation(false)]
pub fn collect_matches(v: &Vec<char>, lines: &Vec<(usize, usize)>, pat: &Vec<char>) -> (ms: Vec<
    (usize, u32, u32),
>)
    requires
        pat@ == reserved_key(),
        crate::text::is_line_partition(v@, lines@),
        v@.len() <= u32::MAX,
    ensures
        ms_model(ms@) == doc_matches(v@, lines@, 0),
{
    let mut ms: Vec<(usize, u32, u32)> = Vec::new();
    let mut k: usize = 0;
    proof {
        assert(ms_model(ms@) =~= Seq::<(int, int, int)>::empty());
    }
    while k < lines.len()
        invariant
            k <= lines@.len(),
            ms_model(ms@) + doc_matches(v@, lines@, k as int) == doc_matches(v@, lines@, 0),
        decreases lines@.len() - k,
    {
        let (a, b) = lines[k];
        let ghost ms_before = ms_model(ms@);
        match first_key_match_exec(v, pat, a, b) {
            Some(p) => {
                proof {
                    lemma_first_key_match(v@, a as int, b as int);
                }
                let vc = value_col_exec(v, pat, b, p);
                proof {
                    lemma_skip_ws_bounds(v@, b as int, key_end(v@, b as int, p as int));
                }
                ms.push((k, (p - a) as u32, (vc - a) as u32));
                proof {
                    let head = (
                        k as int,
                        p - a,
                        value_col(v@, b as int, p as int) - a,
                    );
                    assert(ms_model(ms@) =~= ms_before.push(head));
                    assert(ms_before.push(head) + doc_matches(v@, lines@, k + 1) =~= ms_before + (
                    seq![head] + doc_matches(v@, lines@, k + 1)));
                }
            },
            None => {},
        }
        k = k + 1;
    }
    ms
}

/// Collects the lines that take the next `n` parameters of a target whose
/// key starts at column `c`, scanning from line `from`.
#[verifier::loop_isolation(false)]
pub fn collect_param_slots(
    v: &Vec<char>,
    lines: &Vec<(usize, usize)>,
    from: usize,
    c: u32,
    n: usize,
) -> (slots: Vec<usize>)
    requires
        forall|k: int| 0 <= k < lines@.len() ==> (#[trigger] lines@[k]).0 <= lines@[k].1 <= v@.len(),
    ensures
        slots_model(slots@) == param_slots(v@, lines@, from as int, c as int, n as nat),
{
    let mut slots: Vec<usize> = Vec::new();
    let mut ln: usize = from;
    let mut rem: usize = n;
    proof {
        assert(slots_model(slots@) =~= Seq::<int>::empty());
    }
    while ln < lines.len() && rem > 0
        invariant
            from <= ln,
            rem <= n,
            slots_model(slots@) + param_slots(v@, lines@, ln as int, c as int, rem as nat)
                == param_slots(v@, lines@, from as int, c as int, n as nat),
        decreases lines@.len() - ln,
    {
        let (a, b) = lines[ln];
        let ghost slots_before = slots_model(slots@);
        let j = skip_ws_exec(v, b, a);
        let taken = j < b && j - a == c as usize;
        if taken {
            slots.push(ln);
            rem = rem - 1;
            proof {
                assert(line_indent_rel(v@, lines@[ln as int]) == Some(c as int));
                assert(slots_model(slots@) =~= slots_before.push(ln as int));
                assert(slots_before.push(ln as int) + param_slots(
                    v@,
                    lines@,
                    ln + 1,
                    c as int,
                    rem as nat,
                ) =~= slots_before + (seq![ln as int] + param_slots(
                    v@,
                    lines@,
                    ln + 1,
                    c as int,
                    rem as nat,
                )));
            }
        } else {
            proof {
                assert(line_indent_rel(v@, lines@[ln as int]) != Some(c as int));
            }
        }
        ln = ln + 1;
    }
    proof {
        assert(param_slots(v@, lines@, ln as int, c as int, rem as nat) =~= Seq::<int>::empty());
    }
    slots
}

/// Rebuilds a parameter list with the positions its slots assign.
#[verifier::loop_isolation(false)]
pub fn place_params(params: Vec<Parameter>, slots: &Vec<usize>, c: u32) -> (out: Vec<Parameter>)
    ensures
        crate::target_extract::params_model(out@) == with_param_positions(
            crate::target_extract::params_model(params@),
            slots_model(slots@),
            c as int,
        ),
{
    let ghost pm0 = crate::target_extract::params_model(params@);
    let mut src = params;
    let n0 = src.len();
    let mut out: Vec<Parameter> = Vec::new();
    let mut i: usize = 0;
    while src.len() > 0
        invariant
            out@.len() == i,
            i + src@.len() == pm0.len(),
            pm0.len() == n0,
            forall|jj: int|
                0 <= jj < src@.len() ==> (#[trigger] src@[jj]).model() == pm0[i + jj],
            forall|jj: int|
                0 <= jj < i ==> (#[trigger] out@[jj]).model() == with_param_positions(
                    pm0,
                    slots_model(slots@),
                    c as int,
                )[jj],
        decreases src@.len(),
    {
        let p = src.remove(0);
        proof {
            assert(p.model() == pm0[i as int]);
        }
        if i < slots.len() {
            let slot = slots[i];
            let line32: u32 = if slot >= u32::MAX as usize {
                u32::MAX
            } else {
                slot as u32
            };
            let klen: usize = p.key.as_str().unicode_len();
            let room: u32 = u32::MAX - c;
            let end32: u32 = if klen >= room as usize {
                u32::MAX
            } else {
                c + (klen as u32)
            };
            let placed = Parameter {
                key: p.key,
                line: line32,
                key_span: (c, end32),
                value: p.value,
            };
            out.push(placed);
        } else {
            out.push(p);
        }
        i = i + 1;
    }
    proof {
        assert(crate::target_extract::params_model(out@) =~= with_param_positions(
            pm0,
            slots_model(slots@),
            c as int,
        ));
    }
    out
}

/// One entry after position recovery, given the document's match list.
/// One entry after position recovery, given the document's match list.
pub open spec fn positioned_entry(
    s: Seq<char>,
    r: Seq<(usize, usize)>,
    ms: Seq<(int, int, int)>,
    e: Em,
    j: int,
) -> Em {
    if j < ms.len() {
        Em {
            value: e.value,
            line: ms[j].0,
            key_start: ms[j].1,
            value_start: ms[j].2,
            params: with_param_positions(
                e.params,
                param_slots(s, r, ms[j].0 + 1, ms[j].1, e.params.len()),
                ms[j].1,
            ),
        }
    } else {
        e
    }
}

/// `with_positions` works entry by entry.
pub proof fn lemma_with_positions_entry(s: Seq<char>, r: Seq<(usize, usize)>, arena: Seq<Em>, j: int)
    requires
        0 <= j < arena.len(),
    ensures
        with_positions(s, r, arena).len() == arena.len(),
        with_positions(s, r, arena)[j] == positioned_entry(s, r, doc_matches(s, r, 0), arena[j], j),
{
}

/// Rebuilds one entry with its recovered position and parameter slots.
#[verifier::rlimit(50)]
pub fn place_entry(
    v: &Vec<char>,
    lines: &Vec<(usize, usize)>,
    e: TargetInfo,
    line: usize,
    key_col: u32,
    val_col: u32,
) -> (out: TargetInfo)
    requires
        crate::text::is_line_partition(v@, lines@),
        v@.len() <= u32::MAX,
        line < lines@.len(),
    ensures
        out.model() == (Em {
            value: e.model().value,
            line: line as int,
            key_start: key_col as int,
            value_start: val_col as int,
            params: with_param_positions(
                e.model().params,
                param_slots(v@, lines@, line + 1, key_col as int, e.model().params.len()),
                key_col as int,
            ),
        }),
{
    let ghost em0 = e.model();
    let ghost pm0 = crate::target_extract::params_model(e.parameters@);
    let line_count = lines.len();
    proof {
        lemma_partition_starts(v@, lines@, line as int);
        assert(em0.params =~= pm0);
        assert(forall|k: int|
            0 <= k < lines@.len() ==> (#[trigger] lines@[k]).0 <= lines@[k].1 <= v@.len());
    }
    let slots = collect_param_slots(v, lines, line + 1, key_col, e.parameters.len());
    let placed = place_params(e.parameters, &slots, key_col);
    let filled = TargetInfo {
        value: e.value,
        line: line as u32,
        key_start: key_col,
        value_start: val_col,
        parameters: placed,
    };
    proof {
        let fm = filled.model();
        assert(fm.params =~= crate::target_extract::params_model(placed@));
        assert(fm.params == with_param_positions(
            em0.params,
            param_slots(v@, lines@, line + 1, key_col as int, em0.params.len()),
            key_col as int,
        ));
    }
    filled
}

/// Gives every arena entry, and every parameter, its recovered position.
/// Gives every arena entry, and every parameter, its recovered position.
#[verifier::rlimit(50)]
#[verifier::loop_isolation(false)]
pub fn recover_positions(
    v: &Vec<char>,
    lines: &Vec<(usize, usize)>,
    arena: Vec<TargetInfo>,
) -> (out: Vec<TargetInfo>)
    requires
        crate::text::is_line_partition(v@, lines@),
        v@.len() <= u32::MAX,
    ensures
        arena_model(out@) == with_positions(v@, lines@, arena_model(arena@)),
{
    let mut pat = crate::text::chars_of("_target_");
    proof {
        reveal_strlit("_target_");
        assert(pat@ =~= reserved_key());
    }
    let ms = collect_matches(v, lines, &pat);
    let ghost a0 = arena_model(arena@);
    let ghost msm = ms_model(ms@);
    let ghost goal = with_positions(v@, lines@, a0);
    let mut src = arena;
    let n0 = src.len();
    let mut out: Vec<TargetInfo> = Vec::new();
    let mut j: usize = 0;
    while src.len() > 0
        invariant
            out@.len() == j,
            j + src@.len() == a0.len(),
            a0.len() == n0,
            forall|jj: int|
                0 <= jj < src@.len() ==> (#[trigger] src@[jj]).model() == a0[j + jj],
            forall|jj: int| 0 <= jj < j ==> (#[trigger] out@[jj]).model() == goal[jj],
        decreases src@.len(),
    {
        let e = src.remove(0);
        proof {
            assert(e.model() == a0[j as int]);
            lemma_with_positions_entry(v@, lines@, a0, j as int);
        }
        if j < ms.len() {
            let (line, key_col, val_col) = ms[j];
            proof {
                assert(msm[j as int] == (line as int, key_col as int, val_col as int));
                lemma_doc_matches_lines(v@, lines@, 0, j as int);
            }
            let filled = place_entry(v, lines, e, line, key_col, val_col);
            out.push(filled);
            proof {
                assert(filled.model() == goal[j as int]);
            }
        } else {
            out.push(e);
            proof {
                assert(out@[j as int].model() == goal[j as int]);
            }
        }
        j = j + 1;
    }
    proof {
        assert(arena_model(out@) =~= goal);
    }
    out
}

/// Every line index a match list reports lies within the partition.
pub proof fn lemma_doc_matches_lines(s: Seq<char>, r: Seq<(usize, usize)>, k: int, j: int)
    requires
        0 <= j < doc_matches(s, r, k).len(),
        0 <= k,
    ensures
        k <= doc_matches(s, r, k)[j].0 < r.len(),
    decreases r.len() - k,
{
    if k < r.len() {
        match first_key_match(s, r[k].0 as int, r[k].1 as int) {
            Some(p) => {
                if j > 0 {
                    lemma_doc_matches_lines(s, r, k + 1, j - 1);
                }
            },
            None => {
                lemma_doc_matches_lines(s, r, k + 1, j);
            },
        }
    }
}

/// Every slot a parameter scan reports lies within the partition.
pub proof fn lemma_param_slots_lines(s: Seq<char>, r: Seq<(usize, usize)>, from: int, c: int, n: nat)
    ensures
        forall|i: int|
            0 <= i < param_slots(s, r, from, c, n).len() ==> from <= #[trigger] param_slots(
                s,
                r,
                from,
                c,
                n,
            )[i] < r.len(),
    decreases r.len() - from,
{
    if 0 <= from < r.len() && n > 0 {
        if line_indent_rel(s, r[from]) == Some(c) {
            lemma_param_slots_lines(s, r, from + 1, c, (n - 1) as nat);
            let tail = param_slots(s, r, from + 1, c, (n - 1) as nat);
            let whole = param_slots(s, r, from, c, n);
            assert forall|i: int| 0 <= i < whole.len() implies from <= #[trigger] whole[i]
                < r.len() by {
                if i > 0 {
                    assert(whole[i] == tail[i - 1]);
                }
            }
        } else {
            lemma_param_slots_lines(s, r, from + 1, c, n);
            let tail = param_slots(s, r, from + 1, c, n);
            let whole = param_slots(s, r, from, c, n);
            assert forall|i: int| 0 <= i < whole.len() implies from <= #[trigger] whole[i]
                < r.len() by {
                assert(whole[i] == tail[i]);
            }
        }
    }
}

} // verus!
