//! Document-level laws: properties that tie the extraction, the position
//! recovery and the validation together, proved once and for all inputs.

use vstd::prelude::*;

use crate::diagnostics::entry_findings;
use crate::diagnostics::invalid_format_finding;
use crate::diagnostics::is_required;
use crate::diagnostics::kwargs_msg;
use crate::diagnostics::last_dot_of;
use crate::diagnostics::missing_param_msg;
use crate::diagnostics::parameter_findings;
use crate::diagnostics::Fm;
use crate::diagnostics::FindingCode;
use crate::diagnostics::LoM;
use crate::diagnostics::Severity;
use crate::positions::doc_matches;
use crate::positions::with_param_positions;
use crate::python_analyzer::FsM;
use crate::target_extract::blank_entry;
use crate::target_extract::extract_entries;
use crate::target_extract::extract_list;
use crate::target_extract::extract_value;
use crate::target_extract::key_is_reserved;
use crate::target_extract::target_string_from;
use crate::target_extract::Em;
use crate::target_extract::Pm;
use crate::yaml_parser::document_arena;
use crate::yaml_value::Yk;
use crate::yaml_value::Yv;

verus! {

/// How many target mappings a value holds, itself included.
pub open spec fn count_value(v: Yv) -> nat
    decreases v, 1int, 0int,
{
    match v {
        Yv::Mapping(es) => (if target_string_from(es, 0) is Some {
            1nat
        } else {
            0nat
        }) + count_entries(es, 0),
        Yv::Sequence(items) => count_list(items, 0),
        _ => 0,
    }
}

/// How many target mappings the entry values from `i` on hold.
pub open spec fn count_entries(es: Seq<(Yk, Yv)>, i: int) -> nat
    decreases es, 0int, es.len() - i,
{
    if i < 0 || i >= es.len() {
        0
    } else {
        count_value(es[i].1) + count_entries(es, i + 1)
    }
}

/// How many target mappings the items from `i` on hold.
pub open spec fn count_list(items: Seq<Yv>, i: int) -> nat
    decreases items, 0int, items.len() - i,
{
    if i < 0 || i >= items.len() {
        0
    } else {
        count_value(items[i]) + count_list(items, i + 1)
    }
}

/// Walking a value appends exactly one arena entry per target mapping in
/// it: nesting produces one entry per nesting level.
pub proof fn lemma_extract_value_count(v: Yv, arena: Seq<Em>)
    ensures
        extract_value(v, arena).len() == arena.len() + count_value(v),
    decreases v, 1int, 0int,
{
    match v {
        Yv::Mapping(es) => match target_string_from(es, 0) {
            Some(tv) => {
                lemma_extract_entries_count(es, 0, true, arena.push(blank_entry(tv)), Seq::empty());
            },
            None => {
                lemma_extract_entries_count(es, 0, false, arena, Seq::empty());
            },
        },
        Yv::Sequence(items) => {
            lemma_extract_list_count(items, 0, arena);
        },
        _ => {},
    }
}

/// Walking mapping entries appends exactly one arena entry per target
/// mapping among their values.
pub proof fn lemma_extract_entries_count(
    es: Seq<(Yk, Yv)>,
    i: int,
    collect: bool,
    arena: Seq<Em>,
    ps: Seq<Pm>,
)
    ensures
        extract_entries(es, i, collect, arena, ps).0.len() == arena.len() + count_entries(es, i),
    decreases es, 0int, es.len() - i,
{
    if 0 <= i < es.len() {
        let v = es[i].1;
        lemma_extract_value_count(v, arena);
        let arena1 = extract_value(v, arena);
        let ps1 = crate::target_extract::extract_entries_step_params(es, i, collect, arena, ps);
        lemma_extract_entries_count(es, i + 1, collect, arena1, ps1);
    }
}

/// Walking sequence items appends exactly one arena entry per target
/// mapping among them.
pub proof fn lemma_extract_list_count(items: Seq<Yv>, i: int, arena: Seq<Em>)
    ensures
        extract_list(items, i, arena).len() == arena.len() + count_list(items, i),
    decreases items, 0int, items.len() - i,
{
    if 0 <= i < items.len() {
        lemma_extract_value_count(items[i], arena);
        lemma_extract_list_count(items, i + 1, extract_value(items[i], arena));
    }
}

/// A document whose value tree holds exactly one target mapping has an
/// arena of exactly one entry; when the text scan finds a key match, the
/// entry carries that match's line, key column and value column —
/// whatever quoting style the text used, since the scanner accepts the
/// bare key and both quoted forms.
pub proof fn lemma_single_target_arena(s: Seq<char>, tree: Yv, lines: Seq<(usize, usize)>)
    requires
        count_value(tree) == 1,
    ensures
        document_arena(s, tree, lines).len() == 1,
        doc_matches(s, lines, 0).len() >= 1 ==> {
            let e = document_arena(s, tree, lines)[0];
            let ms = doc_matches(s, lines, 0);
            e.line == ms[0].0 && e.key_start == ms[0].1 && e.value_start == ms[0].2
        },
{
    lemma_extract_value_count(tree, Seq::empty());
    let arena = extract_value(tree, Seq::empty());
    if doc_matches(s, lines, 0).len() >= 1 {
        crate::positions::lemma_with_positions_entry(s, lines, arena, 0);
    }
}

/// The keys that a mapping's entries from `i` on contribute as
/// parameters: its text keys, in source order, minus the reserved key.
pub open spec fn mapping_param_keys(es: Seq<(Yk, Yv)>, i: int) -> Seq<Seq<char>>
    decreases es.len() - i,
{
    if i < 0 || i >= es.len() {
        Seq::empty()
    } else {
        let rest = mapping_param_keys(es, i + 1);
        match es[i].0 {
            Yk::Text(k) => if key_is_reserved(es[i].0) {
                rest
            } else {
                seq![k] + rest
            },
            Yk::Other => rest,
        }
    }
}

/// The keys of a parameter list, in order.
pub open spec fn keys_of(ps: Seq<Pm>) -> Seq<Seq<char>> {
    Seq::new(ps.len(), |i: int| ps[i].key)
}

/// Collecting a target mapping's parameters keeps exactly the mapping's
/// keys minus the reserved key, in source order.
pub proof fn lemma_collected_keys(es: Seq<(Yk, Yv)>, i: int, arena: Seq<Em>, ps: Seq<Pm>)
    ensures
        keys_of(extract_entries(es, i, true, arena, ps).1) == keys_of(ps) + mapping_param_keys(
            es,
            i,
        ),
    decreases es.len() - i,
{
    if i < 0 || i >= es.len() {
        assert(keys_of(extract_entries(es, i, true, arena, ps).1) =~= keys_of(ps)
            + mapping_param_keys(es, i));
    } else {
        let v = es[i].1;
        let arena1 = extract_value(v, arena);
        let ps1 = crate::target_extract::extract_entries_step_params(es, i, true, arena, ps);
        lemma_collected_keys(es, i + 1, arena1, ps1);
        match es[i].0 {
            Yk::Text(k) => {
                if key_is_reserved(es[i].0) {
                } else {
                    assert(keys_of(ps1) =~= keys_of(ps).push(k));
                    assert(keys_of(ps).push(k) + mapping_param_keys(es, i + 1) =~= keys_of(ps) + (
                    seq![k] + mapping_param_keys(es, i + 1)));
                }
            },
            Yk::Other => {},
        }
    }
}

/// The parameter keys of a target mapping's arena entry are exactly the
/// mapping's keys minus the reserved key, in source order.
pub proof fn lemma_entry_param_keys(es: Seq<(Yk, Yv)>, tv: Seq<char>, arena: Seq<Em>)
    requires
        target_string_from(es, 0) == Some(tv),
    ensures
        ({
            let out = extract_value(Yv::Mapping(es), arena);
            keys_of(out[arena.len() as int].params) == mapping_param_keys(es, 0)
        }),
{
    lemma_collected_keys(es, 0, arena.push(blank_entry(tv)), Seq::empty());
    crate::target_extract::lemma_extract_entries_len(
        es,
        0,
        true,
        arena.push(blank_entry(tv)),
        Seq::empty(),
    );
    let r = extract_entries(es, 0, true, arena.push(blank_entry(tv)), Seq::empty());
    assert(keys_of(Seq::<Pm>::empty()) =~= Seq::<Seq<char>>::empty());
    assert(keys_of(Seq::<Pm>::empty()) + mapping_param_keys(es, 0) =~= mapping_param_keys(es, 0));
}

/// Position recovery never changes a parameter's key.
pub proof fn lemma_positions_keep_keys(ps: Seq<Pm>, slots: Seq<int>, c: int)
    ensures
        keys_of(with_param_positions(ps, slots, c)) == keys_of(ps),
{
    assert(keys_of(with_param_positions(ps, slots, c)) =~= keys_of(ps));
}

/// At the document level: when the whole document is one target mapping,
/// the arena entry's parameter keys are exactly the mapping's keys minus
/// the reserved key, in source order — position recovery changes no key.
pub proof fn lemma_document_param_keys(
    s: Seq<char>,
    es: Seq<(Yk, Yv)>,
    tv: Seq<char>,
    lines: Seq<(usize, usize)>,
)
    requires
        target_string_from(es, 0) == Some(tv),
    ensures
        keys_of(document_arena(s, Yv::Mapping(es), lines)[0].params) == mapping_param_keys(es, 0),
{
    lemma_entry_param_keys(es, tv, Seq::empty());
    let arena = extract_value(Yv::Mapping(es), Seq::empty());
    lemma_extract_value_count(Yv::Mapping(es), Seq::empty());
    crate::positions::lemma_with_positions_entry(s, lines, arena, 0);
    let ms = crate::positions::doc_matches(s, lines, 0);
    if 0 < ms.len() {
        lemma_positions_keep_keys(
            arena[0].params,
            crate::positions::param_slots(s, lines, ms[0].0 + 1, ms[0].1, arena[0].params.len()),
            ms[0].1,
        );
    }
}

/// A target whose dotted path has fewer than two components yields
/// exactly the format error, and its lookup outcome is never consulted:
/// resolution is not attempted.
pub proof fn lemma_invalid_format_stops(e: Em, o1: LoM, o2: LoM)
    requires
        last_dot_of(e.value) is None,
    ensures
        entry_findings(e, o1) == seq![invalid_format_finding(e)],
        entry_findings(e, o1) == entry_findings(e, o2),
{
}

/// A signature with one required parameter, against a target that
/// supplies none, yields exactly one finding: a missing-required-
/// parameter error with that parameter's name.
pub proof fn lemma_missing_required(e: Em, sig: FsM)
    requires
        e.params.len() == 0,
        sig.parameters.len() == 1,
        is_required(sig.parameters[0]),
    ensures
        parameter_findings(e, sig).len() == 1,
        parameter_findings(e, sig)[0].severity == Severity::Error,
        parameter_findings(e, sig)[0].code == FindingCode::MissingRequiredParameter,
        parameter_findings(e, sig)[0].message == missing_param_msg(
            sig.parameters[0].name,
            sig.name,
        ),
{
    assert(!crate::diagnostics::supplied_contains(e.params, sig.parameters[0].name));
    assert(crate::diagnostics::unknown_param_findings(e, sig, 0) =~= Seq::<Fm>::empty());
    assert(crate::diagnostics::missing_param_findings(e, sig, 1) =~= Seq::<Fm>::empty());
    let f = crate::diagnostics::missing_param_findings(e, sig, 0);
    assert(f =~= seq![f.first()] + Seq::<Fm>::empty());
    assert(parameter_findings(e, sig) =~= f);
    assert(f.len() == 1);
}

/// A signature with one required parameter and a keyword catch-all,
/// against a target that supplies that parameter and one extra key,
/// yields no error at all and exactly one hint naming the extra key.
pub proof fn lemma_kwargs_hint(e: Em, sig: FsM)
    requires
        sig.parameters.len() == 2,
        is_required(sig.parameters[0]),
        !sig.parameters[0].is_variadic_keyword,
        sig.parameters[1].is_variadic_keyword,
        e.params.len() == 2,
        e.params[0].key == sig.parameters[0].name,
        e.params[1].key != sig.parameters[0].name,
    ensures
        parameter_findings(e, sig).len() == 1,
        parameter_findings(e, sig)[0].severity == Severity::Hint,
        parameter_findings(e, sig)[0].message == kwargs_msg(e.params[1].key),
        forall|i: int|
            0 <= i < parameter_findings(e, sig).len() ==> (#[trigger] parameter_findings(
                e,
                sig,
            )[i]).severity != Severity::Error,
{
    assert(crate::diagnostics::has_kwargs(sig.parameters)) by {
        assert(sig.parameters[1].is_variadic_keyword);
    }
    assert(crate::diagnostics::expected_contains(sig.parameters, e.params[0].key)) by {
        assert(sig.parameters[0].name == e.params[0].key && crate::diagnostics::names_argument(
            sig.parameters[0],
        ));
    }
    assert(!crate::diagnostics::expected_contains(sig.parameters, e.params[1].key)) by {
        assert forall|i: int|
            0 <= i < sig.parameters.len() && (#[trigger] sig.parameters[i]).name == e.params[1].key
                implies !crate::diagnostics::names_argument(sig.parameters[i]) by {
            if i == 0 {
            }
        }
    }
    assert(crate::diagnostics::supplied_contains(e.params, sig.parameters[0].name)) by {
        assert(e.params[0].key == sig.parameters[0].name);
    }
    assert(crate::diagnostics::missing_param_findings(e, sig, 2) =~= Seq::<Fm>::empty());
    assert(!is_required(sig.parameters[1]));
    assert(crate::diagnostics::missing_param_findings(e, sig, 1) =~= Seq::<Fm>::empty());
    assert(crate::diagnostics::missing_param_findings(e, sig, 0) =~= Seq::<Fm>::empty());
    assert(crate::diagnostics::unknown_param_findings(e, sig, 2) =~= Seq::<Fm>::empty());
    let u1 = crate::diagnostics::unknown_param_findings(e, sig, 1);
    assert(u1 =~= seq![u1.first()] + Seq::<Fm>::empty());
    assert(u1.len() == 1);
    let u = crate::diagnostics::unknown_param_findings(e, sig, 0);
    assert(u == u1);
    assert(parameter_findings(e, sig) =~= u);
}

/// All findings of a document decompose around any one entry: the
/// entry's own findings stand in the list whatever the other entries
/// produced — a failure in one entry never suppresses another's report.
pub open spec fn document_findings_upto(a: Seq<Em>, os: Seq<LoM>, i: int, stop: int) -> Seq<Fm>
    decreases stop - i,
{
    if i < 0 || i >= stop || i >= a.len() || i >= os.len() {
        Seq::empty()
    } else {
        entry_findings(a[i], os[i]) + document_findings_upto(a, os, i + 1, stop)
    }
}

/// The whole document's findings are the findings before entry `i`, then
/// entry `i`'s findings, then the findings after it.
pub proof fn lemma_document_findings_split(a: Seq<Em>, os: Seq<LoM>, k: int, i: int)
    requires
        0 <= k <= i < a.len(),
        i < os.len(),
    ensures
        crate::diagnostics::document_findings(a, os, k) == document_findings_upto(a, os, k, i)
            + entry_findings(a[i], os[i]) + crate::diagnostics::document_findings(a, os, i + 1),
    decreases i - k,
{
    if k == i {
        assert(document_findings_upto(a, os, k, i) =~= Seq::<Fm>::empty());
        assert(document_findings_upto(a, os, k, i) + entry_findings(a[i], os[i])
            =~= entry_findings(a[i], os[i]));
    } else {
        lemma_document_findings_split(a, os, k + 1, i);
        assert(document_findings_upto(a, os, k, i) =~= entry_findings(a[k], os[k])
            + document_findings_upto(a, os, k + 1, i));
        assert((entry_findings(a[k], os[k]) + document_findings_upto(a, os, k + 1, i)
            + entry_findings(a[i], os[i]) + crate::diagnostics::document_findings(a, os, i + 1))
            =~= entry_findings(a[k], os[k]) + (document_findings_upto(a, os, k + 1, i)
            + entry_findings(a[i], os[i]) + crate::diagnostics::document_findings(a, os, i + 1)));
    }
}

} // verus!
