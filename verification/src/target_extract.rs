//! Target extraction: walking a YAML value tree and building the arena of
//! target references, in document (pre-order, depth-first) discovery order.
//!
//! A mapping is a target mapping exactly when one of its keys — after
//! optionally stripping one layer of matching single or double quotes —
//! equals the reserved key, and that key's value is a string scalar.  Every
//! other key of such a mapping becomes a parameter: a nested target mapping
//! is registered in the arena first and referenced by index; any other
//! value is kept verbatim.  Mappings that are not target mappings, and
//! sequences, are walked transparently.

use vstd::prelude::*;
use vstd::string::StrSliceExecFns;

use crate::text::str_view_eq;
use crate::yaml_value::model_entries;
use crate::yaml_value::model_list;
use crate::yaml_value::lemma_model_entries;
use crate::yaml_value::lemma_model_list;
use crate::yaml_value::YamlKey;
use crate::yaml_value::YamlValue;
use crate::yaml_value::Yk;
use crate::yaml_value::Yv;

verus! {

/// The value of one parameter of a target reference: a verbatim value-tree
/// node, or the arena index of a nested target reference.
pub enum ParamValue {
    Scalar(YamlValue),
    Nested(usize),
}

/// One parameter of a target reference, with its recovered position.
pub struct Parameter {
    pub key: String,
    pub line: u32,
    pub key_span: (u32, u32),
    pub value: ParamValue,
}

/// One target reference: the dotted symbol text, its recovered position,
/// and its parameters in source order.
pub struct TargetInfo {
    pub value: String,
    pub line: u32,
    pub key_start: u32,
    pub value_start: u32,
    pub parameters: Vec<Parameter>,
}

/// Model of a parameter value.
pub enum Pv {
    Scalar(Yv),
    Nested(int),
}

/// Model of a parameter.
pub struct Pm {
    pub key: Seq<char>,
    pub line: int,
    pub key_span: (int, int),
    pub value: Pv,
}

/// Model of a target reference.
pub struct Em {
    pub value: Seq<char>,
    pub line: int,
    pub key_start: int,
    pub value_start: int,
    pub params: Seq<Pm>,
}

impl ParamValue {
    /// The parameter value's model.
    pub open spec fn model(self) -> Pv {
        match self {
            ParamValue::Scalar(v) => Pv::Scalar(v.model()),
            ParamValue::Nested(i) => Pv::Nested(i as int),
        }
    }
}

impl Parameter {
    /// The parameter's model.
    pub open spec fn model(self) -> Pm {
        Pm {
            key: self.key@,
            line: self.line as int,
            key_span: (self.key_span.0 as int, self.key_span.1 as int),
            value: self.value.model(),
        }
    }
}

impl TargetInfo {
    /// The target reference's model.
    pub open spec fn model(self) -> Em {
        Em {
            value: self.value@,
            line: self.line as int,
            key_start: self.key_start as int,
            value_start: self.value_start as int,
            params: Seq::new(self.parameters@.len(), |i: int| self.parameters@[i].model()),
        }
    }
}

/// The models of a whole arena, in order.
pub open spec fn arena_model(a: Seq<TargetInfo>) -> Seq<Em> {
    Seq::new(a.len(), |i: int| a[i].model())
}

/// The reserved key that marks a target mapping.
pub open spec fn reserved_key() -> Seq<char> {
    "_target_"@
}

/// One layer of matching single or double quotes removed, when present.
pub open spec fn strip_quotes(s: Seq<char>) -> Seq<char> {
    if s.len() >= 2 && ((s.first() == '"' && s.last() == '"') || (s.first() == '\'' && s.last()
        == '\'')) {
        s.subrange(1, s.len() - 1)
    } else {
        s
    }
}

/// Whether a mapping key denotes the reserved key.
pub open spec fn key_is_reserved(k: Yk) -> bool {
    k matches Yk::Text(t) && strip_quotes(t) == reserved_key()
}

/// The target string of a mapping, searched from entry `i` on: the value
/// of the first reserved key, provided that value is a string scalar.
pub open spec fn target_string_from(es: Seq<(Yk, Yv)>, i: int) -> Option<Seq<char>>
    decreases es.len() - i,
{
    if i < 0 || i >= es.len() {
        None
    } else if key_is_reserved(es[i].0) {
        match es[i].1 {
            Yv::Str(s) => Some(s),
            _ => None,
        }
    } else {
        target_string_from(es, i + 1)
    }
}

/// Whether a value is a target mapping.
pub open spec fn is_target_mapping(v: Yv) -> bool {
    v matches Yv::Mapping(es) && target_string_from(es, 0) is Some
}

/// A fresh arena entry for target string `tv`, before position recovery
/// and parameter collection.
pub open spec fn blank_entry(tv: Seq<char>) -> Em {
    Em { value: tv, line: 0, key_start: 0, value_start: 0, params: Seq::empty() }
}

/// The arena after walking value `v`.
pub open spec fn extract_value(v: Yv, arena: Seq<Em>) -> Seq<Em>
    decreases v, 1int, 0int,
{
    match v {
        Yv::Mapping(es) => match target_string_from(es, 0) {
            Some(tv) => {
                let idx = arena.len() as int;
                let r = extract_entries(es, 0, true, arena.push(blank_entry(tv)), Seq::empty());
                r.0.update(
                    idx,
                    Em { value: tv, line: 0, key_start: 0, value_start: 0, params: r.1 },
                )
            },
            None => extract_entries(es, 0, false, arena, Seq::empty()).0,
        },
        Yv::Sequence(items) => extract_list(items, 0, arena),
        _ => arena,
    }
}

/// The arena and collected parameters after walking the entries of one
/// mapping from entry `i` on.  `collect` says whether the mapping is a
/// target mapping, so that its non-reserved text keys become parameters.
pub open spec fn extract_entries(
    es: Seq<(Yk, Yv)>,
    i: int,
    collect: bool,
    arena: Seq<Em>,
    ps: Seq<Pm>,
) -> (Seq<Em>, Seq<Pm>)
    decreases es, 0int, es.len() - i,
{
    if i < 0 || i >= es.len() {
        (arena, ps)
    } else {
        let k = es[i].0;
        let v = es[i].1;
        let child = arena.len() as int;
        let arena1 = extract_value(v, arena);
        let ps1 = match k {
            Yk::Text(ks) => if collect && !key_is_reserved(k) {
                ps.push(
                    Pm {
                        key: ks,
                        line: 0,
                        key_span: (0, 0),
                        value: if is_target_mapping(v) {
                            Pv::Nested(child)
                        } else {
                            Pv::Scalar(v)
                        },
                    },
                )
            } else {
                ps
            },
            Yk::Other => ps,
        };
        extract_entries(es, i + 1, collect, arena1, ps1)
    }
}

/// The arena after walking the items of a sequence from item `i` on.
pub open spec fn extract_list(items: Seq<Yv>, i: int, arena: Seq<Em>) -> Seq<Em>
    decreases items, 0int, items.len() - i,
{
    if i < 0 || i >= items.len() {
        arena
    } else {
        extract_list(items, i + 1, extract_value(items[i], arena))
    }
}

/// The models of a parameter list, in order.
pub open spec fn params_model(ps: Seq<Parameter>) -> Seq<Pm> {
    Seq::new(ps.len(), |i: int| ps[i].model())
}

/// Walking a value never removes arena entries.
pub proof fn lemma_extract_value_len(v: Yv, arena: Seq<Em>)
    ensures
        extract_value(v, arena).len() >= arena.len(),
    decreases v, 1int, 0int,
{
    match v {
        Yv::Mapping(es) => match target_string_from(es, 0) {
            Some(tv) => {
                lemma_extract_entries_len(es, 0, true, arena.push(blank_entry(tv)), Seq::empty());
            },
            None => {
                lemma_extract_entries_len(es, 0, false, arena, Seq::empty());
            },
        },
        Yv::Sequence(items) => {
            lemma_extract_list_len(items, 0, arena);
        },
        _ => {},
    }
}

/// Walking mapping entries never removes arena entries, and only appends
/// to the collected parameters.
pub proof fn lemma_extract_entries_len(
    es: Seq<(Yk, Yv)>,
    i: int,
    collect: bool,
    arena: Seq<Em>,
    ps: Seq<Pm>,
)
    ensures
        extract_entries(es, i, collect, arena, ps).0.len() >= arena.len(),
        extract_entries(es, i, collect, arena, ps).1.len() >= ps.len(),
    decreases es, 0int, es.len() - i,
{
    if 0 <= i < es.len() {
        let v = es[i].1;
        lemma_extract_value_len(v, arena);
        let arena1 = extract_value(v, arena);
        let ps1 = extract_entries_step_params(es, i, collect, arena, ps);
        lemma_extract_entries_len(es, i + 1, collect, arena1, ps1);
    }
}

/// The parameter list after one entry step (a helper to speak about the
/// step without repeating its definition).
pub open spec fn extract_entries_step_params(
    es: Seq<(Yk, Yv)>,
    i: int,
    collect: bool,
    arena: Seq<Em>,
    ps: Seq<Pm>,
) -> Seq<Pm> {
    let k = es[i].0;
    let v = es[i].1;
    match k {
        Yk::Text(ks) => if collect && !key_is_reserved(k) {
            ps.push(
                Pm {
                    key: ks,
                    line: 0,
                    key_span: (0, 0),
                    value: if is_target_mapping(v) {
                        Pv::Nested(arena.len() as int)
                    } else {
                        Pv::Scalar(v)
                    },
                },
            )
        } else {
            ps
        },
        Yk::Other => ps,
    }
}

/// Walking sequence items never removes arena entries.
pub proof fn lemma_extract_list_len(items: Seq<Yv>, i: int, arena: Seq<Em>)
    ensures
        extract_list(items, i, arena).len() >= arena.len(),
    decreases items, 0int, items.len() - i,
{
    if 0 <= i < items.len() {
        lemma_extract_value_len(items[i], arena);
        lemma_extract_list_len(items, i + 1, extract_value(items[i], arena));
    }
}

/// Whether a value is a target mapping.
pub fn is_target_mapping_exec(v: &YamlValue) -> (r: bool)
    ensures
        r == is_target_mapping(v.model()),
{
    match v {
        YamlValue::Mapping(entries) => find_target_string(entries).is_some(),
        _ => false,
    }
}

/// Walks one value and appends every target reference found in it to the
/// arena, in discovery order, with all positions still zero.
#[verifier::loop_isolation(false)]
pub fn extract_value_into(v: &YamlValue, arena: &mut Vec<TargetInfo>)
    ensures
        arena_model(final(arena)@) == extract_value(v.model(), arena_model(old(arena)@)),
    decreases *v, 1int, 0int,
{
    let ghost am0 = arena_model(arena@);
    match v {
        YamlValue::Mapping(entries) => {
            proof {
                lemma_model_entries(entries@);
            }
            let ghost esm = model_entries(entries@);
            match find_target_string(entries) {
                Some(tv) => {
                    let ghost tvm = tv@;
                    let idx = arena.len();
                    let tv2 = tv.clone();
                    let blank = TargetInfo {
                        value: tv,
                        line: 0,
                        key_start: 0,
                        value_start: 0,
                        parameters: Vec::new(),
                    };
                    proof {
                        assert(blank.model().params =~= Seq::<Pm>::empty());
                        assert(blank.model() == blank_entry(tvm));
                    }
                    arena.push(blank);
                    proof {
                        assert(arena_model(arena@) =~= am0.push(blank_entry(tvm)));
                    }
                    let ps = extract_entries_into(entries, true, arena);
                    proof {
                        lemma_extract_entries_len(esm, 0, true, am0.push(blank_entry(tvm)), Seq::empty());
                    }
                    let filled = TargetInfo {
                        value: tv2,
                        line: 0,
                        key_start: 0,
                        value_start: 0,
                        parameters: ps,
                    };
                    arena[idx] = filled;
                    proof {
                        let r = extract_entries(esm, 0, true, am0.push(blank_entry(tvm)), Seq::empty());
                        assert(filled.model() == (Em {
                            value: tvm,
                            line: 0,
                            key_start: 0,
                            value_start: 0,
                            params: r.1,
                        }));
                        assert(arena_model(arena@) =~= r.0.update(idx as int, filled.model()));
                    }
                },
                None => {
                    let _ps = extract_entries_into(entries, false, arena);
                },
            }
        },
        YamlValue::Sequence(items) => {
            proof {
                lemma_model_list(items@);
            }
            let ghost im = model_list(items@);
            let mut i: usize = 0;
            while i < items.len()
                invariant
                    i <= items@.len(),
                    extract_list(im, i as int, arena_model(arena@)) == extract_list(im, 0, am0),
                decreases items@.len() - i,
            {
                proof {
                    assert(decreases_to!(*v => (*v)->Sequence_0));
                    assert(decreases_to!((*v)->Sequence_0 => (*v)->Sequence_0@));
                    assert(decreases_to!((*v)->Sequence_0@ => (*v)->Sequence_0@[i as int]));
                    assert(decreases_to!(*v => items@[i as int]));
                }
                let ghost before = arena_model(arena@);
                extract_value_into(&items[i], arena);
                i = i + 1;
                proof {
                    assert(items@[i - 1].model() == im[i - 1]);
                    assert(extract_list(im, i - 1, before) == extract_list(
                        im,
                        i as int,
                        arena_model(arena@),
                    ));
                }
            }
            proof {
                assert(extract_list(im, items@.len() as int, arena_model(arena@))
                    == arena_model(arena@));
            }
        },
        YamlValue::Null => {},
        YamlValue::Other => {},
        YamlValue::Bool(_) => {},
        YamlValue::Number(_) => {},
        YamlValue::Str(_) => {},
    }
}

/// Walks the entries of one mapping, appending nested target references to
/// the arena and returning the mapping's parameters when `collect` is set.
#[verifier::loop_isolation(false)]
pub fn extract_entries_into(
    entries: &Vec<(YamlKey, YamlValue)>,
    collect: bool,
    arena: &mut Vec<TargetInfo>,
) -> (ps: Vec<Parameter>)
    ensures
        (arena_model(final(arena)@), params_model(ps@)) == extract_entries(
            model_entries(entries@),
            0,
            collect,
            arena_model(old(arena)@),
            Seq::empty(),
        ),
    decreases *entries, 0int, 0int,
{
    proof {
        lemma_model_entries(entries@);
    }
    let ghost esm = model_entries(entries@);
    let ghost am0 = arena_model(arena@);
    let mut ps: Vec<Parameter> = Vec::new();
    proof {
        assert(params_model(ps@) =~= Seq::<Pm>::empty());
    }
    let mut i: usize = 0;
    while i < entries.len()
        invariant
            i <= entries@.len(),
            extract_entries(esm, i as int, collect, arena_model(arena@), params_model(ps@))
                == extract_entries(esm, 0, collect, am0, Seq::empty()),
        decreases entries@.len() - i,
    {
        proof {
            assert(decreases_to!(*entries => (*entries)@));
            assert(decreases_to!((*entries)@ => (*entries)@[i as int]));
            assert(decreases_to!(
                (*entries)@[i as int] => (*entries)@[i as int].1));
        }
        let ghost before = arena_model(arena@);
        let ghost ps_before = params_model(ps@);
        let child = arena.len();
        let nested = is_target_mapping_exec(&entries[i].1);
        extract_value_into(&entries[i].1, arena);
        if collect {
            let keep = !key_is_reserved_exec(&entries[i].0);
            match &entries[i].0 {
                YamlKey::Text(ks) => {
                    if keep {
                        let pv = if nested {
                            ParamValue::Nested(child)
                        } else {
                            ParamValue::Scalar(entries[i].1.duplicate())
                        };
                        ps.push(Parameter { key: ks.clone(), line: 0, key_span: (0, 0), value: pv });
                    }
                },
                YamlKey::Other => {},
            }
        }
        i = i + 1;
        proof {
            assert(esm[i - 1] == (entries@[i - 1].0.model(), entries@[i - 1].1.model()));
            assert(params_model(ps@) =~= extract_entries_step_params(
                esm,
                i - 1,
                collect,
                before,
                ps_before,
            ));
            assert(extract_entries(esm, i - 1, collect, before, ps_before) == extract_entries(
                esm,
                i as int,
                collect,
                arena_model(arena@),
                params_model(ps@),
            ));
        }
    }
    ps
}

/// Whether a mapping key denotes the reserved key.
pub fn key_is_reserved_exec(k: &YamlKey) -> (r: bool)
    ensures
        r == key_is_reserved(k.model()),
{
    match k {
        YamlKey::Text(s) => {
            let n: usize = s.as_str().unicode_len();
            let (lo, hi): (usize, usize) = if n >= 2 {
                let c0 = s.as_str().get_char(0);
                let c1 = s.as_str().get_char(n - 1);
                if (c0 == '"' && c1 == '"') || (c0 == '\'' && c1 == '\'') {
                    (1, n - 1)
                } else {
                    (0, n)
                }
            } else {
                (0, n)
            };
            let stripped = s.as_str().substring_char(lo, hi);
            proof {
                assert(stripped@ =~= strip_quotes(s@));
            }
            str_view_eq(stripped, "_target_")
        },
        YamlKey::Other => false,
    }
}

/// The target string of a mapping, when the mapping is a target mapping.
pub fn find_target_string(entries: &Vec<(YamlKey, YamlValue)>) -> (r: Option<String>)
    ensures
        match r {
            Some(s) => target_string_from(model_entries(entries@), 0) == Some(s@),
            None => target_string_from(model_entries(entries@), 0) is None,
        },
{
    proof {
        lemma_model_entries(entries@);
    }
    let ghost esm = model_entries(entries@);
    let mut i: usize = 0;
    while i < entries.len()
        invariant
            i <= entries@.len(),
            esm == model_entries(entries@),
            esm.len() == entries@.len(),
            forall|j: int|
                0 <= j < entries@.len() ==> #[trigger] esm[j] == (
                entries@[j].0.model(),
                entries@[j].1.model(),
                ),
            target_string_from(esm, 0) == target_string_from(esm, i as int),
        decreases entries@.len() - i,
    {
        if key_is_reserved_exec(&entries[i].0) {
            match &entries[i].1 {
                YamlValue::Str(s) => {
                    return Some(s.clone());
                },
                _ => {
                    return None;
                },
            }
        }
        i = i + 1;
    }
    None
}

} // verus!
