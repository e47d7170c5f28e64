//! The diagnostics engine: validating each target reference of a document
//! against the Python definition it resolves to, and producing positioned,
//! severity-tagged findings, sorted by position.

use vstd::prelude::*;
use vstd::seq_lib::group_to_multiset_ensures;
use vstd::string::StrSliceExecFns;
use vstd::string::StringExecFns;

use crate::positions::cap_u32;
use crate::python_analyzer::DefinitionInfo;
use crate::python_analyzer::FsM;
use crate::python_analyzer::FunctionSignature;
use crate::python_analyzer::PiM;
use crate::python_analyzer::PythonAnalyzer;
use crate::target_extract::Em;
use crate::target_extract::Pm;
use crate::target_extract::TargetInfo;
use crate::text::dec_digits;
use crate::text::dec_u64;
use crate::yaml_parser::TargetArena;

verus! {

/// How serious a finding is.
#[derive(Debug, Clone, Copy, PartialEq, Eq, Structural)]
pub enum Severity {
    Error,
    Hint,
    Info,
}

/// The machine-readable kind of a finding.
#[derive(Debug, Clone, Copy, PartialEq, Eq, Structural)]
pub enum FindingCode {
    ParseFailure,
    InvalidTargetFormat,
    ModuleNotFound,
    SymbolNotFound,
    MissingRequiredParameter,
    UnknownParameter,
}

/// One validation result: a position span, a severity, a stable code and
/// a human-readable message.
#[derive(Debug)]
pub struct Finding {
    pub line: u32,
    pub start_col: u32,
    pub end_col: u32,
    pub severity: Severity,
    pub code: FindingCode,
    pub message: String,
}

/// Model of a finding.
pub struct Fm {
    pub line: int,
    pub start_col: int,
    pub end_col: int,
    pub severity: Severity,
    pub code: FindingCode,
    pub message: Seq<char>,
}

impl Finding {
    /// The finding's model.
    pub open spec fn model(self) -> Fm {
        Fm {
            line: self.line as int,
            start_col: self.start_col as int,
            end_col: self.end_col as int,
            severity: self.severity,
            code: self.code,
            message: self.message@,
        }
    }
}

impl FindingCode {
    /// The stable identifier of this code.
    pub open spec fn text(self) -> Seq<char> {
        match self {
            FindingCode::ParseFailure => "yaml-syntax-error"@,
            FindingCode::InvalidTargetFormat => "invalid-target"@,
            FindingCode::ModuleNotFound => "module-not-found"@,
            FindingCode::SymbolNotFound => "symbol-not-found"@,
            FindingCode::MissingRequiredParameter => "missing-parameter"@,
            FindingCode::UnknownParameter => "unknown-parameter"@,
        }
    }

    /// Renders the stable identifier of this code.
    pub fn code_str(&self) -> (r: String)
        ensures
            r@ == self.text(),
    {
        match self {
            FindingCode::ParseFailure => "yaml-syntax-error".to_owned(),
            FindingCode::InvalidTargetFormat => "invalid-target".to_owned(),
            FindingCode::ModuleNotFound => "module-not-found".to_owned(),
            FindingCode::SymbolNotFound => "symbol-not-found".to_owned(),
            FindingCode::MissingRequiredParameter => "missing-parameter".to_owned(),
            FindingCode::UnknownParameter => "unknown-parameter".to_owned(),
        }
    }
}

/// The models of a finding list, in order.
pub open spec fn findings_model(fs: Seq<Finding>) -> Seq<Fm> {
    Seq::new(fs.len(), |i: int| fs[i].model())
}

/// What the resolution of one target produced, as supplied by the caller
/// that performed the module search and the definition extraction.
pub enum LookupOutcome {
    /// No module file was found; `reason` explains why and `attempted`
    /// counts the search paths tried.
    ModuleNotFound { reason: String, attempted: usize },
    /// The module was found but holds no definition of the symbol.
    SymbolNotFound,
    /// The definition the target names.
    Found(DefinitionInfo),
}

/// Model of a lookup outcome.
pub enum LoM {
    ModuleNotFound { reason: Seq<char>, attempted: nat },
    SymbolNotFound,
    Found(crate::python_analyzer::DiM),
}

impl LookupOutcome {
    /// The outcome's model.
    pub open spec fn model(self) -> LoM {
        match self {
            LookupOutcome::ModuleNotFound { reason, attempted } => LoM::ModuleNotFound {
                reason: reason@,
                attempted: attempted as nat,
            },
            LookupOutcome::SymbolNotFound => LoM::SymbolNotFound,
            LookupOutcome::Found(d) => LoM::Found(d.model()),
        }
    }
}

/// The position of the last dot of `s` before position `i`.
pub open spec fn last_dot_from(s: Seq<char>, i: int) -> Option<int>
    decreases i,
{
    if i <= 0 {
        None
    } else if s[i - 1] == '.' {
        Some(i - 1)
    } else {
        last_dot_from(s, i - 1)
    }
}

/// The position of the last dot of `s`, if any: the split point of a
/// dotted target path.
pub open spec fn last_dot_of(s: Seq<char>) -> Option<int> {
    last_dot_from(s, s.len() as int)
}

/// The module part of a dotted path: everything before the last dot.
pub open spec fn module_part_of(s: Seq<char>) -> Seq<char> {
    s.take(last_dot_of(s)->0)
}

/// The symbol part of a dotted path: everything after the last dot.
pub open spec fn symbol_part_of(s: Seq<char>) -> Seq<char> {
    s.subrange(last_dot_of(s)->0 + 1, s.len() as int)
}

/// A dot with nothing but non-dots after it is the last dot.
pub proof fn lemma_last_dot_witness(s: Seq<char>, k: int, i: int)
    requires
        0 <= k < s.len(),
        s[k] == '.',
        forall|j: int| k < j < s.len() ==> s[j] != '.',
        k < i <= s.len(),
    ensures
        last_dot_from(s, i) == Some(k),
    decreases i,
{
    if i - 1 > k {
        lemma_last_dot_witness(s, k, i - 1);
    }
}

/// Without any dot there is no last dot.
pub proof fn lemma_no_dot(s: Seq<char>, i: int)
    requires
        forall|j: int| 0 <= j < s.len() ==> s[j] != '.',
        i <= s.len(),
    ensures
        last_dot_from(s, i) is None,
    decreases i,
{
    if i > 0 {
        lemma_no_dot(s, i - 1);
    }
}

/// The message of a format finding.
pub open spec fn invalid_target_msg(v: Seq<char>) -> Seq<char> {
    "Invalid _target_ format: "@ + v
}

/// The message of an unknown-parameter finding.
pub open spec fn unknown_param_msg(key: Seq<char>, fname: Seq<char>) -> Seq<char> {
    "Unknown parameter '"@ + key + "' for "@ + fname
}

/// The message of a keyword-catch-all hint.
pub open spec fn kwargs_msg(key: Seq<char>) -> Seq<char> {
    "Parameter '"@ + key + "' will be passed via **kwargs"@
}

/// The message of a missing-parameter finding.
pub open spec fn missing_param_msg(name: Seq<char>, fname: Seq<char>) -> Seq<char> {
    "Missing required parameter '"@ + name + "' for "@ + fname
}

/// The message of a module-not-found finding.
pub open spec fn module_not_found_msg(m: Seq<char>, reason: Seq<char>, attempted: nat) -> Seq<
    char,
> {
    "Cannot resolve module: "@ + m + " ("@ + reason + ", tried "@ + dec_digits(attempted)
        + " search paths)"@
}

/// The message of a symbol-not-found finding.
pub open spec fn symbol_not_found_msg(sym: Seq<char>, m: Seq<char>) -> Seq<char> {
    "Symbol '"@ + sym + "' not found in module "@ + m
}

/// The finding for a target whose dotted path has fewer than two
/// components, spanning the printed value.
pub open spec fn invalid_format_finding(e: Em) -> Fm {
    Fm {
        line: e.line,
        start_col: e.value_start,
        end_col: cap_u32(e.value_start + e.value.len()),
        severity: Severity::Error,
        code: FindingCode::InvalidTargetFormat,
        message: invalid_target_msg(e.value),
    }
}

/// Whether the signature parameter at `i` can take a supplied argument
/// by name.
pub open spec fn names_argument(p: PiM) -> bool {
    p.name != "self"@ && !p.is_variadic && !p.is_variadic_keyword
}

/// Whether a supplied key is among the signature's argument names.
pub open spec fn expected_contains(ps: Seq<PiM>, key: Seq<char>) -> bool {
    exists|i: int| 0 <= i < ps.len() && (#[trigger] ps[i]).name == key && names_argument(ps[i])
}

/// Whether the signature has a keyword catch-all parameter.
pub open spec fn has_kwargs(ps: Seq<PiM>) -> bool {
    exists|i: int| 0 <= i < ps.len() && (#[trigger] ps[i]).is_variadic_keyword
}

/// Whether the signature parameter at `i` must be supplied.
pub open spec fn is_required(p: PiM) -> bool {
    !p.has_default && !p.is_variadic && !p.is_variadic_keyword && p.name != "self"@
}

/// Whether the target supplies a parameter of the given name.
pub open spec fn supplied_contains(params: Seq<Pm>, name: Seq<char>) -> bool {
    exists|i: int| 0 <= i < params.len() && (#[trigger] params[i]).key == name
}

/// The findings for supplied parameters the signature does not name:
/// a hint per extra key when the signature has a keyword catch-all, an
/// error otherwise, each at the parameter's own span.
pub open spec fn unknown_param_findings(e: Em, sig: FsM, i: int) -> Seq<Fm>
    decreases e.params.len() - i,
{
    if i < 0 || i >= e.params.len() {
        Seq::empty()
    } else {
        let p = e.params[i];
        let rest = unknown_param_findings(e, sig, i + 1);
        if expected_contains(sig.parameters, p.key) {
            rest
        } else if has_kwargs(sig.parameters) {
            seq![
                Fm {
                    line: p.line,
                    start_col: p.key_span.0,
                    end_col: p.key_span.1,
                    severity: Severity::Hint,
                    code: FindingCode::UnknownParameter,
                    message: kwargs_msg(p.key),
                },
            ] + rest
        } else {
            seq![
                Fm {
                    line: p.line,
                    start_col: p.key_span.0,
                    end_col: p.key_span.1,
                    severity: Severity::Error,
                    code: FindingCode::UnknownParameter,
                    message: unknown_param_msg(p.key, sig.name),
                },
            ] + rest
        }
    }
}

/// The findings for required signature parameters the target does not
/// supply, each at the target's value span.
pub open spec fn missing_param_findings(e: Em, sig: FsM, i: int) -> Seq<Fm>
    decreases sig.parameters.len() - i,
{
    if i < 0 || i >= sig.parameters.len() {
        Seq::empty()
    } else {
        let p = sig.parameters[i];
        let rest = missing_param_findings(e, sig, i + 1);
        if is_required(p) && !supplied_contains(e.params, p.name) {
            seq![
                Fm {
                    line: e.line,
                    start_col: e.value_start,
                    end_col: cap_u32(e.value_start + e.value.len()),
                    severity: Severity::Error,
                    code: FindingCode::MissingRequiredParameter,
                    message: missing_param_msg(p.name, sig.name),
                },
            ] + rest
        } else {
            rest
        }
    }
}

/// All parameter findings of one target against one signature.
pub open spec fn parameter_findings(e: Em, sig: FsM) -> Seq<Fm> {
    unknown_param_findings(e, sig, 0) + missing_param_findings(e, sig, 0)
}

/// All findings of one target given its lookup outcome: the format check
/// first; then the resolution failure, if any; then the parameter checks
/// against the resolved signature (a class is checked against its
/// constructor, and not at all when it has none).
pub open spec fn entry_findings(e: Em, o: LoM) -> Seq<Fm> {
    if last_dot_of(e.value) is None {
        seq![invalid_format_finding(e)]
    } else {
        match o {
            LoM::ModuleNotFound { reason, attempted } => seq![
                Fm {
                    line: e.line,
                    start_col: e.value_start,
                    end_col: cap_u32(e.value_start + e.value.len()),
                    severity: Severity::Error,
                    code: FindingCode::ModuleNotFound,
                    message: module_not_found_msg(module_part_of(e.value), reason, attempted),
                },
            ],
            LoM::SymbolNotFound => seq![
                Fm {
                    line: e.line,
                    start_col: e.value_start,
                    end_col: cap_u32(e.value_start + e.value.len()),
                    severity: Severity::Error,
                    code: FindingCode::SymbolNotFound,
                    message: symbol_not_found_msg(
                        symbol_part_of(e.value),
                        module_part_of(e.value),
                    ),
                },
            ],
            LoM::Found(d) => match d {
                crate::python_analyzer::DiM::Function(f) => parameter_findings(e, f),
                crate::python_analyzer::DiM::Class(c) => match c.init_signature {
                    Some(f) => parameter_findings(e, f),
                    None => Seq::empty(),
                },
            },
        }
    }
}

/// All findings of a document, entry by entry, before sorting.
pub open spec fn document_findings(a: Seq<Em>, os: Seq<LoM>, i: int) -> Seq<Fm>
    decreases a.len() - i,
{
    if i < 0 || i >= a.len() || i >= os.len() {
        Seq::empty()
    } else {
        entry_findings(a[i], os[i]) + document_findings(a, os, i + 1)
    }
}

/// The order of the final finding list: by line, then start column.
pub open spec fn finding_le(x: Fm, y: Fm) -> bool {
    x.line < y.line || (x.line == y.line && x.start_col <= y.start_col)
}

/// A finding list in non-decreasing position order.
pub open spec fn findings_sorted(s: Seq<Fm>) -> bool {
    forall|i: int, j: int| 0 <= i < j < s.len() ==> finding_le(#[trigger] s[i], #[trigger] s[j])
}

/// The models of a lookup outcome list, in order.
pub open spec fn outcomes_model(os: Seq<LookupOutcome>) -> Seq<LoM> {
    Seq::new(os.len(), |i: int| os[i].model())
}

/// The finding span covering a target's printed value.
fn value_span_end(start: u32, len: usize) -> (r: u32)
    ensures
        r as int == cap_u32(start + len),
{
    let room: u32 = u32::MAX - start;
    if len >= room as usize {
        u32::MAX
    } else {
        start + (len as u32)
    }
}

/// Whether a supplied key is among the signature's argument names.
fn expected_contains_exec(ps: &Vec<crate::python_analyzer::ParameterInfo>, key: &String) -> (r:
    bool)
    ensures
        r == expected_contains(
            Seq::new(ps@.len(), |i: int| ps@[i].model()),
            key@,
        ),
{
    let ghost psm = Seq::new(ps@.len(), |i: int| ps@[i].model());
    let mut i: usize = 0;
    while i < ps.len()
        invariant
            i <= ps@.len(),
            psm == Seq::new(ps@.len(), |k: int| ps@[k].model()),
            forall|j: int| 0 <= j < i ==> !((#[trigger] psm[j]).name == key@ && names_argument(psm[j])),
        decreases ps@.len() - i,
    {
        let p = &ps[i];
        if !p.is_variadic && !p.is_variadic_keyword && !crate::text::str_view_eq(
            p.name.as_str(),
            "self",
        ) && crate::text::str_view_eq(p.name.as_str(), key.as_str()) {
            proof {
                assert(psm[i as int].name == key@ && names_argument(psm[i as int]));
            }
            return true;
        }
        i = i + 1;
    }
    false
}

/// Whether the signature has a keyword catch-all parameter.
fn has_kwargs_exec(ps: &Vec<crate::python_analyzer::ParameterInfo>) -> (r: bool)
    ensures
        r == has_kwargs(Seq::new(ps@.len(), |i: int| ps@[i].model())),
{
    let ghost psm = Seq::new(ps@.len(), |i: int| ps@[i].model());
    let mut i: usize = 0;
    while i < ps.len()
        invariant
            i <= ps@.len(),
            psm == Seq::new(ps@.len(), |k: int| ps@[k].model()),
            forall|j: int| 0 <= j < i ==> !(#[trigger] psm[j]).is_variadic_keyword,
        decreases ps@.len() - i,
    {
        if ps[i].is_variadic_keyword {
            proof {
                assert(psm[i as int].is_variadic_keyword);
            }
            return true;
        }
        i = i + 1;
    }
    false
}

/// Whether the target supplies a parameter of the given name.
fn supplied_contains_exec(params: &Vec<crate::target_extract::Parameter>, name: &String) -> (r:
    bool)
    ensures
        r == supplied_contains(
            Seq::new(params@.len(), |i: int| params@[i].model()),
            name@,
        ),
{
    let ghost pm = Seq::new(params@.len(), |i: int| params@[i].model());
    let mut i: usize = 0;
    while i < params.len()
        invariant
            i <= params@.len(),
            pm == Seq::new(params@.len(), |k: int| params@[k].model()),
            forall|j: int| 0 <= j < i ==> (#[trigger] pm[j]).key != name@,
        decreases params@.len() - i,
    {
        if crate::text::str_view_eq(params[i].key.as_str(), name.as_str()) {
            proof {
                assert(pm[i as int].key == name@);
            }
            return true;
        }
        i = i + 1;
    }
    false
}

/// Builds the finding for a target whose dotted path is malformed.
fn build_invalid_format(t: &TargetInfo) -> (f: Finding)
    ensures
        f.model() == invalid_format_finding(t.model()),
{
    let mut message = "Invalid _target_ format: ".to_owned();
    message.append(t.value.as_str());
    let end = value_span_end(t.value_start, t.value.as_str().unicode_len());
    proof {
        assert(message@ =~= invalid_target_msg(t.value@));
    }
    Finding {
        line: t.line,
        start_col: t.value_start,
        end_col: end,
        severity: Severity::Error,
        code: FindingCode::InvalidTargetFormat,
        message,
    }
}

/// Namespace for the validation entry points.
pub struct DiagnosticsEngine;

impl DiagnosticsEngine {
    /// Checks a target's dotted path: one format error when the path has
    /// fewer than two dot-separated components, nothing otherwise.
    pub fn validate_target(t: &TargetInfo) -> (r: Vec<Finding>)
        ensures
            findings_model(r@) == (if last_dot_of(t.model().value) is None {
                seq![invalid_format_finding(t.model())]
            } else {
                Seq::<Fm>::empty()
            }),
    {
        match PythonAnalyzer::split_target(t.value.as_str()) {
            Ok(_) => {
                proof {
                    let k = choose|k: int|
                        {
                            &&& 0 <= k < t.value@.len()
                            &&& #[trigger] t.value@[k] == '.'
                            &&& forall|j: int| k < j < t.value@.len() ==> t.value@[j] != '.'
                        };
                    lemma_last_dot_witness(t.value@, k, t.value@.len() as int);
                }
                let r: Vec<Finding> = Vec::new();
                proof {
                    assert(findings_model(r@) =~= Seq::<Fm>::empty());
                }
                r
            },
            Err(_) => {
                proof {
                    lemma_no_dot(t.value@, t.value@.len() as int);
                }
                let f = build_invalid_format(t);
                let mut r: Vec<Finding> = Vec::new();
                r.push(f);
                proof {
                    assert(findings_model(r@) =~= seq![invalid_format_finding(t.model())]);
                }
                r
            },
        }
    }

    /// Checks the supplied parameters against a signature: extra keys give
    /// an error each — or a hint, when the signature has a keyword
    /// catch-all — and absent required parameters give an error each at
    /// the target's value span.
    pub fn validate_parameters(t: &TargetInfo, signature: &FunctionSignature) -> (r: Vec<Finding>)
        ensures
            findings_model(r@) == parameter_findings(t.model(), signature.model()),
    {
        let ghost e = t.model();
        let ghost sig = signature.model();
        let kw = has_kwargs_exec(&signature.parameters);
        let mut out: Vec<Finding> = Vec::new();
        proof {
            assert(findings_model(out@) =~= Seq::<Fm>::empty());
        }
        let mut i: usize = 0;
        while i < t.parameters.len()
            invariant
                i <= t.parameters@.len(),
                e == t.model(),
                sig == signature.model(),
                kw == has_kwargs(sig.parameters),
                findings_model(out@) + unknown_param_findings(e, sig, i as int)
                    == unknown_param_findings(e, sig, 0),
            decreases t.parameters@.len() - i,
        {
            let p = &t.parameters[i];
            let ghost out_before = findings_model(out@);
            let known = expected_contains_exec(&signature.parameters, &p.key);
            proof {
                assert(e.params[i as int] == t.parameters@[i as int].model());
            }
            if !known {
                if kw {
                    let mut message = "Parameter '".to_owned();
                    message.append(p.key.as_str());
                    message.append("' will be passed via **kwargs");
                    proof {
                        assert(message@ =~= kwargs_msg(e.params[i as int].key));
                    }
                    out.push(
                        Finding {
                            line: p.line,
                            start_col: p.key_span.0,
                            end_col: p.key_span.1,
                            severity: Severity::Hint,
                            code: FindingCode::UnknownParameter,
                            message,
                        },
                    );
                } else {
                    let mut message = "Unknown parameter '".to_owned();
                    message.append(p.key.as_str());
                    message.append("' for ");
                    message.append(signature.name.as_str());
                    proof {
                        assert(message@ =~= unknown_param_msg(e.params[i as int].key, sig.name));
                    }
                    out.push(
                        Finding {
                            line: p.line,
                            start_col: p.key_span.0,
                            end_col: p.key_span.1,
                            severity: Severity::Error,
                            code: FindingCode::UnknownParameter,
                            message,
                        },
                    );
                }
            }
            i = i + 1;
            proof {
                if known {
                    assert(findings_model(out@) =~= out_before);
                } else {
                    assert(findings_model(out@) =~= out_before.push(
                        unknown_param_findings(e, sig, i - 1).first(),
                    ));
                    assert(out_before.push(unknown_param_findings(e, sig, i - 1).first())
                        + unknown_param_findings(e, sig, i as int) =~= out_before + (seq![
                        unknown_param_findings(e, sig, i - 1).first(),
                    ] + unknown_param_findings(e, sig, i as int)));
                }
            }
        }
        let mut j: usize = 0;
        while j < signature.parameters.len()
            invariant
                j <= signature.parameters@.len(),
                e == t.model(),
                sig == signature.model(),
                findings_model(out@) + missing_param_findings(e, sig, j as int)
                    == unknown_param_findings(e, sig, 0) + missing_param_findings(e, sig, 0),
            decreases signature.parameters@.len() - j,
        {
            let p = &signature.parameters[j];
            let ghost out_before = findings_model(out@);
            proof {
                assert(sig.parameters[j as int] == signature.parameters@[j as int].model());
            }
            let required = !p.has_default && !p.is_variadic && !p.is_variadic_keyword
                && !crate::text::str_view_eq(p.name.as_str(), "self");
            if required && !supplied_contains_exec(&t.parameters, &p.name) {
                let mut message = "Missing required parameter '".to_owned();
                message.append(p.name.as_str());
                message.append("' for ");
                message.append(signature.name.as_str());
                proof {
                    assert(message@ =~= missing_param_msg(sig.parameters[j as int].name, sig.name));
                }
                let end = value_span_end(t.value_start, t.value.as_str().unicode_len());
                out.push(
                    Finding {
                        line: t.line,
                        start_col: t.value_start,
                        end_col: end,
                        severity: Severity::Error,
                        code: FindingCode::MissingRequiredParameter,
                        message,
                    },
                );
            }
            j = j + 1;
            proof {
                if is_required(sig.parameters[j - 1]) && !supplied_contains(
                    e.params,
                    sig.parameters[j - 1].name,
                ) {
                    assert(findings_model(out@) =~= out_before.push(
                        missing_param_findings(e, sig, j - 1).first(),
                    ));
                    assert(out_before.push(missing_param_findings(e, sig, j - 1).first())
                        + missing_param_findings(e, sig, j as int) =~= out_before + (seq![
                        missing_param_findings(e, sig, j - 1).first(),
                    ] + missing_param_findings(e, sig, j as int)));
                } else {
                    assert(findings_model(out@) =~= out_before);
                }
            }
        }
        proof {
            assert(findings_model(out@) =~= parameter_findings(e, sig));
        }
        out
    }

    /// Checks one target given its lookup outcome, per `entry_findings`.
    pub fn validate_entry(t: &TargetInfo, outcome: &LookupOutcome) -> (r: Vec<Finding>)
        ensures
            findings_model(r@) == entry_findings(t.model(), outcome.model()),
    {
        let parts = match PythonAnalyzer::split_target(t.value.as_str()) {
            Ok(parts) => parts,
            Err(_) => {
                proof {
                    lemma_no_dot(t.value@, t.value@.len() as int);
                }
                let f = build_invalid_format(t);
                let mut r: Vec<Finding> = Vec::new();
                r.push(f);
                proof {
                    assert(findings_model(r@) =~= seq![invalid_format_finding(t.model())]);
                }
                return r;
            },
        };
        let (module_part, symbol_name) = parts;
        proof {
            let k = choose|k: int|
                {
                    &&& 0 <= k < t.value@.len()
                    &&& #[trigger] t.value@[k] == '.'
                    &&& forall|j: int| k < j < t.value@.len() ==> t.value@[j] != '.'
                    &&& module_part@ == t.value@.take(k)
                    &&& symbol_name@ == t.value@.subrange(k + 1, t.value@.len() as int)
                };
            lemma_last_dot_witness(t.value@, k, t.value@.len() as int);
            assert(module_part@ == module_part_of(t.value@));
            assert(symbol_name@ == symbol_part_of(t.value@));
        }
        match outcome {
            LookupOutcome::ModuleNotFound { reason, attempted } => {
                let mut message = "Cannot resolve module: ".to_owned();
                message.append(module_part.as_str());
                message.append(" (");
                message.append(reason.as_str());
                message.append(", tried ");
                let count = dec_u64(*attempted as u64);
                message.append(count.as_str());
                message.append(" search paths)");
                proof {
                    assert(message@ =~= module_not_found_msg(
                        module_part_of(t.value@),
                        reason@,
                        *attempted as nat,
                    ));
                }
                let end = value_span_end(t.value_start, t.value.as_str().unicode_len());
                let mut r: Vec<Finding> = Vec::new();
                r.push(
                    Finding {
                        line: t.line,
                        start_col: t.value_start,
                        end_col: end,
                        severity: Severity::Error,
                        code: FindingCode::ModuleNotFound,
                        message,
                    },
                );
                proof {
                    assert(findings_model(r@) =~= entry_findings(t.model(), outcome.model()));
                }
                r
            },
            LookupOutcome::SymbolNotFound => {
                let mut message = "Symbol '".to_owned();
                message.append(symbol_name.as_str());
                message.append("' not found in module ");
                message.append(module_part.as_str());
                proof {
                    assert(message@ =~= symbol_not_found_msg(
                        symbol_part_of(t.value@),
                        module_part_of(t.value@),
                    ));
                }
                let end = value_span_end(t.value_start, t.value.as_str().unicode_len());
                let mut r: Vec<Finding> = Vec::new();
                r.push(
                    Finding {
                        line: t.line,
                        start_col: t.value_start,
                        end_col: end,
                        severity: Severity::Error,
                        code: FindingCode::SymbolNotFound,
                        message,
                    },
                );
                proof {
                    assert(findings_model(r@) =~= entry_findings(t.model(), outcome.model()));
                }
                r
            },
            LookupOutcome::Found(d) => match d {
                DefinitionInfo::Function(f) => {
                    let r = Self::validate_parameters(t, f);
                    r
                },
                DefinitionInfo::Class(c) => match &c.init_signature {
                    Some(f) => {
                        let r = Self::validate_parameters(t, f);
                        r
                    },
                    None => {
                        let r: Vec<Finding> = Vec::new();
                        proof {
                            assert(findings_model(r@) =~= Seq::<Fm>::empty());
                        }
                        r
                    },
                },
            },
        }
    }

    /// Checks every target of a document, one lookup outcome per arena
    /// entry, and returns all findings sorted by line and start column.
    /// Each entry is validated independently: the result carries exactly
    /// the findings of every entry, rearranged in position order.
    pub fn validate_document(targets: &TargetArena, outcomes: &Vec<LookupOutcome>) -> (r: Vec<
        Finding,
    >)
        requires
            outcomes@.len() == targets.model().len(),
        ensures
            findings_model(r@).to_multiset() == document_findings(
                targets.model(),
                outcomes_model(outcomes@),
                0,
            ).to_multiset(),
            findings_sorted(findings_model(r@)),
    {
        let ghost a = targets.model();
        let ghost os = outcomes_model(outcomes@);
        let mut all: Vec<Finding> = Vec::new();
        proof {
            assert(findings_model(all@) =~= Seq::<Fm>::empty());
        }
        let mut i: usize = 0;
        let n = targets.len();
        while i < n
            invariant
                i <= n,
                n == a.len(),
                a == targets.model(),
                os == outcomes_model(outcomes@),
                os.len() == a.len(),
                findings_model(all@) + document_findings(a, os, i as int) == document_findings(
                    a,
                    os,
                    0,
                ),
            decreases n - i,
        {
            let ghost all_before = findings_model(all@);
            let t = targets.entry(i);
            let mut fs = Self::validate_entry(t, &outcomes[i]);
            let ghost fsm = findings_model(fs@);
            all.append(&mut fs);
            i = i + 1;
            proof {
                assert(os[i - 1] == outcomes@[i - 1].model());
                assert(findings_model(all@) =~= all_before + fsm);
                assert(fsm == entry_findings(a[i - 1], os[i - 1]));
                assert((all_before + fsm) + document_findings(a, os, i as int) =~= all_before + (
                fsm + document_findings(a, os, i as int)));
            }
        }
        sort_findings(all)
    }
}

/// Whether `x` comes no later than `y` in the final order.
fn finding_le_exec(x: &Finding, y: &Finding) -> (r: bool)
    ensures
        r == finding_le(x.model(), y.model()),
{
    x.line < y.line || (x.line == y.line && x.start_col <= y.start_col)
}

/// The index of a finding that comes no later than every other.
fn min_finding_index(v: &Vec<Finding>) -> (m: usize)
    requires
        v@.len() > 0,
    ensures
        m < v@.len(),
        forall|j: int| 0 <= j < v@.len() ==> finding_le(v@[m as int].model(), (#[trigger] v@[j]).model()),
{
    let mut m: usize = 0;
    let mut i: usize = 1;
    while i < v.len()
        invariant
            m < i <= v@.len(),
            forall|j: int| 0 <= j < i ==> finding_le(v@[m as int].model(), (#[trigger] v@[j]).model()),
        decreases v@.len() - i,
    {
        if !finding_le_exec(&v[m], &v[i]) {
            m = i;
        }
        i = i + 1;
    }
    m
}

/// Sorts findings by line and start column.  The result holds exactly the
/// given findings.
fn sort_findings(input: Vec<Finding>) -> (out: Vec<Finding>)
    ensures
        findings_model(out@).to_multiset() == findings_model(input@).to_multiset(),
        findings_sorted(findings_model(out@)),
{
    broadcast use group_to_multiset_ensures;

    let ghost orig = findings_model(input@);
    let mut src = input;
    let mut out: Vec<Finding> = Vec::new();
    proof {
        assert(findings_model(out@) =~= Seq::<Fm>::empty());
        assert(findings_model(src@) =~= orig);
        assert(findings_model(out@).to_multiset().add(findings_model(src@).to_multiset())
            =~= orig.to_multiset());
    }
    while src.len() > 0
        invariant
            findings_model(out@).to_multiset().add(findings_model(src@).to_multiset())
                == orig.to_multiset(),
            findings_sorted(findings_model(out@)),
            forall|i: int, j: int|
                0 <= i < out@.len() && 0 <= j < src@.len() ==> finding_le(
                    (#[trigger] out@[i]).model(),
                    (#[trigger] src@[j]).model(),
                ),
        decreases src@.len(),
    {
        let ghost out_before = findings_model(out@);
        let ghost src_before = findings_model(src@);
        let m = min_finding_index(&src);
        let x = src.remove(m);
        out.push(x);
        proof {
            assert(findings_model(src@) =~= src_before.remove(m as int));
            assert(findings_model(out@) =~= out_before.push(x.model()));
            assert(src_before[m as int] == x.model());
            out_before.to_multiset_ensures();
            src_before.to_multiset_ensures();
            assert(findings_model(out@) == out_before.push(x.model()));
            assert(out_before.push(x.model()).to_multiset() =~= out_before.to_multiset().insert(
                x.model(),
            ));
            assert(findings_model(src@) == src_before.remove(m as int));
            assert(src_before.remove(m as int).to_multiset() =~= src_before.to_multiset().remove(
                src_before[m as int],
            ));
            assert(src_before.to_multiset().contains(x.model())) by {
                assert(src_before.contains(x.model()));
            }
            assert(findings_model(out@).to_multiset().add(findings_model(src@).to_multiset())
                =~= out_before.to_multiset().add(src_before.to_multiset()));
            assert(findings_sorted(findings_model(out@))) by {
                let om = findings_model(out@);
                assert forall|i: int, j: int| 0 <= i < j < om.len() implies finding_le(
                    om[i],
                    om[j],
                ) by {
                    if j < om.len() - 1 {
                        assert(om[i] == out_before[i] && om[j] == out_before[j]);
                    } else {
                        assert(om[j] == x.model());
                    }
                }
            }
            assert forall|i: int, j: int|
                0 <= i < out@.len() && 0 <= j < src@.len() implies finding_le(
                (#[trigger] out@[i]).model(),
                (#[trigger] src@[j]).model(),
            ) by {
                assert(findings_model(src@)[j] == src_before.remove(m as int)[j]);
                if j < m {
                    assert(src_before.remove(m as int)[j] == src_before[j]);
                } else {
                    assert(src_before.remove(m as int)[j] == src_before[j + 1]);
                }
            }
        }
    }
    out
}

} // verus!
