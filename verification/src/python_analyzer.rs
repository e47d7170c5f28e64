//! Resolution and rendering of Python definitions: splitting dotted target
//! paths, extracting signatures from a parsed module, and formatting them.

use vstd::prelude::*;
use vstd::string::StrSliceExecFns;
use vstd::string::StringExecFns;

use crate::python_ast::PyBareParam;
use crate::python_ast::PyClassDef;
use crate::python_ast::PyExpr;
use crate::python_ast::PyFunctionDef;
use crate::python_ast::PyParam;
use crate::python_ast::PyParams;
use crate::python_ast::PyStmt;

verus! {

/// Failures of the Python side of the analysis.
#[derive(Debug, Clone, Copy, PartialEq, Eq, Structural)]
pub enum AnalyzerError {
    /// The dotted target path has fewer than two components.
    InvalidTargetFormat,
    /// The Python source does not parse.
    ParseFailure,
    /// No function or class of the requested name exists in the module.
    SymbolNotFound,
}

/// One parameter of a Python function signature.
#[derive(Debug, Clone)]
pub struct ParameterInfo {
    pub name: String,
    pub type_annotation: Option<String>,
    pub default_value: Option<String>,
    pub has_default: bool,
    pub is_variadic: bool,
    pub is_variadic_keyword: bool,
    pub is_keyword_only: bool,
}

/// A Python function signature: ordered parameters, return type, docstring.
#[derive(Debug, Clone)]
pub struct FunctionSignature {
    pub name: String,
    pub parameters: Vec<ParameterInfo>,
    pub return_type: Option<String>,
    pub docstring: Option<String>,
}

/// A Python class: its name, docstring, and the signature of its
/// `__init__`, when one is defined directly in the class body.
#[derive(Debug, Clone)]
pub struct ClassInfo {
    pub name: String,
    pub docstring: Option<String>,
    pub init_signature: Option<FunctionSignature>,
}

/// What a dotted target resolves to: a free function or a class.
#[derive(Debug, Clone)]
pub enum DefinitionInfo {
    Function(FunctionSignature),
    Class(ClassInfo),
}

/// Model of a view of optional text.
pub open spec fn opt_view(o: Option<String>) -> Option<Seq<char>> {
    match o {
        Some(s) => Some(s@),
        None => None,
    }
}

/// Model of a parameter of a signature.
pub struct PiM {
    pub name: Seq<char>,
    pub type_annotation: Option<Seq<char>>,
    pub default_value: Option<Seq<char>>,
    pub has_default: bool,
    pub is_variadic: bool,
    pub is_variadic_keyword: bool,
    pub is_keyword_only: bool,
}

/// Model of a function signature.
pub struct FsM {
    pub name: Seq<char>,
    pub parameters: Seq<PiM>,
    pub return_type: Option<Seq<char>>,
    pub docstring: Option<Seq<char>>,
}

/// Model of a class.
pub struct CiM {
    pub name: Seq<char>,
    pub docstring: Option<Seq<char>>,
    pub init_signature: Option<FsM>,
}

/// Model of a definition.
pub enum DiM {
    Function(FsM),
    Class(CiM),
}

impl ParameterInfo {
    /// The parameter's model.
    pub open spec fn model(self) -> PiM {
        PiM {
            name: self.name@,
            type_annotation: opt_view(self.type_annotation),
            default_value: opt_view(self.default_value),
            has_default: self.has_default,
            is_variadic: self.is_variadic,
            is_variadic_keyword: self.is_variadic_keyword,
            is_keyword_only: self.is_keyword_only,
        }
    }
}

impl FunctionSignature {
    /// The signature's model.
    pub open spec fn model(self) -> FsM {
        FsM {
            name: self.name@,
            parameters: Seq::new(self.parameters@.len(), |i: int| self.parameters@[i].model()),
            return_type: opt_view(self.return_type),
            docstring: opt_view(self.docstring),
        }
    }
}

impl ClassInfo {
    /// The class's model.
    pub open spec fn model(self) -> CiM {
        CiM {
            name: self.name@,
            docstring: opt_view(self.docstring),
            init_signature: match self.init_signature {
                Some(s) => Some(s.model()),
                None => None,
            },
        }
    }
}

impl DefinitionInfo {
    /// The definition's model.
    pub open spec fn model(self) -> DiM {
        match self {
            DefinitionInfo::Function(f) => DiM::Function(f.model()),
            DefinitionInfo::Class(c) => DiM::Class(c.model()),
        }
    }
}

/// Namespace for the Python analysis entry points.
pub struct PythonAnalyzer;

impl PythonAnalyzer {
    /// Splits a dotted target into module path and symbol name at the last
    /// dot: `"pkg.mod.Cls"` becomes `("pkg.mod", "Cls")`.  A string without
    /// any dot has fewer than two components and is rejected.
    pub fn split_target(target: &str) -> (r: Result<(String, String), AnalyzerError>)
        ensures
            match r {
                Ok(parts) => exists|k: int|
                    {
                        &&& 0 <= k < target@.len()
                        &&& #[trigger] target@[k] == '.'
                        &&& forall|j: int| k < j < target@.len() ==> target@[j] != '.'
                        &&& parts.0@ == target@.take(k)
                        &&& parts.1@ == target@.subrange(k + 1, target@.len() as int)
                    },
                Err(e) => {
                    &&& e == AnalyzerError::InvalidTargetFormat
                    &&& forall|i: int| 0 <= i < target@.len() ==> target@[i] != '.'
                },
            },
    {
        let n: usize = target.unicode_len();
        let mut i: usize = n;
        while i > 0
            invariant
                i <= n,
                n == target@.len(),
                forall|j: int| i <= j < n ==> target@[j] != '.',
            decreases i,
        {
            if target.get_char(i - 1) == '.' {
                let module_part = target.substring_char(0, i - 1).to_owned();
                let symbol_name = target.substring_char(i, n).to_owned();
                proof {
                    assert(target@[i - 1] == '.');
                    assert(target@.take(i - 1) =~= target@.subrange(0, i - 1));
                }
                return Ok((module_part, symbol_name));
            }
            i = i - 1;
        }
        Err(AnalyzerError::InvalidTargetFormat)
    }
}

/// The rendered text of one parameter in a function signature: variadic
/// markers, name, annotation, default.
pub open spec fn param_piece(p: PiM) -> Seq<char> {
    (if p.is_variadic {
        "*"@
    } else if p.is_variadic_keyword {
        "**"@
    } else {
        Seq::<char>::empty()
    }) + p.name + (match p.type_annotation {
        Some(t) => ": "@ + t,
        None => Seq::<char>::empty(),
    }) + (match p.default_value {
        Some(d) => " = "@ + d,
        None => Seq::<char>::empty(),
    })
}

/// The comma-separated parameter pieces of a signature, from `i` on.
pub open spec fn join_pieces(ps: Seq<PiM>, i: int) -> Seq<char>
    decreases ps.len() - i,
{
    if i < 0 || i >= ps.len() {
        Seq::empty()
    } else if i == ps.len() - 1 {
        param_piece(ps[i])
    } else {
        param_piece(ps[i]) + ", "@ + join_pieces(ps, i + 1)
    }
}

/// The hover text of a function signature: a fenced code block with the
/// `def` line, then the docstring after a separator, when there is one.
pub open spec fn format_signature_text(s: FsM) -> Seq<char> {
    "```python\ndef "@ + s.name + "("@ + join_pieces(s.parameters, 0) + ")"@ + (match s.return_type {
        Some(t) => " -> "@ + t,
        None => Seq::<char>::empty(),
    }) + "\n```"@ + (match s.docstring {
        Some(d) => "\n\n---\n\n"@ + d,
        None => Seq::<char>::empty(),
    })
}

/// The rendered text of one constructor parameter: name, annotation,
/// default (no variadic markers).
pub open spec fn class_param_piece(p: PiM) -> Seq<char> {
    p.name + (match p.type_annotation {
        Some(t) => ": "@ + t,
        None => Seq::<char>::empty(),
    }) + (match p.default_value {
        Some(d) => " = "@ + d,
        None => Seq::<char>::empty(),
    })
}

/// The comma-separated constructor parameters from `i` on, skipping
/// `self`; `first` says whether nothing has been printed yet.
pub open spec fn join_class_params(ps: Seq<PiM>, i: int, first: bool) -> Seq<char>
    decreases ps.len() - i,
{
    if i < 0 || i >= ps.len() {
        Seq::empty()
    } else if ps[i].name == "self"@ {
        join_class_params(ps, i + 1, first)
    } else {
        (if first {
            Seq::<char>::empty()
        } else {
            ", "@
        }) + class_param_piece(ps[i]) + join_class_params(ps, i + 1, false)
    }
}

/// The hover text of a class: a fenced code block with the class name and
/// its constructor parameters, then the docstring after a separator.
pub open spec fn format_class_text(c: CiM) -> Seq<char> {
    "```python\nclass "@ + c.name + (match c.init_signature {
        Some(s) => "("@ + join_class_params(s.parameters, 0, true) + ")"@,
        None => Seq::<char>::empty(),
    }) + "\n```"@ + (match c.docstring {
        Some(d) => "\n\n---\n\n"@ + d,
        None => Seq::<char>::empty(),
    })
}

/// The models of a parameter list, in order.
pub open spec fn pi_models(ps: Seq<ParameterInfo>) -> Seq<PiM> {
    Seq::new(ps.len(), |i: int| ps[i].model())
}

/// The rendered text of an expression: names, attribute paths,
/// subscripts, tuples, lists, literals and unions; a placeholder for
/// every other shape.
pub open spec fn expr_text(e: PyExpr) -> Seq<char>
    decreases e, 0int, 0int,
{
    match e {
        PyExpr::Name(s) => s@,
        PyExpr::Attribute(b, attr) => expr_text(*b) + "."@ + attr@,
        PyExpr::Subscript(b, idx) => expr_text(*b) + "["@ + expr_text(*idx) + "]"@,
        PyExpr::Tuple(es) => "("@ + join_exprs(es@, 0) + ")"@,
        PyExpr::List(es) => "["@ + join_exprs(es@, 0) + "]"@,
        PyExpr::StrLit(s) => "'"@ + s@ + "'"@,
        PyExpr::NumLit(s) => s@,
        PyExpr::BoolLit(b) => if b {
            "true"@
        } else {
            "false"@
        },
        PyExpr::NoneLit => "None"@,
        PyExpr::OrBin(l, r) => expr_text(*l) + " | "@ + expr_text(*r),
        PyExpr::Opaque => "..."@,
    }
}

/// The rendered texts of a list of expressions, comma-separated.
pub open spec fn join_exprs(es: Seq<PyExpr>, i: int) -> Seq<char>
    decreases es, 1int, es.len() - i,
{
    if i < 0 || i >= es.len() {
        Seq::empty()
    } else if i == es.len() - 1 {
        expr_text(es[i])
    } else {
        expr_text(es[i]) + ", "@ + join_exprs(es, i + 1)
    }
}

/// The rendered text of an optional expression.
pub open spec fn opt_expr_text(o: Option<PyExpr>) -> Option<Seq<char>> {
    match o {
        Some(e) => Some(expr_text(e)),
        None => None,
    }
}

/// The signature parameter a plain parameter contributes.
pub open spec fn pim_of_param(p: PyParam, kw_only: bool) -> PiM {
    PiM {
        name: p.name@,
        type_annotation: opt_expr_text(p.annotation),
        default_value: opt_expr_text(p.default),
        has_default: p.default is Some,
        is_variadic: false,
        is_variadic_keyword: false,
        is_keyword_only: kw_only,
    }
}

/// The signature parameter a variadic-positional parameter contributes.
pub open spec fn pim_of_vararg(p: PyBareParam) -> PiM {
    PiM {
        name: p.name@,
        type_annotation: opt_expr_text(p.annotation),
        default_value: None,
        has_default: false,
        is_variadic: true,
        is_variadic_keyword: false,
        is_keyword_only: false,
    }
}

/// The signature parameter a variadic-keyword parameter contributes.
pub open spec fn pim_of_kwarg(p: PyBareParam) -> PiM {
    PiM {
        name: p.name@,
        type_annotation: opt_expr_text(p.annotation),
        default_value: None,
        has_default: false,
        is_variadic: false,
        is_variadic_keyword: true,
        is_keyword_only: false,
    }
}

/// The signature parameters of one parameter group.
pub open spec fn pims_of_list(ps: Seq<PyParam>, kw_only: bool) -> Seq<PiM> {
    Seq::new(ps.len(), |i: int| pim_of_param(ps[i], kw_only))
}

/// The signature parameters of an optional variadic slot.
pub open spec fn pims_of_opt(o: Option<PyBareParam>, keyword: bool) -> Seq<PiM> {
    match o {
        Some(p) => seq![
            if keyword {
                pim_of_kwarg(p)
            } else {
                pim_of_vararg(p)
            },
        ],
        None => Seq::empty(),
    }
}

/// All signature parameters of a function, in signature order:
/// positional-only, positional, variadic-positional, keyword-only,
/// variadic-keyword.
pub open spec fn signature_params(p: PyParams) -> Seq<PiM> {
    pims_of_list(p.posonly@, false) + pims_of_list(p.args@, false) + pims_of_opt(p.vararg, false)
        + pims_of_list(p.kwonly@, true) + pims_of_opt(p.kwarg, true)
}

/// The docstring of a definition body: the leading statement, when it is
/// a bare string-literal expression.
pub open spec fn docstring_of(body: Seq<PyStmt>) -> Option<Seq<char>> {
    if body.len() > 0 {
        match body[0] {
            PyStmt::Expr(e) => match e {
                PyExpr::StrLit(s) => Some(s@),
                _ => None,
            },
            _ => None,
        }
    } else {
        None
    }
}

/// The signature a function definition denotes.
pub open spec fn signature_of(f: PyFunctionDef) -> FsM {
    FsM {
        name: f.name@,
        parameters: signature_params(f.params),
        return_type: opt_expr_text(f.returns),
        docstring: docstring_of(f.body@),
    }
}

/// The first function definition named `name` in a pre-order depth-first
/// search of one statement.
pub open spec fn find_fn_in_stmt(s: PyStmt, name: Seq<char>) -> Option<PyFunctionDef>
    decreases s, 0int, 0int,
{
    match s {
        PyStmt::FunctionDef(f) => if f.name@ == name {
            Some(f)
        } else {
            find_fn_in_list(f.body@, name, 0)
        },
        PyStmt::ClassDef(c) => find_fn_in_list(c.body@, name, 0),
        PyStmt::Block(b) => find_fn_in_list(b@, name, 0),
        _ => None,
    }
}

/// The first function definition named `name` in a statement list, from
/// statement `i` on.
pub open spec fn find_fn_in_list(stmts: Seq<PyStmt>, name: Seq<char>, i: int) -> Option<
    PyFunctionDef,
>
    decreases stmts, 1int, stmts.len() - i,
{
    if i < 0 || i >= stmts.len() {
        None
    } else {
        match find_fn_in_stmt(stmts[i], name) {
            Some(f) => Some(f),
            None => find_fn_in_list(stmts, name, i + 1),
        }
    }
}

/// The first class definition named `name` in a pre-order depth-first
/// search of one statement.
pub open spec fn find_class_in_stmt(s: PyStmt, name: Seq<char>) -> Option<PyClassDef>
    decreases s, 0int, 0int,
{
    match s {
        PyStmt::ClassDef(c) => if c.name@ == name {
            Some(c)
        } else {
            find_class_in_list(c.body@, name, 0)
        },
        PyStmt::FunctionDef(f) => find_class_in_list(f.body@, name, 0),
        PyStmt::Block(b) => find_class_in_list(b@, name, 0),
        _ => None,
    }
}

/// The first class definition named `name` in a statement list, from
/// statement `i` on.
pub open spec fn find_class_in_list(stmts: Seq<PyStmt>, name: Seq<char>, i: int) -> Option<
    PyClassDef,
>
    decreases stmts, 1int, stmts.len() - i,
{
    if i < 0 || i >= stmts.len() {
        None
    } else {
        match find_class_in_stmt(stmts[i], name) {
            Some(c) => Some(c),
            None => find_class_in_list(stmts, name, i + 1),
        }
    }
}

/// The `__init__` directly in a class body (one level, not recursive),
/// from statement `i` on.
pub open spec fn find_init_in(body: Seq<PyStmt>, i: int) -> Option<PyFunctionDef>
    decreases body.len() - i,
{
    if i < 0 || i >= body.len() {
        None
    } else {
        match body[i] {
            PyStmt::FunctionDef(f) => if f.name@ == "__init__"@ {
                Some(f)
            } else {
                find_init_in(body, i + 1)
            },
            _ => find_init_in(body, i + 1),
        }
    }
}

/// The class description a class definition denotes.
pub open spec fn class_info_of(c: PyClassDef) -> CiM {
    CiM {
        name: c.name@,
        docstring: docstring_of(c.body@),
        init_signature: match find_init_in(c.body@, 0) {
            Some(f) => Some(signature_of(f)),
            None => None,
        },
    }
}

/// Renders an expression.
#[verifier::loop_isolation(false)]
pub fn expr_to_string(e: &PyExpr) -> (r: String)
    ensures
        r@ == expr_text(*e),
    decreases *e, 1int, 0int,
{
    match e {
        PyExpr::Name(s) => s.as_str().to_owned(),
        PyExpr::Attribute(b, attr) => {
            let mut m = expr_to_string(&**b);
            m.append(".");
            m.append(attr.as_str());
            proof {
                assert(m@ =~= expr_text(*e));
            }
            m
        },
        PyExpr::Subscript(b, idx) => {
            let mut m = expr_to_string(&**b);
            m.append("[");
            let inner = expr_to_string(&**idx);
            m.append(inner.as_str());
            m.append("]");
            proof {
                assert(m@ =~= expr_text(*e));
            }
            m
        },
        PyExpr::Tuple(es) => {
            let mut m = "(".to_owned();
            proof {
                assert(decreases_to!(*e => (*e)->Tuple_0));
                assert(decreases_to!((*e)->Tuple_0 => (*e)->Tuple_0@));
            }
            let joined = join_exprs_exec(es, Ghost((*e, 0int, 0int)));
            m.append(joined.as_str());
            m.append(")");
            proof {
                assert(m@ =~= expr_text(*e));
            }
            m
        },
        PyExpr::List(es) => {
            let mut m = "[".to_owned();
            proof {
                assert(decreases_to!(*e => (*e)->List_0));
                assert(decreases_to!((*e)->List_0 => (*e)->List_0@));
            }
            let joined = join_exprs_exec(es, Ghost((*e, 0int, 0int)));
            m.append(joined.as_str());
            m.append("]");
            proof {
                assert(m@ =~= expr_text(*e));
            }
            m
        },
        PyExpr::StrLit(s) => {
            let mut m = "'".to_owned();
            m.append(s.as_str());
            m.append("'");
            proof {
                assert(m@ =~= expr_text(*e));
            }
            m
        },
        PyExpr::NumLit(s) => s.as_str().to_owned(),
        PyExpr::BoolLit(b) => if *b {
            "true".to_owned()
        } else {
            "false".to_owned()
        },
        PyExpr::NoneLit => "None".to_owned(),
        PyExpr::OrBin(l, rr) => {
            let mut m = expr_to_string(&**l);
            m.append(" | ");
            let right = expr_to_string(&**rr);
            m.append(right.as_str());
            proof {
                assert(m@ =~= expr_text(*e));
            }
            m
        },
        PyExpr::Opaque => "...".to_owned(),
    }
}

/// Renders a list of expressions, comma-separated.
#[verifier::loop_isolation(false)]
fn join_exprs_exec(es: &Vec<PyExpr>, Ghost(bound): Ghost<(PyExpr, int, int)>) -> (r: String)
    requires
        decreases_to!(bound.0 => es@),
    ensures
        r@ == join_exprs(es@, 0),
    decreases bound.0, 0int, 0int,
{
    let mut m = String::new();
    let n = es.len();
    let mut i: usize = 0;
    proof {
        assert(m@ =~= Seq::<char>::empty());
    }
    while i < n
        invariant
            i <= n,
            n == es@.len(),
            m@ + join_exprs(es@, i as int) == join_exprs(es@, 0),
        decreases n - i,
    {
        let ghost m_before = m@;
        proof {
            assert(decreases_to!(es@ => es@[i as int]));
        }
        let piece = expr_to_string(&es[i]);
        m.append(piece.as_str());
        if i + 1 < n {
            m.append(", ");
            proof {
                assert((m_before + expr_text(es@[i as int]) + ", "@) + join_exprs(es@, i + 1)
                    =~= m_before + (expr_text(es@[i as int]) + ", "@ + join_exprs(es@, i + 1)));
                assert(m@ =~= m_before + expr_text(es@[i as int]) + ", "@);
            }
        } else {
            proof {
                assert(join_exprs(es@, i + 1) =~= Seq::<char>::empty());
                assert((m_before + expr_text(es@[i as int])) + join_exprs(es@, i + 1)
                    =~= m_before + expr_text(es@[i as int]));
            }
        }
        i = i + 1;
    }
    proof {
        assert(join_exprs(es@, n as int) =~= Seq::<char>::empty());
        assert(m@ + Seq::<char>::empty() =~= m@);
    }
    m
}

/// Builds the signature parameter of one plain parameter.
fn param_info_of(p: &PyParam, kw_only: bool) -> (r: ParameterInfo)
    ensures
        r.model() == pim_of_param(*p, kw_only),
{
    let type_annotation = match &p.annotation {
        Some(e) => Some(expr_to_string(e)),
        None => None,
    };
    let default_value = match &p.default {
        Some(e) => Some(expr_to_string(e)),
        None => None,
    };
    let has_default = default_value.is_some();
    ParameterInfo {
        name: p.name.clone(),
        type_annotation,
        default_value,
        has_default,
        is_variadic: false,
        is_variadic_keyword: false,
        is_keyword_only: kw_only,
    }
}

/// Builds the signature parameter of a variadic slot.
fn bare_info_of(p: &PyBareParam, keyword: bool) -> (r: ParameterInfo)
    ensures
        r.model() == (if keyword {
            pim_of_kwarg(*p)
        } else {
            pim_of_vararg(*p)
        }),
{
    let type_annotation = match &p.annotation {
        Some(e) => Some(expr_to_string(e)),
        None => None,
    };
    ParameterInfo {
        name: p.name.clone(),
        type_annotation,
        default_value: None,
        has_default: false,
        is_variadic: !keyword,
        is_variadic_keyword: keyword,
        is_keyword_only: false,
    }
}

/// Extracts a function's parameters in signature order.
#[verifier::loop_isolation(false)]
pub fn extract_parameters(params: &PyParams) -> (r: Vec<ParameterInfo>)
    ensures
        pi_models(r@) == signature_params(*params),
{
    let ghost pos_m = pims_of_list(params.posonly@, false);
    let ghost args_m = pims_of_list(params.args@, false);
    let ghost va_m = pims_of_opt(params.vararg, false);
    let ghost kw_m = pims_of_list(params.kwonly@, true);
    let ghost kwa_m = pims_of_opt(params.kwarg, true);
    let mut out: Vec<ParameterInfo> = Vec::new();
    let mut i: usize = 0;
    while i < params.posonly.len()
        invariant
            i <= params.posonly@.len(),
            out@.len() == i,
            forall|j: int| 0 <= j < i ==> (#[trigger] out@[j]).model() == pos_m[j],
        decreases params.posonly@.len() - i,
    {
        let p = param_info_of(&params.posonly[i], false);
        out.push(p);
        i = i + 1;
    }
    let ghost n1 = pos_m.len();
    let mut i2: usize = 0;
    while i2 < params.args.len()
        invariant
            i2 <= params.args@.len(),
            out@.len() == n1 + i2,
            forall|j: int| 0 <= j < n1 ==> (#[trigger] out@[j]).model() == pos_m[j],
            forall|j: int| 0 <= j < i2 ==> (#[trigger] out@[n1 + j]).model() == args_m[j],
        decreases params.args@.len() - i2,
    {
        let p = param_info_of(&params.args[i2], false);
        out.push(p);
        i2 = i2 + 1;
    }
    let ghost n2 = n1 + args_m.len();
    match &params.vararg {
        Some(v) => {
            let p = bare_info_of(v, false);
            out.push(p);
        },
        None => {},
    }
    let ghost n3 = n2 + va_m.len();
    proof {
        assert(out@.len() == n3);
        assert(va_m.len() > 0 ==> out@[n2 as int].model() == va_m[0]);
    }
    let mut i3: usize = 0;
    while i3 < params.kwonly.len()
        invariant
            i3 <= params.kwonly@.len(),
            out@.len() == n3 + i3,
            forall|j: int| 0 <= j < n1 ==> (#[trigger] out@[j]).model() == pos_m[j],
            forall|j: int| 0 <= j < args_m.len() ==> (#[trigger] out@[n1 + j]).model() == args_m[j],
            va_m.len() > 0 ==> out@[n2 as int].model() == va_m[0],
            forall|j: int| 0 <= j < i3 ==> (#[trigger] out@[n3 + j]).model() == kw_m[j],
        decreases params.kwonly@.len() - i3,
    {
        let p = param_info_of(&params.kwonly[i3], true);
        out.push(p);
        i3 = i3 + 1;
    }
    let ghost n4 = n3 + kw_m.len();
    match &params.kwarg {
        Some(v) => {
            let p = bare_info_of(v, true);
            out.push(p);
            proof {
                assert(out@[n4 as int].model() == kwa_m[0]);
            }
        },
        None => {},
    }
    proof {
        let goal = signature_params(*params);
        let ab = pos_m + args_m;
        let abc = ab + va_m;
        let abcd = abc + kw_m;
        assert(goal == abcd + kwa_m);
        assert(out@.len() == n4 + kwa_m.len());
        assert(goal.len() == n4 + kwa_m.len());
        assert forall|j: int| 0 <= j < out@.len() implies (#[trigger] out@[j]).model()
            == goal[j] by {
            if j < n1 {
                assert(ab[j] == pos_m[j]);
                assert(abc[j] == ab[j]);
                assert(abcd[j] == abc[j]);
                assert(goal[j] == abcd[j]);
            } else if j < n2 {
                assert(out@[n1 + (j - n1)].model() == args_m[j - n1]);
                assert(ab[j] == args_m[j - n1]);
                assert(abc[j] == ab[j]);
                assert(abcd[j] == abc[j]);
                assert(goal[j] == abcd[j]);
            } else if j < n3 {
                assert(abc[j] == va_m[0]);
                assert(abcd[j] == abc[j]);
                assert(goal[j] == abcd[j]);
            } else if j < n4 {
                assert(out@[n3 + (j - n3)].model() == kw_m[j - n3]);
                assert(abcd[j] == kw_m[j - n3]);
                assert(goal[j] == abcd[j]);
            } else {
                assert(goal[j] == kwa_m[0]);
                assert(out@[j].model() == kwa_m[0]);
            }
        }
        assert(pi_models(out@) =~= goal);
    }
    out
}

/// Extracts the docstring of a definition body.
pub fn extract_docstring(body: &Vec<PyStmt>) -> (r: Option<String>)
    ensures
        opt_view(r) == docstring_of(body@),
{
    if body.len() > 0 {
        match &body[0] {
            PyStmt::Expr(e) => match e {
                PyExpr::StrLit(s) => Some(s.clone()),
                _ => None,
            },
            _ => None,
        }
    } else {
        None
    }
}

/// Builds the signature of a function definition.
pub fn extract_function_signature_from_def(f: &PyFunctionDef) -> (r: FunctionSignature)
    ensures
        r.model() == signature_of(*f),
{
    let parameters = extract_parameters(&f.params);
    let return_type = match &f.returns {
        Some(e) => Some(expr_to_string(e)),
        None => None,
    };
    let docstring = extract_docstring(&f.body);
    let r = FunctionSignature { name: f.name.clone(), parameters, return_type, docstring };
    proof {
        assert(r.model().parameters =~= signature_params(f.params));
    }
    r
}

/// Builds the class description of a class definition, searching its body
/// one level deep for an `__init__`.
#[verifier::loop_isolation(false)]
pub fn extract_class_info_from_def(c: &PyClassDef) -> (r: ClassInfo)
    ensures
        r.model() == class_info_of(*c),
{
    let docstring = extract_docstring(&c.body);
    let mut init_signature: Option<FunctionSignature> = None;
    let mut i: usize = 0;
    let n = c.body.len();
    let mut found: bool = false;
    while i < n && !found
        invariant
            i <= n,
            n == c.body@.len(),
            !found ==> init_signature is None && find_init_in(c.body@, i as int) == find_init_in(
                c.body@,
                0,
            ),
            found ==> (find_init_in(c.body@, 0) matches Some(f) && init_signature matches Some(s)
                && s.model() == signature_of(f)),
        decreases n - i,
    {
        match &c.body[i] {
            PyStmt::FunctionDef(f) => {
                if crate::text::str_view_eq(f.name.as_str(), "__init__") {
                    let s = extract_function_signature_from_def(f);
                    init_signature = Some(s);
                    found = true;
                }
            },
            _ => {},
        }
        i = i + 1;
    }
    let r = ClassInfo { name: c.name.clone(), docstring, init_signature };
    r
}

/// Finds the first function definition named `name` in one statement.
#[verifier::loop_isolation(false)]
fn find_fn_stmt<'a>(s: &'a PyStmt, name: &str) -> (r: Option<&'a PyFunctionDef>)
    ensures
        match r {
            Some(f) => find_fn_in_stmt(*s, name@) == Some(*f),
            None => find_fn_in_stmt(*s, name@) is None,
        },
    decreases *s, 1int, 0int,
{
    match s {
        PyStmt::FunctionDef(f) => {
            if crate::text::str_view_eq(f.name.as_str(), name) {
                Some(f)
            } else {
                proof {
                    assert(decreases_to!(*s => (*s)->FunctionDef_0));
                    assert(decreases_to!((*s)->FunctionDef_0 => (*s)->FunctionDef_0.body));
                    assert(decreases_to!(
                        (*s)->FunctionDef_0.body => (*s)->FunctionDef_0.body@));
                }
                find_fn_list(&f.body, name, Ghost((*s, 0int, 0int)))
            }
        },
        PyStmt::ClassDef(c) => {
            proof {
                assert(decreases_to!(*s => (*s)->ClassDef_0));
                assert(decreases_to!((*s)->ClassDef_0 => (*s)->ClassDef_0.body));
                assert(decreases_to!((*s)->ClassDef_0.body => (*s)->ClassDef_0.body@));
            }
            find_fn_list(&c.body, name, Ghost((*s, 0int, 0int)))
        },
        PyStmt::Block(b) => {
            proof {
                assert(decreases_to!(*s => (*s)->Block_0));
                assert(decreases_to!((*s)->Block_0 => (*s)->Block_0@));
            }
            find_fn_list(b, name, Ghost((*s, 0int, 0int)))
        },
        PyStmt::Expr(_) => None,
        PyStmt::Leaf => None,
    }
}

/// Finds the first function definition named `name` in a statement list.
#[verifier::loop_isolation(false)]
fn find_fn_list<'a>(stmts: &'a Vec<PyStmt>, name: &str, Ghost(bound): Ghost<(PyStmt, int, int)>) -> (r: Option<
    &'a PyFunctionDef,
>)
    requires
        decreases_to!(bound.0 => stmts@),
    ensures
        match r {
            Some(f) => find_fn_in_list(stmts@, name@, 0) == Some(*f),
            None => find_fn_in_list(stmts@, name@, 0) is None,
        },
    decreases bound.0, 0int, 0int,
{
    let n = stmts.len();
    let mut i: usize = 0;
    while i < n
        invariant
            i <= n,
            n == stmts@.len(),
            find_fn_in_list(stmts@, name@, i as int) == find_fn_in_list(stmts@, name@, 0),
        decreases n - i,
    {
        proof {
            assert(decreases_to!(stmts@ => stmts@[i as int]));
        }
        match find_fn_stmt(&stmts[i], name) {
            Some(f) => {
                return Some(f);
            },
            None => {},
        }
        i = i + 1;
    }
    None
}

/// Finds the first class definition named `name` in one statement.
#[verifier::loop_isolation(false)]
fn find_class_stmt<'a>(s: &'a PyStmt, name: &str) -> (r: Option<&'a PyClassDef>)
    ensures
        match r {
            Some(c) => find_class_in_stmt(*s, name@) == Some(*c),
            None => find_class_in_stmt(*s, name@) is None,
        },
    decreases *s, 1int, 0int,
{
    match s {
        PyStmt::ClassDef(c) => {
            if crate::text::str_view_eq(c.name.as_str(), name) {
                Some(c)
            } else {
                proof {
                    assert(decreases_to!(*s => (*s)->ClassDef_0));
                    assert(decreases_to!((*s)->ClassDef_0 => (*s)->ClassDef_0.body));
                    assert(decreases_to!((*s)->ClassDef_0.body => (*s)->ClassDef_0.body@));
                }
                find_class_list(&c.body, name, Ghost((*s, 0int, 0int)))
            }
        },
        PyStmt::FunctionDef(f) => {
            proof {
                assert(decreases_to!(*s => (*s)->FunctionDef_0));
                assert(decreases_to!((*s)->FunctionDef_0 => (*s)->FunctionDef_0.body));
                assert(decreases_to!((*s)->FunctionDef_0.body => (*s)->FunctionDef_0.body@));
            }
            find_class_list(&f.body, name, Ghost((*s, 0int, 0int)))
        },
        PyStmt::Block(b) => {
            proof {
                assert(decreases_to!(*s => (*s)->Block_0));
                assert(decreases_to!((*s)->Block_0 => (*s)->Block_0@));
            }
            find_class_list(b, name, Ghost((*s, 0int, 0int)))
        },
        PyStmt::Expr(_) => None,
        PyStmt::Leaf => None,
    }
}

/// Finds the first class definition named `name` in a statement list.
#[verifier::loop_isolation(false)]
fn find_class_list<'a>(stmts: &'a Vec<PyStmt>, name: &str, Ghost(bound): Ghost<(PyStmt, int, int)>) -> (r: Option<
    &'a PyClassDef,
>)
    requires
        decreases_to!(bound.0 => stmts@),
    ensures
        match r {
            Some(c) => find_class_in_list(stmts@, name@, 0) == Some(*c),
            None => find_class_in_list(stmts@, name@, 0) is None,
        },
    decreases bound.0, 0int, 0int,
{
    let n = stmts.len();
    let mut i: usize = 0;
    while i < n
        invariant
            i <= n,
            n == stmts@.len(),
            find_class_in_list(stmts@, name@, i as int) == find_class_in_list(stmts@, name@, 0),
        decreases n - i,
    {
        proof {
            assert(decreases_to!(stmts@ => stmts@[i as int]));
        }
        match find_class_stmt(&stmts[i], name) {
            Some(c) => {
                return Some(c);
            },
            None => {},
        }
        i = i + 1;
    }
    None
}

/// Renders one signature parameter.
fn param_piece_exec(p: &ParameterInfo) -> (r: String)
    ensures
        r@ == param_piece(p.model()),
{
    let mut m = String::new();
    if p.is_variadic {
        m.append("*");
    } else if p.is_variadic_keyword {
        m.append("**");
    }
    m.append(p.name.as_str());
    match &p.type_annotation {
        Some(t) => {
            m.append(": ");
            m.append(t.as_str());
        },
        None => {},
    }
    match &p.default_value {
        Some(d) => {
            m.append(" = ");
            m.append(d.as_str());
        },
        None => {},
    }
    proof {
        assert(m@ =~= param_piece(p.model()));
    }
    m
}

/// Renders a signature's parameters, comma-separated.
#[verifier::loop_isolation(false)]
fn join_pieces_exec(ps: &Vec<ParameterInfo>) -> (r: String)
    ensures
        r@ == join_pieces(pi_models(ps@), 0),
{
    let ghost psm = pi_models(ps@);
    let mut m = String::new();
    let n = ps.len();
    let mut i: usize = 0;
    proof {
        assert(m@ =~= Seq::<char>::empty());
    }
    while i < n
        invariant
            i <= n,
            n == ps@.len(),
            m@ + join_pieces(psm, i as int) == join_pieces(psm, 0),
        decreases n - i,
    {
        let ghost m_before = m@;
        let piece = param_piece_exec(&ps[i]);
        m.append(piece.as_str());
        if i + 1 < n {
            m.append(", ");
            proof {
                assert((m_before + param_piece(psm[i as int]) + ", "@) + join_pieces(psm, i + 1)
                    =~= m_before + (param_piece(psm[i as int]) + ", "@ + join_pieces(psm, i + 1)));
                assert(m@ =~= m_before + param_piece(psm[i as int]) + ", "@);
            }
        } else {
            proof {
                assert(join_pieces(psm, i + 1) =~= Seq::<char>::empty());
                assert((m_before + param_piece(psm[i as int])) + join_pieces(psm, i + 1)
                    =~= m_before + param_piece(psm[i as int]));
            }
        }
        i = i + 1;
    }
    proof {
        assert(join_pieces(psm, n as int) =~= Seq::<char>::empty());
        assert(m@ + Seq::<char>::empty() =~= m@);
    }
    m
}

/// Renders one constructor parameter.
fn class_param_piece_exec(p: &ParameterInfo) -> (r: String)
    ensures
        r@ == class_param_piece(p.model()),
{
    let mut m = String::new();
    m.append(p.name.as_str());
    match &p.type_annotation {
        Some(t) => {
            m.append(": ");
            m.append(t.as_str());
        },
        None => {},
    }
    match &p.default_value {
        Some(d) => {
            m.append(" = ");
            m.append(d.as_str());
        },
        None => {},
    }
    proof {
        assert(m@ =~= class_param_piece(p.model()));
    }
    m
}

/// Renders a constructor's parameters, comma-separated, skipping `self`.
#[verifier::loop_isolation(false)]
fn join_class_params_exec(ps: &Vec<ParameterInfo>) -> (r: String)
    ensures
        r@ == join_class_params(pi_models(ps@), 0, true),
{
    let ghost psm = pi_models(ps@);
    let mut m = String::new();
    let n = ps.len();
    let mut i: usize = 0;
    let mut first: bool = true;
    proof {
        assert(m@ =~= Seq::<char>::empty());
    }
    while i < n
        invariant
            i <= n,
            n == ps@.len(),
            m@ + join_class_params(psm, i as int, first) == join_class_params(psm, 0, true),
        decreases n - i,
    {
        let ghost m_before = m@;
        let ghost first_before = first;
        let p = &ps[i];
        if !crate::text::str_view_eq(p.name.as_str(), "self") {
            if !first {
                m.append(", ");
            }
            let piece = class_param_piece_exec(p);
            m.append(piece.as_str());
            first = false;
            proof {
                let sep: Seq<char> = if first_before {
                    Seq::<char>::empty()
                } else {
                    ", "@
                };
                assert(m@ =~= m_before + sep + class_param_piece(psm[i as int]));
                assert((m_before + sep + class_param_piece(psm[i as int])) + join_class_params(
                    psm,
                    i + 1,
                    false,
                ) =~= m_before + (sep + class_param_piece(psm[i as int]) + join_class_params(
                    psm,
                    i + 1,
                    false,
                )));
            }
        } else {
            proof {
                assert(psm[i as int].name == "self"@);
            }
        }
        i = i + 1;
    }
    proof {
        assert(join_class_params(psm, n as int, first) =~= Seq::<char>::empty());
        assert(m@ + Seq::<char>::empty() =~= m@);
    }
    m
}

impl PythonAnalyzer {
    /// Extracts the signature of the function named `function_name` from
    /// Python source text: the first match of a pre-order depth-first
    /// search.  Fails with `ParseFailure` exactly when the text is not
    /// valid Python, and with `SymbolNotFound` exactly when no function
    /// of that name exists in it.
    pub fn extract_function_signature(source: &str, function_name: &str) -> (r: Result<
        FunctionSignature,
        AnalyzerError,
    >)
        ensures
            match crate::python_ast::python_ast_of(source@) {
                None => r matches Err(e) && e == AnalyzerError::ParseFailure,
                Some(ast) => match find_fn_in_list(ast, function_name@, 0) {
                    Some(f) => r matches Ok(sig) && sig.model() == signature_of(f),
                    None => r matches Err(e) && e == AnalyzerError::SymbolNotFound,
                },
            },
    {
        let parsed = match crate::python_ast::parse_python_source(source) {
            Ok(p) => p,
            Err(_) => {
                return Err(AnalyzerError::ParseFailure);
            },
        };
        let stmts = crate::python_ast::convert_module(&parsed);
        let ghost b = PyStmt::Block(stmts);
        proof {
            assert(decreases_to!(b => b->Block_0));
            assert(decreases_to!(b->Block_0 => b->Block_0@));
        }
        match find_fn_list(&stmts, function_name, Ghost((b, 0int, 0int))) {
            Some(f) => Ok(extract_function_signature_from_def(f)),
            None => Err(AnalyzerError::SymbolNotFound),
        }
    }

    /// Extracts the class named `class_name` from Python source text: the
    /// first match of a pre-order depth-first search.  Fails with
    /// `ParseFailure` exactly when the text is not valid Python, and with
    /// `SymbolNotFound` exactly when no class of that name exists in it.
    pub fn extract_class_info(source: &str, class_name: &str) -> (r: Result<
        ClassInfo,
        AnalyzerError,
    >)
        ensures
            match crate::python_ast::python_ast_of(source@) {
                None => r matches Err(e) && e == AnalyzerError::ParseFailure,
                Some(ast) => match find_class_in_list(ast, class_name@, 0) {
                    Some(c) => r matches Ok(info) && info.model() == class_info_of(c),
                    None => r matches Err(e) && e == AnalyzerError::SymbolNotFound,
                },
            },
    {
        let parsed = match crate::python_ast::parse_python_source(source) {
            Ok(p) => p,
            Err(_) => {
                return Err(AnalyzerError::ParseFailure);
            },
        };
        let stmts = crate::python_ast::convert_module(&parsed);
        let ghost b = PyStmt::Block(stmts);
        proof {
            assert(decreases_to!(b => b->Block_0));
            assert(decreases_to!(b->Block_0 => b->Block_0@));
        }
        match find_class_list(&stmts, class_name, Ghost((b, 0int, 0int))) {
            Some(c) => Ok(extract_class_info_from_def(c)),
            None => Err(AnalyzerError::SymbolNotFound),
        }
    }

    /// Extracts the definition named `symbol_name` from Python source
    /// text, trying functions first and classes second.  Fails with
    /// `ParseFailure` exactly when the text is not valid Python, and with
    /// `SymbolNotFound` exactly when it holds neither a function nor a
    /// class of that name.
    pub fn extract_definition_info(source: &str, symbol_name: &str) -> (r: Result<
        DefinitionInfo,
        AnalyzerError,
    >)
        ensures
            match crate::python_ast::python_ast_of(source@) {
                None => r matches Err(e) && e == AnalyzerError::ParseFailure,
                Some(ast) => match find_fn_in_list(ast, symbol_name@, 0) {
                    Some(f) => r matches Ok(d) && d.model() == DiM::Function(signature_of(f)),
                    None => match find_class_in_list(ast, symbol_name@, 0) {
                        Some(c) => r matches Ok(d) && d.model() == DiM::Class(class_info_of(c)),
                        None => r matches Err(e) && e == AnalyzerError::SymbolNotFound,
                    },
                },
            },
    {
        let parsed = match crate::python_ast::parse_python_source(source) {
            Ok(p) => p,
            Err(_) => {
                return Err(AnalyzerError::ParseFailure);
            },
        };
        let stmts = crate::python_ast::convert_module(&parsed);
        let ghost b = PyStmt::Block(stmts);
        proof {
            assert(decreases_to!(b => b->Block_0));
            assert(decreases_to!(b->Block_0 => b->Block_0@));
        }
        match find_fn_list(&stmts, symbol_name, Ghost((b, 0int, 0int))) {
            Some(f) => Ok(DefinitionInfo::Function(extract_function_signature_from_def(f))),
            None => match find_class_list(&stmts, symbol_name, Ghost((b, 0int, 0int))) {
                Some(c) => Ok(DefinitionInfo::Class(extract_class_info_from_def(c))),
                None => Err(AnalyzerError::SymbolNotFound),
            },
        }
    }

    /// Renders a function signature for display.
    pub fn format_signature(sig: &FunctionSignature) -> (r: String)
        ensures
            r@ == format_signature_text(sig.model()),
    {
        let mut m = "```python\ndef ".to_owned();
        m.append(sig.name.as_str());
        m.append("(");
        let joined = join_pieces_exec(&sig.parameters);
        m.append(joined.as_str());
        m.append(")");
        match &sig.return_type {
            Some(t) => {
                m.append(" -> ");
                m.append(t.as_str());
            },
            None => {},
        }
        m.append("\n```");
        match &sig.docstring {
            Some(d) => {
                m.append("\n\n---\n\n");
                m.append(d.as_str());
            },
            None => {},
        }
        proof {
            assert(pi_models(sig.parameters@) =~= sig.model().parameters);
            assert(m@ =~= format_signature_text(sig.model()));
        }
        m
    }

    /// Renders a class for display.
    pub fn format_class(class: &ClassInfo) -> (r: String)
        ensures
            r@ == format_class_text(class.model()),
    {
        let mut m = "```python\nclass ".to_owned();
        m.append(class.name.as_str());
        match &class.init_signature {
            Some(init) => {
                m.append("(");
                let joined = join_class_params_exec(&init.parameters);
                m.append(joined.as_str());
                m.append(")");
                proof {
                    assert(pi_models(init.parameters@) =~= init.model().parameters);
                }
            },
            None => {},
        }
        m.append("\n```");
        match &class.docstring {
            Some(d) => {
                m.append("\n\n---\n\n");
                m.append(d.as_str());
            },
            None => {},
        }
        proof {
            assert(m@ =~= format_class_text(class.model()));
        }
        m
    }
}

} // verus!
