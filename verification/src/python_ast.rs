//! The library's own model of a parsed Python module: just enough of the
//! syntax tree to find a definition by name, read its signature, and
//! render annotations and defaults.  A trusted conversion fills it from
//! the parser's tree.

use vstd::prelude::*;

use ruff_python_ast::Expr;
use ruff_python_ast::Stmt;

verus! {

/// An expression, reduced to the shapes the renderer understands; every
/// other shape is `Opaque` and renders as a placeholder.
pub enum PyExpr {
    Name(String),
    Attribute(Box<PyExpr>, String),
    Subscript(Box<PyExpr>, Box<PyExpr>),
    Tuple(Vec<PyExpr>),
    List(Vec<PyExpr>),
    StrLit(String),
    NumLit(String),
    BoolLit(bool),
    NoneLit,
    OrBin(Box<PyExpr>, Box<PyExpr>),
    Opaque,
}

/// A parameter that may carry a default.
pub struct PyParam {
    pub name: String,
    pub annotation: Option<PyExpr>,
    pub default: Option<PyExpr>,
}

/// A variadic parameter: never carries a default.
pub struct PyBareParam {
    pub name: String,
    pub annotation: Option<PyExpr>,
}

/// A function's parameter groups, in signature order.
pub struct PyParams {
    pub posonly: Vec<PyParam>,
    pub args: Vec<PyParam>,
    pub vararg: Option<PyBareParam>,
    pub kwonly: Vec<PyParam>,
    pub kwarg: Option<PyBareParam>,
}

/// A function definition.
pub struct PyFunctionDef {
    pub name: String,
    pub params: PyParams,
    pub returns: Option<PyExpr>,
    pub body: Vec<PyStmt>,
}

/// A class definition.
pub struct PyClassDef {
    pub name: String,
    pub body: Vec<PyStmt>,
}

/// A statement: definitions and expression statements are kept; any other
/// compound statement keeps only its nested statements, in source order,
/// so that a depth-first search still visits them; simple statements are
/// leaves.
pub enum PyStmt {
    FunctionDef(PyFunctionDef),
    ClassDef(PyClassDef),
    Expr(PyExpr),
    Block(Vec<PyStmt>),
    Leaf,
}

#[verifier::external_type_specification]
#[verifier::external_body]
#[verifier::reject_recursive_types(T)]
pub struct ExParsed<T>(ruff_python_parser::Parsed<T>);

#[verifier::external_type_specification]
#[verifier::external_body]
pub struct ExModModule(ruff_python_ast::ModModule);

#[verifier::external_type_specification]
#[verifier::external_body]
pub struct ExStmt(ruff_python_ast::Stmt);

#[verifier::external_type_specification]
#[verifier::external_body]
pub struct ExExpr(ruff_python_ast::Expr);

#[verifier::external_type_specification]
#[verifier::external_body]
pub struct ExParameters(ruff_python_ast::Parameters);

#[verifier::external_type_specification]
#[verifier::external_body]
pub struct ExStmtFunctionDef(ruff_python_ast::StmtFunctionDef);

#[verifier::external_type_specification]
#[verifier::external_body]
pub struct ExStmtTry(ruff_python_ast::StmtTry);

#[verifier::external_type_specification]
#[verifier::external_body]
pub struct ExStmtIf(ruff_python_ast::StmtIf);

#[verifier::external_type_specification]
#[verifier::external_body]
pub struct ExParameterWithDefault(ruff_python_ast::ParameterWithDefault);

/// The statements the parsed module converts to.  The parsed value
/// determines them completely.
pub uninterp spec fn parsed_module_model(
    p: ruff_python_parser::Parsed<ruff_python_ast::ModModule>,
) -> Seq<PyStmt>;

/// What a Python source text parses to: `Some` of the converted module
/// body when the text is valid Python, `None` otherwise.  The text
/// determines it completely.
pub uninterp spec fn python_ast_of(s: Seq<char>) -> Option<Seq<PyStmt>>;

/// Relies on ruff_python_parser::parse_module: parses the source text
/// into a module syntax tree; it is `Err` exactly when the text is not
/// valid Python, and the outcome is a function of the text alone.
#[verifier::external_body]
pub(crate) fn parse_python_source(source: &str) -> (r: Result<
    ruff_python_parser::Parsed<ruff_python_ast::ModModule>,
    String,
>)
    ensures
        match r {
            Ok(p) => python_ast_of(source@) == Some(parsed_module_model(p)),
            Err(_) => python_ast_of(source@) is None,
        },
{
    match ruff_python_parser::parse_module(source) {
        Ok(p) => Ok(p),
        Err(e) => Err(e.to_string()),
    }
}

/// Relies on ruff_python_ast's statement list: converts the parsed
/// module's top-level statements, in order.  `parsed_module_model` names
/// the result.
#[verifier::external_body]
pub(crate) fn convert_module(p: &ruff_python_parser::Parsed<ruff_python_ast::ModModule>) -> (r:
    Vec<PyStmt>)
    ensures
        r@ == parsed_module_model(*p),
{
    p.suite().iter().map(convert_stmt).collect()
}

/// Relies on ruff_python_ast's statement variants: keeps definitions and
/// expression statements; everything else goes through the compound
/// conversion.
#[verifier::external_body]
fn convert_stmt(s: &ruff_python_ast::Stmt) -> PyStmt {
    match s {
        Stmt::FunctionDef(f) => PyStmt::FunctionDef(convert_function_def(f)),
        Stmt::ClassDef(c) => PyStmt::ClassDef(
            PyClassDef { name: c.name.to_string(), body: convert_body(&c.body) },
        ),
        Stmt::Expr(e) => PyStmt::Expr(convert_expr(&e.value)),
        other => convert_compound(other),
    }
}

/// Relies on ruff_python_ast's compound statements: flattens each to its
/// nested statements in source order; simple statements become leaves.
#[verifier::external_body]
fn convert_compound(s: &ruff_python_ast::Stmt) -> PyStmt {
    match s {
        Stmt::If(i) => PyStmt::Block(convert_if(i)),
        Stmt::While(w) => PyStmt::Block(convert_two(&w.body, &w.orelse)),
        Stmt::For(f) => PyStmt::Block(convert_two(&f.body, &f.orelse)),
        Stmt::With(w) => PyStmt::Block(convert_body(&w.body)),
        Stmt::Try(t) => PyStmt::Block(convert_try(t)),
        Stmt::Match(m) => PyStmt::Block(
            m.cases.iter().flat_map(|c| convert_body(&c.body)).collect(),
        ),
        _ => PyStmt::Leaf,
    }
}

/// Relies on ruff_python_ast::StmtIf: gathers its body and every branch
/// clause's body in source order.
#[verifier::external_body]
fn convert_if(i: &ruff_python_ast::StmtIf) -> Vec<PyStmt> {
    convert_body(&i.body).into_iter().chain(
        i.elif_else_clauses.iter().flat_map(|c| convert_body(&c.body)),
    ).collect()
}

/// Relies on ruff_python_ast's statement lists: converts two bodies, in
/// order.
#[verifier::external_body]
fn convert_two(a: &[ruff_python_ast::Stmt], b: &[ruff_python_ast::Stmt]) -> Vec<PyStmt> {
    convert_body(a).into_iter().chain(convert_body(b)).collect()
}

/// Relies on ruff_python_ast::StmtTry: gathers its body, handlers,
/// else and finally statements in source order.
#[verifier::external_body]
fn convert_try(t: &ruff_python_ast::StmtTry) -> Vec<PyStmt> {
    let handlers = t.handlers.iter().flat_map(
        |h| match h {
            ruff_python_ast::ExceptHandler::ExceptHandler(eh) => convert_body(&eh.body),
        },
    );
    convert_body(&t.body).into_iter().chain(handlers).chain(convert_body(&t.orelse)).chain(
        convert_body(&t.finalbody),
    ).collect()
}

/// Relies on ruff_python_ast's statement list shape: converts a body.
#[verifier::external_body]
fn convert_body(body: &[ruff_python_ast::Stmt]) -> Vec<PyStmt> {
    body.iter().map(convert_stmt).collect()
}

/// Relies on ruff_python_ast::StmtFunctionDef: carries the name, the
/// parameter groups, the return annotation and the body across.
#[verifier::external_body]
fn convert_function_def(f: &ruff_python_ast::StmtFunctionDef) -> PyFunctionDef {
    PyFunctionDef {
        name: f.name.to_string(),
        params: convert_params(&f.parameters),
        returns: f.returns.as_ref().map(|e| convert_expr(e)),
        body: convert_body(&f.body),
    }
}

/// Relies on ruff_python_ast::Parameters: keeps the five groups in
/// order.
#[verifier::external_body]
fn convert_params(p: &ruff_python_ast::Parameters) -> PyParams {
    PyParams {
        posonly: conv_defaulted(&p.posonlyargs),
        args: conv_defaulted(&p.args),
        vararg: conv_vararg(p),
        kwonly: conv_defaulted(&p.kwonlyargs),
        kwarg: conv_kwarg(p),
    }
}

/// Relies on ruff_python_ast::ParameterWithDefault's fields: name,
/// annotation and default carried across, in order.
#[verifier::external_body]
fn conv_defaulted(l: &[ruff_python_ast::ParameterWithDefault]) -> Vec<PyParam> {
    l.iter().map(
        |pw| PyParam {
            name: pw.parameter.name.to_string(),
            annotation: pw.parameter.annotation.as_deref().map(convert_expr),
            default: pw.default.as_deref().map(convert_expr),
        },
    ).collect()
}

/// Relies on ruff_python_ast::Parameters: the variadic-positional slot.
#[verifier::external_body]
fn conv_vararg(p: &ruff_python_ast::Parameters) -> Option<PyBareParam> {
    p.vararg.as_deref().map(
        |pr| PyBareParam {
            name: pr.name.to_string(),
            annotation: pr.annotation.as_deref().map(convert_expr),
        },
    )
}

/// Relies on ruff_python_ast::Parameters: the variadic-keyword slot.
#[verifier::external_body]
fn conv_kwarg(p: &ruff_python_ast::Parameters) -> Option<PyBareParam> {
    p.kwarg.as_deref().map(
        |pr| PyBareParam {
            name: pr.name.to_string(),
            annotation: pr.annotation.as_deref().map(convert_expr),
        },
    )
}

/// Relies on ruff_python_ast's expression variants: keeps the composite
/// shapes the renderer understands; literals go through the literal
/// conversion, and everything else becomes opaque.
#[verifier::external_body]
fn convert_expr(e: &ruff_python_ast::Expr) -> PyExpr {
    match e {
        Expr::Name(n) => PyExpr::Name(n.id.to_string()),
        Expr::Attribute(a) => PyExpr::Attribute(
            Box::new(convert_expr(&a.value)),
            a.attr.to_string(),
        ),
        Expr::Subscript(s) => PyExpr::Subscript(
            Box::new(convert_expr(&s.value)),
            Box::new(convert_expr(&s.slice)),
        ),
        other => convert_expr_more(other),
    }
}

/// Relies on ruff_python_ast's expression variants: tuples, lists and
/// bit-or unions.
#[verifier::external_body]
fn convert_expr_more(e: &ruff_python_ast::Expr) -> PyExpr {
    match e {
        Expr::Tuple(t) => PyExpr::Tuple(t.elts.iter().map(convert_expr).collect()),
        Expr::List(l) => PyExpr::List(l.elts.iter().map(convert_expr).collect()),
        Expr::BinOp(b) if b.op == ruff_python_ast::Operator::BitOr => PyExpr::OrBin(
            Box::new(convert_expr(&b.left)),
            Box::new(convert_expr(&b.right)),
        ),
        other => convert_literal(other),
    }
}

/// Relies on ruff_python_ast's literal variants: strings carry their
/// cooked value, numbers their printed form.
#[verifier::external_body]
fn convert_literal(e: &ruff_python_ast::Expr) -> PyExpr {
    match e {
        Expr::StringLiteral(s) => PyExpr::StrLit(s.value.to_string()),
        Expr::NumberLiteral(n) => PyExpr::NumLit(format!("{:?}", n.value)),
        Expr::BooleanLiteral(b) => PyExpr::BoolLit(b.value),
        Expr::NoneLiteral(_) => PyExpr::NoneLit,
        _ => PyExpr::Opaque,
    }
}

} // verus!
