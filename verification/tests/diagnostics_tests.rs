use hydra_lsp::DefinitionInfo;
use hydra_lsp::DiagnosticsEngine;
use hydra_lsp::Finding;
use hydra_lsp::FindingCode;
use hydra_lsp::FunctionSignature;
use hydra_lsp::LookupOutcome;
use hydra_lsp::ParamValue;
use hydra_lsp::Parameter;
use hydra_lsp::ParameterInfo;
use hydra_lsp::Severity;
use hydra_lsp::TargetInfo;
use hydra_lsp::YamlParser;
use hydra_lsp::YamlValue;

fn plain_param(name: &str) -> ParameterInfo {
    ParameterInfo {
        name: name.to_string(),
        type_annotation: None,
        default_value: None,
        has_default: false,
        is_variadic: false,
        is_variadic_keyword: false,
        is_keyword_only: false,
    }
}

fn supplied(key: &str) -> Parameter {
    Parameter {
        key: key.to_string(),
        line: 1,
        key_span: (0, key.len() as u32),
        value: ParamValue::Scalar(YamlValue::Null),
    }
}

fn target(value: &str, parameters: Vec<Parameter>) -> TargetInfo {
    TargetInfo {
        value: value.to_string(),
        line: 0,
        key_start: 0,
        value_start: 0,
        parameters,
    }
}

#[test]
fn test_validate_missing_required_param() {
    let target_info = target("my.Class", vec![]);
    let signature = FunctionSignature {
        name: "Class".to_string(),
        parameters: vec![
            plain_param("self"),
            {
                let mut p = plain_param("required_param");
                p.type_annotation = Some("int".to_string());
                p
            },
        ],
        return_type: None,
        docstring: None,
    };

    let diagnostics = DiagnosticsEngine::validate_parameters(&target_info, &signature);
    assert_eq!(diagnostics.len(), 1);
    assert!(diagnostics[0].message.contains("Missing required parameter"));
}

#[test]
fn test_validate_unknown_param_without_kwargs() {
    let target_info = target("my.Class", vec![supplied("unknown_param")]);
    let signature = FunctionSignature {
        name: "Class".to_string(),
        parameters: vec![plain_param("self")],
        return_type: None,
        docstring: None,
    };

    let diagnostics = DiagnosticsEngine::validate_parameters(&target_info, &signature);
    assert_eq!(diagnostics.len(), 1);
    assert!(diagnostics[0].message.contains("Unknown parameter"));
}

#[test]
fn test_validate_unknown_param_with_kwargs() {
    let target_info = target("my.Class", vec![supplied("any_param")]);
    let signature = FunctionSignature {
        name: "Class".to_string(),
        parameters: vec![plain_param("self"), {
            let mut p = plain_param("kwargs");
            p.is_variadic_keyword = true;
            p
        }],
        return_type: None,
        docstring: None,
    };

    let diagnostics = DiagnosticsEngine::validate_parameters(&target_info, &signature);
    assert!(diagnostics.iter().any(|d| d.severity == Severity::Hint));
}

#[test]
fn test_validate_kwargs_no_errors_one_hint() {
    // One required parameter supplied plus one extra key, against a
    // signature with a keyword catch-all: no error, one hint naming the
    // extra key.
    let target_info = target("my.f", vec![supplied("x"), supplied("y")]);
    let signature = FunctionSignature {
        name: "f".to_string(),
        parameters: vec![plain_param("x"), {
            let mut p = plain_param("kwargs");
            p.is_variadic_keyword = true;
            p
        }],
        return_type: None,
        docstring: None,
    };
    let diagnostics = DiagnosticsEngine::validate_parameters(&target_info, &signature);
    assert_eq!(diagnostics.len(), 1);
    assert_eq!(diagnostics[0].severity, Severity::Hint);
    assert!(diagnostics[0].message.contains("y"));
    assert!(diagnostics[0].message.contains("**kwargs"));
    assert!(!diagnostics.iter().any(|d| d.severity == Severity::Error));
}

#[test]
fn test_validate_target_invalid_format() {
    let t = target("InvalidTarget", vec![]);
    let findings = DiagnosticsEngine::validate_target(&t);
    assert_eq!(findings.len(), 1);
    assert_eq!(findings[0].code, FindingCode::InvalidTargetFormat);
    assert_eq!(findings[0].severity, Severity::Error);
    assert!(findings[0].message.contains("Invalid _target_ format: InvalidTarget"));
}

#[test]
fn test_validate_target_ok_format() {
    let t = target("module.Class", vec![]);
    let findings = DiagnosticsEngine::validate_target(&t);
    assert!(findings.is_empty());
}

#[test]
fn test_validate_entry_module_not_found() {
    let t = target("missing.mod.Class", vec![]);
    let outcome = LookupOutcome::ModuleNotFound {
        reason: "no module file found".to_string(),
        attempted: 12,
    };
    let findings = DiagnosticsEngine::validate_entry(&t, &outcome);
    assert_eq!(findings.len(), 1);
    assert_eq!(findings[0].code, FindingCode::ModuleNotFound);
    assert_eq!(
        findings[0].message,
        "Cannot resolve module: missing.mod (no module file found, tried 12 search paths)"
    );
}

#[test]
fn test_validate_entry_symbol_not_found() {
    let t = target("pkg.mod.Absent", vec![]);
    let findings = DiagnosticsEngine::validate_entry(&t, &LookupOutcome::SymbolNotFound);
    assert_eq!(findings.len(), 1);
    assert_eq!(findings[0].code, FindingCode::SymbolNotFound);
    assert_eq!(
        findings[0].message,
        "Symbol 'Absent' not found in module pkg.mod"
    );
}

#[test]
fn test_validate_entry_invalid_format_ignores_outcome() {
    let t = target("NoDots", vec![]);
    let f1 = DiagnosticsEngine::validate_entry(&t, &LookupOutcome::SymbolNotFound);
    let f2 = DiagnosticsEngine::validate_entry(
        &t,
        &LookupOutcome::ModuleNotFound {
            reason: "x".to_string(),
            attempted: 1,
        },
    );
    assert_eq!(f1.len(), 1);
    assert_eq!(f1[0].code, FindingCode::InvalidTargetFormat);
    assert_eq!(f2.len(), 1);
    assert_eq!(f2[0].code, FindingCode::InvalidTargetFormat);
}

fn sorted_by_position(findings: &[Finding]) -> bool {
    findings.windows(2).all(|w| {
        w[0].line < w[1].line || (w[0].line == w[1].line && w[0].start_col <= w[1].start_col)
    })
}

#[test]
fn test_validate_document_nested_independent_and_sorted() {
    // Two nested targets: the outer resolves to a signature missing a
    // required parameter, the inner has a malformed path.  Both entries
    // report their findings, and the final list is ordered by position.
    let content = "\nmodel:\n  _target_: my.Model\n  encoder:\n    _target_: BadTarget\n";
    let arena = YamlParser::parse(content).unwrap();
    assert_eq!(arena.len(), 2);

    let sig = FunctionSignature {
        name: "Model".to_string(),
        parameters: vec![plain_param("depth")],
        return_type: None,
        docstring: None,
    };
    let outcomes = vec![
        LookupOutcome::Found(DefinitionInfo::Function(sig)),
        LookupOutcome::SymbolNotFound,
    ];
    let findings = DiagnosticsEngine::validate_document(&arena, &outcomes);
    assert!(sorted_by_position(&findings));
    // The outer entry reports both the unknown `encoder` key and the
    // missing `depth`; the inner entry reports its format error.
    assert!(findings
        .iter()
        .any(|f| f.code == FindingCode::UnknownParameter && f.message.contains("encoder")));
    assert!(findings
        .iter()
        .any(|f| f.code == FindingCode::MissingRequiredParameter && f.message.contains("depth")));
    assert!(findings
        .iter()
        .any(|f| f.code == FindingCode::InvalidTargetFormat && f.message.contains("BadTarget")));
}

#[test]
fn test_validate_document_sorted_many() {
    let content = "\na:\n  _target_: A1\nb:\n  _target_: B1\nc:\n  _target_: C1\n";
    let arena = YamlParser::parse(content).unwrap();
    assert_eq!(arena.len(), 3);
    let outcomes = vec![
        LookupOutcome::SymbolNotFound,
        LookupOutcome::SymbolNotFound,
        LookupOutcome::SymbolNotFound,
    ];
    let findings = DiagnosticsEngine::validate_document(&arena, &outcomes);
    assert_eq!(findings.len(), 3);
    assert!(sorted_by_position(&findings));
    assert!(findings.iter().all(|f| f.code == FindingCode::InvalidTargetFormat));
}

#[test]
fn test_finding_code_str() {
    assert_eq!(FindingCode::InvalidTargetFormat.code_str(), "invalid-target");
    assert_eq!(FindingCode::ModuleNotFound.code_str(), "module-not-found");
    assert_eq!(FindingCode::SymbolNotFound.code_str(), "symbol-not-found");
    assert_eq!(
        FindingCode::MissingRequiredParameter.code_str(),
        "missing-parameter"
    );
    assert_eq!(FindingCode::UnknownParameter.code_str(), "unknown-parameter");
    assert_eq!(FindingCode::ParseFailure.code_str(), "yaml-syntax-error");
}
