use hydra_lsp::DefinitionInfo;
use hydra_lsp::PythonAnalyzer;

#[test]
fn test_split_target() {
    let (module, symbol) = PythonAnalyzer::split_target("myproject.models.MyClass").unwrap();
    assert_eq!(module, "myproject.models");
    assert_eq!(symbol, "MyClass");
}

#[test]
fn test_split_target_short() {
    let (module, symbol) = PythonAnalyzer::split_target("module.Class").unwrap();
    assert_eq!(module, "module");
    assert_eq!(symbol, "Class");
}

#[test]
fn test_split_target_invalid() {
    assert!(PythonAnalyzer::split_target("InvalidTarget").is_err());
}

#[test]
fn test_extract_function_signature() {
    let source = "\ndef loader(path: str, batch_size: int = 32, *args, verbose: bool = False, **kwargs) -> int:\n    \"\"\"Loads things.\"\"\"\n    return 0\n";
    let sig = PythonAnalyzer::extract_function_signature(source, "loader").unwrap();
    assert_eq!(sig.name, "loader");
    assert_eq!(sig.parameters.len(), 5);
    assert_eq!(sig.parameters[0].name, "path");
    assert_eq!(sig.parameters[0].type_annotation.as_deref(), Some("str"));
    assert!(!sig.parameters[0].has_default);
    assert_eq!(sig.parameters[1].name, "batch_size");
    assert_eq!(sig.parameters[1].default_value.as_deref(), Some("Int(32)"));
    assert!(sig.parameters[1].has_default);
    assert!(sig.parameters[2].is_variadic);
    assert_eq!(sig.parameters[2].name, "args");
    assert!(sig.parameters[3].is_keyword_only);
    assert_eq!(sig.parameters[3].name, "verbose");
    assert!(sig.parameters[4].is_variadic_keyword);
    assert_eq!(sig.parameters[4].name, "kwargs");
    assert_eq!(sig.return_type.as_deref(), Some("int"));
    assert_eq!(sig.docstring.as_deref(), Some("Loads things."));
}

#[test]
fn test_extract_function_signature_not_found() {
    let source = "def f(x):\n    pass\n";
    assert!(PythonAnalyzer::extract_function_signature(source, "g").is_err());
}

#[test]
fn test_extract_function_signature_parse_failure() {
    let source = "def f(:\n";
    assert!(PythonAnalyzer::extract_function_signature(source, "f").is_err());
}

#[test]
fn test_extract_class_info() {
    let source = "\nclass Model:\n    \"\"\"A model.\"\"\"\n    def __init__(self, size: int, name: str = 'm'):\n        pass\n";
    let info = PythonAnalyzer::extract_class_info(source, "Model").unwrap();
    assert_eq!(info.name, "Model");
    assert_eq!(info.docstring.as_deref(), Some("A model."));
    let init = info.init_signature.unwrap();
    assert_eq!(init.name, "__init__");
    assert_eq!(init.parameters.len(), 3);
    assert_eq!(init.parameters[0].name, "self");
    assert_eq!(init.parameters[1].name, "size");
    assert_eq!(init.parameters[2].name, "name");
}

#[test]
fn test_extract_definition_info_prefers_function() {
    let source = "def thing(x):\n    pass\n";
    match PythonAnalyzer::extract_definition_info(source, "thing").unwrap() {
        DefinitionInfo::Function(f) => assert_eq!(f.name, "thing"),
        DefinitionInfo::Class(_) => panic!("expected a function"),
    }
}

#[test]
fn test_extract_definition_info_class() {
    let source = "class Thing:\n    pass\n";
    match PythonAnalyzer::extract_definition_info(source, "Thing").unwrap() {
        DefinitionInfo::Class(c) => assert_eq!(c.name, "Thing"),
        DefinitionInfo::Function(_) => panic!("expected a class"),
    }
}

#[test]
fn test_extract_definition_info_nested_in_if() {
    let source = "import os\nif True:\n    def hidden(a, b):\n        pass\n";
    match PythonAnalyzer::extract_definition_info(source, "hidden").unwrap() {
        DefinitionInfo::Function(f) => {
            assert_eq!(f.name, "hidden");
            assert_eq!(f.parameters.len(), 2);
        }
        DefinitionInfo::Class(_) => panic!("expected a function"),
    }
}

#[test]
fn test_extract_definition_info_not_found() {
    let source = "x = 1\n";
    assert!(PythonAnalyzer::extract_definition_info(source, "missing").is_err());
}

#[test]
fn test_format_signature() {
    let source = "def f(x: int, y: str = 'a') -> bool:\n    \"\"\"Doc.\"\"\"\n    return True\n";
    let sig = PythonAnalyzer::extract_function_signature(source, "f").unwrap();
    let text = PythonAnalyzer::format_signature(&sig);
    assert_eq!(
        text,
        "```python\ndef f(x: int, y: str = 'a') -> bool\n```\n\n---\n\nDoc."
    );
}

#[test]
fn test_format_signature_annotation_shapes() {
    let source = "def g(a: torch.nn.Module, b: dict[str, int], c: int | None):\n    pass\n";
    let sig = PythonAnalyzer::extract_function_signature(source, "g").unwrap();
    assert_eq!(sig.parameters[0].type_annotation.as_deref(), Some("torch.nn.Module"));
    assert_eq!(sig.parameters[1].type_annotation.as_deref(), Some("dict[(str, int)]"));
    assert_eq!(sig.parameters[2].type_annotation.as_deref(), Some("int | None"));
}

#[test]
fn test_format_class() {
    let source = "class C:\n    \"\"\"Doc.\"\"\"\n    def __init__(self, n: int):\n        pass\n";
    let info = PythonAnalyzer::extract_class_info(source, "C").unwrap();
    let text = PythonAnalyzer::format_class(&info);
    assert_eq!(text, "```python\nclass C(n: int)\n```\n\n---\n\nDoc.");
}
