use hydra_lsp::CompletionContext;
use hydra_lsp::Position;
use hydra_lsp::YamlParser;

#[test]
fn test_is_hydra_file_with_comment() {
    let content = "# @hydra\nmodel:\n  value: my.Model";
    assert!(YamlParser::is_hydra_file(content));
}

#[test]
fn test_is_hydra_file_with_target() {
    let content = "model:\n  _target_: my.Model\n  param: 123";
    assert!(YamlParser::is_hydra_file(content));
}

#[test]
fn test_is_hydra_file_negative() {
    let content = "model:\n  value: 3\n  param: 123";
    assert!(!YamlParser::is_hydra_file(content));
}

#[test]
fn test_parse_simple_config() {
    let content = r#"
model:
  _target_: myproject.Model
  hidden_size: 256
  num_layers: 12
"#;
    let target_map = YamlParser::parse(content).unwrap();
    assert_eq!(target_map.len(), 1);
    let target = target_map.get(&2).unwrap();
    assert_eq!(target.value, "myproject.Model");
    assert_eq!(target.parameters.len(), 2);
    assert_eq!(target.line, 2);
    assert_eq!(target.key_start, 2);
}

#[test]
fn test_parse_nested_config() {
    let content = r#"
model:
  _target_: myproject.Model
  encoder:
    _target_: myproject.Encoder
    layers: 6
  decoder:
    _target_: myproject.Decoder
    layers: 6
"#;
    let target_map = YamlParser::parse(content).unwrap();
    assert_eq!(target_map.len(), 3);

    let target1 = target_map.get(&2).unwrap();
    assert_eq!(target1.value, "myproject.Model");
    assert_eq!(target1.parameters.len(), 2);
    assert_eq!(target1.line, 2);
    assert_eq!(target1.key_start, 2);

    let target2 = target_map.get(&4).unwrap();
    assert_eq!(target2.value, "myproject.Encoder");
    assert_eq!(target2.parameters.len(), 1);
    assert_eq!(target2.line, 4);
    assert_eq!(target2.key_start, 4);

    let target3 = target_map.get(&7).unwrap();
    assert_eq!(target3.value, "myproject.Decoder");
    assert_eq!(target3.parameters.len(), 1);
    assert_eq!(target3.line, 7);
    assert_eq!(target3.key_start, 4);
}

#[test]
fn test_parse_rejects_bad_yaml() {
    let content = "model: [unclosed\n  _target_: x";
    assert!(YamlParser::parse(content).is_err());
}

#[test]
fn test_parse_value_start_plain() {
    // The value_start column points at the first character of the
    // printed target string.
    let content = "model:\n  _target_: myproject.Model\n";
    let arena = YamlParser::parse(content).unwrap();
    let t = arena.get(&1).unwrap();
    assert_eq!(t.key_start, 2);
    assert_eq!(t.value_start, 12);
}

#[test]
fn test_parse_value_start_quoted() {
    // With a quoted key and a quoted value the recovered columns still
    // point at the opening quote of the key and at the first character
    // inside the value's quotes.
    let content = "model:\n  \"_target_\": 'myproject.Model'\n";
    let arena = YamlParser::parse(content).unwrap();
    let t = arena.get(&1).unwrap();
    assert_eq!(t.value, "myproject.Model");
    assert_eq!(t.key_start, 2);
    assert_eq!(t.value_start, 15);
}

#[test]
fn test_parse_parameter_keys_in_order() {
    // The parameter keys are exactly the mapping's keys minus the
    // reserved key, in source order.
    let content = "\nmodel:\n  _target_: my.Model\n  alpha: 1\n  beta: 2\n  gamma: 3\n";
    let arena = YamlParser::parse(content).unwrap();
    let t = arena.get(&2).unwrap();
    let keys: Vec<&str> = t.parameters.iter().map(|p| p.key.as_str()).collect();
    assert_eq!(keys, vec!["alpha", "beta", "gamma"]);
    assert_eq!(t.parameters[0].line, 3);
    assert_eq!(t.parameters[1].line, 4);
    assert_eq!(t.parameters[2].line, 5);
}

#[test]
fn test_find_target_at_position_positive() {
    let content = r#"
model:
  _target_: myproject.Model
  hidden_size: 256
  num_layers: 12
"#;
    let position = Position::new(2, 5);
    let target_info = YamlParser::find_target_at_position(content, position)
        .unwrap()
        .unwrap();
    assert_eq!(target_info.value, "myproject.Model");
    assert_eq!(target_info.line, 2);
    assert_eq!(target_info.key_start, 2);
}

#[test]
fn test_find_target_at_position_negative_line() {
    let content = r#"
model:
  _target_: myproject.Model
  hidden_size: 256
  num_layers: 12
"#;
    let position = Position::new(1, 2);
    let target_info = YamlParser::find_target_at_position(content, position).unwrap();
    assert!(target_info.is_none());
}

#[test]
fn test_find_target_at_position_negative_col_before() {
    let content = r#"
model:
  _target_: myproject.Model
  hidden_size: 256
  num_layers: 12
"#;
    let position = Position::new(2, 1);
    let target_info = YamlParser::find_target_at_position(content, position).unwrap();
    assert!(target_info.is_none());
}

#[test]
fn test_find_target_at_position_negative_col_after() {
    let content = r#"
model:
  _target_: myproject.Model
  hidden_size: 256
  num_layers: 12
"#;
    let position = Position::new(2, 12);
    let target_info = YamlParser::find_target_at_position(content, position).unwrap();
    assert!(target_info.is_none());
}

#[test]
fn test_get_completion_context_target_value() {
    let content = r#"
model:
  _target_: myproject.Model
  hidden_size: 256
"#;
    let position = Position::new(2, 15);
    let context = YamlParser::get_completion_context(content, position).unwrap();
    match context {
        CompletionContext::TargetValue { partial } => {
            assert_eq!(partial, "myp");
        }
        _ => panic!("Expected TargetValue context"),
    }
}

#[test]
fn test_get_completion_context_parameter_key() {
    let content = r#"
model:
  _target_: myproject.Model
  hidden_size: 256
"#;
    let position = Position::new(3, 6);
    let context = YamlParser::get_completion_context(content, position).unwrap();
    match context {
        CompletionContext::ParameterKey { target, partial } => {
            assert_eq!(target, "myproject.Model");
            assert_eq!(partial, "hidd");
        }
        _ => panic!("Expected ParameterKey context"),
    }
}

#[test]
fn test_get_completion_context_parameter_value() {
    let content = r#"
model:
  _target_: myproject.Model
  hidden_size: 256
"#;
    let position = Position::new(3, 17);
    let context = YamlParser::get_completion_context(content, position).unwrap();
    match context {
        CompletionContext::ParameterValue {
            target,
            parameter,
            partial,
        } => {
            assert_eq!(target, "myproject.Model");
            assert_eq!(parameter, "hidden_size");
            assert_eq!(partial, "25");
        }
        _ => panic!("Expected ParameterValue context"),
    }
}

#[test]
fn test_document_new() {
    let d = hydra_lsp::Document::new("a: 1".to_string(), 7);
    assert_eq!(d.content, "a: 1");
    assert_eq!(d.version, 7);
}

#[test]
fn test_parse_three_level_nesting() {
    // One arena entry per nesting level, in discovery order.
    let content = "\nouter:\n  _target_: a.A\n  mid:\n    _target_: b.B\n    inner:\n      _target_: c.C\n";
    let arena = YamlParser::parse(content).unwrap();
    assert_eq!(arena.len(), 3);
    assert_eq!(arena.entry(0).value, "a.A");
    assert_eq!(arena.entry(1).value, "b.B");
    assert_eq!(arena.entry(2).value, "c.C");
    assert_eq!(arena.entry(0).line, 2);
    assert_eq!(arena.entry(1).line, 4);
    assert_eq!(arena.entry(2).line, 6);
}

#[test]
fn test_parse_quoted_reserved_key_not_a_parameter() {
    // A quoted reserved key still marks the target mapping and never
    // counts as a parameter.
    let content = "m:\n  \"_target_\": x.Y\n  n: 1\n";
    let arena = YamlParser::parse(content).unwrap();
    assert_eq!(arena.len(), 1);
    let t = arena.entry(0);
    assert_eq!(t.value, "x.Y");
    assert_eq!(t.parameters.len(), 1);
    assert_eq!(t.parameters[0].key, "n");
}

#[test]
fn test_nested_reference_held_by_index() {
    // A nested target mapping becomes its own arena entry; the parent
    // holds it as an index, not as a copy.
    let content = "\nouter:\n  _target_: a.A\n  child:\n    _target_: b.B\n";
    let arena = YamlParser::parse(content).unwrap();
    assert_eq!(arena.len(), 2);
    let outer = arena.entry(0);
    assert_eq!(outer.parameters.len(), 1);
    assert_eq!(outer.parameters[0].key, "child");
    match &outer.parameters[0].value {
        hydra_lsp::ParamValue::Nested(i) => assert_eq!(*i, 1),
        hydra_lsp::ParamValue::Scalar(_) => panic!("expected a nested reference"),
    }
}

#[test]
fn test_value_start_same_for_all_quoting_styles() {
    // Whatever the quoting style, value_start lands on the first
    // character of the printed target string.
    let bare = "m:\n  _target_: pkg.C\n";
    let dq_key = "m:\n  \"_target_\": pkg.C\n";
    let sq_val = "m:\n  _target_: 'pkg.C'\n";
    let t1 = YamlParser::parse(bare).unwrap();
    let t2 = YamlParser::parse(dq_key).unwrap();
    let t3 = YamlParser::parse(sq_val).unwrap();
    // bare: "  _target_: pkg.C" -> value at column 12
    assert_eq!(t1.entry(0).value_start, 12);
    // quoted key: two more columns for the quotes
    assert_eq!(t2.entry(0).value_start, 14);
    // quoted value: one more column for the opening quote
    assert_eq!(t3.entry(0).value_start, 13);
}
