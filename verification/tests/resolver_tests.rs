use hydra_lsp::first_existing;
use hydra_lsp::module_candidates;

#[test]
fn test_module_candidates_order() {
    let roots = vec!["/ws".to_string(), "/site".to_string()];
    let cands = module_candidates("pkg.mod", &roots);
    let expect = vec![
        "/ws/pkg/mod/__init__.pyi",
        "/ws/pkg/mod/__init__.py",
        "/ws/pkg/mod.pyi",
        "/ws/pkg/mod.py",
        "/ws/pkg/mod.pyi",
        "/ws/pkg/mod.py",
        "/site/pkg/mod/__init__.pyi",
        "/site/pkg/mod/__init__.py",
        "/site/pkg/mod.pyi",
        "/site/pkg/mod.py",
        "/site/pkg/mod.pyi",
        "/site/pkg/mod.py",
    ];
    let got: Vec<&str> = cands.iter().map(|s| s.as_str()).collect();
    assert_eq!(got, expect);
}

#[test]
fn test_module_candidates_single_component() {
    let roots = vec!["/ws".to_string()];
    let cands = module_candidates("solo", &roots);
    let expect = vec![
        "/ws/solo/__init__.pyi",
        "/ws/solo/__init__.py",
        "/ws/solo.pyi",
        "/ws/solo.py",
    ];
    let got: Vec<&str> = cands.iter().map(|s| s.as_str()).collect();
    assert_eq!(got, expect);
}

#[test]
fn test_first_existing_picks_first() {
    let exists = vec![false, false, true, true];
    assert_eq!(first_existing(&exists), Some(2));
}

#[test]
fn test_first_existing_none() {
    let exists = vec![false, false];
    assert_eq!(first_existing(&exists), None);
}

#[test]
fn test_stub_preferred_over_implementation() {
    // Both the stub and the implementation exist at the same candidate
    // stem: the stub, standing first, wins.
    let roots = vec!["/ws".to_string()];
    let cands = module_candidates("pkg.mod", &roots);
    let exists: Vec<bool> = cands.iter().map(|c| c.ends_with("/ws/pkg/mod.pyi") || c.ends_with("/ws/pkg/mod.py")).collect();
    let picked = first_existing(&exists).unwrap();
    assert!(cands[picked].ends_with(".pyi"));
}
