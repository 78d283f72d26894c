use acc::template::{build_args, compile_invocation, run_invocation, split_spaces, substitute};

#[test]
fn substitute_replaces_every_occurrence() {
    assert_eq!(substitute("<TASK>.c -o <TASK>", "a"), "a.c -o a");
}

#[test]
fn substitute_without_placeholder_is_identity() {
    assert_eq!(substitute("gcc -O2", "a"), "gcc -O2");
}

#[test]
fn substitute_with_longer_base_name() {
    assert_eq!(substitute("./<TASK>", "abc001_a"), "./abc001_a");
}

#[test]
fn split_keeps_empty_pieces() {
    assert_eq!(split_spaces("a  b"), vec!["a", "", "b"]);
    assert_eq!(split_spaces(""), vec![""]);
    assert_eq!(split_spaces("x "), vec!["x", ""]);
}

#[test]
fn build_args_expands_then_splits() {
    assert_eq!(build_args("<TASK>.cpp -o <TASK>", "p1"), vec!["p1.cpp", "-o", "p1"]);
}

#[test]
fn configured_compiler_invocation() {
    let template = Some("<TASK>.c -o <TASK>".to_string());
    let args = compile_invocation(&template, "a").expect("template configured");
    assert_eq!(args, vec!["a.c", "-o", "a"]);
}

#[test]
fn missing_compile_template_is_a_configuration_error() {
    assert!(compile_invocation(&None, "a").is_none());
}

#[test]
fn run_invocation_without_argument_template() {
    let (name, args) = run_invocation("./<TASK>", &None, "a");
    assert_eq!(name, "./a");
    assert!(args.is_empty());
}

#[test]
fn run_invocation_with_argument_template() {
    let (name, args) = run_invocation("python3", &Some("<TASK>.py".to_string()), "a");
    assert_eq!(name, "python3");
    assert_eq!(args, vec!["a.py"]);
}
