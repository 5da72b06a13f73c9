use analyzer::discover::lexer::split_on_operators;


#[test]
fn test_simple_command() {
    let result = split_on_operators("cargo check");
    assert_eq!(result, vec!["cargo check"]);
}

#[test]
fn test_double_ampersand() {
    let result = split_on_operators("cargo fmt && cargo check");
    assert_eq!(result, vec!["cargo fmt", "cargo check"]);
}

#[test]
fn test_pipe() {
    let result = split_on_operators("cargo test | tee output.txt");
    assert_eq!(result, vec!["cargo test", "tee output.txt"]);
}

#[test]
fn test_semicolon() {
    let result = split_on_operators("cargo build; cargo test");
    assert_eq!(result, vec!["cargo build", "cargo test"]);
}

#[test]
fn test_double_pipe() {
    let result = split_on_operators("cargo build || echo failed");
    assert_eq!(result, vec!["cargo build", "echo failed"]);
}

#[test]
fn test_background() {
    let result = split_on_operators("cargo build & cargo test &");
    assert_eq!(result, vec!["cargo build", "cargo test"]);
}

#[test]
fn test_quoted_string_with_operator() {
    let result = split_on_operators("echo \"a && b\" && cargo check");
    assert_eq!(result, vec!["echo \"a && b\"", "cargo check"]);
}

#[test]
fn test_single_quoted_string() {
    let result = split_on_operators("echo 'foo || bar' && cargo test");
    assert_eq!(result, vec!["echo 'foo || bar'", "cargo test"]);
}

#[test]
fn test_empty_input() {
    let result = split_on_operators("");
    assert!(result.is_empty());
}

#[test]
fn test_only_operator() {
    let result = split_on_operators("&&");
    assert!(result.is_empty());
}

#[test]
fn test_escaped_characters() {
    let result = split_on_operators(r"echo \& cargo check");
    assert_eq!(result, vec![r"echo \& cargo check"]);
}
