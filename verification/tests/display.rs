use codex_talon::env_display::format_env_display;
use codex_talon::mcp::{parse_env_pair, validate_server_name};

fn pairs(items: &[(&str, &str)]) -> Vec<(String, String)> {
    items.iter().map(|(k, v)| (k.to_string(), v.to_string())).collect()
}

fn names(items: &[&str]) -> Vec<String> {
    items.iter().map(|s| s.to_string()).collect()
}

#[test]
fn env_display_combines_pairs_and_passthrough_names() {
    let env = pairs(&[("FOO", "bar")]);
    let out = format_env_display(Some(&env), names(&["HOME", "PATH"]));
    assert_eq!(out, "FOO=bar, $HOME, $PATH");
}

#[test]
fn env_display_with_names_only() {
    let out = format_env_display(None, names(&["HOME"]));
    assert_eq!(out, "$HOME");
}

#[test]
fn env_display_with_nothing_is_a_dash() {
    let out = format_env_display(None, Vec::new());
    assert_eq!(out, "-");
    let empty = pairs(&[]);
    let out2 = format_env_display(Some(&empty), Vec::new());
    assert_eq!(out2, "-");
}

#[test]
fn env_display_sorts_pairs_by_key_and_names_alphabetically() {
    let env = pairs(&[("B", "2"), ("A", "1")]);
    let out = format_env_display(Some(&env), names(&["ZZ", "AA"]));
    assert_eq!(out, "A=1, B=2, $AA, $ZZ");
}

#[test]
fn valid_server_names_are_accepted() {
    assert!(validate_server_name("my-tool_2").is_ok());
    assert!(validate_server_name("A").is_ok());
}

#[test]
fn invalid_server_names_are_rejected_with_the_reason() {
    assert!(validate_server_name("").is_err());
    let err = validate_server_name("bad name").unwrap_err();
    assert_eq!(err, "invalid server name 'bad name' (use letters, numbers, '-', '_')");
    assert!(validate_server_name("nope!").is_err());
}

#[test]
fn env_pairs_split_on_the_first_equals_sign() {
    assert_eq!(parse_env_pair("FOO=bar").unwrap(), ("FOO".to_string(), "bar".to_string()));
    assert_eq!(parse_env_pair("A=B=C").unwrap(), ("A".to_string(), "B=C".to_string()));
}

#[test]
fn env_pair_keys_are_trimmed_but_values_are_not() {
    assert_eq!(
        parse_env_pair("  FOO  =bar baz").unwrap(),
        ("FOO".to_string(), "bar baz".to_string())
    );
    assert_eq!(parse_env_pair("K= v ").unwrap(), ("K".to_string(), " v ".to_string()));
}

#[test]
fn env_pair_keys_trim_unicode_whitespace() {
    assert_eq!(
        parse_env_pair("\u{00A0}FOO\u{2002}=v").unwrap(),
        ("FOO".to_string(), "v".to_string())
    );
}

#[test]
fn env_pairs_without_equals_or_key_are_rejected() {
    let msg = "environment entries must be in KEY=VALUE form";
    assert_eq!(parse_env_pair("novalue").unwrap_err(), msg);
    assert_eq!(parse_env_pair("=x").unwrap_err(), msg);
    assert_eq!(parse_env_pair("   =x").unwrap_err(), msg);
}
