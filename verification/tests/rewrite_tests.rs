use profile_graph::collision::KeySet;
use profile_graph::rewrite::replace_name;

fn key_set(values: &[&str]) -> KeySet {
    KeySet { values: values.iter().map(|s| s.to_string()).collect() }
}

#[test]
fn rewrite_literal_substring() {
    let exempt = key_set(&[]);
    let out = replace_name("Generic PLA", "Generic", "Acme", &exempt);
    assert_eq!(out, "Acme PLA");
}

#[test]
fn rewrite_lowercase_fallback() {
    let exempt = key_set(&[]);
    let out = replace_name("generic pla", "Generic", "Acme", &exempt);
    assert_eq!(out, "acme pla");
}

#[test]
fn rewrite_prefix_fallback() {
    let exempt = key_set(&[]);
    let out = replace_name("Special Filament", "Generic", "Acme", &exempt);
    assert_eq!(out, "Acme Special Filament");
}

#[test]
fn rewrite_exempt_name_unchanged() {
    let exempt = key_set(&["X"]);
    let out = replace_name("X", "Generic", "Acme", &exempt);
    assert_eq!(out, "X");
}

#[test]
fn rewrite_replaces_every_occurrence() {
    let exempt = key_set(&[]);
    let out = replace_name("Generic Generic PLA", "Generic", "Acme", &exempt);
    assert_eq!(out, "Acme Acme PLA");
}

#[test]
fn rewrite_never_yields_slash() {
    let exempt = key_set(&[]);
    for name in ["a/b", "Generic 0.4/0.6", "x", "/"] {
        let out = replace_name(name, "Generic", "Ac/me", &exempt);
        assert!(!out.contains('/'), "{out}");
    }
    let exempt = key_set(&["kept/name"]);
    let out = replace_name("kept/name", "Generic", "Acme", &exempt);
    assert_eq!(out, "kept name");
}

#[test]
fn rewrite_uppercase_input_uses_lowercase_roots() {
    let exempt = key_set(&[]);
    let out = replace_name("my generic spool", "GENERIC", "ACME", &exempt);
    assert_eq!(out, "my acme spool");
}

#[test]
fn check_in_set_reports_membership() {
    let mut state = KeySet::new();
    profile_graph::collision::populate_key_set(
        vec!["a".to_string(), "b".to_string()],
        &mut state,
    );
    assert!(profile_graph::collision::check_in_set("a".to_string(), &state));
    assert!(!profile_graph::collision::check_in_set("c".to_string(), &state));
}
