use mmem::util::{expand_home, normalize_role_filter, trim_output};

#[test]
fn expands_tilde_alone() {
    assert_eq!(expand_home("~", Some("/Users/alice")), "/Users/alice");
    assert_eq!(expand_home("~", None), "~");
}

#[test]
fn expands_tilde_prefix() {
    assert_eq!(
        expand_home("~/test/path", Some("/Users/alice")),
        "/Users/alice/test/path"
    );
    assert_eq!(expand_home("~/test/path", None), "~/test/path");
}

#[test]
fn preserves_absolute_paths() {
    assert_eq!(expand_home("/tmp/file", Some("/Users/alice")), "/tmp/file");
}

#[test]
fn preserves_relative_paths() {
    assert_eq!(
        expand_home("relative/path", Some("/Users/alice")),
        "relative/path"
    );
}

#[test]
fn trim_output_compacts_whitespace() {
    assert_eq!(trim_output("  a \n b\t\tc  "), "a b c");
    let long = "word ".repeat(100);
    let out = trim_output(&long);
    assert_eq!(out.chars().count(), 160);
}

#[test]
fn role_filter_defaults_to_user() {
    assert_eq!(normalize_role_filter(None, false).as_deref(), Some("user"));
    assert_eq!(
        normalize_role_filter(Some(" Assistant "), false).as_deref(),
        Some("assistant")
    );
    assert_eq!(normalize_role_filter(None, true), None);
    assert_eq!(normalize_role_filter(Some("  "), true), None);
}
