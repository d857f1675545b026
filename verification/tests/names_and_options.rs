use tool_reconciler::bytes::{bytes_eq, bytes_list_eq};
use tool_reconciler::model::{requirements_eq, Requirement, ToolOptions};
use tool_reconciler::name::PackageName;

fn b(s: &str) -> Vec<u8> {
    s.as_bytes().to_vec()
}

#[test]
fn names_are_normalized_to_lower_case_with_dashes() {
    let parsed = PackageName::parse(&b("My_Tool.X")).unwrap();
    assert_eq!(parsed.bytes, b("my-tool-x"));
}

#[test]
fn a_plain_name_parses_to_itself() {
    let parsed = PackageName::parse(&b("black")).unwrap();
    assert_eq!(parsed.bytes, b("black"));
}

#[test]
fn separator_runs_collapse_to_one_dash() {
    assert_eq!(PackageName::parse(&b("my_.tool")).unwrap().bytes, b("my-tool"));
    assert_eq!(PackageName::parse(&b("a--b")).unwrap().bytes, b("a-b"));
    assert_eq!(PackageName::parse(&b("A__B..C")).unwrap().bytes, b("a-b-c"));
}

#[test]
fn all_spellings_of_one_name_denote_one_tool() {
    let a = PackageName::parse(&b("my_.tool")).unwrap();
    let c = PackageName::parse(&b("My-Tool")).unwrap();
    assert!(a.same(&c));
}

#[test]
fn names_with_forbidden_characters_are_rejected() {
    assert!(PackageName::parse(&b("")).is_none());
    assert!(PackageName::parse(&b("-leading")).is_none());
    assert!(PackageName::parse(&b("trailing.")).is_none());
    assert!(PackageName::parse(&b("has space")).is_none());
    assert!(PackageName::parse(&b("black==1.0")).is_none());
}

#[test]
fn name_equality_is_by_content() {
    let a = PackageName::parse(&b("Black")).unwrap();
    let c = PackageName::parse(&b("black")).unwrap();
    assert!(a.same(&c));
    let d = PackageName::parse(&b("ruff")).unwrap();
    assert!(!a.same(&d));
}

#[test]
fn option_merge_prefers_the_explicit_value_per_field() {
    let explicit = ToolOptions {
        index_url: Some(b("https://a.example")),
        prerelease: None,
        compile_bytecode: Some(false),
    };
    let fallback = ToolOptions {
        index_url: Some(b("https://b.example")),
        prerelease: Some(true),
        compile_bytecode: Some(true),
    };
    let merged = explicit.combine(&fallback);
    assert_eq!(merged.index_url, Some(b("https://a.example")));
    assert_eq!(merged.prerelease, Some(true));
    assert_eq!(merged.compile_bytecode, Some(false));
}

#[test]
fn requirement_equality_is_ordered_and_structural() {
    let a = vec![
        Requirement { name: b("black"), source: b(">=1"), extras: vec![b("d")] },
        Requirement { name: b("ruff"), source: b(""), extras: Vec::new() },
    ];
    let same = vec![
        Requirement { name: b("black"), source: b(">=1"), extras: vec![b("d")] },
        Requirement { name: b("ruff"), source: b(""), extras: Vec::new() },
    ];
    let reordered = vec![
        Requirement { name: b("ruff"), source: b(""), extras: Vec::new() },
        Requirement { name: b("black"), source: b(">=1"), extras: vec![b("d")] },
    ];
    let duplicated = vec![
        Requirement { name: b("black"), source: b(">=1"), extras: vec![b("d")] },
        Requirement { name: b("ruff"), source: b(""), extras: Vec::new() },
        Requirement { name: b("ruff"), source: b(""), extras: Vec::new() },
    ];
    assert!(requirements_eq(&a, &same));
    assert!(!requirements_eq(&a, &reordered));
    assert!(!requirements_eq(&a, &duplicated));
}

#[test]
fn byte_string_helpers_compare_by_content() {
    assert!(bytes_eq(&b("abc"), &b("abc")));
    assert!(!bytes_eq(&b("abc"), &b("abd")));
    assert!(!bytes_eq(&b("abc"), &b("ab")));
    assert!(bytes_list_eq(&vec![b("a"), b("bc")], &vec![b("a"), b("bc")]));
    assert!(!bytes_list_eq(&vec![b("a")], &vec![b("b")]));
}
