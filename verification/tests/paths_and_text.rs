use solidity_ast::{str_contains, PathParts, EMPTY_STRING};

fn p(s: &str) -> PathParts {
    let mut parts: Vec<String> = Vec::new();
    if s.starts_with('/') {
        parts.push("/".to_string());
    }
    for c in s.split('/') {
        if !c.is_empty() {
            parts.push(c.to_string());
        }
    }
    PathParts::new(parts)
}

fn text(v: Vec<char>) -> String {
    v.into_iter().collect()
}

#[test]
fn empty_string_is_always_a_substring() {
    let test_path = "/home/runner/work/solidity-ast-rs";
    assert!(!test_path.is_empty());
    assert!(str_contains(test_path, EMPTY_STRING));
    assert!(str_contains("", EMPTY_STRING));
}

#[test]
fn substring_found_and_missing() {
    assert!(str_contains("contracts/Counter.t.sol", ".t.sol"));
    assert!(!str_contains("contracts/Counter.sol", ".t.sol"));
    assert!(!str_contains("ab", "abc"));
    assert!(str_contains("lib/forge-std/src/Test.sol", "forge-std"));
    assert!(str_contains("ünïcödé/päth.sol", "päth"));
}

#[test]
fn starts_with_compares_whole_components() {
    assert!(p("/a/b/c").starts_with(&p("/a/b")));
    assert!(p("/a/b").starts_with(&p("/a/b")));
    assert!(!p("/a/bc").starts_with(&p("/a/b")));
    assert!(!p("/a").starts_with(&p("/a/b")));
    assert!(p("/a").starts_with(&p("")));
    assert!(!p("a/b").starts_with(&p("/a")));
}

#[test]
fn join_appends_relative_and_replaces_with_absolute() {
    assert_eq!(p("/root").join(&p("src/A.sol")).parts, p("/root/src/A.sol").parts);
    assert_eq!(p("/root").join(&p("/elsewhere/B.sol")).parts, p("/elsewhere/B.sol").parts);
    assert_eq!(p("/root").join(&p("")).parts, p("/root").parts);
}

#[test]
fn strip_prefix_undoes_join() {
    let joined = p("/root").join(&p("contracts/Counter.sol"));
    let rest = joined.strip_prefix(&p("/root")).unwrap();
    assert_eq!(rest.parts, p("contracts/Counter.sol").parts);
    assert!(p("/other/x.sol").strip_prefix(&p("/root")).is_none());
}

#[test]
fn text_of_paths() {
    assert_eq!(text(p("contracts/Counter.sol").text_chars()), "contracts/Counter.sol");
    assert_eq!(text(p("/abs/dir").text_chars()), "/abs/dir");
    assert_eq!(text(p("/").text_chars()), "/");
    assert_eq!(text(p("").text_chars()), "");
}

#[test]
fn solidity_extension() {
    assert!(p("src/Counter.sol").is_solidity_file());
    assert!(p("src/Counter.t.sol").is_solidity_file());
    assert!(!p("src/.sol").is_solidity_file());
    assert!(!p("src/Counter.SOL").is_solidity_file());
    assert!(!p("src/Counter.sol.bak").is_solidity_file());
    assert!(!p("src/Counter").is_solidity_file());
    assert!(!p("/").is_solidity_file());
    assert!(!p("").is_solidity_file());
    assert!(PathParts::new(vec!["dir".to_string(), "..".to_string()]).is_solidity_file() == false);
    assert!(p("a..sol").is_solidity_file());
}

#[test]
fn same_as_and_duplicate() {
    let a = p("/a/b");
    assert!(a.same_as(&a.duplicate()));
    assert!(!a.same_as(&p("/a/b/c")));
    assert!(!a.same_as(&p("/a/c")));
}
