use git_ai_ignore::{
    build_ignore_matcher, default_ignore_patterns, effective_ignore_patterns,
    effective_ignore_patterns_at_commit, load_root_ignore_files_at_commit, root_ignore_file_keys,
    should_ignore_file, IgnoreMatcher,
};

fn strings(items: &[&str]) -> Vec<String> {
    items.iter().map(|s| s.to_string()).collect()
}

#[test]
fn defaults_have_no_repeats() {
    let defaults = default_ignore_patterns();
    for (i, a) in defaults.iter().enumerate() {
        for b in &defaults[i + 1..] {
            assert_ne!(a, b);
        }
    }
    assert_eq!(defaults.len(), 30);
    assert_eq!(defaults[0], "*.lock");
    assert_eq!(defaults[29], "*.pb.dart");
}

#[test]
fn exact_pattern_matches_file_name_in_any_directory() {
    let patterns = strings(&["[x"]);
    assert!(should_ignore_file("[x", &patterns));
    assert!(should_ignore_file("deep/dir/[x", &patterns));
    assert!(!should_ignore_file("deep/dir/x", &patterns));
}

#[test]
fn glob_matches_file_name_of_nested_path() {
    let patterns = strings(&["Cargo.lock"]);
    assert!(should_ignore_file("backend/Cargo.lock", &patterns));
    assert!(!should_ignore_file("backend/Cargo.toml", &patterns));
    let star = strings(&["*.txt"]);
    assert!(should_ignore_file("notes.txt", &star));
    assert!(should_ignore_file("a/b/notes.txt", &star));
    assert!(!should_ignore_file("a/b/notes.md", &star));
}

#[test]
fn directory_path_uses_last_component() {
    let patterns = strings(&["build"]);
    assert!(should_ignore_file("out/build/", &patterns));
    assert!(!should_ignore_file("out/build/..", &patterns));
}

#[test]
fn empty_and_default_matchers_ignore_nothing() {
    assert!(!should_ignore_file("Cargo.lock", &[]));
    let matcher = IgnoreMatcher::default();
    assert!(!matcher.is_ignored("Cargo.lock"));
    assert!(!matcher.is_ignored(""));
}

#[test]
fn cloned_matcher_behaves_the_same() {
    let matcher = build_ignore_matcher(&strings(&["*.lock", "[bad"]));
    let copy = matcher.clone();
    for path in ["a/b.lock", "[bad", "x/[bad", "main.rs"] {
        assert_eq!(matcher.is_ignored(path), copy.is_ignored(path));
    }
    assert!(copy.is_ignored("x/[bad"));
    assert!(!copy.is_ignored("main.rs"));
}

#[test]
fn adding_patterns_only_ignores_more() {
    let small = strings(&["*.md"]);
    let large = strings(&["*.md", "src/**"]);
    for path in ["README.md", "src/main.rs", "docs/a.md", "lib.rs"] {
        if should_ignore_file(path, &small) {
            assert!(should_ignore_file(path, &large));
        }
    }
    assert!(should_ignore_file("src/main.rs", &large));
    assert!(!should_ignore_file("src/main.rs", &small));
}

#[test]
fn effective_patterns_order_and_repeats() {
    let user = strings(&["user/**", "*.lock"]);
    let extra = strings(&["extra.txt", "user/**"]);
    let patterns = effective_ignore_patterns(
        Some("gen/** linguist-generated\nCargo.lock linguist-generated\n"),
        Some("# comment\nignored/**\nextra.txt\n"),
        &user,
        &extra,
    );
    let defaults = default_ignore_patterns();
    assert_eq!(&patterns[..defaults.len()], &defaults[..]);
    assert_eq!(
        &patterns[defaults.len()..],
        &strings(&["gen/**", "ignored/**", "extra.txt", "user/**"])[..]
    );
}

#[test]
fn effective_patterns_without_files() {
    let patterns = effective_ignore_patterns(None, None, &[], &[]);
    assert_eq!(patterns, default_ignore_patterns());
    let empty_files = effective_ignore_patterns(Some(""), Some(""), &[], &[]);
    assert_eq!(empty_files, patterns);
}

#[test]
fn commit_keys_name_both_root_files() {
    let (ignore_key, attributes_key) = root_ignore_file_keys("abc123");
    assert_eq!(ignore_key, ("abc123".to_string(), ".git-ai-ignore".to_string()));
    assert_eq!(attributes_key, ("abc123".to_string(), ".gitattributes".to_string()));
}

#[test]
fn commit_files_are_looked_up_by_key() {
    let fetched = vec![
        (("other".to_string(), ".git-ai-ignore".to_string()), "wrong".to_string()),
        (("abc".to_string(), ".gitattributes".to_string()), "x linguist-generated".to_string()),
        (("abc".to_string(), ".git-ai-ignore".to_string()), "y\n".to_string()),
    ];
    let (ignore, attributes) = load_root_ignore_files_at_commit("abc", &fetched);
    assert_eq!(ignore.as_deref(), Some("y\n"));
    assert_eq!(attributes.as_deref(), Some("x linguist-generated"));
    let (none_ignore, none_attributes) = load_root_ignore_files_at_commit("zzz", &fetched);
    assert_eq!(none_ignore, None);
    assert_eq!(none_attributes, None);
}

#[test]
fn commit_patterns_match_loaded_patterns() {
    let fetched = vec![
        (("abc".to_string(), ".gitattributes".to_string()), "x linguist-generated".to_string()),
        (("abc".to_string(), ".git-ai-ignore".to_string()), "y\n".to_string()),
    ];
    let user = strings(&["u"]);
    let at_commit = effective_ignore_patterns_at_commit("abc", &fetched, &user, &[]);
    let direct = effective_ignore_patterns(Some("x linguist-generated"), Some("y\n"), &user, &[]);
    assert_eq!(at_commit, direct);
    let tail = &at_commit[at_commit.len() - 3..];
    assert_eq!(tail, &strings(&["x", "y", "u"])[..]);
    let missing = effective_ignore_patterns_at_commit("nope", &fetched, &[], &[]);
    assert_eq!(missing, default_ignore_patterns());
}

#[test]
fn documented_glob_examples() {
    let patterns = strings(&["*.lock", "**/*.generated.js"]);
    assert!(should_ignore_file("yarn.lock", &patterns));
    assert!(should_ignore_file("web/src/api.generated.js", &patterns));
    assert!(should_ignore_file("api.generated.js", &patterns));
    assert!(!should_ignore_file("web/src/api.js", &patterns));
}

#[test]
fn empty_pattern_is_a_glob() {
    let patterns = strings(&[""]);
    assert!(should_ignore_file("", &patterns));
    assert!(!should_ignore_file("a", &patterns));
    // "a/.." has no file name, and the empty glob matches the empty name.
    assert!(should_ignore_file("a/..", &patterns));
}
