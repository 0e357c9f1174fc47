use git_ai_ignore::text::is_whitespace;
use git_ai_ignore::{
    dedupe_patterns, load_git_ai_ignore_patterns,
    load_linguist_generated_patterns_from_root_gitattributes, parse_git_ai_ignore_patterns,
    parse_linguist_generated_patterns, split_gitattributes_tokens,
};

fn strings(items: &[&str]) -> Vec<String> {
    items.iter().map(|s| s.to_string()).collect()
}

#[test]
fn whitespace_agrees_with_std_on_every_char() {
    for code in 0u32..=0x10FFFF {
        if let Some(c) = char::from_u32(code) {
            assert_eq!(is_whitespace(c), c.is_whitespace(), "code point {code:#x}");
        }
    }
}

#[test]
fn tokens_split_at_whitespace() {
    assert_eq!(
        split_gitattributes_tokens("*.pb.go   linguist-generated\t-diff"),
        strings(&["*.pb.go", "linguist-generated", "-diff"])
    );
    assert_eq!(split_gitattributes_tokens(""), Vec::<String>::new());
    assert_eq!(split_gitattributes_tokens(" \t "), Vec::<String>::new());
}

#[test]
fn tokens_keep_escaped_characters() {
    assert_eq!(
        split_gitattributes_tokens(r"my\ file.txt linguist-generated"),
        strings(&["my file.txt", "linguist-generated"])
    );
    assert_eq!(split_gitattributes_tokens(r"a\\b"), strings(&[r"a\b"]));
    assert_eq!(split_gitattributes_tokens(r"\#x"), strings(&["#x"]));
}

#[test]
fn trailing_backslash_is_kept() {
    assert_eq!(split_gitattributes_tokens(r"dir\"), strings(&[r"dir\"]));
    assert_eq!(split_gitattributes_tokens(r"a \"), strings(&["a", r"\"]));
}

#[test]
fn linguist_generated_forms() {
    let contents = "\
gen/** linguist-generated
a.txt linguist-generated=true
b.txt linguist-generated=TRUE
c.txt linguist-generated=1
d.txt linguist-generated=false
e.txt linguist-generated=0
f.txt linguist-generated=yes
g.txt -diff
h.txt -linguist-generated
i.txt !linguist-generated
";
    assert_eq!(
        parse_linguist_generated_patterns(contents),
        strings(&["gen/**", "a.txt", "b.txt", "c.txt"])
    );
}

#[test]
fn linguist_last_setting_wins() {
    let contents = "\
x linguist-generated -linguist-generated
y -linguist-generated linguist-generated=True
z linguist-generated linguist-generated=maybe
";
    assert_eq!(
        parse_linguist_generated_patterns(contents),
        strings(&["y", "z"])
    );
}

#[test]
fn linguist_skips_comments_macros_and_bare_paths() {
    let contents = "\
# generated linguist-generated
[attr]gen linguist-generated
lonely
   

  spaced/**   linguist-generated  
";
    assert_eq!(
        parse_linguist_generated_patterns(contents),
        strings(&["spaced/**"])
    );
}

#[test]
fn linguist_handles_crlf_and_repeats() {
    let contents = "a linguist-generated\r\nb linguist-generated\r\na linguist-generated\r\n";
    assert_eq!(parse_linguist_generated_patterns(contents), strings(&["a", "b"]));
}

#[test]
fn linguist_escaped_path() {
    let contents = r"docs/my\ gen.md linguist-generated";
    assert_eq!(
        parse_linguist_generated_patterns(contents),
        strings(&["docs/my gen.md"])
    );
}

#[test]
fn git_ai_ignore_lines() {
    let contents = "\
# build output
dist/**

  *.tmp  
*.log
\t# indented comment
*.tmp
last-without-newline";
    assert_eq!(
        parse_git_ai_ignore_patterns(contents),
        strings(&["dist/**", "*.tmp", "*.log", "last-without-newline"])
    );
}

#[test]
fn git_ai_ignore_crlf() {
    assert_eq!(
        parse_git_ai_ignore_patterns("a\r\n\r\nb\r\n"),
        strings(&["a", "b"])
    );
    assert_eq!(parse_git_ai_ignore_patterns(""), Vec::<String>::new());
}

#[test]
fn absent_files_contribute_nothing() {
    assert_eq!(load_git_ai_ignore_patterns(None), Vec::<String>::new());
    assert_eq!(
        load_linguist_generated_patterns_from_root_gitattributes(None),
        Vec::<String>::new()
    );
    assert_eq!(load_git_ai_ignore_patterns(Some("x\n")), strings(&["x"]));
    assert_eq!(
        load_linguist_generated_patterns_from_root_gitattributes(Some("x linguist-generated")),
        strings(&["x"])
    );
}

#[test]
fn dedupe_keeps_first_occurrences() {
    assert_eq!(
        dedupe_patterns(strings(&["b", "a", "b", "c", "a"])),
        strings(&["b", "a", "c"])
    );
    assert_eq!(dedupe_patterns(Vec::new()), Vec::<String>::new());
}

#[test]
fn plain_lines_tokenize_like_split_whitespace() {
    for line in ["a b\tc", "  x  ", "", "p  linguist-generated -diff \u{3000}q"] {
        let words: Vec<String> = line.split_whitespace().map(|s| s.to_string()).collect();
        assert_eq!(split_gitattributes_tokens(line), words);
    }
}

#[test]
fn git_ai_ignore_agrees_with_std_lines() {
    for contents in ["a\r\nb\r\n", "a\rb\n", "x\n\n#c\n y \r", "", "\n", "\r"] {
        let mut expected: Vec<String> = Vec::new();
        for line in contents.lines() {
            let t = line.trim();
            if !t.is_empty() && !t.starts_with('#') && !expected.iter().any(|e| e == t) {
                expected.push(t.to_string());
            }
        }
        assert_eq!(parse_git_ai_ignore_patterns(contents), expected);
    }
}
