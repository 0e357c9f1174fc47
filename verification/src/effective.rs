//! The effective ignore list of a repository: the built-in patterns, then the
//! `linguist-generated` paths of the root `.gitattributes`, the patterns of the
//! root `.git-ai-ignore`, the caller's extra patterns and the user's patterns,
//! with repeats removed.
use vstd::prelude::*;

use crate::dedupe::{
    dedupe, dedupe_patterns, lemma_dedupe_distinct_unchanged, lemma_dedupe_no_duplicates, lemma_dedupe_prefix,
    lemma_dedupe_same_elements,
};
use crate::defaults::{default_ignore_patterns, default_patterns, lemma_default_patterns_distinct};
use crate::gitattributes::{
    linguist_generated_entries, linguist_generated_path, linguist_generated_patterns_of,
    load_linguist_generated_patterns_from_root_gitattributes,
};
use crate::ignore_file::{
    git_ai_ignore_patterns_of, ignore_file_entries, ignore_file_entry, load_git_ai_ignore_patterns,
};
use crate::matcher::{ignored_by, lemma_ignored_by_concat, lemma_ignored_by_dedupe};
use crate::text::{split_lines, string_views, trim_end, trim_start};

verus! {

/// The `linguist-generated` patterns of a `.gitattributes` that may be absent.
pub open spec fn gitattributes_patterns(contents: Option<Seq<char>>) -> Seq<Seq<char>> {
    match contents {
        Some(c) => linguist_generated_patterns_of(c),
        None => Seq::empty(),
    }
}

/// The patterns of a `.git-ai-ignore` that may be absent.
pub open spec fn ignore_file_patterns(contents: Option<Seq<char>>) -> Seq<Seq<char>> {
    match contents {
        Some(c) => git_ai_ignore_patterns_of(c),
        None => Seq::empty(),
    }
}

/// The effective ignore list: every source in order, then repeats removed.
pub open spec fn effective_patterns_of(
    gitattributes: Option<Seq<char>>,
    git_ai_ignore: Option<Seq<char>>,
    user_patterns: Seq<Seq<char>>,
    extra_patterns: Seq<Seq<char>>,
) -> Seq<Seq<char>> {
    dedupe(
        default_patterns() + gitattributes_patterns(gitattributes) + ignore_file_patterns(
            git_ai_ignore,
        ) + extra_patterns + user_patterns,
    )
}

/// The view of an optional string slice.
pub open spec fn opt_str_view(o: Option<&str>) -> Option<Seq<char>> {
    match o {
        Some(s) => Some(s@),
        None => None,
    }
}

/// The view of an optional string.
pub open spec fn opt_string_view(o: Option<String>) -> Option<Seq<char>> {
    match o {
        Some(s) => Some(s@),
        None => None,
    }
}

/// The contents that a batch read returned for `path` at `treeish`: the
/// contents of the first entry with that key, `None` when there is none.
pub open spec fn fetched_contents(
    fetched: Seq<((String, String), String)>,
    treeish: Seq<char>,
    path: Seq<char>,
) -> Option<Seq<char>>
    decreases fetched.len(),
{
    if fetched.len() == 0 {
        None
    } else if fetched[0].0.0@ == treeish && fetched[0].0.1@ == path {
        Some(fetched[0].1@)
    } else {
        fetched_contents(fetched.drop_first(), treeish, path)
    }
}

/// Appends clones of `more` to `patterns`.
fn extend_cloned(patterns: &mut Vec<String>, more: &[String])
    ensures
        string_views(final(patterns)@) == string_views(old(patterns)@) + string_views(more@),
{
    let ghost start = string_views(patterns@);
    for i in 0..more.len()
        invariant
            string_views(patterns@) == start + string_views(more@).take(i as int),
    {
        let ghost before = patterns@;
        patterns.push(more[i].clone());
        assert(string_views(patterns@) =~= string_views(before).push(more@[i as int]@));
        assert(string_views(more@).take(i + 1) =~= string_views(more@).take(i as int).push(
            more@[i as int]@,
        ));
    }
    assert(string_views(more@).take(more@.len() as int) =~= string_views(more@));
}

/// Appends `more` to `patterns`.
fn extend_owned(patterns: &mut Vec<String>, more: Vec<String>)
    ensures
        string_views(final(patterns)@) == string_views(old(patterns)@) + string_views(more@),
{
    let mut more = more;
    let ghost before = patterns@;
    let ghost added = more@;
    patterns.append(&mut more);
    assert(string_views(patterns@) =~= string_views(before) + string_views(added));
}

/// The effective ignore patterns, given the contents of the root
/// `.gitattributes` and `.git-ai-ignore` as loaded (`None` for a file that
/// could not be read): the built-in patterns, the `linguist-generated` paths,
/// the `.git-ai-ignore` patterns, `extra_patterns`, then `user_patterns`,
/// with later repeats removed.
pub fn effective_ignore_patterns(
    gitattributes: Option<&str>,
    git_ai_ignore: Option<&str>,
    user_patterns: &[String],
    extra_patterns: &[String],
) -> (r: Vec<String>)
    ensures
        string_views(r@) == effective_patterns_of(
            opt_str_view(gitattributes),
            opt_str_view(git_ai_ignore),
            string_views(user_patterns@),
            string_views(extra_patterns@),
        ),
{
    let mut patterns = default_ignore_patterns();
    extend_owned(&mut patterns, load_linguist_generated_patterns_from_root_gitattributes(gitattributes));
    extend_owned(&mut patterns, load_git_ai_ignore_patterns(git_ai_ignore));
    extend_cloned(&mut patterns, extra_patterns);
    extend_cloned(&mut patterns, user_patterns);
    dedupe_patterns(patterns)
}

/// The `(treeish, path)` keys of the two root ignore files at `commit_sha`,
/// in the order `.git-ai-ignore`, `.gitattributes`: the batch read that
/// `load_root_ignore_files_at_commit` answers.
pub fn root_ignore_file_keys(commit_sha: &str) -> (r: ((String, String), (String, String)))
    ensures
        r.0.0@ == commit_sha@,
        r.0.1@ == ".git-ai-ignore"@,
        r.1.0@ == commit_sha@,
        r.1.1@ == ".gitattributes"@,
{
    (
        (commit_sha.to_owned(), ".git-ai-ignore".to_owned()),
        (commit_sha.to_owned(), ".gitattributes".to_owned()),
    )
}

/// Finds the contents of `path` at `treeish` in a batch read's entries.
fn find_fetched(fetched: &[((String, String), String)], treeish: &String, path: &String) -> (r:
    Option<String>)
    ensures
        opt_string_view(r) == fetched_contents(fetched@, treeish@, path@),
{
    let mut i: usize = 0;
    assert(fetched@.skip(0) =~= fetched@);
    while i < fetched.len()
        invariant
            i <= fetched@.len(),
            fetched_contents(fetched@, treeish@, path@) == fetched_contents(
                fetched@.skip(i as int),
                treeish@,
                path@,
            ),
        decreases fetched@.len() - i,
    {
        let entry = &fetched[i];
        assert(fetched@.skip(i as int)[0] == fetched@[i as int]);
        if entry.0.0 == *treeish && entry.0.1 == *path {
            return Some(entry.1.clone());
        }
        assert(fetched@.skip(i as int).drop_first() =~= fetched@.skip(i + 1));
        i += 1;
    }
    None
}

/// The contents of the root `.git-ai-ignore` and `.gitattributes` at
/// `commit_sha`, found in the entries that the batch read of
/// `root_ignore_file_keys(commit_sha)` returned (none when that read failed);
/// either is `None` when the file is not among them.
pub fn load_root_ignore_files_at_commit(
    commit_sha: &str,
    fetched: &[((String, String), String)],
) -> (r: (Option<String>, Option<String>))
    ensures
        opt_string_view(r.0) == fetched_contents(fetched@, commit_sha@, ".git-ai-ignore"@),
        opt_string_view(r.1) == fetched_contents(fetched@, commit_sha@, ".gitattributes"@),
{
    let (git_ai_ignore_key, gitattributes_key) = root_ignore_file_keys(commit_sha);
    (
        find_fetched(fetched, &git_ai_ignore_key.0, &git_ai_ignore_key.1),
        find_fetched(fetched, &gitattributes_key.0, &gitattributes_key.1),
    )
}

/// The effective ignore patterns of the tree of `commit_sha`: as
/// `effective_ignore_patterns`, with the two root files taken from the
/// entries of the batch read at that commit rather than from the work tree.
pub fn effective_ignore_patterns_at_commit(
    commit_sha: &str,
    fetched: &[((String, String), String)],
    user_patterns: &[String],
    extra_patterns: &[String],
) -> (r: Vec<String>)
    ensures
        string_views(r@) == effective_patterns_of(
            fetched_contents(fetched@, commit_sha@, ".gitattributes"@),
            fetched_contents(fetched@, commit_sha@, ".git-ai-ignore"@),
            string_views(user_patterns@),
            string_views(extra_patterns@),
        ),
{
    let (git_ai_ignore_contents, gitattributes_contents) = load_root_ignore_files_at_commit(
        commit_sha,
        fetched,
    );
    let gitattributes: Option<&str> = match &gitattributes_contents {
        Some(c) => Some(c.as_str()),
        None => None,
    };
    let git_ai_ignore: Option<&str> = match &git_ai_ignore_contents {
        Some(c) => Some(c.as_str()),
        None => None,
    };
    effective_ignore_patterns(gitattributes, git_ai_ignore, user_patterns, extra_patterns)
}

/// The sources of the effective list, in order, before repeats are removed.
pub open spec fn effective_sources(
    gitattributes: Option<Seq<char>>,
    git_ai_ignore: Option<Seq<char>>,
    user_patterns: Seq<Seq<char>>,
    extra_patterns: Seq<Seq<char>>,
) -> Seq<Seq<char>> {
    default_patterns() + gitattributes_patterns(gitattributes) + ignore_file_patterns(git_ai_ignore)
        + extra_patterns + user_patterns
}

/// The effective list holds no pattern twice.
pub proof fn lemma_effective_distinct(
    gitattributes: Option<Seq<char>>,
    git_ai_ignore: Option<Seq<char>>,
    user_patterns: Seq<Seq<char>>,
    extra_patterns: Seq<Seq<char>>,
)
    ensures
        effective_patterns_of(gitattributes, git_ai_ignore, user_patterns, extra_patterns).no_duplicates(),
{
    lemma_dedupe_no_duplicates(
        effective_sources(gitattributes, git_ai_ignore, user_patterns, extra_patterns),
    );
}

/// The effective list starts with all the built-in patterns, in their order,
/// whatever the repository and the callers add.
pub proof fn lemma_effective_starts_with_defaults(
    gitattributes: Option<Seq<char>>,
    git_ai_ignore: Option<Seq<char>>,
    user_patterns: Seq<Seq<char>>,
    extra_patterns: Seq<Seq<char>>,
)
    ensures
        default_patterns().is_prefix_of(
            effective_patterns_of(gitattributes, git_ai_ignore, user_patterns, extra_patterns),
        ),
{
    lemma_default_patterns_distinct();
    lemma_dedupe_distinct_unchanged(default_patterns());
    let rest = gitattributes_patterns(gitattributes) + ignore_file_patterns(git_ai_ignore)
        + extra_patterns + user_patterns;
    assert(effective_sources(gitattributes, git_ai_ignore, user_patterns, extra_patterns)
        =~= default_patterns() + rest);
    lemma_dedupe_prefix(default_patterns(), rest);
}

/// A pattern is in the effective list exactly when one of the sources has it:
/// the built-in list, the `.gitattributes` and `.git-ai-ignore` files, the
/// extra patterns or the user's patterns.
pub proof fn lemma_effective_members(
    gitattributes: Option<Seq<char>>,
    git_ai_ignore: Option<Seq<char>>,
    user_patterns: Seq<Seq<char>>,
    extra_patterns: Seq<Seq<char>>,
    pattern: Seq<char>,
)
    ensures
        effective_patterns_of(gitattributes, git_ai_ignore, user_patterns, extra_patterns).contains(
            pattern,
        ) <==> {
            ||| default_patterns().contains(pattern)
            ||| gitattributes_patterns(gitattributes).contains(pattern)
            ||| ignore_file_patterns(git_ai_ignore).contains(pattern)
            ||| extra_patterns.contains(pattern)
            ||| user_patterns.contains(pattern)
        },
{
    let a = default_patterns();
    let b = gitattributes_patterns(gitattributes);
    let c = ignore_file_patterns(git_ai_ignore);
    let all = effective_sources(gitattributes, git_ai_ignore, user_patterns, extra_patterns);
    lemma_dedupe_same_elements(all);
    lemma_concat_contains(a, b, pattern);
    lemma_concat_contains(a + b, c, pattern);
    lemma_concat_contains(a + b + c, extra_patterns, pattern);
    lemma_concat_contains(a + b + c + extra_patterns, user_patterns, pattern);
}

/// `a + b` holds exactly what `a` or `b` holds.
proof fn lemma_concat_contains(a: Seq<Seq<char>>, b: Seq<Seq<char>>, x: Seq<char>)
    ensures
        (a + b).contains(x) <==> a.contains(x) || b.contains(x),
{
    if (a + b).contains(x) {
        let i = choose|i: int| 0 <= i < (a + b).len() && (a + b)[i] == x;
        if i < a.len() {
            assert(a[i] == x);
        } else {
            assert(b[i - a.len()] == x);
        }
    }
    if a.contains(x) {
        let i = choose|i: int| 0 <= i < a.len() && a[i] == x;
        assert((a + b)[i] == x);
    }
    if b.contains(x) {
        let i = choose|i: int| 0 <= i < b.len() && b[i] == x;
        assert((a + b)[a.len() + i] == x);
    }
}

/// The effective list ignores a path exactly when one of its sources, taken
/// alone, would ignore it.
pub proof fn lemma_effective_ignores(
    gitattributes: Option<Seq<char>>,
    git_ai_ignore: Option<Seq<char>>,
    user_patterns: Seq<Seq<char>>,
    extra_patterns: Seq<Seq<char>>,
    path: Seq<char>,
)
    ensures
        ignored_by(
            effective_patterns_of(gitattributes, git_ai_ignore, user_patterns, extra_patterns),
            path,
        ) <==> {
            ||| ignored_by(default_patterns(), path)
            ||| ignored_by(gitattributes_patterns(gitattributes), path)
            ||| ignored_by(ignore_file_patterns(git_ai_ignore), path)
            ||| ignored_by(extra_patterns, path)
            ||| ignored_by(user_patterns, path)
        },
{
    let a = default_patterns();
    let b = gitattributes_patterns(gitattributes);
    let c = ignore_file_patterns(git_ai_ignore);
    let all = effective_sources(gitattributes, git_ai_ignore, user_patterns, extra_patterns);
    lemma_ignored_by_dedupe(all, path);
    lemma_ignored_by_concat(a, b, path);
    lemma_ignored_by_concat(a + b, c, path);
    lemma_ignored_by_concat(a + b + c, extra_patterns, path);
    lemma_ignored_by_concat(a + b + c + extra_patterns, user_patterns, path);
}

/// A root file that is absent contributes what an empty one does: nothing.
pub proof fn lemma_absent_file_same_as_empty()
    ensures
        gitattributes_patterns(None) == gitattributes_patterns(Some(Seq::empty())),
        ignore_file_patterns(None) == ignore_file_patterns(Some(Seq::empty())),
        gitattributes_patterns(None) == Seq::<Seq<char>>::empty(),
        ignore_file_patterns(None) == Seq::<Seq<char>>::empty(),
{
    let e = Seq::<char>::empty();
    assert(split_lines(e) == seq![e]);
    assert(seq![e].drop_last() =~= Seq::<Seq<char>>::empty());
    assert(trim_start(e) == e);
    assert(trim_end(e) == e);
    assert(linguist_generated_path(e) is None);
    assert(ignore_file_entry(e) is None);
    let none = Seq::<Seq<char>>::empty();
    assert(seq![e].last() == e);
    assert(linguist_generated_entries(none) == none);
    assert(ignore_file_entries(none) == none);
    assert(linguist_generated_entries(seq![e]) == Seq::<Seq<char>>::empty());
    assert(ignore_file_entries(seq![e]) == Seq::<Seq<char>>::empty());
}

/// No two entries of a batch read have the same key, as in the map it returns.
pub open spec fn distinct_keys(fetched: Seq<((String, String), String)>) -> bool {
    forall|i: int, j: int|
        0 <= i < j < fetched.len() ==> !(#[trigger] fetched[i].0.0@ == #[trigger] fetched[j].0.0@
            && fetched[i].0.1@ == fetched[j].0.1@)
}

/// Looking a file up in the entries of a batch read is a map lookup: there are
/// no contents exactly when no entry has the key, and when the keys are
/// distinct (entries of a map) the contents are the value stored under the
/// key. A failed read hands over no entries, so both files are then absent.
pub proof fn lemma_fetched_contents_is_lookup(
    fetched: Seq<((String, String), String)>,
    treeish: Seq<char>,
    path: Seq<char>,
)
    ensures
        fetched_contents(fetched, treeish, path) is None <==> forall|i: int|
            0 <= i < fetched.len() ==> !(#[trigger] fetched[i].0.0@ == treeish && fetched[i].0.1@
                == path),
        distinct_keys(fetched) ==> forall|i: int|
            0 <= i < fetched.len() && #[trigger] fetched[i].0.0@ == treeish && fetched[i].0.1@
                == path ==> fetched_contents(fetched, treeish, path) == Some(fetched[i].1@),
        fetched_contents(Seq::empty(), treeish, path) is None,
    decreases fetched.len(),
{
    if fetched.len() > 0 {
        let rest = fetched.drop_first();
        lemma_fetched_contents_is_lookup(rest, treeish, path);
        assert forall|i: int| 0 < i < fetched.len() implies #[trigger] fetched[i] == rest[i - 1] by {}
        if fetched[0].0.0@ == treeish && fetched[0].0.1@ == path {
            assert(fetched_contents(fetched, treeish, path) == Some(fetched[0].1@));
        } else {
            if fetched_contents(fetched, treeish, path) is None {
                assert forall|i: int| 0 <= i < fetched.len() implies !(
                #[trigger] fetched[i].0.0@ == treeish && fetched[i].0.1@ == path) by {
                    if i > 0 {
                        assert(fetched[i] == rest[i - 1]);
                    }
                }
            } else {
                let i = choose|i: int| 0 <= i < rest.len() && (#[trigger] rest[i].0.0@ == treeish
                    && rest[i].0.1@ == path);
                assert(fetched[i + 1] == rest[i]);
            }
            if distinct_keys(fetched) {
                assert forall|i: int, j: int| 0 <= i < j < rest.len() implies !(
                #[trigger] rest[i].0.0@ == #[trigger] rest[j].0.0@ && rest[i].0.1@ == rest[j].0.1@) by {
                    assert(fetched[i + 1] == rest[i]);
                    assert(fetched[j + 1] == rest[j]);
                }
            }
        }
        if distinct_keys(fetched) && fetched[0].0.0@ == treeish && fetched[0].0.1@ == path {
            assert forall|i: int|
                0 <= i < fetched.len() && #[trigger] fetched[i].0.0@ == treeish && fetched[i].0.1@
                    == path implies fetched_contents(fetched, treeish, path) == Some(
                fetched[i].1@,
            ) by {
                if i > 0 {
                    assert(fetched[0].0.0@ == fetched[i].0.0@);
                }
            }
        }
    }
}

/// The sources follow the built-in list in a fixed order: the
/// `.gitattributes` paths, then the `.git-ai-ignore` patterns, then the
/// caller's extra patterns, then the user's; the result is the same as with
/// no root files and all of them passed, in that order, as extra patterns.
pub proof fn lemma_effective_source_order(
    gitattributes: Option<Seq<char>>,
    git_ai_ignore: Option<Seq<char>>,
    user_patterns: Seq<Seq<char>>,
    extra_patterns: Seq<Seq<char>>,
)
    ensures
        effective_patterns_of(gitattributes, git_ai_ignore, user_patterns, extra_patterns)
            == effective_patterns_of(
            None,
            None,
            Seq::empty(),
            gitattributes_patterns(gitattributes) + ignore_file_patterns(git_ai_ignore)
                + extra_patterns + user_patterns,
        ),
{
    let a = default_patterns();
    let b = gitattributes_patterns(gitattributes);
    let c = ignore_file_patterns(git_ai_ignore);
    let e = Seq::<Seq<char>>::empty();
    assert(a + b + c + extra_patterns + user_patterns =~= a + e + e + (b + c + extra_patterns
        + user_patterns) + e);
}

} // verus!
