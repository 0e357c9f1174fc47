//! The `.git-ai-ignore` file: one glob pattern per line, blank lines and `#`
//! comments skipped.
use vstd::prelude::*;

use crate::dedupe::{
    dedupe, dedupe_patterns, lemma_dedupe_concat, lemma_dedupe_no_duplicates,
    lemma_dedupe_same_elements,
};
use crate::text::{
    char_vec_views, chars_to_strings, is_entry_line, is_white_space, lemma_split_lines_join,
    lemma_split_single_line, lemma_std_lines_trims,
    lemma_trim_ends, lemma_trim_idempotent, opt_chars_view, split_lines, split_lines_exec,
    std_lines, string_views, trim, trim_chars, trim_end, trim_start,
};

verus! {

/// The pattern that one raw line of the file contributes: the trimmed line,
/// unless it is blank or a comment.
pub open spec fn ignore_file_entry(raw: Seq<char>) -> Option<Seq<char>> {
    let line = trim(raw);
    if is_entry_line(line) {
        Some(line)
    } else {
        None
    }
}

/// The entries of `lines`, in order, before deduplication.
pub open spec fn ignore_file_entries(lines: Seq<Seq<char>>) -> Seq<Seq<char>>
    decreases lines.len(),
{
    if lines.len() == 0 {
        Seq::empty()
    } else {
        let prev = ignore_file_entries(lines.drop_last());
        match ignore_file_entry(lines.last()) {
            Some(p) => prev.push(p),
            None => prev,
        }
    }
}

/// The patterns that a `.git-ai-ignore` file with these contents declares.
pub open spec fn git_ai_ignore_patterns_of(contents: Seq<char>) -> Seq<Seq<char>> {
    dedupe(ignore_file_entries(split_lines(contents)))
}

fn ignore_file_entry_exec(raw: &Vec<char>) -> (r: Option<Vec<char>>)
    ensures
        opt_chars_view(r) == ignore_file_entry(raw@),
{
    let line = trim_chars(raw);
    if line.len() > 0 && line[0] != '#' {
        Some(line)
    } else {
        None
    }
}

/// Parses `.git-ai-ignore` contents into a deduplicated pattern list: one
/// glob pattern per line, trimmed; blank lines and `#` comments are skipped.
/// Lines end at `'\n'`; the `'\r'` of a CRLF ending is whitespace and is
/// trimmed with the rest, so such files read the same.
pub fn parse_git_ai_ignore_patterns(contents: &str) -> (r: Vec<String>)
    ensures
        string_views(r@) == git_ai_ignore_patterns_of(contents@),
{
    let lines = split_lines_exec(contents);
    let ghost lv = char_vec_views(lines@);
    let mut patterns: Vec<Vec<char>> = Vec::new();
    for i in 0..lines.len()
        invariant
            lv == char_vec_views(lines@),
            char_vec_views(patterns@) == ignore_file_entries(lv.take(i as int)),
    {
        assert(lv.take(i + 1).drop_last() =~= lv.take(i as int));
        assert(lv.take(i + 1).last() == lines@[i as int]@);
        let ghost before = patterns@;
        match ignore_file_entry_exec(&lines[i]) {
            Some(p) => {
                patterns.push(p);
                assert(char_vec_views(patterns@) =~= char_vec_views(before).push(
                    patterns@.last()@,
                ));
            },
            None => {},
        }
    }
    assert(lv.take(lines@.len() as int) =~= lv);
    let strings = chars_to_strings(&patterns);
    dedupe_patterns(strings)
}

/// The patterns of the repository's root `.git-ai-ignore`, given its contents
/// as loaded (`None` when the file could not be read): no patterns when it is
/// absent, else the parsed contents.
pub fn load_git_ai_ignore_patterns(contents: Option<&str>) -> (r: Vec<String>)
    ensures
        string_views(r@) == match contents {
            Some(c) => git_ai_ignore_patterns_of(c@),
            None => Seq::empty(),
        },
{
    match contents {
        Some(c) => parse_git_ai_ignore_patterns(c),
        None => {
            let r: Vec<String> = Vec::new();
            assert(string_views(r@) =~= Seq::empty());
            r
        },
    }
}

/// A pattern as an ignore file yields it: not empty, not a comment, and
/// without whitespace at either end.
pub open spec fn is_clean_entry(p: Seq<char>) -> bool {
    is_entry_line(p) && !is_white_space(p[0]) && !is_white_space(p.last())
}

proof fn lemma_entries_clean(lines: Seq<Seq<char>>)
    ensures
        forall|k: int|
            0 <= k < ignore_file_entries(lines).len() ==> is_clean_entry(
                #[trigger] ignore_file_entries(lines)[k],
            ) && exists|j: int| 0 <= j < lines.len() && trim(lines[j]) == ignore_file_entries(lines)[k],
    decreases lines.len(),
{
    if lines.len() > 0 {
        let init = lines.drop_last();
        lemma_entries_clean(init);
        lemma_trim_ends(lines.last());
        let prev = ignore_file_entries(init);
        let r = ignore_file_entries(lines);
        assert forall|k: int| 0 <= k < r.len() implies is_clean_entry(#[trigger] r[k]) && exists|
            j: int,
        | 0 <= j < lines.len() && trim(lines[j]) == r[k] by {
            if k < prev.len() {
                assert(r[k] == prev[k]);
                let j = choose|j: int| 0 <= j < init.len() && trim(init[j]) == prev[k];
                assert(lines[j] == init[j]);
            } else {
                assert(trim(lines[lines.len() - 1]) == r[k]);
            }
        }
    }
}

/// The pieces of `a` past `b` are empty and the others trim like those of
/// `b`, so both give the same entries.
proof fn lemma_entries_follow_trims(a: Seq<Seq<char>>, b: Seq<Seq<char>>)
    requires
        b.len() <= a.len(),
        forall|i: int| 0 <= i < b.len() ==> trim(#[trigger] a[i]) == trim(b[i]),
        forall|i: int| b.len() <= i < a.len() ==> (#[trigger] a[i]).len() == 0,
    ensures
        ignore_file_entries(a) == ignore_file_entries(b),
    decreases a.len(),
{
    let e = Seq::<char>::empty();
    assert(trim_start(e) == e && trim_end(e) == e);
    if a.len() > b.len() {
        assert(a.last() =~= e);
        lemma_entries_follow_trims(a.drop_last(), b);
    } else if a.len() > 0 {
        assert(trim(a.last()) == trim(b.last()));
        lemma_entries_follow_trims(a.drop_last(), b.drop_last());
    }
}

/// Reading the file by `str::lines`, as the line-by-line description says,
/// gives the same patterns: the lines differ from the pieces between `'\n'`
/// only by an empty last piece and a `'\r'` that trimming removes.
pub proof fn lemma_git_ai_ignore_over_std_lines(contents: Seq<char>)
    ensures
        git_ai_ignore_patterns_of(contents) == dedupe(ignore_file_entries(std_lines(contents))),
{
    lemma_std_lines_trims(contents);
    lemma_entries_follow_trims(split_lines(contents), std_lines(contents));
}

/// Every pattern read from a `.git-ai-ignore` is the trimmed form of one of
/// its lines (as `str::lines` gives them), so it is its own trim; it is not
/// blank, not a comment, has no whitespace at either end, and no pattern is
/// listed twice.
pub proof fn lemma_ignore_file_patterns_clean(contents: Seq<char>)
    ensures
        git_ai_ignore_patterns_of(contents).no_duplicates(),
        forall|i: int|
            0 <= i < git_ai_ignore_patterns_of(contents).len() ==> is_clean_entry(
                #[trigger] git_ai_ignore_patterns_of(contents)[i],
            ) && trim(git_ai_ignore_patterns_of(contents)[i]) == git_ai_ignore_patterns_of(
                contents,
            )[i] && exists|j: int|
                0 <= j < std_lines(contents).len() && trim(std_lines(contents)[j])
                    == git_ai_ignore_patterns_of(contents)[i],
{
    let lines = std_lines(contents);
    let entries = ignore_file_entries(lines);
    let r = git_ai_ignore_patterns_of(contents);
    lemma_git_ai_ignore_over_std_lines(contents);
    lemma_dedupe_no_duplicates(entries);
    lemma_dedupe_same_elements(entries);
    lemma_entries_clean(lines);
    assert forall|i: int| 0 <= i < r.len() implies is_clean_entry(#[trigger] r[i]) && trim(r[i])
        == r[i] && exists|j: int| 0 <= j < lines.len() && trim(lines[j]) == r[i] by {
        assert(r.contains(r[i]));
        assert(entries.contains(r[i]));
        let k = choose|k: int| 0 <= k < entries.len() && entries[k] == r[i];
        assert(is_clean_entry(entries[k]));
        let j = choose|j: int| 0 <= j < lines.len() && trim(lines[j]) == entries[k];
        lemma_trim_idempotent(lines[j]);
    }
}

proof fn lemma_entries_complete(lines: Seq<Seq<char>>, i: int)
    requires
        0 <= i < lines.len(),
        trim(lines[i]).len() > 0,
        trim(lines[i])[0] != '#',
    ensures
        ignore_file_entries(lines).contains(trim(lines[i])),
    decreases lines.len(),
{
    let init = lines.drop_last();
    let r = ignore_file_entries(lines);
    if i < lines.len() - 1 {
        assert(init[i] == lines[i]);
        lemma_entries_complete(init, i);
        let prev = ignore_file_entries(init);
        let k = choose|k: int| 0 <= k < prev.len() && prev[k] == trim(lines[i]);
        assert(r[k] == prev[k]);
    } else {
        assert(r[r.len() - 1] == trim(lines[i]));
    }
}

/// No pattern is lost: the trimmed form of every line (as `str::lines` gives
/// them) that is not blank and does not start with `#` is among the patterns.
pub proof fn lemma_ignore_file_complete(contents: Seq<char>, i: int)
    requires
        0 <= i < std_lines(contents).len(),
        trim(std_lines(contents)[i]).len() > 0,
        trim(std_lines(contents)[i])[0] != '#',
    ensures
        git_ai_ignore_patterns_of(contents).contains(trim(std_lines(contents)[i])),
{
    let lines = std_lines(contents);
    lemma_git_ai_ignore_over_std_lines(contents);
    lemma_entries_complete(lines, i);
    lemma_dedupe_same_elements(ignore_file_entries(lines));
}

proof fn lemma_entries_concat(a: Seq<Seq<char>>, b: Seq<Seq<char>>)
    ensures
        ignore_file_entries(a + b) == ignore_file_entries(a) + ignore_file_entries(b),
    decreases b.len(),
{
    if b.len() == 0 {
        assert(a + b =~= a);
        assert(ignore_file_entries(a) + ignore_file_entries(b) =~= ignore_file_entries(a));
    } else {
        lemma_entries_concat(a, b.drop_last());
        assert((a + b).drop_last() =~= a + b.drop_last());
        assert((a + b).last() == b.last());
        let x = ignore_file_entries(a);
        let y = ignore_file_entries(b.drop_last());
        match ignore_file_entry(b.last()) {
            Some(p) => {
                assert((x + y).push(p) =~= x + y.push(p));
            },
            None => {},
        }
    }
}

/// Two files joined by a line break declare the patterns of the first, then
/// those of the second that are new, in order: the file is read line by line
/// from top to bottom.
pub proof fn lemma_git_ai_ignore_concat(first: Seq<char>, second: Seq<char>)
    ensures
        git_ai_ignore_patterns_of(first.push('\n') + second) == dedupe(
            git_ai_ignore_patterns_of(first) + git_ai_ignore_patterns_of(second),
        ),
{
    lemma_split_lines_join(first, second);
    lemma_entries_concat(split_lines(first), split_lines(second));
    lemma_dedupe_concat(
        ignore_file_entries(split_lines(first)),
        ignore_file_entries(split_lines(second)),
    );
}

/// A single line declares its trimmed form as its one pattern when that is
/// neither blank nor a comment, and nothing otherwise.
pub proof fn lemma_git_ai_ignore_single_line(line: Seq<char>)
    requires
        forall|i: int| 0 <= i < line.len() ==> line[i] != '\n',
    ensures
        git_ai_ignore_patterns_of(line) == if trim(line).len() > 0 && trim(line)[0] != '#' {
            seq![trim(line)]
        } else {
            Seq::empty()
        },
{
    lemma_split_single_line(line);
    let lines = seq![line];
    assert(lines.drop_last() =~= Seq::<Seq<char>>::empty());
    assert(lines.last() == line);
    let none = Seq::<Seq<char>>::empty();
    assert(dedupe(none) == none);
    assert(ignore_file_entries(none) == none);
    let t = trim(line);
    if t.len() > 0 && t[0] != '#' {
        assert(ignore_file_entry(line) == Some(t));
        assert(ignore_file_entries(lines) =~= seq![t]);
        assert(seq![t].drop_last() =~= none);
        assert(seq![t].last() == t);
        assert(!none.contains(t));
    } else {
        assert(ignore_file_entries(lines) == none);
    }
}

} // verus!
