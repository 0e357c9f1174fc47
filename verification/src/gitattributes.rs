//! The root `.gitattributes` file: splitting a line into its path pattern and
//! attributes, and finding the paths marked `linguist-generated`.
use vstd::prelude::*;

use crate::dedupe::{
    dedupe, dedupe_patterns, lemma_dedupe_concat, lemma_dedupe_no_duplicates,
    lemma_dedupe_same_elements,
};
use crate::text::{
    char_vec_views, chars_eq, chars_eq_ignore_ascii_case, chars_has_prefix, chars_skip,
    chars_to_strings, eq_ignore_ascii_case, has_prefix, is_entry_line, is_white_space,
    is_whitespace, lemma_split_lines_join, lemma_split_single_line, lemma_std_lines_trims, opt_chars_view, split_lines, split_lines_exec,
    std_lines, str_chars, string_views, trim, trim_chars, trim_end, trim_start,
};

verus! {

/// The tokenizer's state after a prefix of a line: the finished tokens, the
/// token being built, and whether the last character was an unconsumed `\`.
pub open spec fn tokenize(line: Seq<char>) -> (Seq<Seq<char>>, Seq<char>, bool)
    decreases line.len(),
{
    if line.len() == 0 {
        (Seq::empty(), Seq::empty(), false)
    } else {
        tokenize_step(tokenize(line.drop_last()), line.last())
    }
}

/// One character of input: an escaped character is taken literally, `\`
/// escapes the next one, unescaped whitespace ends a non-empty token, and any
/// other character extends the current token.
pub open spec fn tokenize_step(st: (Seq<Seq<char>>, Seq<char>, bool), c: char) -> (
    Seq<Seq<char>>,
    Seq<char>,
    bool,
) {
    let (tokens, current, escaped) = st;
    if escaped {
        (tokens, current.push(c), false)
    } else if c == '\\' {
        (tokens, current, true)
    } else if is_white_space(c) {
        if current.len() > 0 {
            (tokens.push(current), Seq::empty(), false)
        } else {
            (tokens, current, false)
        }
    } else {
        (tokens, current.push(c), false)
    }
}

/// The tokens of a `.gitattributes` line; a `\` left at the end of the line
/// is kept as a literal backslash.
pub open spec fn gitattributes_tokens(line: Seq<char>) -> Seq<Seq<char>> {
    let (tokens, current, escaped) = tokenize(line);
    let last = if escaped {
        current.push('\\')
    } else {
        current
    };
    if last.len() > 0 {
        tokens.push(last)
    } else {
        tokens
    }
}

/// What one attribute says of `linguist-generated`: `Some(true)` sets it,
/// `Some(false)` unsets it, `None` leaves it as it was.
pub open spec fn linguist_attr_effect(attr: Seq<char>) -> Option<bool> {
    if attr == "linguist-generated"@ {
        Some(true)
    } else if attr == "-linguist-generated"@ || attr == "!linguist-generated"@ {
        Some(false)
    } else if has_prefix(attr, "linguist-generated="@) {
        let value = attr.skip("linguist-generated="@.len() as int);
        if eq_ignore_ascii_case(value, "true"@) || value == "1"@ {
            Some(true)
        } else if eq_ignore_ascii_case(value, "false"@) || value == "0"@ {
            Some(false)
        } else {
            None
        }
    } else {
        None
    }
}

/// The state of `linguist-generated` after a list of attributes: the last
/// attribute that sets or unsets it decides; `None` when none does.
pub open spec fn linguist_state(attrs: Seq<Seq<char>>) -> Option<bool>
    decreases attrs.len(),
{
    if attrs.len() == 0 {
        None
    } else {
        match linguist_attr_effect(attrs.last()) {
            Some(b) => Some(b),
            None => linguist_state(attrs.drop_last()),
        }
    }
}

/// The path pattern that one raw line marks as generated, if any: the line,
/// trimmed, is neither blank nor a comment, has a path pattern and at least
/// one attribute, is not an `[attr]` macro definition, and its attributes
/// leave `linguist-generated` set.
pub open spec fn linguist_generated_path(raw: Seq<char>) -> Option<Seq<char>> {
    let line = trim(raw);
    if !is_entry_line(line) {
        None
    } else {
        let tokens = gitattributes_tokens(line);
        if tokens.len() < 2 || has_prefix(tokens[0], "[attr]"@) {
            None
        } else if linguist_state(tokens.skip(1)) == Some(true) {
            Some(tokens[0])
        } else {
            None
        }
    }
}

/// The generated path patterns of `lines`, in order, before deduplication.
pub open spec fn linguist_generated_entries(lines: Seq<Seq<char>>) -> Seq<Seq<char>>
    decreases lines.len(),
{
    if lines.len() == 0 {
        Seq::empty()
    } else {
        let prev = linguist_generated_entries(lines.drop_last());
        match linguist_generated_path(lines.last()) {
            Some(p) => prev.push(p),
            None => prev,
        }
    }
}

/// The patterns that `.gitattributes` contents mark as `linguist-generated`.
pub open spec fn linguist_generated_patterns_of(contents: Seq<char>) -> Seq<Seq<char>> {
    dedupe(linguist_generated_entries(split_lines(contents)))
}

/// The tokens of a line given as characters (see `gitattributes_tokens`).
fn attribute_tokens(line: &Vec<char>) -> (r: Vec<Vec<char>>)
    ensures
        char_vec_views(r@) == gitattributes_tokens(line@),
{
    let mut tokens: Vec<Vec<char>> = Vec::new();
    let mut current: Vec<char> = Vec::new();
    let mut escaped = false;
    for i in 0..line.len()
        invariant
            (char_vec_views(tokens@), current@, escaped) == tokenize(line@.take(i as int)),
    {
        let ch = line[i];
        assert(line@.take(i + 1).drop_last() =~= line@.take(i as int));
        assert(line@.take(i + 1).last() == ch);
        if escaped {
            current.push(ch);
            escaped = false;
        } else if ch == '\\' {
            escaped = true;
        } else if is_whitespace(ch) {
            if current.len() > 0 {
                let ghost before = tokens@;
                let done = current;
                tokens.push(done);
                current = Vec::new();
                assert(char_vec_views(tokens@) =~= char_vec_views(before).push(done@));
                assert(current@ =~= Seq::<char>::empty());
            }
        } else {
            current.push(ch);
        }
    }
    assert(line@.take(line@.len() as int) =~= line@);
    if escaped {
        current.push('\\');
    }
    if current.len() > 0 {
        let ghost before = tokens@;
        let done = current;
        tokens.push(done);
        assert(char_vec_views(tokens@) =~= char_vec_views(before).push(done@));
    }
    tokens
}

/// Splits a `.gitattributes` line into tokens at unescaped whitespace; `\`
/// makes the next character literal, and a trailing `\` is kept.
pub fn split_gitattributes_tokens(line: &str) -> (r: Vec<String>)
    ensures
        string_views(r@) == gitattributes_tokens(line@),
{
    let chars = str_chars(line);
    let tokens = attribute_tokens(&chars);
    chars_to_strings(&tokens)
}

fn linguist_attr_effect_exec(attr: &Vec<char>) -> (r: Option<bool>)
    ensures
        r == linguist_attr_effect(attr@),
{
    let generated = str_chars("linguist-generated");
    if chars_eq(attr, &generated) {
        return Some(true);
    }
    let unset = str_chars("-linguist-generated");
    let negated = str_chars("!linguist-generated");
    if chars_eq(attr, &unset) || chars_eq(attr, &negated) {
        return Some(false);
    }
    let assign = str_chars("linguist-generated=");
    if chars_has_prefix(attr, &assign) {
        let value = chars_skip(attr, assign.len());
        let true_word = str_chars("true");
        let one = str_chars("1");
        if chars_eq_ignore_ascii_case(&value, &true_word) || chars_eq(&value, &one) {
            return Some(true);
        }
        let false_word = str_chars("false");
        let zero = str_chars("0");
        if chars_eq_ignore_ascii_case(&value, &false_word) || chars_eq(&value, &zero) {
            return Some(false);
        }
    }
    None
}

fn linguist_generated_path_exec(raw: &Vec<char>) -> (r: Option<Vec<char>>)
    ensures
        opt_chars_view(r) == linguist_generated_path(raw@),
{
    let line = trim_chars(raw);
    if line.len() == 0 || line[0] == '#' {
        return None;
    }
    let tokens = attribute_tokens(&line);
    let ghost tv = char_vec_views(tokens@);
    if tokens.len() < 2 {
        return None;
    }
    let macro_prefix = str_chars("[attr]");
    if chars_has_prefix(&tokens[0], &macro_prefix) {
        return None;
    }
    let mut state: Option<bool> = None;
    let mut k: usize = 1;
    assert(tv.subrange(1, 1) =~= Seq::<Seq<char>>::empty());
    while k < tokens.len()
        invariant
            1 <= k <= tokens@.len(),
            tv == char_vec_views(tokens@),
            state == linguist_state(tv.subrange(1, k as int)),
        decreases tokens@.len() - k,
    {
        assert(tv.subrange(1, k + 1).drop_last() =~= tv.subrange(1, k as int));
        assert(tv.subrange(1, k + 1).last() == tokens@[k as int]@);
        match linguist_attr_effect_exec(&tokens[k]) {
            Some(b) => {
                state = Some(b);
            },
            None => {},
        }
        k += 1;
    }
    assert(tv.subrange(1, tv.len() as int) =~= tv.skip(1));
    match state {
        Some(true) => {
            let path = tokens[0].clone();
            assert(path@ =~= tokens@[0]@);
            Some(path)
        },
        _ => None,
    }
}

/// Parses `.gitattributes` contents into the deduplicated list of path
/// patterns whose attributes leave `linguist-generated` set. Lines end at
/// `'\n'`; the `'\r'` of a CRLF ending is trimmed with the line.
pub fn parse_linguist_generated_patterns(contents: &str) -> (r: Vec<String>)
    ensures
        string_views(r@) == linguist_generated_patterns_of(contents@),
{
    let lines = split_lines_exec(contents);
    let ghost lv = char_vec_views(lines@);
    let mut patterns: Vec<Vec<char>> = Vec::new();
    for i in 0..lines.len()
        invariant
            lv == char_vec_views(lines@),
            char_vec_views(patterns@) == linguist_generated_entries(lv.take(i as int)),
    {
        assert(lv.take(i + 1).drop_last() =~= lv.take(i as int));
        assert(lv.take(i + 1).last() == lines@[i as int]@);
        let ghost before = patterns@;
        match linguist_generated_path_exec(&lines[i]) {
            Some(p) => {
                patterns.push(p);
                assert(char_vec_views(patterns@) =~= char_vec_views(before).push(
                    patterns@.last()@,
                ));
            },
            None => {},
        }
    }
    assert(lv.take(lines@.len() as int) =~= lv);
    let strings = chars_to_strings(&patterns);
    dedupe_patterns(strings)
}

/// The `linguist-generated` patterns of the repository's root
/// `.gitattributes`, given its contents as loaded (`None` when the file could
/// not be read): no patterns when it is absent, else the parsed contents.
pub fn load_linguist_generated_patterns_from_root_gitattributes(contents: Option<&str>) -> (r:
    Vec<String>)
    ensures
        string_views(r@) == match contents {
            Some(c) => linguist_generated_patterns_of(c@),
            None => Seq::empty(),
        },
{
    match contents {
        Some(c) => parse_linguist_generated_patterns(c),
        None => {
            let r: Vec<String> = Vec::new();
            assert(string_views(r@) =~= Seq::empty());
            r
        },
    }
}

/// The characters of `s` that are not whitespace, in order.
pub open spec fn non_white(s: Seq<char>) -> Seq<char>
    decreases s.len(),
{
    if s.len() == 0 {
        Seq::empty()
    } else if is_white_space(s.last()) {
        non_white(s.drop_last())
    } else {
        non_white(s.drop_last()).push(s.last())
    }
}

/// The concatenation of `parts`, in order.
pub open spec fn joined(parts: Seq<Seq<char>>) -> Seq<char>
    decreases parts.len(),
{
    if parts.len() == 0 {
        Seq::empty()
    } else {
        joined(parts.drop_last()) + parts.last()
    }
}

/// `s` holds no whitespace.
pub open spec fn has_no_white(s: Seq<char>) -> bool {
    forall|i: int| 0 <= i < s.len() ==> !is_white_space(#[trigger] s[i])
}

proof fn lemma_tokenize_nonempty(line: Seq<char>)
    ensures
        forall|k: int|
            0 <= k < tokenize(line).0.len() ==> (#[trigger] tokenize(line).0[k]).len() > 0,
    decreases line.len(),
{
    if line.len() > 0 {
        lemma_tokenize_nonempty(line.drop_last());
        let prev = tokenize(line.drop_last()).0;
        let cur = tokenize(line).0;
        assert forall|k: int| 0 <= k < cur.len() implies (#[trigger] cur[k]).len() > 0 by {
            if k < prev.len() {
                assert(cur[k] == prev[k]);
            }
        }
    }
}

/// No token of a `.gitattributes` line is empty.
pub proof fn lemma_tokens_nonempty(line: Seq<char>)
    ensures
        forall|k: int|
            0 <= k < gitattributes_tokens(line).len() ==> (#[trigger] gitattributes_tokens(
                line,
            )[k]).len() > 0,
{
    lemma_tokenize_nonempty(line);
    let prev = tokenize(line).0;
    let r = gitattributes_tokens(line);
    assert forall|k: int| 0 <= k < r.len() implies (#[trigger] r[k]).len() > 0 by {
        if k < prev.len() {
            assert(r[k] == prev[k]);
        }
    }
}

proof fn lemma_tokenize_plain(line: Seq<char>)
    requires
        forall|i: int| 0 <= i < line.len() ==> line[i] != '\\',
    ensures
        !tokenize(line).2,
        joined(tokenize(line).0) + tokenize(line).1 == non_white(line),
        has_no_white(tokenize(line).1),
        forall|k: int|
            0 <= k < tokenize(line).0.len() ==> has_no_white(#[trigger] tokenize(line).0[k]),
    decreases line.len(),
{
    if line.len() == 0 {
        assert(joined(Seq::<Seq<char>>::empty()) + Seq::<char>::empty() =~= Seq::<char>::empty());
    } else {
        let init = line.drop_last();
        let c = line.last();
        lemma_tokenize_plain(init);
        let (tokens, current, escaped) = tokenize(init);
        let (tokens2, current2, escaped2) = tokenize(line);
        assert(c == line[line.len() - 1]);
        if is_white_space(c) {
            if current.len() > 0 {
                assert(tokens2.drop_last() =~= tokens);
                assert(joined(tokens2) + current2 =~= joined(tokens) + current);
                assert forall|k: int| 0 <= k < tokens2.len() implies has_no_white(
                    #[trigger] tokens2[k],
                ) by {
                    if k < tokens.len() {
                        assert(tokens2[k] == tokens[k]);
                    }
                }
            }
        } else {
            assert(joined(tokens2) + current2 =~= (joined(tokens) + current).push(c));
            assert forall|i: int| 0 <= i < current2.len() implies !is_white_space(
                #[trigger] current2[i],
            ) by {
                if i < current.len() {
                    assert(current2[i] == current[i]);
                }
            }
        }
    }
}

/// Without backslashes, the tokens of a line are its whitespace-separated
/// words: none is empty, none holds whitespace, and together they spell the
/// line's non-whitespace characters in order.
pub proof fn lemma_tokens_of_plain_line(line: Seq<char>)
    requires
        forall|i: int| 0 <= i < line.len() ==> line[i] != '\\',
    ensures
        joined(gitattributes_tokens(line)) == non_white(line),
        forall|k: int|
            0 <= k < gitattributes_tokens(line).len() ==> has_no_white(
                #[trigger] gitattributes_tokens(line)[k],
            ) && gitattributes_tokens(line)[k].len() > 0,
{
    lemma_tokenize_plain(line);
    lemma_tokens_nonempty(line);
    let (tokens, current, escaped) = tokenize(line);
    let r = gitattributes_tokens(line);
    if current.len() > 0 {
        assert(r.drop_last() =~= tokens);
        assert forall|k: int| 0 <= k < r.len() implies has_no_white(#[trigger] r[k]) by {
            if k < tokens.len() {
                assert(r[k] == tokens[k]);
            }
        }
    } else {
        assert(joined(tokens) + current =~= joined(tokens));
    }
}

/// The last attribute that sets or unsets `linguist-generated` decides its
/// state, whatever came before it.
pub proof fn lemma_last_setting_wins(attrs: Seq<Seq<char>>, i: int)
    requires
        0 <= i < attrs.len(),
        linguist_attr_effect(attrs[i]) is Some,
        forall|j: int| i < j < attrs.len() ==> linguist_attr_effect(#[trigger] attrs[j]) is None,
    ensures
        linguist_state(attrs) == linguist_attr_effect(attrs[i]),
    decreases attrs.len(),
{
    if i < attrs.len() - 1 {
        let init = attrs.drop_last();
        assert(linguist_attr_effect(attrs[attrs.len() - 1]) is None);
        assert forall|j: int| i < j < init.len() implies linguist_attr_effect(
            #[trigger] init[j],
        ) is None by {
            assert(init[j] == attrs[j]);
        }
        lemma_last_setting_wins(init, i);
    }
}

/// Attributes none of which mention `linguist-generated` leave it unset.
pub proof fn lemma_unmentioned_stays_unset(attrs: Seq<Seq<char>>)
    requires
        forall|j: int| 0 <= j < attrs.len() ==> linguist_attr_effect(#[trigger] attrs[j]) is None,
    ensures
        linguist_state(attrs) is None,
    decreases attrs.len(),
{
    if attrs.len() > 0 {
        let init = attrs.drop_last();
        assert(linguist_attr_effect(attrs[attrs.len() - 1]) is None);
        assert forall|j: int| 0 <= j < init.len() implies linguist_attr_effect(
            #[trigger] init[j],
        ) is None by {
            assert(init[j] == attrs[j]);
        }
        lemma_unmentioned_stays_unset(init);
    }
}

proof fn lemma_generated_entries_nonempty(lines: Seq<Seq<char>>)
    ensures
        forall|k: int|
            0 <= k < linguist_generated_entries(lines).len() ==> (
            #[trigger] linguist_generated_entries(lines)[k]).len() > 0,
    decreases lines.len(),
{
    if lines.len() > 0 {
        lemma_generated_entries_nonempty(lines.drop_last());
        lemma_tokens_nonempty(trim(lines.last()));
        let prev = linguist_generated_entries(lines.drop_last());
        let r = linguist_generated_entries(lines);
        assert forall|k: int| 0 <= k < r.len() implies (#[trigger] r[k]).len() > 0 by {
            if k < prev.len() {
                assert(r[k] == prev[k]);
            }
        }
    }
}

/// The generated patterns of a `.gitattributes` are non-empty and none is
/// listed twice.
pub proof fn lemma_generated_patterns_distinct(contents: Seq<char>)
    ensures
        linguist_generated_patterns_of(contents).no_duplicates(),
        forall|i: int|
            0 <= i < linguist_generated_patterns_of(contents).len() ==> (
            #[trigger] linguist_generated_patterns_of(contents)[i]).len() > 0,
{
    let entries = linguist_generated_entries(split_lines(contents));
    let r = linguist_generated_patterns_of(contents);
    lemma_dedupe_no_duplicates(entries);
    lemma_dedupe_same_elements(entries);
    lemma_generated_entries_nonempty(split_lines(contents));
    assert forall|i: int| 0 <= i < r.len() implies (#[trigger] r[i]).len() > 0 by {
        assert(r.contains(r[i]));
        assert(entries.contains(r[i]));
        let k = choose|k: int| 0 <= k < entries.len() && entries[k] == r[i];
        assert(entries[k].len() > 0);
    }
}

/// The pieces of `s` between whitespace characters, empty ones included.
pub open spec fn split_at_white(s: Seq<char>) -> Seq<Seq<char>>
    decreases s.len(),
{
    if s.len() == 0 {
        seq![Seq::<char>::empty()]
    } else {
        let prev = split_at_white(s.drop_last());
        if is_white_space(s.last()) {
            prev.push(Seq::<char>::empty())
        } else {
            prev.update(prev.len() - 1, prev.last().push(s.last()))
        }
    }
}

/// The non-empty pieces of `pieces`, in order.
pub open spec fn non_empty_pieces(pieces: Seq<Seq<char>>) -> Seq<Seq<char>>
    decreases pieces.len(),
{
    if pieces.len() == 0 {
        Seq::empty()
    } else {
        let prev = non_empty_pieces(pieces.drop_last());
        if pieces.last().len() > 0 {
            prev.push(pieces.last())
        } else {
            prev
        }
    }
}

/// What `str::split_whitespace` yields: the non-empty pieces of `s` between
/// whitespace characters.
pub open spec fn whitespace_words(s: Seq<char>) -> Seq<Seq<char>> {
    non_empty_pieces(split_at_white(s))
}

proof fn lemma_tokenize_words(line: Seq<char>)
    requires
        forall|i: int| 0 <= i < line.len() ==> line[i] != '\\',
    ensures
        split_at_white(line).len() >= 1,
        !tokenize(line).2,
        tokenize(line).1 == split_at_white(line).last(),
        tokenize(line).0 == non_empty_pieces(split_at_white(line).drop_last()),
    decreases line.len(),
{
    if line.len() == 0 {
        assert(seq![Seq::<char>::empty()].drop_last() =~= Seq::<Seq<char>>::empty());
    } else {
        let init = line.drop_last();
        let c = line.last();
        assert(c == line[line.len() - 1]);
        lemma_tokenize_words(init);
        let prev = split_at_white(init);
        let next = split_at_white(line);
        if is_white_space(c) {
            assert(next.drop_last() =~= prev);
        } else {
            assert(next.drop_last() =~= prev.drop_last());
        }
    }
}

/// Without backslashes, the tokens of a line are exactly what
/// `str::split_whitespace` yields for it.
pub proof fn lemma_tokens_are_whitespace_words(line: Seq<char>)
    requires
        forall|i: int| 0 <= i < line.len() ==> line[i] != '\\',
    ensures
        gitattributes_tokens(line) == whitespace_words(line),
{
    lemma_tokenize_words(line);
}

/// The pieces of `a` past `b` are empty and the others trim like those of
/// `b`, so both give the same generated patterns.
proof fn lemma_generated_entries_follow_trims(a: Seq<Seq<char>>, b: Seq<Seq<char>>)
    requires
        b.len() <= a.len(),
        forall|i: int| 0 <= i < b.len() ==> trim(#[trigger] a[i]) == trim(b[i]),
        forall|i: int| b.len() <= i < a.len() ==> (#[trigger] a[i]).len() == 0,
    ensures
        linguist_generated_entries(a) == linguist_generated_entries(b),
    decreases a.len(),
{
    let e = Seq::<char>::empty();
    assert(trim_start(e) == e && trim_end(e) == e);
    if a.len() > b.len() {
        assert(a.last() =~= e);
        lemma_generated_entries_follow_trims(a.drop_last(), b);
    } else if a.len() > 0 {
        assert(trim(a.last()) == trim(b.last()));
        lemma_generated_entries_follow_trims(a.drop_last(), b.drop_last());
    }
}

/// Reading `.gitattributes` by `str::lines` gives the same patterns: the
/// lines differ from the pieces between `'\n'` only by an empty last piece and
/// a `'\r'` that trimming removes.
pub proof fn lemma_generated_patterns_over_std_lines(contents: Seq<char>)
    ensures
        linguist_generated_patterns_of(contents) == dedupe(
            linguist_generated_entries(std_lines(contents)),
        ),
{
    lemma_std_lines_trims(contents);
    lemma_generated_entries_follow_trims(split_lines(contents), std_lines(contents));
}

/// Some attribute of `attrs` sets `linguist-generated`, and no attribute after
/// it sets or unsets it.
pub open spec fn last_setting_sets(attrs: Seq<Seq<char>>) -> bool {
    exists|i: int|
        0 <= i < attrs.len() && #[trigger] linguist_attr_effect(attrs[i]) == Some(true) && forall|
            j: int,
        | i < j < attrs.len() ==> linguist_attr_effect(#[trigger] attrs[j]) is None
}

/// The raw line marks `path` as generated: trimmed, it is neither blank nor a
/// comment; its first token is `path`, which is not an `[attr]` macro name;
/// at least one attribute follows; and the last attribute that sets or
/// unsets `linguist-generated` sets it. Other attributes play no part.
pub open spec fn line_marks_generated(raw: Seq<char>, path: Seq<char>) -> bool {
    let line = trim(raw);
    let tokens = gitattributes_tokens(line);
    &&& line.len() > 0
    &&& line[0] != '#'
    &&& tokens.len() >= 2
    &&& tokens[0] == path
    &&& !has_prefix(tokens[0], "[attr]"@)
    &&& last_setting_sets(tokens.skip(1))
}

/// `linguist-generated` ends up set exactly when the last attribute that
/// sets or unsets it sets it.
pub proof fn lemma_state_set_iff_last_setting_sets(attrs: Seq<Seq<char>>)
    ensures
        linguist_state(attrs) == Some(true) <==> last_setting_sets(attrs),
    decreases attrs.len(),
{
    if last_setting_sets(attrs) {
        let i = choose|i: int|
            0 <= i < attrs.len() && #[trigger] linguist_attr_effect(attrs[i]) == Some(true)
                && forall|j: int| i < j < attrs.len() ==> linguist_attr_effect(#[trigger] attrs[j]) is None;
        lemma_last_setting_wins(attrs, i);
    }
    if attrs.len() > 0 && linguist_state(attrs) == Some(true) {
        let n = attrs.len() - 1;
        if linguist_attr_effect(attrs[n]) is Some {
            assert(linguist_attr_effect(attrs[n]) == Some(true));
        } else {
            let init = attrs.drop_last();
            lemma_state_set_iff_last_setting_sets(init);
            let i = choose|i: int|
                0 <= i < init.len() && #[trigger] linguist_attr_effect(init[i]) == Some(true)
                    && forall|j: int| i < j < init.len() ==> linguist_attr_effect(#[trigger] init[j]) is None;
            assert(attrs[i] == init[i]);
            assert forall|j: int| i < j < attrs.len() implies linguist_attr_effect(
                #[trigger] attrs[j],
            ) is None by {
                if j < n {
                    assert(attrs[j] == init[j]);
                }
            }
        }
    }
}

proof fn lemma_generated_path_iff(raw: Seq<char>, path: Seq<char>)
    ensures
        linguist_generated_path(raw) == Some(path) <==> line_marks_generated(raw, path),
{
    let tokens = gitattributes_tokens(trim(raw));
    if tokens.len() >= 2 {
        lemma_state_set_iff_last_setting_sets(tokens.skip(1));
    }
}

proof fn lemma_generated_entries_iff(lines: Seq<Seq<char>>, path: Seq<char>)
    ensures
        linguist_generated_entries(lines).contains(path) <==> exists|l: int|
            0 <= l < lines.len() && line_marks_generated(#[trigger] lines[l], path),
    decreases lines.len(),
{
    if lines.len() > 0 {
        let init = lines.drop_last();
        let n = lines.len() - 1;
        lemma_generated_entries_iff(init, path);
        lemma_generated_path_iff(lines[n], path);
        let prev = linguist_generated_entries(init);
        let r = linguist_generated_entries(lines);
        if r.contains(path) {
            let k = choose|k: int| 0 <= k < r.len() && r[k] == path;
            if k < prev.len() {
                assert(prev[k] == path);
                let l = choose|l: int| 0 <= l < init.len() && line_marks_generated(#[trigger] init[l], path);
                assert(lines[l] == init[l]);
            } else {
                assert(line_marks_generated(lines[n], path));
            }
        }
        if exists|l: int| 0 <= l < lines.len() && line_marks_generated(#[trigger] lines[l], path) {
            let l = choose|l: int| 0 <= l < lines.len() && line_marks_generated(#[trigger] lines[l], path);
            if l < n {
                assert(init[l] == lines[l]);
                let k = choose|k: int| 0 <= k < prev.len() && prev[k] == path;
                assert(r[k] == prev[k]);
            } else {
                assert(r[r.len() - 1] == path);
            }
        }
    } else {
        assert(!linguist_generated_entries(lines).contains(path));
    }
}

/// A path pattern is among the generated patterns exactly when some line of
/// the contents (as `str::lines` gives them) marks it as generated: nothing
/// marked is lost, and nothing else is reported.
pub proof fn lemma_generated_patterns_characterized(contents: Seq<char>, path: Seq<char>)
    ensures
        linguist_generated_patterns_of(contents).contains(path) <==> exists|l: int|
            0 <= l < std_lines(contents).len() && line_marks_generated(
                #[trigger] std_lines(contents)[l],
                path,
            ),
{
    let lines = std_lines(contents);
    lemma_generated_patterns_over_std_lines(contents);
    lemma_dedupe_same_elements(linguist_generated_entries(lines));
    lemma_generated_entries_iff(lines, path);
}

/// What each attribute does to `linguist-generated`: the bare name sets it;
/// `-` or `!` before the name unsets it; `linguist-generated=` followed by
/// `true` (in any ASCII case) or `1` sets it, by `false` (in any ASCII case)
/// or `0` unsets it, and by any other value leaves it alone.
pub proof fn lemma_attr_effects(value: Seq<char>)
    ensures
        linguist_attr_effect("linguist-generated"@) == Some(true),
        linguist_attr_effect("-linguist-generated"@) == Some(false),
        linguist_attr_effect("!linguist-generated"@) == Some(false),
        (eq_ignore_ascii_case(value, "true"@) || value == "1"@) ==> linguist_attr_effect(
            "linguist-generated="@ + value,
        ) == Some(true),
        (eq_ignore_ascii_case(value, "false"@) || value == "0"@) ==> linguist_attr_effect(
            "linguist-generated="@ + value,
        ) == Some(false),
        !(eq_ignore_ascii_case(value, "true"@) || value == "1"@ || eq_ignore_ascii_case(
            value,
            "false"@,
        ) || value == "0"@) ==> linguist_attr_effect("linguist-generated="@ + value) is None,
{
    reveal_strlit("linguist-generated");
    reveal_strlit("-linguist-generated");
    reveal_strlit("!linguist-generated");
    reveal_strlit("linguist-generated=");
    reveal_strlit("true");
    reveal_strlit("false");
    reveal_strlit("1");
    reveal_strlit("0");
    let prefix = "linguist-generated="@;
    let attr = prefix + value;
    assert(attr[0] == 'l');
    assert(attr.len() >= 19);
    assert(attr[18] == '=');
    assert(attr != "linguist-generated"@);
    assert(attr != "-linguist-generated"@);
    assert(attr != "!linguist-generated"@);
    assert(attr.subrange(0, prefix.len() as int) =~= prefix);
    assert(attr.skip(prefix.len() as int) =~= value);
    assert("linguist-generated"@.len() == 18);
    assert("-linguist-generated"@.len() == 19);
    assert("!linguist-generated"@.len() == 19);
    assert("true"@.len() == 4 && "false"@.len() == 5);
    assert("1"@.len() == 1 && "0"@.len() == 1 && "1"@[0] != "0"@[0]);
    assert(!has_prefix("linguist-generated"@, prefix));
}

/// A backslash that ends a line, with nothing left to escape, is kept: it is
/// the last character of the last token.
pub proof fn lemma_trailing_backslash_kept(line: Seq<char>)
    requires
        forall|i: int| 0 <= i < line.len() ==> line[i] != '\\',
    ensures
        gitattributes_tokens(line.push('\\')).len() > 0,
        gitattributes_tokens(line.push('\\')).last().last() == '\\',
{
    lemma_tokenize_plain(line);
    assert(line.push('\\').drop_last() =~= line);
}

proof fn lemma_generated_entries_concat(a: Seq<Seq<char>>, b: Seq<Seq<char>>)
    ensures
        linguist_generated_entries(a + b) == linguist_generated_entries(a)
            + linguist_generated_entries(b),
    decreases b.len(),
{
    if b.len() == 0 {
        assert(a + b =~= a);
        assert(linguist_generated_entries(a) + linguist_generated_entries(b)
            =~= linguist_generated_entries(a));
    } else {
        lemma_generated_entries_concat(a, b.drop_last());
        assert((a + b).drop_last() =~= a + b.drop_last());
        assert((a + b).last() == b.last());
        let x = linguist_generated_entries(a);
        let y = linguist_generated_entries(b.drop_last());
        match linguist_generated_path(b.last()) {
            Some(p) => {
                assert((x + y).push(p) =~= x + y.push(p));
            },
            None => {},
        }
    }
}

/// Two `.gitattributes` texts joined by a line break mark the paths of the
/// first, then those of the second that are new, in order: each line is read
/// on its own, from top to bottom.
pub proof fn lemma_generated_patterns_concat(first: Seq<char>, second: Seq<char>)
    ensures
        linguist_generated_patterns_of(first.push('\n') + second) == dedupe(
            linguist_generated_patterns_of(first) + linguist_generated_patterns_of(second),
        ),
{
    lemma_split_lines_join(first, second);
    lemma_generated_entries_concat(split_lines(first), split_lines(second));
    lemma_dedupe_concat(
        linguist_generated_entries(split_lines(first)),
        linguist_generated_entries(split_lines(second)),
    );
}

/// A single line marks at most its own path pattern: exactly the pattern it
/// marks as generated, if any.
pub proof fn lemma_generated_single_line(line: Seq<char>, path: Seq<char>)
    requires
        forall|i: int| 0 <= i < line.len() ==> line[i] != '\n',
    ensures
        linguist_generated_patterns_of(line).len() <= 1,
        line_marks_generated(line, path) ==> linguist_generated_patterns_of(line) == seq![path],
        !line_marks_generated(line, path) ==> !linguist_generated_patterns_of(line).contains(path),
{
    lemma_split_single_line(line);
    lemma_generated_path_iff(line, path);
    let lines = seq![line];
    assert(lines.drop_last() =~= Seq::<Seq<char>>::empty());
    assert(lines.last() == line);
    let none = Seq::<Seq<char>>::empty();
    assert(dedupe(none) == none);
    assert(linguist_generated_entries(none) == none);
    match linguist_generated_path(line) {
        Some(p) => {
            assert(linguist_generated_entries(lines) =~= seq![p]);
            assert(seq![p].drop_last() =~= none);
            assert(seq![p].last() == p);
            assert(!none.contains(p));
        },
        None => {
            assert(linguist_generated_entries(lines) == none);
        },
    }
}

} // verus!
