//! Deciding whether a path is ignored: each pattern is a glob when it compiles
//! as one and an exact path or file name otherwise, and a path is ignored when
//! any pattern matches the whole path or its file name.
use vstd::prelude::*;

use crate::dedupe::{dedupe, lemma_dedupe_same_elements};
use crate::text::string_views;

verus! {

/// Whether `glob::Pattern::new` accepts `pattern`.
pub uninterp spec fn glob_pattern_valid(pattern: Seq<char>) -> bool;

/// Whether the glob compiled from `pattern` matches `text` under
/// `glob::Pattern::matches` (default match options).
pub uninterp spec fn glob_match(pattern: Seq<char>, text: Seq<char>) -> bool;

/// The file name of `std::path::Path::new(path)` as a `str`, if it has one.
pub uninterp spec fn path_file_name(path: Seq<char>) -> Option<Seq<char>>;

/// Calls `glob::Pattern::new` and reports whether it compiled; the contract
/// claims that the answer is the named validity of the pattern text, and that
/// the empty pattern compiles (it has no token that can fail).
#[verifier::external_body]
fn glob_compiles(pattern: &str) -> (r: bool)
    ensures
        r == glob_pattern_valid(pattern@),
        pattern@.len() == 0 ==> r,
{
    glob::Pattern::new(pattern).is_ok()
}

/// Compiles `pattern` with `glob::Pattern::new` and calls
/// `glob::Pattern::matches` on `text`; the contract claims that the answer is
/// the named match result of the pattern text on `text`. The pattern is known
/// to compile, so the error arm is never taken.
#[verifier::external_body]
fn glob_matches(pattern: &str, text: &str) -> (r: bool)
    requires
        glob_pattern_valid(pattern@),
    ensures
        r == glob_match(pattern@, text@),
{
    match glob::Pattern::new(pattern) {
        Ok(compiled) => compiled.matches(text),
        Err(_) => false,
    }
}

/// Calls `std::path::Path::file_name` on `path` and views the name as a
/// `str`; the contract claims that the answer is the named file name.
#[verifier::external_body]
fn file_name_of(path: &str) -> (r: Option<&str>)
    ensures
        match r {
            Some(n) => path_file_name(path@) == Some(n@),
            None => path_file_name(path@) is None,
        },
{
    match std::path::Path::new(path).file_name() {
        Some(name) => name.to_str(),
        None => None,
    }
}

/// The file name of `path`, or the empty string when it has none.
pub open spec fn file_name_or_empty(path: Seq<char>) -> Seq<char> {
    match path_file_name(path) {
        Some(n) => n,
        None => Seq::empty(),
    }
}

/// Whether one pattern matches `path`: a valid glob must match the whole path
/// or its file name; any other pattern must equal one of them exactly.
pub open spec fn pattern_matches(pattern: Seq<char>, path: Seq<char>) -> bool {
    let name = file_name_or_empty(path);
    if glob_pattern_valid(pattern) {
        glob_match(pattern, path) || glob_match(pattern, name)
    } else {
        name == pattern || path == pattern
    }
}

/// Whether some pattern of `patterns` matches `path`.
pub open spec fn ignored_by(patterns: Seq<Seq<char>>, path: Seq<char>) -> bool {
    exists|i: int| 0 <= i < patterns.len() && #[trigger] pattern_matches(patterns[i], path)
}

/// A pattern as the matcher holds it: a valid glob, or text that does not
/// compile as one and is compared exactly.
#[derive(Debug)]
enum CompiledPattern {
    Glob(String),
    Exact(String),
}

impl CompiledPattern {
    /// The pattern text.
    spec fn source(self) -> Seq<char> {
        match self {
            CompiledPattern::Glob(s) => s@,
            CompiledPattern::Exact(s) => s@,
        }
    }

    /// The variant agrees with whether the text compiles as a glob (the empty
    /// text always does).
    spec fn well_formed(self) -> bool {
        match self {
            CompiledPattern::Glob(s) => glob_pattern_valid(s@),
            CompiledPattern::Exact(s) => !glob_pattern_valid(s@) && s@.len() > 0,
        }
    }
}

/// The patterns of an ignore list, each classified once as a glob or as an
/// exact name.
#[derive(Debug)]
pub struct IgnoreMatcher {
    patterns: Vec<CompiledPattern>,
}

impl View for IgnoreMatcher {
    type V = Seq<Seq<char>>;

    /// The pattern texts, in order.
    closed spec fn view(&self) -> Seq<Seq<char>> {
        self.patterns@.map_values(|p: CompiledPattern| p.source())
    }
}

impl IgnoreMatcher {
    #[verifier::type_invariant]
    spec fn patterns_classified(self) -> bool {
        forall|i: int| 0 <= i < self.patterns@.len() ==> #[trigger] self.patterns@[i].well_formed()
    }

    /// Classifies each pattern: a glob when `glob::Pattern` accepts it, an
    /// exact path or file name otherwise.
    pub fn new(patterns: &[String]) -> (r: Self)
        ensures
            r@ == string_views(patterns@),
            forall|i: int|
                0 <= i < r@.len() && !glob_pattern_valid(#[trigger] r@[i]) ==> r@[i].len() > 0,
    {
        let mut compiled: Vec<CompiledPattern> = Vec::new();
        for i in 0..patterns.len()
            invariant
                compiled@.map_values(|p: CompiledPattern| p.source()) == string_views(
                    patterns@,
                ).take(i as int),
                forall|j: int| 0 <= j < compiled@.len() ==> #[trigger] compiled@[j].well_formed(),
        {
            let ghost before = compiled@;
            let text = patterns[i].clone();
            if glob_compiles(text.as_str()) {
                compiled.push(CompiledPattern::Glob(text));
            } else {
                compiled.push(CompiledPattern::Exact(text));
            }
            assert(compiled@.map_values(|p: CompiledPattern| p.source()) =~= before.map_values(
                |p: CompiledPattern| p.source(),
            ).push(patterns@[i as int]@));
            assert(string_views(patterns@).take(i + 1) =~= string_views(patterns@).take(
                i as int,
            ).push(patterns@[i as int]@));
        }
        assert(string_views(patterns@).take(patterns@.len() as int) =~= string_views(patterns@));
        let r = IgnoreMatcher { patterns: compiled };
        assert forall|i: int|
            0 <= i < r@.len() && !glob_pattern_valid(#[trigger] r@[i]) implies r@[i].len() > 0 by {
            assert(r@[i] == compiled@[i].source());
            assert(compiled@[i].well_formed());
        }
        r
    }

    /// Whether any pattern matches `path` or its file name (see
    /// `pattern_matches`).
    pub fn is_ignored(&self, path: &str) -> (r: bool)
        ensures
            r == ignored_by(self@, path@),
    {
        proof {
            use_type_invariant(self);
            reveal_strlit("");
        }
        let filename: &str = match file_name_of(path) {
            Some(n) => n,
            None => "",
        };
        assert(filename@ == file_name_or_empty(path@));
        let filename_owned = filename.to_owned();
        let path_owned = path.to_owned();
        let ghost pv = self@;
        let mut i: usize = 0;
        while i < self.patterns.len()
            invariant
                i <= self.patterns@.len(),
                pv == self@,
                pv.len() == self.patterns@.len(),
                filename_owned@ == file_name_or_empty(path@),
                filename@ == file_name_or_empty(path@),
                path_owned@ == path@,
                forall|j: int| 0 <= j < self.patterns@.len() ==> #[trigger] self.patterns@[j].well_formed(),
                forall|j: int| 0 <= j < i ==> !#[trigger] pattern_matches(pv[j], path@),
            decreases self.patterns@.len() - i,
        {
            assert(pv[i as int] == self.patterns@[i as int].source());
            assert(self.patterns@[i as int].well_formed());
            let hit = match &self.patterns[i] {
                CompiledPattern::Glob(glob) => glob_matches(glob.as_str(), path) || glob_matches(
                    glob.as_str(),
                    filename,
                ),
                CompiledPattern::Exact(exact) => *exact == filename_owned || *exact == path_owned,
            };
            if hit {
                assert(pattern_matches(pv[i as int], path@));
                return true;
            }
            i += 1;
        }
        false
    }
}

impl Clone for CompiledPattern {
    fn clone(&self) -> (r: Self)
        ensures
            r == *self,
    {
        match self {
            CompiledPattern::Glob(s) => CompiledPattern::Glob(s.clone()),
            CompiledPattern::Exact(s) => CompiledPattern::Exact(s.clone()),
        }
    }
}

impl Clone for IgnoreMatcher {
    fn clone(&self) -> (r: Self)
        ensures
            r@ == self@,
    {
        proof {
            use_type_invariant(self);
        }
        let mut patterns: Vec<CompiledPattern> = Vec::new();
        for i in 0..self.patterns.len()
            invariant
                patterns@ == self.patterns@.take(i as int),
                forall|j: int| 0 <= j < self.patterns@.len() ==> #[trigger] self.patterns@[j].well_formed(),
        {
            patterns.push(self.patterns[i].clone());
            assert(patterns@ =~= self.patterns@.take(i + 1));
        }
        assert(patterns@ =~= self.patterns@);
        IgnoreMatcher { patterns }
    }
}

impl Default for IgnoreMatcher {
    fn default() -> (r: Self)
        ensures
            r@ == Seq::<Seq<char>>::empty(),
    {
        let r = IgnoreMatcher { patterns: Vec::new() };
        assert(r@ =~= Seq::<Seq<char>>::empty());
        r
    }
}

/// Builds the matcher for `patterns` (see `IgnoreMatcher::new`).
pub fn build_ignore_matcher(patterns: &[String]) -> (r: IgnoreMatcher)
    ensures
        r@ == string_views(patterns@),
        forall|i: int|
            0 <= i < r@.len() && !glob_pattern_valid(#[trigger] r@[i]) ==> r@[i].len() > 0,
{
    IgnoreMatcher::new(patterns)
}

/// Whether `matcher` ignores `path`.
pub fn should_ignore_file_with_matcher(path: &str, matcher: &IgnoreMatcher) -> (r: bool)
    ensures
        r == ignored_by(matcher@, path@),
{
    matcher.is_ignored(path)
}

/// Whether `path` should be ignored under `patterns`, each an exact path or
/// file name, or a glob such as `*.lock` or `**/*.generated.js`.
pub fn should_ignore_file(path: &str, patterns: &[String]) -> (r: bool)
    ensures
        r == ignored_by(string_views(patterns@), path@),
{
    should_ignore_file_with_matcher(path, &build_ignore_matcher(patterns))
}

/// Adding patterns never un-ignores a path: a path ignored under `a` is
/// ignored under every list `b` that holds all the patterns of `a`.
pub proof fn lemma_more_patterns_ignore_more(
    a: Seq<Seq<char>>,
    b: Seq<Seq<char>>,
    path: Seq<char>,
)
    requires
        forall|x: Seq<char>| a.contains(x) ==> b.contains(x),
        ignored_by(a, path),
    ensures
        ignored_by(b, path),
{
    let i = choose|i: int| 0 <= i < a.len() && #[trigger] pattern_matches(a[i], path);
    assert(a.contains(a[i]));
    let j = choose|j: int| 0 <= j < b.len() && b[j] == a[i];
    assert(pattern_matches(b[j], path));
}

/// Two lists put together ignore exactly the paths that either one ignores.
pub proof fn lemma_ignored_by_concat(a: Seq<Seq<char>>, b: Seq<Seq<char>>, path: Seq<char>)
    ensures
        ignored_by(a + b, path) == (ignored_by(a, path) || ignored_by(b, path)),
{
    if ignored_by(a + b, path) {
        let i = choose|i: int| 0 <= i < (a + b).len() && #[trigger] pattern_matches((a + b)[i], path);
        if i < a.len() {
            assert(pattern_matches(a[i], path));
        } else {
            assert(pattern_matches(b[i - a.len()], path));
        }
    }
    if ignored_by(a, path) {
        let i = choose|i: int| 0 <= i < a.len() && #[trigger] pattern_matches(a[i], path);
        assert(pattern_matches((a + b)[i], path));
    }
    if ignored_by(b, path) {
        let i = choose|i: int| 0 <= i < b.len() && #[trigger] pattern_matches(b[i], path);
        assert(pattern_matches((a + b)[a.len() + i], path));
    }
}

/// Repeated patterns change nothing: a list ignores the same paths as the
/// list with its repeats removed.
pub proof fn lemma_ignored_by_dedupe(s: Seq<Seq<char>>, path: Seq<char>)
    ensures
        ignored_by(dedupe(s), path) == ignored_by(s, path),
{
    lemma_dedupe_same_elements(s);
    if ignored_by(s, path) {
        lemma_more_patterns_ignore_more(s, dedupe(s), path);
    }
    if ignored_by(dedupe(s), path) {
        lemma_more_patterns_ignore_more(dedupe(s), s, path);
    }
}

/// A pattern that does not compile as a glob ignores exactly the path spelled
/// like it and the paths whose file name (empty when there is none) it is; a
/// non-empty one, exactly the path spelled like it and the paths with that
/// file name.
pub proof fn lemma_exact_pattern_fallback(pattern: Seq<char>, path: Seq<char>)
    requires
        !glob_pattern_valid(pattern),
    ensures
        ignored_by(seq![pattern], path) <==> (path == pattern || file_name_or_empty(path)
            == pattern),
        pattern.len() > 0 ==> (ignored_by(seq![pattern], path) <==> (path == pattern
            || path_file_name(path) == Some(pattern))),
{
    if pattern_matches(seq![pattern][0], path) {
        assert(ignored_by(seq![pattern], path));
    }
    if ignored_by(seq![pattern], path) {
        let i = choose|i: int| 0 <= i < 1 && #[trigger] pattern_matches(seq![pattern][i], path);
        assert(i == 0);
    }
}

/// An empty list ignores nothing.
pub proof fn lemma_no_patterns_ignore_nothing(path: Seq<char>)
    ensures
        !ignored_by(Seq::empty(), path),
{
}

/// A pattern that compiles as a glob ignores exactly the paths that it
/// matches as a whole, or whose file name (empty when there is none) it
/// matches: every glob is also tried on the file name, whatever its shape.
pub proof fn lemma_glob_pattern_semantics(pattern: Seq<char>, path: Seq<char>)
    requires
        glob_pattern_valid(pattern),
    ensures
        ignored_by(seq![pattern], path) <==> (glob_match(pattern, path) || glob_match(
            pattern,
            file_name_or_empty(path),
        )),
{
    if glob_match(pattern, path) || glob_match(pattern, file_name_or_empty(path)) {
        assert(pattern_matches(seq![pattern][0], path));
    }
    if ignored_by(seq![pattern], path) {
        let i = choose|i: int| 0 <= i < 1 && #[trigger] pattern_matches(seq![pattern][i], path);
        assert(i == 0);
    }
}

/// A list ignores a path exactly when one of its patterns, taken alone,
/// does.
pub proof fn lemma_ignored_by_some_pattern(patterns: Seq<Seq<char>>, path: Seq<char>)
    ensures
        ignored_by(patterns, path) <==> exists|i: int|
            0 <= i < patterns.len() && ignored_by(seq![#[trigger] patterns[i]], path),
{
    if ignored_by(patterns, path) {
        let i = choose|i: int| 0 <= i < patterns.len() && #[trigger] pattern_matches(patterns[i], path);
        assert(pattern_matches(seq![patterns[i]][0], path));
    }
    if exists|i: int| 0 <= i < patterns.len() && ignored_by(seq![#[trigger] patterns[i]], path) {
        let i = choose|i: int| 0 <= i < patterns.len() && ignored_by(seq![#[trigger] patterns[i]], path);
        let k = choose|k: int| 0 <= k < 1 && #[trigger] pattern_matches(seq![patterns[i]][k], path);
        assert(k == 0);
        assert(pattern_matches(patterns[i], path));
    }
}

} // verus!
