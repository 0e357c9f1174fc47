//! Character-level text handling shared by the ignore-file parsers:
//! Unicode whitespace, line splitting, trimming, prefixes and ASCII
//! case-insensitive comparison, all over `Seq<char>` models.
use vstd::prelude::*;

verus! {

/// The Unicode `White_Space` property, which `char::is_whitespace` reports.
pub open spec fn is_white_space(c: char) -> bool {
    let u = c as u32;
    ||| 0x9 <= u <= 0xD
    ||| u == 0x20
    ||| u == 0x85
    ||| u == 0xA0
    ||| u == 0x1680
    ||| 0x2000 <= u <= 0x200A
    ||| u == 0x2028
    ||| u == 0x2029
    ||| u == 0x202F
    ||| u == 0x205F
    ||| u == 0x3000
}

/// Whether `c` has the Unicode `White_Space` property.
pub fn is_whitespace(c: char) -> (r: bool)
    ensures
        r == is_white_space(c),
{
    let u = c as u32;
    (0x9 <= u && u <= 0xD) || u == 0x20 || u == 0x85 || u == 0xA0 || u == 0x1680 || (0x2000 <= u
        && u <= 0x200A) || u == 0x2028 || u == 0x2029 || u == 0x202F || u == 0x205F || u == 0x3000
}

/// `s` with its leading whitespace removed.
pub open spec fn trim_start(s: Seq<char>) -> Seq<char>
    decreases s.len(),
{
    if s.len() > 0 && is_white_space(s[0]) {
        trim_start(s.drop_first())
    } else {
        s
    }
}

/// `s` with its trailing whitespace removed.
pub open spec fn trim_end(s: Seq<char>) -> Seq<char>
    decreases s.len(),
{
    if s.len() > 0 && is_white_space(s.last()) {
        trim_end(s.drop_last())
    } else {
        s
    }
}

/// `s` with leading and trailing whitespace removed, as `str::trim` does.
pub open spec fn trim(s: Seq<char>) -> Seq<char> {
    trim_end(trim_start(s))
}

/// The pieces of `s` between the `'\n'` separators, in order; there is always
/// at least one piece. A trailing `'\r'` stays in its piece.
pub open spec fn split_lines(s: Seq<char>) -> Seq<Seq<char>>
    decreases s.len(),
{
    if s.len() == 0 {
        seq![Seq::<char>::empty()]
    } else {
        let prev = split_lines(s.drop_last());
        if s.last() == '\n' {
            prev.push(Seq::<char>::empty())
        } else {
            prev.update(prev.len() - 1, prev.last().push(s.last()))
        }
    }
}

/// A trimmed line that carries an entry: it is not blank and is not a `#`
/// comment.
pub open spec fn is_entry_line(line: Seq<char>) -> bool {
    line.len() > 0 && line[0] != '#'
}

/// The view of an optional character vector.
pub open spec fn opt_chars_view(o: Option<Vec<char>>) -> Option<Seq<char>> {
    match o {
        Some(v) => Some(v@),
        None => None,
    }
}

/// `p` is a prefix of `s`.
pub open spec fn has_prefix(s: Seq<char>, p: Seq<char>) -> bool {
    p.len() <= s.len() && s.subrange(0, p.len() as int) == p
}

/// The code of `c` after ASCII lower-casing (`'A'..='Z'` map to `'a'..='z'`).
pub open spec fn ascii_lower_code(c: char) -> u32 {
    let u = c as u32;
    if 65 <= u <= 90 {
        (u + 32) as u32
    } else {
        u
    }
}

/// `a` and `b` are equal up to ASCII case, as `str::eq_ignore_ascii_case` checks.
pub open spec fn eq_ignore_ascii_case(a: Seq<char>, b: Seq<char>) -> bool {
    a.len() == b.len() && forall|i: int|
        0 <= i < a.len() ==> #[trigger] ascii_lower_code(a[i]) == ascii_lower_code(b[i])
}

/// Trimming leaves no whitespace at either end of a non-empty result.
pub proof fn lemma_trim_ends(s: Seq<char>)
    ensures
        trim(s).len() > 0 ==> !is_white_space(trim(s)[0]) && !is_white_space(trim(s).last()),
{
    lemma_trim_start_first(s);
    lemma_trim_end_prefix(trim_start(s));
}

proof fn lemma_trim_start_first(s: Seq<char>)
    ensures
        trim_start(s).len() > 0 ==> !is_white_space(trim_start(s)[0]),
    decreases s.len(),
{
    if s.len() > 0 && is_white_space(s[0]) {
        lemma_trim_start_first(s.drop_first());
    }
}

proof fn lemma_trim_end_prefix(t: Seq<char>)
    ensures
        trim_end(t).is_prefix_of(t),
        trim_end(t).len() > 0 ==> !is_white_space(trim_end(t).last()),
    decreases t.len(),
{
    if t.len() > 0 && is_white_space(t.last()) {
        lemma_trim_end_prefix(t.drop_last());
        let r = trim_end(t.drop_last());
        assert(r =~= t.subrange(0, r.len() as int));
    } else {
        assert(t =~= t.subrange(0, t.len() as int));
    }
}

/// `l` without the `'\r'` that ends it, if any.
pub open spec fn strip_cr(l: Seq<char>) -> Seq<char> {
    if l.len() > 0 && l.last() == '\r' {
        l.drop_last()
    } else {
        l
    }
}

/// The lines that `str::lines` yields for `s`: the pieces between `'\n'`
/// separators, without the empty piece after a final `'\n'` (so none for
/// empty text), each piece that a `'\n'` ends losing the `'\r'` of a `"\r\n"`
/// ending; a `'\r'` that no `'\n'` follows stays.
pub open spec fn std_lines(s: Seq<char>) -> Seq<Seq<char>> {
    let pieces = split_lines(s);
    let n = if pieces.last().len() == 0 {
        pieces.len() - 1
    } else {
        pieces.len() as int
    };
    Seq::new(
        n as nat,
        |i: int|
            if i < pieces.len() - 1 {
                strip_cr(pieces[i])
            } else {
                pieces[i]
            },
    )
}

/// There is always at least one piece.
pub proof fn lemma_split_lines_len(s: Seq<char>)
    ensures
        split_lines(s).len() >= 1,
    decreases s.len(),
{
    if s.len() > 0 {
        lemma_split_lines_len(s.drop_last());
    }
}

/// A text without `'\n'` is a single piece.
pub proof fn lemma_split_single_line(s: Seq<char>)
    requires
        forall|i: int| 0 <= i < s.len() ==> s[i] != '\n',
    ensures
        split_lines(s) == seq![s],
    decreases s.len(),
{
    if s.len() == 0 {
        assert(s =~= Seq::<char>::empty());
    } else {
        lemma_split_single_line(s.drop_last());
        assert(s.last() == s[s.len() - 1]);
        assert(s.drop_last().push(s.last()) =~= s);
        assert(seq![s.drop_last()].update(0, s) =~= seq![s]);
    }
}

/// Joining two texts with a `'\n'` joins their pieces.
pub proof fn lemma_split_lines_join(a: Seq<char>, b: Seq<char>)
    ensures
        split_lines(a.push('\n') + b) == split_lines(a) + split_lines(b),
    decreases b.len(),
{
    if b.len() == 0 {
        assert(a.push('\n') + b =~= a.push('\n'));
        assert(a.push('\n').drop_last() =~= a);
        assert(split_lines(a) + split_lines(b) =~= split_lines(a).push(Seq::<char>::empty()));
    } else {
        let init = b.drop_last();
        lemma_split_lines_join(a, init);
        lemma_split_lines_len(init);
        assert((a.push('\n') + b).drop_last() =~= a.push('\n') + init);
        assert((a.push('\n') + b).last() == b.last());
        let left = split_lines(a);
        let right = split_lines(init);
        if b.last() == '\n' {
            assert((left + right).push(Seq::<char>::empty()) =~= left + right.push(
                Seq::<char>::empty(),
            ));
        } else {
            assert((left + right).update(
                (left + right).len() - 1,
                (left + right).last().push(b.last()),
            ) =~= left + right.update(right.len() - 1, right.last().push(b.last())));
        }
    }
}

/// The lines of `str::lines` trim like the pieces of `split_lines` at the same
/// positions, and the pieces past them (at most one) are empty.
pub proof fn lemma_std_lines_trims(s: Seq<char>)
    ensures
        std_lines(s).len() <= split_lines(s).len(),
        forall|i: int|
            0 <= i < std_lines(s).len() ==> trim(#[trigger] std_lines(s)[i]) == trim(
                split_lines(s)[i],
            ),
        forall|i: int|
            std_lines(s).len() <= i < split_lines(s).len() ==> (#[trigger] split_lines(s)[i]).len()
                == 0,
{
    lemma_split_lines_len(s);
    let p = split_lines(s);
    let q = std_lines(s);
    assert forall|i: int| 0 <= i < q.len() implies trim(#[trigger] q[i]) == trim(p[i]) by {
        if i < p.len() - 1 && p[i].len() > 0 && p[i].last() == '\r' {
            assert(p[i] =~= p[i].drop_last().push('\r'));
            lemma_trim_drop_white_last(p[i].drop_last(), '\r');
        }
    }
}

/// Trimming ignores a whitespace character at the end of a line.
pub proof fn lemma_trim_drop_white_last(m: Seq<char>, c: char)
    requires
        is_white_space(c),
    ensures
        trim(m.push(c)) == trim(m),
{
    lemma_trim_start_push(m, c);
    if trim_start(m).len() > 0 {
        assert(trim_start(m).push(c).drop_last() =~= trim_start(m));
    }
}

proof fn lemma_trim_start_push(m: Seq<char>, c: char)
    ensures
        trim_start(m.push(c)) == if trim_start(m).len() == 0 {
            if is_white_space(c) {
                Seq::<char>::empty()
            } else {
                seq![c]
            }
        } else {
            trim_start(m).push(c)
        },
    decreases m.len(),
{
    let e = Seq::<char>::empty();
    assert(trim_start(e) == e);
    if m.len() == 0 {
        assert(m.push(c) =~= seq![c]);
        assert(seq![c].drop_first() =~= e);
        assert(seq![c][0] == c);
        assert(trim_start(m) == e);
    } else {
        assert(m.push(c)[0] == m[0]);
        if is_white_space(m[0]) {
            assert(m.push(c).drop_first() =~= m.drop_first().push(c));
            lemma_trim_start_push(m.drop_first(), c);
            assert(trim_start(m) == trim_start(m.drop_first()));
            assert(trim_start(m.push(c)) == trim_start(m.drop_first().push(c)));
        } else {
            assert(trim_start(m) == m);
            assert(trim_start(m.push(c)) == m.push(c));
        }
    }
}

/// Trimming twice gives the same as trimming once.
pub proof fn lemma_trim_idempotent(s: Seq<char>)
    ensures
        trim(trim(s)) == trim(s),
{
    lemma_trim_ends(s);
    let t = trim(s);
    if t.len() > 0 {
        assert(trim_start(t) == t);
        assert(trim_end(t) == t);
    }
}

/// The views of a sequence of strings.
pub open spec fn string_views(v: Seq<String>) -> Seq<Seq<char>> {
    v.map_values(|s: String| s@)
}

/// The views of a sequence of character vectors.
pub open spec fn char_vec_views(v: Seq<Vec<char>>) -> Seq<Seq<char>> {
    v.map_values(|s: Vec<char>| s@)
}

/// Appends `c` to `s` (`String::push`).
#[verifier::external_body]
fn string_push(s: &mut String, c: char)
    ensures
        final(s)@ == old(s)@.push(c),
{
    s.push(c);
}

/// The characters of `s`, in order.
pub fn str_chars(s: &str) -> (r: Vec<char>)
    ensures
        r@ == s@,
{
    let mut r: Vec<char> = Vec::new();
    for c in it: s.chars()
        invariant
            r@ == it.seq().take(it.index() as int),
            it.seq() == s@,
    {
        r.push(c);
    }
    r
}

/// The string made of the characters of `v`.
pub fn chars_to_string(v: &Vec<char>) -> (r: String)
    ensures
        r@ == v@,
{
    let mut r = String::new();
    for i in 0..v.len()
        invariant
            r@ == v@.take(i as int),
    {
        string_push(&mut r, v[i]);
        assert(v@.take(i + 1) == v@.take(i as int).push(v@[i as int]));
    }
    assert(v@.take(v@.len() as int) == v@);
    r
}

/// Strings made of the character vectors of `v`, in order.
pub fn chars_to_strings(v: &Vec<Vec<char>>) -> (r: Vec<String>)
    ensures
        string_views(r@) == char_vec_views(v@),
{
    let mut r: Vec<String> = Vec::new();
    for i in 0..v.len()
        invariant
            string_views(r@) == char_vec_views(v@).take(i as int),
    {
        let ghost prev = r@;
        let s = chars_to_string(&v[i]);
        r.push(s);
        assert(string_views(r@) =~= string_views(prev).push(v@[i as int]@));
        assert(char_vec_views(v@).take(i + 1) =~= char_vec_views(v@).take(i as int).push(
            v@[i as int]@,
        ));
    }
    assert(char_vec_views(v@).take(v@.len() as int) == char_vec_views(v@));
    r
}

/// The pieces of `s` between `'\n'` separators (see `split_lines`).
pub fn split_lines_exec(s: &str) -> (r: Vec<Vec<char>>)
    ensures
        char_vec_views(r@) == split_lines(s@),
{
    let mut lines: Vec<Vec<char>> = Vec::new();
    let mut cur: Vec<char> = Vec::new();
    for c in it: s.chars()
        invariant
            it.seq() == s@,
            char_vec_views(lines@).push(cur@) == split_lines(s@.take(it.index() as int)),
    {
        let ghost k = it.index() as int;
        let ghost before = s@.take(k);
        proof {
            assert(s@.take(k + 1).drop_last() == before);
            assert(s@.take(k + 1).last() == c);
        }
        let ghost prev_lines = char_vec_views(lines@);
        let ghost prev_cur = cur@;
        if c == '\n' {
            let done = cur;
            lines.push(done);
            cur = Vec::new();
            assert(char_vec_views(lines@) == prev_lines.push(prev_cur));
        } else {
            cur.push(c);
            assert(char_vec_views(lines@) == prev_lines);
        }
        assert(char_vec_views(lines@).push(cur@) == split_lines(s@.take(k + 1)));
    }
    assert(s@.take(s@.len() as int) == s@);
    lines.push(cur);
    lines
}

/// `line` with leading and trailing whitespace removed (see `trim`).
pub fn trim_chars(line: &Vec<char>) -> (r: Vec<char>)
    ensures
        r@ == trim(line@),
{
    let len = line.len();
    let mut start: usize = 0;
    assert(line@.subrange(0, len as int) =~= line@);
    while start < len && is_whitespace(line[start])
        invariant
            start <= len,
            len == line@.len(),
            trim_start(line@) == trim_start(line@.subrange(start as int, len as int)),
        decreases len - start,
    {
        assert(line@.subrange(start as int, len as int).drop_first() =~= line@.subrange(
            start + 1,
            len as int,
        ));
        start += 1;
    }
    assert(trim_start(line@) == line@.subrange(start as int, len as int));
    let mut end: usize = len;
    while end > start && is_whitespace(line[end - 1])
        invariant
            start <= end <= len,
            len == line@.len(),
            trim_start(line@) == line@.subrange(start as int, len as int),
            trim(line@) == trim_end(line@.subrange(start as int, end as int)),
        decreases end - start,
    {
        assert(line@.subrange(start as int, end as int).drop_last() =~= line@.subrange(
            start as int,
            end - 1,
        ));
        end -= 1;
    }
    assert(trim(line@) == line@.subrange(start as int, end as int));
    let mut r: Vec<char> = Vec::new();
    let mut i: usize = start;
    while i < end
        invariant
            start <= i <= end <= len,
            len == line@.len(),
            r@ == line@.subrange(start as int, i as int),
        decreases end - i,
    {
        r.push(line[i]);
        assert(line@.subrange(start as int, i + 1) =~= line@.subrange(start as int, i as int).push(
            line@[i as int],
        ));
        i += 1;
    }
    r
}

/// Whether `a` and `b` hold the same characters.
pub fn chars_eq(a: &Vec<char>, b: &Vec<char>) -> (r: bool)
    ensures
        r == (a@ == b@),
{
    if a.len() != b.len() {
        return false;
    }
    let mut i: usize = 0;
    while i < a.len()
        invariant
            i <= a@.len(),
            a@.len() == b@.len(),
            forall|j: int| 0 <= j < i ==> a@[j] == b@[j],
        decreases a@.len() - i,
    {
        if a[i] != b[i] {
            return false;
        }
        i += 1;
    }
    assert(a@ =~= b@);
    true
}

/// Whether `p` is a prefix of `s`.
pub fn chars_has_prefix(s: &Vec<char>, p: &Vec<char>) -> (r: bool)
    ensures
        r == has_prefix(s@, p@),
{
    if p.len() > s.len() {
        return false;
    }
    let mut i: usize = 0;
    while i < p.len()
        invariant
            i <= p@.len() <= s@.len(),
            forall|j: int| 0 <= j < i ==> s@[j] == p@[j],
        decreases p@.len() - i,
    {
        if s[i] != p[i] {
            assert(s@.subrange(0, p@.len() as int)[i as int] != p@[i as int]);
            return false;
        }
        i += 1;
    }
    assert(s@.subrange(0, p@.len() as int) =~= p@);
    true
}

/// The code of `c` after ASCII lower-casing.
fn ascii_lower(c: char) -> (r: u32)
    ensures
        r == ascii_lower_code(c),
{
    let u = c as u32;
    if 65 <= u && u <= 90 {
        u + 32
    } else {
        u
    }
}

/// Whether `a` and `b` are equal up to ASCII case.
pub fn chars_eq_ignore_ascii_case(a: &Vec<char>, b: &Vec<char>) -> (r: bool)
    ensures
        r == eq_ignore_ascii_case(a@, b@),
{
    if a.len() != b.len() {
        return false;
    }
    let mut i: usize = 0;
    while i < a.len()
        invariant
            i <= a@.len(),
            a@.len() == b@.len(),
            forall|j: int| 0 <= j < i ==> #[trigger] ascii_lower_code(a@[j]) == ascii_lower_code(b@[j]),
        decreases a@.len() - i,
    {
        if ascii_lower(a[i]) != ascii_lower(b[i]) {
            return false;
        }
        i += 1;
    }
    true
}

/// The characters of `s` from position `n` on.
pub fn chars_skip(s: &Vec<char>, n: usize) -> (r: Vec<char>)
    requires
        n <= s@.len(),
    ensures
        r@ == s@.skip(n as int),
{
    let mut r: Vec<char> = Vec::new();
    let mut i: usize = n;
    while i < s.len()
        invariant
            n <= i <= s@.len(),
            r@ == s@.subrange(n as int, i as int),
        decreases s@.len() - i,
    {
        r.push(s[i]);
        assert(s@.subrange(n as int, i + 1) =~= s@.subrange(n as int, i as int).push(s@[i as int]));
        i += 1;
    }
    r
}

} // verus!
