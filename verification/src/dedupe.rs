//! Removing repeated patterns while keeping the first occurrence of each.
use vstd::prelude::*;

use crate::text::string_views;

verus! {

/// `s` without repeats: each element stays at its first occurrence, later
/// copies are dropped, and the order of first occurrences is kept.
pub open spec fn dedupe(s: Seq<Seq<char>>) -> Seq<Seq<char>>
    decreases s.len(),
{
    if s.len() == 0 {
        Seq::empty()
    } else {
        let prev = dedupe(s.drop_last());
        if prev.contains(s.last()) {
            prev
        } else {
            prev.push(s.last())
        }
    }
}

/// Deduplication keeps exactly the elements of its input: nothing is lost and
/// nothing is added.
pub proof fn lemma_dedupe_same_elements(s: Seq<Seq<char>>)
    ensures
        forall|x: Seq<char>| dedupe(s).contains(x) <==> s.contains(x),
    decreases s.len(),
{
    if s.len() > 0 {
        let init = s.drop_last();
        lemma_dedupe_same_elements(init);
        assert forall|x: Seq<char>| dedupe(s).contains(x) <==> s.contains(x) by {
            if s.contains(x) {
                let i = choose|i: int| 0 <= i < s.len() && s[i] == x;
                if i < s.len() - 1 {
                    assert(init[i] == x);
                    assert(init.contains(x));
                    assert(dedupe(init).contains(x));
                    let j = choose|j: int| 0 <= j < dedupe(init).len() && dedupe(init)[j] == x;
                    if !dedupe(init).contains(s.last()) {
                        assert(dedupe(s)[j] == x);
                    }
                } else {
                    if !dedupe(init).contains(s.last()) {
                        assert(dedupe(s)[dedupe(s).len() - 1] == x);
                    }
                }
            }
            if dedupe(s).contains(x) {
                let i = choose|i: int| 0 <= i < dedupe(s).len() && dedupe(s)[i] == x;
                if dedupe(init).contains(s.last()) {
                    assert(init.contains(x));
                    let j = choose|j: int| 0 <= j < init.len() && init[j] == x;
                    assert(s[j] == x);
                } else if i < dedupe(init).len() {
                    assert(dedupe(init)[i] == x);
                    assert(init.contains(x));
                    let j = choose|j: int| 0 <= j < init.len() && init[j] == x;
                    assert(s[j] == x);
                } else {
                    assert(s[s.len() - 1] == x);
                }
            }
        }
    }
}

/// The result of deduplication holds no element twice.
pub proof fn lemma_dedupe_no_duplicates(s: Seq<Seq<char>>)
    ensures
        dedupe(s).no_duplicates(),
    decreases s.len(),
{
    if s.len() > 0 {
        lemma_dedupe_no_duplicates(s.drop_last());
        let prev = dedupe(s.drop_last());
        if !prev.contains(s.last()) {
            let r = prev.push(s.last());
            assert forall|i: int, j: int|
                0 <= i < r.len() && 0 <= j < r.len() && i != j implies r[i] != r[j] by {
                if i == r.len() - 1 {
                    assert(prev[j] == r[j]);
                } else if j == r.len() - 1 {
                    assert(prev[i] == r[i]);
                }
            }
        }
    }
}

/// A sequence that holds no element twice is left unchanged by deduplication.
pub proof fn lemma_dedupe_distinct_unchanged(s: Seq<Seq<char>>)
    requires
        s.no_duplicates(),
    ensures
        dedupe(s) == s,
    decreases s.len(),
{
    if s.len() > 0 {
        let init = s.drop_last();
        assert(init.no_duplicates());
        lemma_dedupe_distinct_unchanged(init);
        if init.contains(s.last()) {
            let i = choose|i: int| 0 <= i < init.len() && init[i] == s.last();
            assert(s[i] == s[s.len() - 1]);
        }
        assert(init.push(s.last()) =~= s);
    }
}

/// Deduplicating twice gives the same result as deduplicating once.
pub proof fn lemma_dedupe_idempotent(s: Seq<Seq<char>>)
    ensures
        dedupe(dedupe(s)) == dedupe(s),
{
    lemma_dedupe_no_duplicates(s);
    lemma_dedupe_distinct_unchanged(dedupe(s));
}

/// Appending elements never reorders what deduplication kept before: the
/// deduplicated `a` is a prefix of the deduplicated `a + b`.
pub proof fn lemma_dedupe_prefix(a: Seq<Seq<char>>, b: Seq<Seq<char>>)
    ensures
        dedupe(a).is_prefix_of(dedupe(a + b)),
    decreases b.len(),
{
    if b.len() == 0 {
        assert(a + b =~= a);
    } else {
        lemma_dedupe_prefix(a, b.drop_last());
        assert((a + b).drop_last() =~= a + b.drop_last());
        let mid = dedupe(a + b.drop_last());
        assert(dedupe(a) =~= mid.subrange(0, dedupe(a).len() as int));
        if !mid.contains((a + b).last()) {
            assert(mid.push((a + b).last()).subrange(0, dedupe(a).len() as int) =~= mid.subrange(
                0,
                dedupe(a).len() as int,
            ));
        }
    }
}

/// Removing repeats from the front part first changes nothing.
pub proof fn lemma_dedupe_front_first(a: Seq<Seq<char>>, b: Seq<Seq<char>>)
    ensures
        dedupe(dedupe(a) + b) == dedupe(a + b),
    decreases b.len(),
{
    if b.len() == 0 {
        assert(dedupe(a) + b =~= dedupe(a));
        assert(a + b =~= a);
        lemma_dedupe_idempotent(a);
    } else {
        lemma_dedupe_front_first(a, b.drop_last());
        assert((dedupe(a) + b).drop_last() =~= dedupe(a) + b.drop_last());
        assert((a + b).drop_last() =~= a + b.drop_last());
        assert((dedupe(a) + b).last() == b.last());
        assert((a + b).last() == b.last());
    }
}

/// Removing repeats from the back part first changes nothing.
pub proof fn lemma_dedupe_back_first(a: Seq<Seq<char>>, b: Seq<Seq<char>>)
    ensures
        dedupe(a + dedupe(b)) == dedupe(a + b),
    decreases b.len(),
{
    if b.len() == 0 {
        assert(a + dedupe(b) =~= a);
        assert(a + b =~= a);
    } else {
        let init = b.drop_last();
        let x = b.last();
        lemma_dedupe_back_first(a, init);
        assert((a + b).drop_last() =~= a + init);
        assert((a + b).last() == x);
        lemma_dedupe_same_elements(init);
        lemma_dedupe_same_elements(a + init);
        if dedupe(init).contains(x) {
            assert(init.contains(x));
            let k = choose|k: int| 0 <= k < init.len() && init[k] == x;
            assert((a + init)[a.len() + k] == x);
            assert((a + init).contains(x));
        } else {
            let d = dedupe(init).push(x);
            assert((a + d).drop_last() =~= a + dedupe(init));
            assert((a + d).last() == x);
        }
    }
}

/// Removing repeats from two lists and then from their concatenation gives
/// the same as removing them from the concatenation alone.
pub proof fn lemma_dedupe_concat(a: Seq<Seq<char>>, b: Seq<Seq<char>>)
    ensures
        dedupe(dedupe(a) + dedupe(b)) == dedupe(a + b),
{
    lemma_dedupe_front_first(a, dedupe(b));
    lemma_dedupe_back_first(a, b);
}

/// Removes repeated patterns, keeping the first occurrence of each in order.
pub fn dedupe_patterns(patterns: Vec<String>) -> (r: Vec<String>)
    ensures
        string_views(r@) == dedupe(string_views(patterns@)),
{
    let mut deduped: Vec<String> = Vec::new();
    let n = patterns.len();
    for i in 0..n
        invariant
            n == patterns@.len(),
            string_views(deduped@) == dedupe(string_views(patterns@).take(i as int)),
    {
        let ghost prefix = string_views(patterns@).take(i as int);
        let ghost next = string_views(patterns@).take(i + 1);
        assert(next.drop_last() =~= prefix);
        assert(next.last() == patterns@[i as int]@);
        let mut seen = false;
        let mut j: usize = 0;
        while j < deduped.len()
            invariant
                j <= deduped@.len(),
                i < n == patterns@.len(),
                string_views(deduped@) == dedupe(prefix),
                seen == exists|k: int| 0 <= k < j && deduped@[k]@ == patterns@[i as int]@,
            decreases deduped@.len() - j,
        {
            if deduped[j] == patterns[i] {
                seen = true;
            }
            j += 1;
        }
        proof {
            let d = string_views(deduped@);
            if seen {
                let k = choose|k: int| 0 <= k < j && deduped@[k]@ == patterns@[i as int]@;
                assert(d[k] == next.last());
            }
            if d.contains(next.last()) {
                let k = choose|k: int| 0 <= k < d.len() && d[k] == next.last();
                assert(deduped@[k]@ == patterns@[i as int]@);
            }
        }
        if !seen {
            let ghost before = deduped@;
            deduped.push(patterns[i].clone());
            assert(string_views(deduped@) =~= string_views(before).push(next.last()));
        }
    }
    assert(string_views(patterns@).take(n as int) =~= string_views(patterns@));
    deduped
}

} // verus!
