//! Searching text: runs of a character class, prefixes, suffixes, substrings.

use vstd::prelude::*;
use vstd::slice::slice_subrange;
use crate::text::chars::chars_of;
use crate::text::class::Class;

verus! {

/// The length of the longest prefix of `s` whose characters are all inside
/// (or all outside) the class.
pub open spec fn span(s: Seq<char>, k: Class, inside: bool) -> int
    decreases s.len(),
{
    if s.len() == 0 || k.has(s[0]) != inside {
        0
    } else {
        1 + span(s.drop_first(), k, inside)
    }
}

/// The length of the longest suffix of `s` whose characters are all inside
/// (or all outside) the class.
pub open spec fn tail_span(s: Seq<char>, k: Class, inside: bool) -> int
    decreases s.len(),
{
    if s.len() == 0 || k.has(s.last()) != inside {
        0
    } else {
        1 + tail_span(s.drop_last(), k, inside)
    }
}

/// Every character of `s` is in the class.
pub open spec fn all_in(s: Seq<char>, k: Class) -> bool {
    forall|i: int| 0 <= i < s.len() ==> k.has(#[trigger] s[i])
}

/// Some character of `s` is in the class.
pub open spec fn any_in(s: Seq<char>, k: Class) -> bool {
    exists|i: int| 0 <= i < s.len() && k.has(#[trigger] s[i])
}

/// How many characters of `s` are in the class.
pub open spec fn count_in(s: Seq<char>, k: Class) -> nat
    decreases s.len(),
{
    if s.len() == 0 {
        0
    } else {
        count_in(s.drop_last(), k) + if k.has(s.last()) { 1nat } else { 0nat }
    }
}

/// `s` without its leading characters of the class.
pub open spec fn trim_start(s: Seq<char>, k: Class) -> Seq<char> {
    s.skip(span(s, k, true))
}

/// `s` without its trailing characters of the class.
pub open spec fn trim_end(s: Seq<char>, k: Class) -> Seq<char> {
    s.take(s.len() - tail_span(s, k, true))
}

/// `s` without its leading and trailing characters of the class.
pub open spec fn trim(s: Seq<char>, k: Class) -> Seq<char> {
    trim_end(trim_start(s, k), k)
}

/// `n` stands in `s` at position `i`.
pub open spec fn occurs_at(s: Seq<char>, n: Seq<char>, i: int) -> bool {
    &&& 0 <= i
    &&& i + n.len() <= s.len()
    &&& s.subrange(i, i + n.len()) == n
}

/// `n` stands somewhere in `s`.
pub open spec fn contains(s: Seq<char>, n: Seq<char>) -> bool {
    exists|i: int| occurs_at(s, n, i)
}

/// The first position at or after `from` at which `n` stands in `s`.
pub open spec fn find_from(s: Seq<char>, n: Seq<char>, from: int) -> Option<int>
    decreases s.len() - from + 1,
{
    if from < 0 || from + n.len() > s.len() {
        None
    } else if occurs_at(s, n, from) {
        Some(from)
    } else {
        find_from(s, n, from + 1)
    }
}

/// The first position at which `n` stands in `s`.
pub open spec fn find(s: Seq<char>, n: Seq<char>) -> Option<int> {
    find_from(s, n, 0)
}

pub open spec fn starts_with(s: Seq<char>, n: Seq<char>) -> bool {
    n.len() <= s.len() && s.take(n.len() as int) == n
}

pub open spec fn ends_with(s: Seq<char>, n: Seq<char>) -> bool {
    n.len() <= s.len() && s.skip(s.len() - n.len()) == n
}

/// What follows the prefix `n`, where `s` begins with it.
pub open spec fn after_prefix(s: Seq<char>, n: Seq<char>) -> Option<Seq<char>> {
    if starts_with(s, n) {
        Some(s.skip(n.len() as int))
    } else {
        None
    }
}

/// What [`span`] counts.
pub proof fn lemma_span(s: Seq<char>, k: Class, inside: bool)
    ensures
        0 <= span(s, k, inside) <= s.len(),
        forall|i: int| 0 <= i < span(s, k, inside) ==> k.has(#[trigger] s[i]) == inside,
        span(s, k, inside) < s.len() ==> k.has(s[span(s, k, inside)]) != inside,
    decreases s.len(),
{
    if s.len() > 0 && k.has(s[0]) == inside {
        let t = s.drop_first();
        lemma_span(t, k, inside);
        let n = span(t, k, inside);
        assert forall|i: int| 0 <= i < n + 1 implies k.has(#[trigger] s[i]) == inside by {
            if i > 0 {
                assert(s[i] == t[i - 1]);
            }
        }
        if n < t.len() {
            assert(s[n + 1] == t[n]);
        }
    }
}

/// A prefix that stops at the first change of membership has the length [`span`] gives.
pub proof fn lemma_span_is(s: Seq<char>, k: Class, inside: bool, n: int)
    requires
        0 <= n <= s.len(),
        forall|i: int| 0 <= i < n ==> k.has(#[trigger] s[i]) == inside,
        n < s.len() ==> k.has(s[n]) != inside,
    ensures
        span(s, k, inside) == n,
{
    lemma_span(s, k, inside);
    let m = span(s, k, inside);
    if m < n {
        assert(k.has(s[m]) == inside);
    } else if n < m {
        assert(k.has(s[n]) == inside);
    }
}

/// What [`tail_span`] counts.
pub proof fn lemma_tail_span(s: Seq<char>, k: Class, inside: bool)
    ensures
        0 <= tail_span(s, k, inside) <= s.len(),
        forall|i: int| s.len() - tail_span(s, k, inside) <= i < s.len() ==> k.has(#[trigger] s[i]) == inside,
        tail_span(s, k, inside) < s.len() ==> k.has(s[s.len() - tail_span(s, k, inside) - 1]) != inside,
    decreases s.len(),
{
    if s.len() > 0 && k.has(s.last()) == inside {
        let t = s.drop_last();
        lemma_tail_span(t, k, inside);
        let n = tail_span(t, k, inside);
        assert forall|i: int| s.len() - (n + 1) <= i < s.len() implies k.has(#[trigger] s[i]) == inside by {
            if i < s.len() - 1 {
                assert(s[i] == t[i]);
            }
        }
        if n < t.len() {
            assert(s[s.len() - (n + 1) - 1] == t[t.len() - n - 1]);
        }
    }
}

/// A suffix that starts at the last change of membership has the length [`tail_span`] gives.
pub proof fn lemma_tail_span_is(s: Seq<char>, k: Class, inside: bool, n: int)
    requires
        0 <= n <= s.len(),
        forall|i: int| s.len() - n <= i < s.len() ==> k.has(#[trigger] s[i]) == inside,
        n < s.len() ==> k.has(s[s.len() - n - 1]) != inside,
    ensures
        tail_span(s, k, inside) == n,
{
    lemma_tail_span(s, k, inside);
    let m = tail_span(s, k, inside);
    if m < n {
        assert(k.has(s[s.len() - m - 1]) == inside);
    } else if n < m {
        assert(k.has(s[s.len() - n - 1]) == inside);
    }
}

/// [`find_from`] gives the first occurrence, and none only where there is none.
pub proof fn lemma_find_from(s: Seq<char>, n: Seq<char>, from: int)
    requires
        0 <= from,
    ensures
        match find_from(s, n, from) {
            Some(i) => from <= i && occurs_at(s, n, i) && forall|j: int| from <= j < i ==> !occurs_at(s, n, j),
            None => forall|j: int| from <= j ==> !occurs_at(s, n, j),
        },
    decreases s.len() - from + 1,
{
    if from + n.len() <= s.len() && !occurs_at(s, n, from) {
        lemma_find_from(s, n, from + 1);
    }
}

/// [`find_from`] is settled by its first occurrence.
pub proof fn lemma_find_from_is(s: Seq<char>, n: Seq<char>, from: int, i: int)
    requires
        0 <= from <= i,
        occurs_at(s, n, i),
        forall|j: int| from <= j < i ==> !occurs_at(s, n, j),
    ensures
        find_from(s, n, from) == Some(i),
{
    lemma_find_from(s, n, from);
}

/// A text contains a needle where searching for it succeeds.
pub proof fn lemma_contains(s: Seq<char>, n: Seq<char>)
    ensures
        contains(s, n) == (find(s, n) is Some),
{
    lemma_find_from(s, n, 0);
}

/// Text that neither begins nor ends with the class is trimmed to itself.
pub proof fn lemma_trim_plain(s: Seq<char>, k: Class)
    requires
        s.len() == 0 || (!k.has(s[0]) && !k.has(s.last())),
    ensures
        trim_start(s, k) == s,
        trim_end(s, k) == s,
        trim(s, k) == s,
{
    assert(s.skip(0) =~= s);
    assert(s.take(s.len() as int) =~= s);
}

/// Trimmed text neither begins nor ends with the class, and keeps no other
/// characters than it had.
pub proof fn lemma_trim_edges(s: Seq<char>, k: Class, inner: Class)
    requires
        all_in(s, inner),
    ensures
        all_in(trim(s, k), inner),
        trim(s, k).len() <= s.len(),
        trim(s, k).len() > 0 ==> !k.has(trim(s, k)[0]) && !k.has(trim(s, k).last()),
{
    let a = trim_start(s, k);
    lemma_span(s, k, true);
    lemma_tail_span(a, k, true);
    let t = trim_end(a, k);
    assert forall|i: int| 0 <= i < t.len() implies inner.has(#[trigger] t[i]) by {
        assert(t[i] == s[i + span(s, k, true)]);
        assert(inner.has(s[i + span(s, k, true)]));
    }
    if t.len() > 0 {
        assert(t[0] == a[0]);
        assert(a[0] == s[span(s, k, true)]);
        assert(t.last() == a[a.len() - tail_span(a, k, true) - 1]);
    }
}

/// The executable form of [`span`].
pub fn span_of(cs: &[char], k: Class, inside: bool) -> (r: usize)
    ensures
        r as int == span(cs@, k, inside),
        r <= cs@.len(),
        forall|i: int| 0 <= i < r ==> k.has(#[trigger] cs@[i]) == inside,
        r < cs@.len() ==> k.has(cs@[r as int]) != inside,
{
    let mut i: usize = 0;
    while i < cs.len() && k.holds(cs[i]) == inside
        invariant
            i <= cs@.len(),
            forall|j: int| 0 <= j < i ==> k.has(#[trigger] cs@[j]) == inside,
        decreases cs@.len() - i,
    {
        i += 1;
    }
    proof {
        lemma_span_is(cs@, k, inside, i as int);
    }
    i
}

/// The executable form of [`tail_span`].
pub fn tail_span_of(cs: &[char], k: Class, inside: bool) -> (r: usize)
    ensures
        r as int == tail_span(cs@, k, inside),
        r <= cs@.len(),
{
    let mut i: usize = cs.len();
    while i > 0 && k.holds(cs[i - 1]) == inside
        invariant
            i <= cs@.len(),
            forall|j: int| i <= j < cs@.len() ==> k.has(#[trigger] cs@[j]) == inside,
        decreases i,
    {
        i -= 1;
    }
    proof {
        lemma_tail_span_is(cs@, k, inside, cs@.len() - i);
    }
    cs.len() - i
}

/// Whether every character is in the class.
pub fn all_of(cs: &[char], k: Class) -> (r: bool)
    ensures
        r == all_in(cs@, k),
{
    let n: usize = span_of(cs, k, true);
    n == cs.len()
}

/// Whether some character is in the class.
pub fn any_of(cs: &[char], k: Class) -> (r: bool)
    ensures
        r == any_in(cs@, k),
{
    let n: usize = span_of(cs, k, false);
    n < cs.len()
}

/// How many characters are in the class.
pub fn count_of(cs: &[char], k: Class) -> (r: usize)
    ensures
        r as nat == count_in(cs@, k),
        r <= cs@.len(),
{
    let mut n: usize = 0;
    let mut i: usize = 0;
    while i < cs.len()
        invariant
            n <= i <= cs@.len(),
            n as nat == count_in(cs@.take(i as int), k),
        decreases cs@.len() - i,
    {
        assert(cs@.take(i as int + 1).drop_last() =~= cs@.take(i as int));
        if k.holds(cs[i]) {
            n += 1;
        }
        i += 1;
    }
    assert(cs@.take(i as int) =~= cs@);
    n
}

/// The part of `cs` before position `n`.
pub fn take(cs: &[char], n: usize) -> (r: &[char])
    requires
        n <= cs@.len(),
    ensures
        r@ == cs@.take(n as int),
{
    slice_subrange(cs, 0, n)
}

/// The part of `cs` from position `n` on.
pub fn skip(cs: &[char], n: usize) -> (r: &[char])
    requires
        n <= cs@.len(),
    ensures
        r@ == cs@.skip(n as int),
{
    slice_subrange(cs, n, cs.len())
}

/// The executable form of [`trim_start`].
pub fn trim_start_of(cs: &[char], k: Class) -> (r: &[char])
    ensures
        r@ == trim_start(cs@, k),
{
    skip(cs, span_of(cs, k, true))
}

/// The executable form of [`trim_end`].
pub fn trim_end_of(cs: &[char], k: Class) -> (r: &[char])
    ensures
        r@ == trim_end(cs@, k),
{
    take(cs, cs.len() - tail_span_of(cs, k, true))
}

/// The executable form of [`trim`].
pub fn trim_of(cs: &[char], k: Class) -> (r: &[char])
    ensures
        r@ == trim(cs@, k),
{
    trim_end_of(trim_start_of(cs, k), k)
}

/// The executable form of [`occurs_at`].
pub fn occurs(cs: &[char], needle: &[char], at: usize) -> (r: bool)
    ensures
        r == occurs_at(cs@, needle@, at as int),
{
    let total: usize = cs.len();
    if at > total || needle.len() > total - at {
        return false;
    }
    let mut i: usize = 0;
    while i < needle.len()
        invariant
            i <= needle@.len(),
            at + needle@.len() <= total,
            total == cs@.len(),
            forall|j: int| 0 <= j < i ==> cs@[at + j] == needle@[j],
        decreases needle@.len() - i,
    {
        if cs[at + i] != needle[i] {
            assert(cs@.subrange(at as int, at + needle@.len())[i as int] != needle@[i as int]);
            return false;
        }
        i += 1;
    }
    assert(cs@.subrange(at as int, at + needle@.len()) =~= needle@);
    true
}

/// The executable form of [`find`].
pub fn find_in(cs: &[char], needle: &[char]) -> (r: Option<usize>)
    ensures
        match r {
            Some(i) => find(cs@, needle@) == Some(i as int) && i + needle@.len() <= cs@.len(),
            None => find(cs@, needle@) is None,
        },
{
    if needle.len() > cs.len() {
        return None;
    }
    let mut i: usize = 0;
    while i <= cs.len() - needle.len()
        invariant
            i + needle@.len() <= cs@.len() + 1,
            needle@.len() <= cs@.len(),
            forall|j: int| 0 <= j < i ==> !occurs_at(cs@, needle@, j),
        decreases cs@.len() - needle@.len() + 1 - i,
    {
        if occurs(cs, needle, i) {
            proof {
                lemma_find_from_is(cs@, needle@, 0, i as int);
            }
            return Some(i);
        }
        if i == cs.len() - needle.len() {
            proof {
                lemma_find_from(cs@, needle@, 0);
            }
            return None;
        }
        i += 1;
    }
    proof {
        lemma_find_from(cs@, needle@, 0);
    }
    None
}

/// Whether `needle` stands somewhere in `cs`.
pub fn contains_chars(cs: &[char], needle: &[char]) -> (r: bool)
    ensures
        r == contains(cs@, needle@),
{
    proof {
        lemma_contains(cs@, needle@);
    }
    match find_in(cs, needle) {
        Some(_) => true,
        None => false,
    }
}

/// Whether the word stands somewhere in `cs`.
pub fn contains_word(cs: &[char], word: &str) -> (r: bool)
    ensures
        r == contains(cs@, word@),
{
    let w: Vec<char> = chars_of(word);
    contains_chars(cs, w.as_slice())
}

/// Whether `cs` begins with `prefix`.
pub fn starts_with_chars(cs: &[char], prefix: &[char]) -> (r: bool)
    ensures
        r == starts_with(cs@, prefix@),
{
    assert(prefix@.len() <= cs@.len() ==> cs@.subrange(0int, 0int + prefix@.len()) =~= cs@.take(
        prefix@.len() as int,
    ));
    occurs(cs, prefix, 0)
}

/// Whether `cs` begins with the word.
pub fn starts_with_word(cs: &[char], word: &str) -> (r: bool)
    ensures
        r == starts_with(cs@, word@),
{
    let w: Vec<char> = chars_of(word);
    starts_with_chars(cs, w.as_slice())
}

/// Whether `cs` ends with the word.
pub fn ends_with_word(cs: &[char], word: &str) -> (r: bool)
    ensures
        r == ends_with(cs@, word@),
{
    let w: Vec<char> = chars_of(word);
    if w.len() > cs.len() {
        return false;
    }
    let at: usize = cs.len() - w.len();
    assert(cs@.subrange(at as int, at + w@.len()) =~= cs@.skip(at as int));
    occurs(cs, w.as_slice(), at)
}

/// The executable form of [`after_prefix`].
pub fn after_word<'a>(cs: &'a [char], word: &str) -> (r: Option<&'a [char]>)
    ensures
        match r {
            Some(rest) => after_prefix(cs@, word@) == Some(rest@),
            None => after_prefix(cs@, word@) is None,
        },
{
    let w: Vec<char> = chars_of(word);
    if starts_with_chars(cs, w.as_slice()) {
        Some(skip(cs, w.len()))
    } else {
        None
    }
}

} // verus!
