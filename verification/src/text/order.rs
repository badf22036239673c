//! Ordered lists: numbers without repetition, and texts by code point.

use vstd::prelude::*;
use crate::text::chars::{chars_of, same, views};

verus! {

/// `a` comes before `b` when the first character in which they differ does, or
/// when `a` is a proper prefix of `b`.
pub open spec fn text_less(a: Seq<char>, b: Seq<char>) -> bool
    decreases a.len(),
{
    if b.len() == 0 {
        false
    } else if a.len() == 0 {
        true
    } else if a[0] != b[0] {
        a[0] < b[0]
    } else {
        text_less(a.drop_first(), b.drop_first())
    }
}

/// The executable form of [`text_less`].
pub fn less(a: &[char], b: &[char]) -> (r: bool)
    ensures
        r == text_less(a@, b@),
{
    let mut i: usize = 0;
    assert(a@.skip(0) =~= a@ && b@.skip(0) =~= b@);
    while i < a.len() && i < b.len()
        invariant
            i <= a@.len(),
            i <= b@.len(),
            text_less(a@, b@) == text_less(a@.skip(i as int), b@.skip(i as int)),
        decreases a@.len() - i,
    {
        if a[i] != b[i] {
            return a[i] < b[i];
        }
        assert(a@.skip(i as int).drop_first() =~= a@.skip(i as int + 1));
        assert(b@.skip(i as int).drop_first() =~= b@.skip(i as int + 1));
        i += 1;
    }
    i < b.len()
}

/// Of two different texts exactly one comes first.
pub proof fn lemma_text_less_total(a: Seq<char>, b: Seq<char>)
    ensures
        a == b ==> !text_less(a, b),
        a != b ==> text_less(a, b) != text_less(b, a),
    decreases a.len(),
{
    if a.len() > 0 && b.len() > 0 {
        lemma_text_less_total(a.drop_first(), b.drop_first());
        if a[0] == b[0] && a.drop_first() == b.drop_first() {
            assert(a =~= seq![a[0]] + a.drop_first());
            assert(b =~= seq![b[0]] + b.drop_first());
        }
    } else if a.len() == 0 && b.len() == 0 {
        assert(a =~= b);
    }
}

/// The order of texts is transitive.
pub proof fn lemma_text_less_transitive(a: Seq<char>, b: Seq<char>, c: Seq<char>)
    requires
        text_less(a, b),
        text_less(b, c),
    ensures
        text_less(a, c),
    decreases a.len(),
{
    if a.len() > 0 && a[0] == b[0] && b[0] == c[0] {
        lemma_text_less_transitive(a.drop_first(), b.drop_first(), c.drop_first());
    }
}

/// `x` put into an ascending list, unless it is there.
pub open spec fn insert_number(xs: Seq<i32>, x: i32) -> Seq<i32>
    decreases xs.len(),
{
    if xs.len() == 0 || xs.last() < x {
        xs.push(x)
    } else if xs.last() == x {
        xs
    } else {
        insert_number(xs.drop_last(), x).push(xs.last())
    }
}

/// The numbers of `xs` in ascending order, each once.
pub open spec fn number_set(xs: Seq<i32>) -> Seq<i32>
    decreases xs.len(),
{
    if xs.len() == 0 {
        seq![]
    } else {
        insert_number(number_set(xs.drop_last()), xs.last())
    }
}

pub open spec fn ascending(xs: Seq<i32>) -> bool {
    forall|i: int, j: int| 0 <= i < j < xs.len() ==> xs[i] < xs[j]
}

proof fn lemma_insert_number(xs: Seq<i32>, x: i32)
    requires
        ascending(xs),
    ensures
        ascending(insert_number(xs, x)),
        forall|y: i32| #[trigger] insert_number(xs, x).contains(y) <==> xs.contains(y) || y == x,
        insert_number(xs, x).len() > 0,
        insert_number(xs, x).last() == if xs.len() > 0 && xs.last() > x { xs.last() } else { x },
    decreases xs.len(),
{
    let r = insert_number(xs, x);
    if xs.len() == 0 || xs.last() < x {
        assert forall|y: i32| #[trigger] r.contains(y) <==> xs.contains(y) || y == x by {
            if xs.contains(y) {
                let i = choose|i: int| 0 <= i < xs.len() && xs[i] == y;
                assert(r[i] == y);
            }
            if y == x {
                assert(r[xs.len() as int] == y);
            }
        }
        assert forall|i: int, j: int| 0 <= i < j < r.len() implies r[i] < r[j] by {
            if j == xs.len() && i < xs.len() - 1 {
                assert(xs[i] < xs[xs.len() - 1]);
            }
        }
    } else if xs.last() == x {
        assert(xs.contains(x)) by {
            assert(xs[xs.len() - 1] == x);
        }
    } else {
        let init = xs.drop_last();
        let sub = insert_number(init, x);
        lemma_insert_number(init, x);
        assert(sub.last() < xs.last());
        assert forall|i: int, j: int| 0 <= i < j < r.len() implies r[i] < r[j] by {
            if j == r.len() - 1 && i < sub.len() - 1 {
                assert(sub[i] < sub[sub.len() - 1]);
            }
        }
        assert forall|y: i32| #[trigger] r.contains(y) <==> xs.contains(y) || y == x by {
            if r.contains(y) {
                let i = choose|i: int| 0 <= i < r.len() && r[i] == y;
                if i < sub.len() {
                    assert(sub[i] == y);
                    assert(sub.contains(y));
                    if init.contains(y) {
                        let j = choose|j: int| 0 <= j < init.len() && init[j] == y;
                        assert(xs[j] == y);
                    }
                } else {
                    assert(xs[xs.len() - 1] == y);
                }
            }
            if xs.contains(y) || y == x {
                if y == xs.last() {
                    assert(r[r.len() - 1] == y);
                } else {
                    if xs.contains(y) {
                        let j = choose|j: int| 0 <= j < xs.len() && xs[j] == y;
                        assert(init[j] == y);
                    }
                    assert(sub.contains(y));
                    let i = choose|i: int| 0 <= i < sub.len() && sub[i] == y;
                    assert(r[i] == y);
                }
            }
        }
    }
}

/// [`number_set`] is strictly ascending and holds the numbers it was made of.
pub proof fn law_number_set(xs: Seq<i32>)
    ensures
        ascending(number_set(xs)),
        forall|y: i32| #[trigger] number_set(xs).contains(y) <==> xs.contains(y),
    decreases xs.len(),
{
    if xs.len() > 0 {
        let init = xs.drop_last();
        law_number_set(init);
        lemma_insert_number(number_set(init), xs.last());
        assert forall|y: i32| #[trigger] number_set(xs).contains(y) <==> xs.contains(y) by {
            if xs.contains(y) {
                let i = choose|i: int| 0 <= i < xs.len() && xs[i] == y;
                if i < init.len() {
                    assert(init[i] == y);
                }
            }
            if init.contains(y) {
                let i = choose|i: int| 0 <= i < init.len() && init[i] == y;
                assert(xs[i] == y);
            }
            assert(xs[xs.len() - 1] == xs.last());
        }
    }
}

/// Where a number is put: behind the last one that is not larger.
proof fn lemma_insert_number_at(xs: Seq<i32>, x: i32, n: int)
    requires
        0 <= n <= xs.len(),
        forall|j: int| n <= j < xs.len() ==> xs[j] > x,
        n > 0 ==> xs[n - 1] <= x,
    ensures
        insert_number(xs, x) == if n > 0 && xs[n - 1] == x {
            xs
        } else {
            xs.insert(n, x)
        },
    decreases xs.len(),
{
    if n == xs.len() {
        assert(xs.insert(n, x) =~= xs.push(x));
    } else {
        let init = xs.drop_last();
        lemma_insert_number_at(init, x, n);
        assert(init.insert(n, x).push(xs.last()) =~= xs.insert(n, x));
        assert(init.push(xs.last()) =~= xs);
    }
}

/// The executable form of [`insert_number`].
fn insert_sorted(xs: &mut Vec<i32>, x: i32)
    ensures
        final(xs)@ == insert_number(old(xs)@, x),
{
    let mut n: usize = xs.len();
    while n > 0 && xs[n - 1] > x
        invariant
            n <= xs@.len(),
            xs@ == old(xs)@,
            forall|j: int| n <= j < xs@.len() ==> xs@[j] > x,
        decreases n,
    {
        n -= 1;
    }
    proof {
        lemma_insert_number_at(xs@, x, n as int);
    }
    if n == 0 || xs[n - 1] != x {
        xs.insert(n, x);
    }
}

/// The executable form of [`number_set`].
pub fn sorted_numbers(xs: &Vec<i32>) -> (r: Vec<i32>)
    ensures
        r@ == number_set(xs@),
{
    let mut r: Vec<i32> = Vec::new();
    let mut i: usize = 0;
    while i < xs.len()
        invariant
            i <= xs@.len(),
            r@ == number_set(xs@.take(i as int)),
        decreases xs@.len() - i,
    {
        assert(xs@.take(i as int + 1).drop_last() =~= xs@.take(i as int));
        insert_sorted(&mut r, xs[i]);
        i += 1;
    }
    assert(xs@.take(i as int) =~= xs@);
    r
}

/// `x` put into a descending list, behind the texts that are not smaller.
pub open spec fn insert_text(xs: Seq<Seq<char>>, x: Seq<char>) -> Seq<Seq<char>>
    decreases xs.len(),
{
    if xs.len() == 0 || !text_less(xs.last(), x) {
        xs.push(x)
    } else {
        insert_text(xs.drop_last(), x).push(xs.last())
    }
}

/// The texts of `xs` in descending order.
pub open spec fn texts_descending(xs: Seq<Seq<char>>) -> Seq<Seq<char>>
    decreases xs.len(),
{
    if xs.len() == 0 {
        seq![]
    } else {
        insert_text(texts_descending(xs.drop_last()), xs.last())
    }
}

pub open spec fn descending(xs: Seq<Seq<char>>) -> bool {
    forall|i: int, j: int| 0 <= i < j < xs.len() ==> !text_less(#[trigger] xs[i], #[trigger] xs[j])
}

proof fn lemma_insert_text(xs: Seq<Seq<char>>, x: Seq<char>)
    requires
        descending(xs),
    ensures
        descending(insert_text(xs, x)),
        insert_text(xs, x).to_multiset() == xs.to_multiset().insert(x),
        forall|i: int| 0 <= i < insert_text(xs, x).len() ==> #[trigger] insert_text(xs, x)[i] == x || xs.contains(
            insert_text(xs, x)[i],
        ),
    decreases xs.len(),
{
    broadcast use vstd::seq_lib::group_to_multiset_ensures;

    let r = insert_text(xs, x);
    if xs.len() == 0 || !text_less(xs.last(), x) {
        assert forall|i: int, j: int| 0 <= i < j < r.len() implies !text_less(#[trigger] r[i], #[trigger] r[j]) by {
            if j == xs.len() {
                if text_less(xs[i], x) {
                    lemma_text_less_total(xs[i], xs.last());
                    if xs[i] != xs.last() {
                        assert(!text_less(xs[i], xs[xs.len() - 1])) by {
                            if i == xs.len() - 1 {
                                lemma_text_less_total(xs[i], xs[i]);
                            }
                        }
                        lemma_text_less_transitive(xs.last(), xs[i], x);
                    }
                }
            }
        }
        assert forall|i: int| 0 <= i < r.len() implies #[trigger] r[i] == x || xs.contains(r[i]) by {
            if i < xs.len() {
                assert(xs[i] == r[i]);
            }
        }
    } else {
        let init = xs.drop_last();
        let sub = insert_text(init, x);
        lemma_insert_text(init, x);
        assert(xs =~= init.push(xs.last()));
        assert forall|i: int, j: int| 0 <= i < j < r.len() implies !text_less(#[trigger] r[i], #[trigger] r[j]) by {
            if j == r.len() - 1 {
                assert(r[i] == sub[i]);
                if sub[i] == x {
                    lemma_text_less_total(xs.last(), x);
                } else {
                    assert(init.contains(sub[i]));
                    let m = choose|m: int| 0 <= m < init.len() && init[m] == sub[i];
                    assert(!text_less(xs[m], xs[xs.len() - 1]));
                }
            } else {
                assert(r[i] == sub[i] && r[j] == sub[j]);
            }
        }
        assert forall|i: int| 0 <= i < r.len() implies #[trigger] r[i] == x || xs.contains(r[i]) by {
            if i < sub.len() {
                assert(r[i] == sub[i]);
                if sub[i] != x {
                    let m = choose|m: int| 0 <= m < init.len() && init[m] == sub[i];
                    assert(xs[m] == sub[i]);
                }
            } else {
                assert(xs[xs.len() - 1] == r[i]);
            }
        }
        assert(r.to_multiset() =~= xs.to_multiset().insert(x));
    }
}

/// [`texts_descending`] holds the texts it was made of, as often, largest first.
pub proof fn law_texts_descending(xs: Seq<Seq<char>>)
    ensures
        descending(texts_descending(xs)),
        texts_descending(xs).to_multiset() == xs.to_multiset(),
    decreases xs.len(),
{
    broadcast use vstd::seq_lib::group_to_multiset_ensures;

    if xs.len() > 0 {
        law_texts_descending(xs.drop_last());
        lemma_insert_text(texts_descending(xs.drop_last()), xs.last());
        assert(xs =~= xs.drop_last().push(xs.last()));
    } else {
        assert(xs =~= seq![]);
    }
}

/// Where a text is put: behind the last one that is not smaller.
proof fn lemma_insert_text_at(xs: Seq<Seq<char>>, x: Seq<char>, n: int)
    requires
        0 <= n <= xs.len(),
        forall|j: int| n <= j < xs.len() ==> text_less(#[trigger] xs[j], x),
        n > 0 ==> !text_less(xs[n - 1], x),
    ensures
        insert_text(xs, x) == xs.insert(n, x),
    decreases xs.len(),
{
    if n == xs.len() {
        assert(xs.insert(n, x) =~= xs.push(x));
    } else {
        let init = xs.drop_last();
        assert(text_less(xs[xs.len() - 1], x));
        assert forall|j: int| n <= j < init.len() implies text_less(#[trigger] init[j], x) by {
            assert(text_less(xs[j], x));
        }
        lemma_insert_text_at(init, x, n);
        assert(init.insert(n, x).push(xs.last()) =~= xs.insert(n, x));
    }
}

/// The executable form of [`insert_text`].
fn insert_string(xs: &mut Vec<String>, x: String)
    ensures
        views(final(xs)@) == insert_text(views(old(xs)@), x@),
{
    let ghost whole = views(xs@);
    let ghost word = x@;
    let cs: Vec<char> = chars_of(x.as_str());
    let mut n: usize = xs.len();
    while n > 0
        invariant_except_break
            n <= xs@.len(),
        invariant
            xs@ == old(xs)@,
            whole == views(xs@),
            cs@ == word,
            forall|j: int| n <= j < xs@.len() ==> text_less(#[trigger] whole[j], word),
        ensures
            n <= xs@.len(),
            n > 0 ==> !text_less(whole[n - 1], word),
        decreases n,
    {
        assert(whole[n - 1] == xs@[n - 1]@);
        let at: Vec<char> = chars_of(xs[n - 1].as_str());
        if !less(at.as_slice(), cs.as_slice()) {
            break;
        }
        n -= 1;
    }
    proof {
        lemma_insert_text_at(whole, word, n as int);
    }
    xs.insert(n, x);
    assert(views(xs@) =~= whole.insert(n as int, word));
}

/// The executable form of [`texts_descending`].
pub fn sorted_descending(xs: &Vec<String>) -> (r: Vec<String>)
    ensures
        views(r@) == texts_descending(views(xs@)),
{
    let mut r: Vec<String> = Vec::new();
    assert(views(r@) =~= seq![]);
    let mut i: usize = 0;
    while i < xs.len()
        invariant
            i <= xs@.len(),
            views(r@) == texts_descending(views(xs@).take(i as int)),
        decreases xs@.len() - i,
    {
        assert(views(xs@).take(i as int + 1).drop_last() =~= views(xs@).take(i as int));
        insert_string(&mut r, xs[i].clone());
        i += 1;
    }
    assert(views(xs@).take(i as int) =~= views(xs@));
    r
}

/// `x` put into an ascending list, unless it is there.
pub open spec fn insert_word(xs: Seq<Seq<char>>, x: Seq<char>) -> Seq<Seq<char>>
    decreases xs.len(),
{
    if xs.len() == 0 || text_less(xs.last(), x) {
        xs.push(x)
    } else if xs.last() == x {
        xs
    } else {
        insert_word(xs.drop_last(), x).push(xs.last())
    }
}

/// The texts of `xs` in ascending order, each once.
pub open spec fn word_set(xs: Seq<Seq<char>>) -> Seq<Seq<char>>
    decreases xs.len(),
{
    if xs.len() == 0 {
        seq![]
    } else {
        insert_word(word_set(xs.drop_last()), xs.last())
    }
}

pub open spec fn ascending_words(xs: Seq<Seq<char>>) -> bool {
    forall|i: int, j: int| 0 <= i < j < xs.len() ==> text_less(#[trigger] xs[i], #[trigger] xs[j])
}

proof fn lemma_insert_word(xs: Seq<Seq<char>>, x: Seq<char>)
    requires
        ascending_words(xs),
    ensures
        ascending_words(insert_word(xs, x)),
        forall|y: Seq<char>| #[trigger] insert_word(xs, x).contains(y) <==> xs.contains(y) || y == x,
    decreases xs.len(),
{
    let r = insert_word(xs, x);
    if xs.len() == 0 || text_less(xs.last(), x) {
        assert forall|y: Seq<char>| #[trigger] r.contains(y) <==> xs.contains(y) || y == x by {
            if xs.contains(y) {
                let i = choose|i: int| 0 <= i < xs.len() && xs[i] == y;
                assert(r[i] == y);
            }
            if y == x {
                assert(r[xs.len() as int] == y);
            }
        }
        assert forall|i: int, j: int| 0 <= i < j < r.len() implies text_less(#[trigger] r[i], #[trigger] r[j]) by {
            if j == xs.len() && i < xs.len() - 1 {
                assert(text_less(xs[i], xs[xs.len() - 1]));
                lemma_text_less_transitive(xs[i], xs.last(), x);
            }
        }
    } else if xs.last() == x {
        assert(xs[xs.len() - 1] == x);
    } else {
        let init = xs.drop_last();
        let sub = insert_word(init, x);
        lemma_insert_word(init, x);
        lemma_text_less_total(x, xs.last());
        assert forall|y: Seq<char>| #[trigger] r.contains(y) <==> xs.contains(y) || y == x by {
            if r.contains(y) {
                let i = choose|i: int| 0 <= i < r.len() && r[i] == y;
                if i < sub.len() {
                    assert(sub[i] == y);
                    assert(sub.contains(y));
                    if init.contains(y) {
                        let j = choose|j: int| 0 <= j < init.len() && init[j] == y;
                        assert(xs[j] == y);
                    }
                } else {
                    assert(xs[xs.len() - 1] == y);
                }
            }
            if xs.contains(y) || y == x {
                if y == xs.last() {
                    assert(r[r.len() - 1] == y);
                } else {
                    if xs.contains(y) {
                        let j = choose|j: int| 0 <= j < xs.len() && xs[j] == y;
                        assert(init[j] == y);
                    }
                    assert(sub.contains(y));
                    let i = choose|i: int| 0 <= i < sub.len() && sub[i] == y;
                    assert(r[i] == y);
                }
            }
        }
        assert forall|i: int, j: int| 0 <= i < j < r.len() implies text_less(#[trigger] r[i], #[trigger] r[j]) by {
            if j == r.len() - 1 {
                assert(sub.contains(sub[i]));
                if sub[i] != x {
                    assert(init.contains(sub[i]));
                    let m = choose|m: int| 0 <= m < init.len() && init[m] == sub[i];
                    assert(text_less(xs[m], xs[xs.len() - 1]));
                }
            } else {
                assert(r[i] == sub[i] && r[j] == sub[j]);
            }
        }
    }
}

/// [`word_set`] is strictly ascending and holds the texts it was made of.
pub proof fn law_word_set(xs: Seq<Seq<char>>)
    ensures
        ascending_words(word_set(xs)),
        forall|y: Seq<char>| #[trigger] word_set(xs).contains(y) <==> xs.contains(y),
    decreases xs.len(),
{
    if xs.len() > 0 {
        let init = xs.drop_last();
        law_word_set(init);
        lemma_insert_word(word_set(init), xs.last());
        assert forall|y: Seq<char>| #[trigger] word_set(xs).contains(y) <==> xs.contains(y) by {
            if xs.contains(y) {
                let i = choose|i: int| 0 <= i < xs.len() && xs[i] == y;
                if i < init.len() {
                    assert(init[i] == y);
                }
            }
            if init.contains(y) {
                let i = choose|i: int| 0 <= i < init.len() && init[i] == y;
                assert(xs[i] == y);
            }
            assert(xs[xs.len() - 1] == xs.last());
        }
    }
}

/// Where a text is put: behind the last one that is not larger.
proof fn lemma_insert_word_at(xs: Seq<Seq<char>>, x: Seq<char>, n: int)
    requires
        0 <= n <= xs.len(),
        forall|j: int| n <= j < xs.len() ==> !text_less(#[trigger] xs[j], x) && xs[j] != x,
        n > 0 ==> text_less(xs[n - 1], x) || xs[n - 1] == x,
    ensures
        insert_word(xs, x) == if n > 0 && xs[n - 1] == x {
            xs
        } else {
            xs.insert(n, x)
        },
    decreases xs.len(),
{
    if n == xs.len() {
        assert(xs.insert(n, x) =~= xs.push(x));
        lemma_text_less_total(x, x);
    } else {
        let init = xs.drop_last();
        assert(!text_less(xs[xs.len() - 1], x) && xs[xs.len() - 1] != x);
        assert forall|j: int| n <= j < init.len() implies !text_less(#[trigger] init[j], x) && init[j] != x by {
            assert(!text_less(xs[j], x));
        }
        lemma_insert_word_at(init, x, n);
        assert(init.insert(n, x).push(xs.last()) =~= xs.insert(n, x));
        assert(init.push(xs.last()) =~= xs);
    }
}

/// The executable form of [`insert_word`].
pub fn insert_unique(xs: &mut Vec<String>, x: String)
    ensures
        views(final(xs)@) == insert_word(views(old(xs)@), x@),
{
    let ghost whole = views(xs@);
    let ghost word = x@;
    let cs: Vec<char> = chars_of(x.as_str());
    let mut n: usize = xs.len();
    let mut found: bool = false;
    while n > 0
        invariant_except_break
            n <= xs@.len(),
            !found,
        invariant
            xs@ == old(xs)@,
            whole == views(xs@),
            cs@ == word,
            forall|j: int| n <= j < xs@.len() ==> !text_less(#[trigger] whole[j], word) && whole[j] != word,
        ensures
            n <= xs@.len(),
            n > 0 ==> text_less(whole[n - 1], word) || whole[n - 1] == word,
            found == (n > 0 && whole[n - 1] == word),
        decreases n,
    {
        assert(whole[n - 1] == xs@[n - 1]@);
        let at: Vec<char> = chars_of(xs[n - 1].as_str());
        proof {
            lemma_text_less_total(at@, word);
        }
        if same(at.as_slice(), cs.as_slice()) {
            found = true;
            break;
        }
        if less(at.as_slice(), cs.as_slice()) {
            break;
        }
        n -= 1;
    }
    proof {
        lemma_insert_word_at(whole, word, n as int);
    }
    if !found {
        xs.insert(n, x);
        assert(views(xs@) =~= whole.insert(n as int, word));
    }
}

} // verus!
