//! Cutting text into pieces and putting pieces together.

use vstd::prelude::*;
use crate::text::chars::{chars_of, lemma_views_push, push_text, views};
use crate::text::class::Class;
use crate::text::search::{
    count_in, find, find_in, lemma_span, skip, span, span_of, take, trim_start,
    trim_start_of,
};

verus! {

/// The pieces of `s` between the characters of the class; one more than there
/// are such characters.
pub open spec fn split(s: Seq<char>, k: Class) -> Seq<Seq<char>>
    decreases s.len(),
{
    let n = span(s, k, false);
    if 0 <= n < s.len() {
        seq![s.take(n)] + split(s.skip(n + 1), k)
    } else {
        seq![s]
    }
}

/// What stands before and after the first character of the class.
pub open spec fn split_once(s: Seq<char>, k: Class) -> Option<(Seq<char>, Seq<char>)> {
    let n = span(s, k, false);
    if n < s.len() {
        Some((s.take(n), s.skip(n + 1)))
    } else {
        None
    }
}

/// What stands before and after the first occurrence of `sep`.
pub open spec fn split_once_at(s: Seq<char>, sep: Seq<char>) -> Option<(Seq<char>, Seq<char>)> {
    match find(s, sep) {
        Some(i) => Some((s.take(i), s.skip(i + sep.len()))),
        None => None,
    }
}

/// The words of `s`: its longest runs without white space.
pub open spec fn tokens(s: Seq<char>) -> Seq<Seq<char>>
    decreases s.len(),
{
    let t = trim_start(s, Class::Space);
    let n = span(t, Class::Space, false);
    if 0 < n <= t.len() <= s.len() {
        seq![t.take(n)] + tokens(t.skip(n))
    } else {
        seq![]
    }
}

/// `s` without one trailing carriage return.
pub open spec fn without_cr(s: Seq<char>) -> Seq<char> {
    if s.len() > 0 && s.last() == '\r' {
        s.drop_last()
    } else {
        s
    }
}

/// The lines of `s`. A line ends at a line feed, or at a carriage return and a
/// line feed; the last line may lack its end, and text after the last end that
/// is empty is no line.
pub open spec fn lines(s: Seq<char>) -> Seq<Seq<char>>
    decreases s.len(),
{
    let n = span(s, Class::One('\n'), false);
    if s.len() == 0 {
        seq![]
    } else if 0 <= n < s.len() {
        seq![without_cr(s.take(n))] + lines(s.skip(n + 1))
    } else {
        seq![s]
    }
}

/// The parts one after another, with `sep` between each two.
pub open spec fn join(parts: Seq<Seq<char>>, sep: Seq<char>) -> Seq<char>
    decreases parts.len(),
{
    if parts.len() == 0 {
        seq![]
    } else if parts.len() == 1 {
        parts[0]
    } else {
        join(parts.drop_last(), sep) + sep + parts.last()
    }
}

/// Joining begins with the first part.
pub proof fn lemma_join_front(parts: Seq<Seq<char>>, sep: Seq<char>)
    requires
        parts.len() >= 2,
    ensures
        join(parts, sep) == parts[0] + sep + join(parts.skip(1), sep),
    decreases parts.len(),
{
    let init = parts.drop_last();
    let rest = parts.skip(1);
    if parts.len() == 2 {
        assert(join(init, sep) == parts[0]);
        assert(join(rest, sep) == parts[1]);
    } else {
        lemma_join_front(init, sep);
        assert(init.skip(1) =~= rest.drop_last());
        assert(join(parts, sep) =~= parts[0] + sep + join(rest, sep));
    }
}

proof fn lemma_count_concat(a: Seq<char>, b: Seq<char>, k: Class)
    ensures
        count_in(a + b, k) == count_in(a, k) + count_in(b, k),
    decreases b.len(),
{
    if b.len() == 0 {
        assert(a + b =~= a);
    } else {
        assert((a + b).drop_last() =~= a + b.drop_last());
        lemma_count_concat(a, b.drop_last(), k);
    }
}

/// There are at most as many lines as line feeds, and one more.
proof fn lemma_lines_count(s: Seq<char>)
    ensures
        lines(s).len() <= count_in(s, Class::One('\n')) + 1,
    decreases s.len(),
{
    let k = Class::One('\n');
    lemma_span(s, k, false);
    let n = span(s, k, false);
    if s.len() > 0 && n < s.len() {
        let rest = s.skip(n + 1);
        lemma_lines_count(rest);
        let head = s.take(n + 1);
        assert(head + rest =~= s);
        lemma_count_concat(head, rest, k);
        assert(head.last() == '\n');
        assert(count_in(head, k) >= 1);
    }
}

/// No line holds a line feed.
proof fn lemma_lines_are_single(s: Seq<char>, i: int)
    requires
        0 <= i < lines(s).len(),
    ensures
        count_in(lines(s)[i], Class::One('\n')) == 0,
    decreases s.len(),
{
    let k = Class::One('\n');
    lemma_span(s, k, false);
    let n = span(s, k, false);
    if n < s.len() {
        let head = s.take(n);
        lemma_no_count(head, k);
        let first = without_cr(head);
        assert forall|j: int| 0 <= j < first.len() implies !k.has(#[trigger] first[j]) by {
            assert(first[j] == head[j]);
        }
        lemma_no_count(first, k);
        if i > 0 {
            lemma_lines_are_single(s.skip(n + 1), i - 1);
        }
    } else {
        lemma_no_count(s, k);
    }
}

pub proof fn lemma_no_count(s: Seq<char>, k: Class)
    requires
        forall|i: int| 0 <= i < s.len() ==> !k.has(#[trigger] s[i]),
    ensures
        count_in(s, k) == 0,
    decreases s.len(),
{
    if s.len() > 0 {
        assert(!k.has(s[s.len() - 1]));
        let init = s.drop_last();
        assert forall|i: int| 0 <= i < init.len() implies !k.has(#[trigger] init[i]) by {
            assert(init[i] == s[i]);
        }
        lemma_no_count(init, k);
    }
}

proof fn lemma_join_count(parts: Seq<Seq<char>>)
    requires
        forall|i: int| 0 <= i < parts.len() ==> count_in(#[trigger] parts[i], Class::One('\n')) == 0,
    ensures
        count_in(join(parts, "\n"@), Class::One('\n')) <= if parts.len() == 0 { 0 } else { parts.len() - 1 },
    decreases parts.len(),
{
    let k = Class::One('\n');
    reveal_strlit("\n");
    if parts.len() >= 2 {
        let init = parts.drop_last();
        assert forall|i: int| 0 <= i < init.len() implies count_in(#[trigger] init[i], k) == 0 by {
            assert(init[i] == parts[i]);
        }
        lemma_join_count(init);
        let left = join(init, "\n"@);
        lemma_count_concat(left, "\n"@, k);
        lemma_count_concat(left + "\n"@, parts.last(), k);
        assert("\n"@.drop_last() =~= seq![]);
        assert(count_in("\n"@, k) == 1) by {
            assert(count_in("\n"@.drop_last(), k) == 0);
        }
        assert(count_in(parts[parts.len() - 1], k) == 0);
    } else if parts.len() == 1 {
        assert(count_in(parts[0], k) == 0);
    }
}

/// Lines of a text that are put together again have at most as many lines.
pub proof fn lemma_joined_lines(s: Seq<char>, from: int)
    requires
        0 <= from <= lines(s).len(),
    ensures
        lines(join(lines(s).skip(from), "\n"@)).len() <= if from == lines(s).len() { 1 } else { lines(s).len() - from },
{
    let parts = lines(s).skip(from);
    assert forall|i: int| 0 <= i < parts.len() implies count_in(#[trigger] parts[i], Class::One('\n')) == 0 by {
        lemma_lines_are_single(s, i + from);
    }
    lemma_join_count(parts);
    lemma_lines_count(join(parts, "\n"@));
}

/// The executable form of [`split`].
pub fn split_on(cs: &[char], k: Class) -> (r: Vec<&[char]>)
    ensures
        views(r@) == split(cs@, k),
        r@.len() >= 1,
{
    let mut r: Vec<&[char]> = Vec::new();
    let mut rest: &[char] = cs;
    loop
        invariant
            views(r@) + split(rest@, k) == split(cs@, k),
        decreases rest@.len(),
    {
        let n: usize = span_of(rest, k, false);
        let ghost before = views(r@);
        let ghost whole = rest@;
        if n == rest.len() {
            proof {
                lemma_views_push(r@, rest);
                assert(before.push(rest@) =~= before + seq![rest@]);
            }
            r.push(rest);
            return r;
        }
        let piece: &[char] = take(rest, n);
        proof {
            lemma_views_push(r@, piece);
        }
        r.push(piece);
        rest = skip(rest, n + 1);
        assert(before + (seq![whole.take(n as int)] + split(rest@, k)) =~= before.push(piece@) + split(
            rest@,
            k,
        ));
    }
}

/// The executable form of [`split_once`].
pub fn split_once_on(cs: &[char], k: Class) -> (r: Option<(&[char], &[char])>)
    ensures
        match r {
            Some((a, b)) => split_once(cs@, k) == Some((a@, b@)),
            None => split_once(cs@, k) is None,
        },
{
    let n: usize = span_of(cs, k, false);
    if n < cs.len() {
        Some((take(cs, n), skip(cs, n + 1)))
    } else {
        None
    }
}

/// The executable form of [`split_once_at`].
pub fn split_once_word<'a>(cs: &'a [char], sep: &str) -> (r: Option<(&'a [char], &'a [char])>)
    ensures
        match r {
            Some((a, b)) => split_once_at(cs@, sep@) == Some((a@, b@)),
            None => split_once_at(cs@, sep@) is None,
        },
{
    let w: Vec<char> = chars_of(sep);
    let total: usize = cs.len();
    assert(total == cs@.len());
    match find_in(cs, w.as_slice()) {
        Some(i) => Some((take(cs, i), skip(cs, i + w.len()))),
        None => None,
    }
}

/// The executable form of [`tokens`].
pub fn tokens_of(cs: &[char]) -> (r: Vec<&[char]>)
    ensures
        views(r@) == tokens(cs@),
{
    let mut r: Vec<&[char]> = Vec::new();
    let mut rest: &[char] = cs;
    loop
        invariant
            views(r@) + tokens(rest@) == tokens(cs@),
        decreases rest@.len(),
    {
        proof {
            lemma_span(rest@, Class::Space, true);
        }
        let t: &[char] = trim_start_of(rest, Class::Space);
        let n: usize = span_of(t, Class::Space, false);
        let ghost before = views(r@);
        if n == 0 {
            assert(before + tokens(rest@) =~= before);
            return r;
        }
        let piece: &[char] = take(t, n);
        proof {
            lemma_views_push(r@, piece);
        }
        r.push(piece);
        rest = skip(t, n);
        assert(before + (seq![piece@] + tokens(rest@)) =~= before.push(piece@) + tokens(rest@));
    }
}

/// The executable form of [`without_cr`].
pub fn strip_cr(cs: &[char]) -> (r: &[char])
    ensures
        r@ == without_cr(cs@),
{
    if cs.len() > 0 && cs[cs.len() - 1] == '\r' {
        assert(cs@.take(cs@.len() - 1) =~= cs@.drop_last());
        take(cs, cs.len() - 1)
    } else {
        cs
    }
}

/// The executable form of [`lines`].
pub fn lines_of(cs: &[char]) -> (r: Vec<&[char]>)
    ensures
        views(r@) == lines(cs@),
{
    let mut r: Vec<&[char]> = Vec::new();
    let mut rest: &[char] = cs;
    while rest.len() > 0
        invariant
            views(r@) + lines(rest@) == lines(cs@),
        decreases rest@.len(),
    {
        let n: usize = span_of(rest, Class::One('\n'), false);
        let ghost before = views(r@);
        if n == rest.len() {
            proof {
                lemma_views_push(r@, rest);
                assert(before.push(rest@) =~= before + seq![rest@]);
            }
            r.push(rest);
            return r;
        }
        let piece: &[char] = strip_cr(take(rest, n));
        proof {
            lemma_views_push(r@, piece);
        }
        r.push(piece);
        rest = skip(rest, n + 1);
        assert(before + (seq![piece@] + lines(rest@)) =~= before.push(piece@) + lines(rest@));
    }
    assert(views(r@) + lines(rest@) =~= views(r@));
    r
}

/// Where each line of `cs` begins and ends.
pub fn line_spans(cs: &[char]) -> (r: Vec<(usize, usize)>)
    ensures
        r@.len() == lines(cs@).len(),
        forall|i: int|
            0 <= i < r@.len() ==> (#[trigger] r@[i]).0 <= r@[i].1 <= cs@.len() && lines(cs@)[i] == cs@.subrange(
                r@[i].0 as int,
                r@[i].1 as int,
            ),
{
    let mut r: Vec<(usize, usize)> = Vec::new();
    let mut from: usize = 0;
    let ghost mut done: Seq<Seq<char>> = seq![];
    assert(cs@.skip(0) =~= cs@);
    assert(done + lines(cs@.skip(0)) =~= lines(cs@));
    while from < cs.len()
        invariant
            from <= cs@.len(),
            done.len() == r@.len(),
            done + lines(cs@.skip(from as int)) == lines(cs@),
            forall|i: int|
                0 <= i < r@.len() ==> (#[trigger] r@[i]).0 <= r@[i].1 <= cs@.len() && done[i] == cs@.subrange(
                    r@[i].0 as int,
                    r@[i].1 as int,
                ),
        decreases cs@.len() - from,
    {
        let rest: &[char] = skip(cs, from);
        let n: usize = span_of(rest, Class::One('\n'), false);
        if n == rest.len() {
            r.push((from, cs.len()));
            assert(rest@ =~= cs@.subrange(from as int, cs@.len() as int));
            assert(lines(rest@) =~= seq![rest@]);
            assert(done.push(rest@) =~= lines(cs@));
            return r;
        }
        let line: &[char] = strip_cr(take(rest, n));
        let end: usize = from + line.len();
        r.push((from, end));
        proof {
            assert(line@ =~= cs@.subrange(from as int, end as int));
            let next = cs@.skip(from + n + 1);
            assert(rest@.skip(n + 1) =~= next);
            assert(done.push(line@) + lines(next) =~= done + (seq![line@] + lines(next)));
            done = done.push(line@);
        }
        from = from + n + 1;
    }
    assert(done + lines(cs@.skip(from as int)) =~= done);
    r
}

/// The executable form of [`join`].
pub fn join_strings(parts: &Vec<String>, sep: &str) -> (r: String)
    ensures
        r@ == join(views(parts@), sep@),
{
    let mut r: String = String::new();
    let mut i: usize = 0;
    while i < parts.len()
        invariant
            i <= parts@.len(),
            r@ == join(views(parts@).take(i as int), sep@),
        decreases parts@.len() - i,
    {
        let ghost before = views(parts@).take(i as int);
        let ghost after = views(parts@).take(i as int + 1);
        assert(after.drop_last() =~= before);
        assert(after.last() == parts@[i as int]@);
        if i > 0 {
            push_text(&mut r, sep);
        } else {
            assert(r@ + after.last() =~= after.last());
        }
        push_text(&mut r, parts[i].as_str());
        i += 1;
    }
    assert(views(parts@).take(i as int) =~= views(parts@));
    r
}

} // verus!
