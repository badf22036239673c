//! What the readers of text make of text that was put together.
//!
//! The grammars read what some program wrote. The laws here say, for each reader, what
//! it gives back of text that was written in the shape it is meant for.

use vstd::prelude::*;
use crate::text::class::{ascii_lower, is_space, lower_char, Class};
use crate::text::number::{
    dec, dec_int, digit_char, digit_value, digits_value, law_dec_reads_back, parse_i32, parse_unsigned,
};
use crate::text::search::{
    all_in, contains, lemma_find_from_is, lemma_span_is, lemma_tail_span_is, occurs_at, trim, trim_end, trim_start,
};
use crate::text::split::{join, lemma_join_front, lines, split, split_once, split_once_at, tokens, without_cr};

verus! {

/// Text that holds something and no white space.
pub open spec fn is_solid(w: Seq<char>) -> bool {
    w.len() > 0 && forall|i: int| 0 <= i < w.len() ==> !is_space(#[trigger] w[i])
}

pub open spec fn all_solid(words: Seq<Seq<char>>) -> bool {
    forall|i: int| 0 <= i < words.len() ==> is_solid(#[trigger] words[i])
}

/// Nothing but spaces.
pub open spec fn is_gap(gap: Seq<char>) -> bool {
    forall|i: int| 0 <= i < gap.len() ==> (#[trigger] gap[i]) == ' '
}

/// As many gaps as words, none of them empty but perhaps the first.
pub open spec fn gaps_for(words: Seq<Seq<char>>, gaps: Seq<Seq<char>>) -> bool {
    &&& gaps.len() == words.len()
    &&& forall|i: int| 0 <= i < gaps.len() ==> is_gap(#[trigger] gaps[i])
    &&& forall|i: int| 1 <= i < gaps.len() ==> (#[trigger] gaps[i]).len() > 0
}

/// Words in columns: each word behind its gap.
pub open spec fn spread(words: Seq<Seq<char>>, gaps: Seq<Seq<char>>) -> Seq<char>
    decreases words.len(),
{
    if words.len() == 0 {
        seq![]
    } else {
        gaps[0] + words[0] + spread(words.skip(1), gaps.skip(1))
    }
}

/// The character occurs nowhere in the text.
pub open spec fn lacks(s: Seq<char>, c: char) -> bool {
    forall|i: int| 0 <= i < s.len() ==> (#[trigger] s[i]) != c
}

pub proof fn lemma_tokens_word(gap: Seq<char>, w: Seq<char>, rest: Seq<char>)
    requires
        all_in(gap, Class::Space),
        is_solid(w),
        rest.len() == 0 || is_space(rest[0]),
    ensures
        tokens(gap + w + rest) == seq![w] + tokens(rest),
{
    let s = gap + w + rest;
    assert forall|i: int| 0 <= i < gap.len() implies Class::Space.has(#[trigger] s[i]) == true by {
        assert(s[i] == gap[i]);
    }
    assert(s[gap.len() as int] == w[0]);
    lemma_span_is(s, Class::Space, true, gap.len() as int);
    let t = trim_start(s, Class::Space);
    assert(t =~= w + rest);
    assert forall|i: int| 0 <= i < w.len() implies Class::Space.has(#[trigger] t[i]) == false by {
        assert(t[i] == w[i]);
    }
    assert(w.len() < t.len() ==> t[w.len() as int] == rest[0]);
    lemma_span_is(t, Class::Space, false, w.len() as int);
    assert(t.take(w.len() as int) =~= w);
    assert(t.skip(w.len() as int) =~= rest);
}

pub proof fn lemma_tokens_blank(gap: Seq<char>)
    requires
        all_in(gap, Class::Space),
    ensures
        tokens(gap) == Seq::<Seq<char>>::empty(),
{
    lemma_span_is(gap, Class::Space, true, gap.len() as int);
    assert(trim_start(gap, Class::Space) =~= seq![]);
}

/// Words that stand in columns are read back, however wide the columns are.
pub proof fn law_words_read_back(words: Seq<Seq<char>>, gaps: Seq<Seq<char>>, tail: Seq<char>)
    requires
        all_solid(words),
        gaps_for(words, gaps),
        is_gap(tail),
    ensures
        tokens(spread(words, gaps) + tail) == words,
    decreases words.len(),
{
    if words.len() == 0 {
        assert(spread(words, gaps) + tail =~= tail);
        lemma_tokens_blank(tail);
        assert(words =~= seq![]);
    } else {
        let ws = words.skip(1);
        let gs = gaps.skip(1);
        assert(all_solid(ws)) by {
            assert forall|i: int| 0 <= i < ws.len() implies is_solid(#[trigger] ws[i]) by {
                assert(ws[i] == words[i + 1]);
            }
        }
        assert(gaps_for(ws, gs)) by {
            assert forall|i: int| 0 <= i < gs.len() implies is_gap(#[trigger] gs[i]) by {
                assert(gs[i] == gaps[i + 1]);
            }
            assert forall|i: int| 1 <= i < gs.len() implies (#[trigger] gs[i]).len() > 0 by {
                assert(gs[i] == gaps[i + 1]);
            }
        }
        law_words_read_back(ws, gs, tail);
        let rest = spread(ws, gs) + tail;
        if ws.len() > 0 {
            assert(gs[0] == gaps[1]);
            assert(rest[0] == gaps[1][0]);
        } else if tail.len() > 0 {
            assert(rest[0] == tail[0]);
        }
        lemma_tokens_word(gaps[0], words[0], rest);
        assert(spread(words, gaps) + tail =~= gaps[0] + words[0] + rest);
        assert(seq![words[0]] + ws =~= words);
    }
}

/// A line of columns holds no line end, and does not end in white space.
pub proof fn lemma_spread_is_a_line(words: Seq<Seq<char>>, gaps: Seq<Seq<char>>)
    requires
        all_solid(words),
        gaps_for(words, gaps),
    ensures
        lacks(spread(words, gaps), '\n'),
        lacks(spread(words, gaps), '\r'),
        words.len() > 0 ==> spread(words, gaps).len() > 0,
    decreases words.len(),
{
    if words.len() > 0 {
        let ws = words.skip(1);
        let gs = gaps.skip(1);
        assert forall|i: int| 0 <= i < ws.len() implies is_solid(#[trigger] ws[i]) by {
            assert(ws[i] == words[i + 1]);
        }
        assert forall|i: int| 0 <= i < gs.len() implies is_gap(#[trigger] gs[i]) by {
            assert(gs[i] == gaps[i + 1]);
        }
        assert forall|i: int| 1 <= i < gs.len() implies (#[trigger] gs[i]).len() > 0 by {
            assert(gs[i] == gaps[i + 1]);
        }
        lemma_spread_is_a_line(ws, gs);
        let s = spread(words, gaps);
        let head = gaps[0] + words[0];
        assert forall|i: int| 0 <= i < s.len() implies (#[trigger] s[i]) != '\n' && s[i] != '\r' by {
            if i < gaps[0].len() {
                assert(s[i] == gaps[0][i]);
            } else if i < head.len() {
                assert(s[i] == words[0][i - gaps[0].len()]);
                assert(!is_space(words[0][i - gaps[0].len()]));
            } else {
                assert(s[i] == spread(ws, gs)[i - head.len()]);
            }
        }
    }
}

/// A text is split at the first separator: what is before it, and all that is behind it.
pub proof fn law_split_once_reads_back(a: Seq<char>, c: char, b: Seq<char>)
    requires
        lacks(a, c),
    ensures
        split_once(a + seq![c] + b, Class::One(c)) == Some((a, b)),
        split_once(a, Class::One(c)) is None,
{
    let s = a + seq![c] + b;
    assert forall|i: int| 0 <= i < a.len() implies Class::One(c).has(#[trigger] s[i]) == false by {
        assert(s[i] == a[i]);
    }
    assert(s[a.len() as int] == c);
    lemma_span_is(s, Class::One(c), false, a.len() as int);
    assert(s.take(a.len() as int) =~= a);
    assert(s.skip(a.len() as int + 1) =~= b);
    assert forall|i: int| 0 <= i < a.len() implies Class::One(c).has(#[trigger] a[i]) == false by {}
    lemma_span_is(a, Class::One(c), false, a.len() as int);
}

/// A text is split at every separator.
pub proof fn law_split_reads_back(a: Seq<char>, c: char, b: Seq<char>)
    requires
        lacks(a, c),
    ensures
        split(a + seq![c] + b, Class::One(c)) == seq![a] + split(b, Class::One(c)),
        split(a, Class::One(c)) == seq![a],
{
    let s = a + seq![c] + b;
    assert forall|i: int| 0 <= i < a.len() implies Class::One(c).has(#[trigger] s[i]) == false by {
        assert(s[i] == a[i]);
    }
    assert(s[a.len() as int] == c);
    lemma_span_is(s, Class::One(c), false, a.len() as int);
    assert(s.take(a.len() as int) =~= a);
    assert(s.skip(a.len() as int + 1) =~= b);
    assert forall|i: int| 0 <= i < a.len() implies Class::One(c).has(#[trigger] a[i]) == false by {}
    lemma_span_is(a, Class::One(c), false, a.len() as int);
}

/// A text is cut into its lines: a line ends at a line feed, and a carriage return
/// before it is no part of the line.
pub proof fn law_lines_read_back(line: Seq<char>, rest: Seq<char>)
    requires
        lacks(line, '\n'),
    ensures
        line.len() == 0 || line.last() != '\r' ==> lines(line + seq!['\n'] + rest) == seq![line] + lines(rest),
        lines(line + seq!['\r', '\n'] + rest) == seq![line] + lines(rest),
        line.len() > 0 ==> lines(line) == seq![line],
        lines(Seq::<char>::empty()) == Seq::<Seq<char>>::empty(),
{
    let k = Class::One('\n');
    let s = line + seq!['\n'] + rest;
    assert forall|i: int| 0 <= i < line.len() implies k.has(#[trigger] s[i]) == false by {
        assert(s[i] == line[i]);
    }
    assert(s[line.len() as int] == '\n');
    lemma_span_is(s, k, false, line.len() as int);
    assert(s.take(line.len() as int) =~= line);
    assert(s.skip(line.len() as int + 1) =~= rest);
    let t = line + seq!['\r', '\n'] + rest;
    let n = line.len() as int + 1;
    assert forall|i: int| 0 <= i < n implies k.has(#[trigger] t[i]) == false by {
        if i < line.len() {
            assert(t[i] == line[i]);
        }
    }
    assert(t[n] == '\n');
    lemma_span_is(t, k, false, n);
    assert(t.take(n) =~= line.push('\r'));
    assert(without_cr(line.push('\r')) =~= line);
    assert(t.skip(n + 1) =~= rest);
    assert forall|i: int| 0 <= i < line.len() implies k.has(#[trigger] line[i]) == false by {}
    lemma_span_is(line, k, false, line.len() as int);
}

/// White space around a text is taken off, and nothing of the text.
pub proof fn law_trim_reads_back(before: Seq<char>, s: Seq<char>, after: Seq<char>)
    requires
        forall|i: int| 0 <= i < before.len() ==> is_space(#[trigger] before[i]),
        forall|i: int| 0 <= i < after.len() ==> is_space(#[trigger] after[i]),
        s.len() > 0 ==> !is_space(s[0]) && !is_space(s.last()),
    ensures
        trim(before + s + after, Class::Space) == s,
        s.len() > 0 ==> trim_start(before + s + after, Class::Space) == s + after,
{
    let k = Class::Space;
    let whole = before + s + after;
    if s.len() == 0 {
        assert forall|i: int| 0 <= i < whole.len() implies k.has(#[trigger] whole[i]) == true by {
            if i < before.len() {
                assert(whole[i] == before[i]);
            } else {
                assert(whole[i] == after[i - before.len()]);
            }
        }
        lemma_span_is(whole, k, true, whole.len() as int);
        assert(trim_start(whole, k) =~= seq![]);
        assert(trim_end(Seq::<char>::empty(), k) =~= seq![]);
        assert(s =~= seq![]);
    } else {
        assert forall|i: int| 0 <= i < before.len() implies k.has(#[trigger] whole[i]) == true by {
            assert(whole[i] == before[i]);
        }
        assert(whole[before.len() as int] == s[0]);
        lemma_span_is(whole, k, true, before.len() as int);
        let t = trim_start(whole, k);
        assert(t =~= s + after);
        assert forall|i: int| t.len() - after.len() <= i < t.len() implies k.has(#[trigger] t[i]) == true by {
            assert(t[i] == after[i - s.len()]);
        }
        assert(t[t.len() - after.len() - 1] == s.last());
        lemma_tail_span_is(t, k, true, after.len() as int);
        assert(t.take(s.len() as int) =~= s);
    }
}

/// A text contains another exactly when it is that text with something before it and
/// something behind it.
pub proof fn law_contains_is_infix(s: Seq<char>, n: Seq<char>)
    ensures
        contains(s, n) <==> exists|a: Seq<char>, b: Seq<char>| s == #[trigger] (a + n + b),
{
    if contains(s, n) {
        let i = choose|i: int| occurs_at(s, n, i);
        let a = s.take(i);
        let b = s.skip(i + n.len());
        assert(s =~= a + n + b) by {
            assert forall|j: int| 0 <= j < n.len() implies s[i + j] == n[j] by {
                assert(s.subrange(i, i + n.len())[j] == s[i + j]);
            }
        }
    }
    if exists|a: Seq<char>, b: Seq<char>| s == #[trigger] (a + n + b) {
        let (a, b) = choose|a: Seq<char>, b: Seq<char>| s == #[trigger] (a + n + b);
        assert(s.subrange(a.len() as int, (a.len() + n.len()) as int) =~= n);
        assert(occurs_at(s, n, a.len() as int));
    }
}

pub proof fn lemma_contains_infix(a: Seq<char>, n: Seq<char>, b: Seq<char>)
    ensures
        contains(a + n + b, n),
{
    law_contains_is_infix(a + n + b, n);
}

/// The decimal spelling of a number reads back as that number.
pub proof fn law_numbers_read_back(n: i32)
    ensures
        parse_i32(dec_int(n as int)) == Some(n),
        n >= 0 ==> parse_unsigned(dec(n as nat), u64::MAX as nat) == Some(n as nat),
        is_solid(dec_int(n as int)),
{
    let magnitude: nat = if n < 0 { (0 - n) as nat } else { n as nat };
    law_dec_reads_back(magnitude);
    let digits = dec(magnitude);
    assert(all_in(digits, Class::Digit));
    assert(Class::Digit.has(digits[0]));
    if n < 0 {
        assert(dec_int(n as int).skip(1) =~= digits);
        let t = dec_int(n as int);
        assert forall|i: int| 0 <= i < t.len() implies !is_space(#[trigger] t[i]) by {
            if i > 0 {
                assert(t[i] == digits[i - 1]);
                assert(Class::Digit.has(digits[i - 1]));
            }
        }
    } else {
        assert forall|i: int| 0 <= i < digits.len() implies !is_space(#[trigger] digits[i]) by {
            assert(Class::Digit.has(digits[i]));
        }
    }
}

/// A decimal spelling is made of digits.
pub proof fn lemma_dec_digits(n: nat)
    ensures
        dec(n).len() > 0,
        forall|i: int| 0 <= i < dec(n).len() ==> '0' <= #[trigger] dec(n)[i] <= '9',
        is_solid(dec(n)),
{
    law_dec_reads_back(n);
    let digits = dec(n);
    assert(all_in(digits, Class::Digit));
    assert forall|i: int| 0 <= i < digits.len() implies '0' <= #[trigger] digits[i] <= '9' && !is_space(digits[i]) by {
        assert(Class::Digit.has(digits[i]));
    }
}

/// Words joined by single spaces are columns one space apart.
pub proof fn lemma_join_is_spread(words: Seq<Seq<char>>) -> (gaps: Seq<Seq<char>>)
    ensures
        gaps_for(words, gaps),
        spread(words, gaps) == join(words, " "@),
        gaps.len() > 0 ==> gaps[0].len() == 0,
    decreases words.len(),
{
    reveal_strlit(" ");
    assert(" "@ =~= seq![' ']);
    if words.len() == 0 {
        let gaps = Seq::<Seq<char>>::empty();
        assert(spread(words, gaps) =~= join(words, " "@));
        gaps
    } else if words.len() == 1 {
        let gaps = seq![Seq::<char>::empty()];
        assert(spread(words.skip(1), gaps.skip(1)) =~= seq![]);
        assert(spread(words, gaps) =~= join(words, " "@));
        gaps
    } else {
        let ws = words.skip(1);
        let inner = lemma_join_is_spread(ws);
        lemma_join_front(words, " "@);
        let moved = inner.update(0, " "@);
        let gaps = seq![Seq::<char>::empty()] + moved;
        assert(gaps.skip(1) =~= moved);
        assert(inner.skip(1) =~= moved.skip(1));
        assert(inner[0] =~= seq![]);
        assert(spread(ws, inner) =~= ws[0] + spread(ws.skip(1), inner.skip(1)));
        assert(spread(ws, moved) =~= " "@ + spread(ws, inner));
        assert(spread(words, gaps) =~= join(words, " "@));
        assert forall|i: int| 0 <= i < gaps.len() implies is_gap(#[trigger] gaps[i]) by {
            if i > 0 {
                assert(gaps[i] == moved[i - 1]);
                if i > 1 {
                    assert(moved[i - 1] == inner[i - 1]);
                }
            }
        }
        assert forall|i: int| 1 <= i < gaps.len() implies (#[trigger] gaps[i]).len() > 0 by {
            assert(gaps[i] == moved[i - 1]);
            if i > 1 {
                assert(moved[i - 1] == inner[i - 1]);
            }
        }
        gaps
    }
}

/// A text is split at the first occurrence of a separating word.
pub proof fn law_split_at_a_word_reads_back(a: Seq<char>, sep: Seq<char>, b: Seq<char>)
    requires
        sep.len() > 0,
        forall|j: int| 0 <= j < a.len() ==> !occurs_at(a + sep + b, sep, j),
    ensures
        split_once_at(a + sep + b, sep) == Some((a, b)),
{
    let s = a + sep + b;
    assert(s.subrange(a.len() as int, (a.len() + sep.len()) as int) =~= sep);
    lemma_find_from_is(s, sep, 0, a.len() as int);
    assert(s.take(a.len() as int) =~= a);
    assert(s.skip((a.len() + sep.len()) as int) =~= b);
}

/// Columns hold a character only where a word does.
pub proof fn lemma_spread_lacks(words: Seq<Seq<char>>, gaps: Seq<Seq<char>>, c: char)
    requires
        gaps_for(words, gaps),
        c != ' ',
        forall|i: int| 0 <= i < words.len() ==> lacks(#[trigger] words[i], c),
    ensures
        lacks(spread(words, gaps), c),
    decreases words.len(),
{
    if words.len() > 0 {
        let ws = words.skip(1);
        let gs = gaps.skip(1);
        assert forall|i: int| 0 <= i < ws.len() implies lacks(#[trigger] ws[i], c) by {
            assert(ws[i] == words[i + 1]);
        }
        assert forall|i: int| 0 <= i < gs.len() implies is_gap(#[trigger] gs[i]) by {
            assert(gs[i] == gaps[i + 1]);
        }
        assert forall|i: int| 1 <= i < gs.len() implies (#[trigger] gs[i]).len() > 0 by {
            assert(gs[i] == gaps[i + 1]);
        }
        lemma_spread_lacks(ws, gs, c);
        let s = spread(words, gaps);
        let head = gaps[0] + words[0];
        assert(lacks(words[0], c));
        assert forall|i: int| 0 <= i < s.len() implies (#[trigger] s[i]) != c by {
            if i < gaps[0].len() {
                assert(s[i] == gaps[0][i]);
            } else if i < head.len() {
                assert(s[i] == words[0][i - gaps[0].len()]);
            } else {
                assert(s[i] == spread(ws, gs)[i - head.len()]);
            }
        }
    }
}

/// A number below a hundred with two digits.
pub open spec fn two_digits(n: nat) -> Seq<char> {
    seq![digit_char(n / 10), digit_char(n % 10)]
}

pub proof fn lemma_two_digits(n: nat, max: nat)
    requires
        n < 100,
        n <= max,
    ensures
        parse_unsigned(two_digits(n), max) == Some(n),
        forall|i: int| 0 <= i < 2 ==> '0' <= #[trigger] two_digits(n)[i] <= '9',
{
    let s = two_digits(n);
    assert(s.drop_last() =~= seq![s[0]]);
    assert(seq![s[0]].drop_last() =~= seq![]);
    assert(digits_value(Seq::<char>::empty()) == 0);
    assert(digits_value(seq![s[0]]) == digit_value(s[0]));
    assert(digits_value(s) == digit_value(s[0]) * 10 + digit_value(s[1]));
    assert(digit_value(s[0]) == n / 10 && digit_value(s[1]) == n % 10);
    assert(all_in(s, Class::Digit));
}

/// Two characters are the same but for the case of an ASCII letter.
pub open spec fn same_letter(c: char, d: char) -> bool {
    ||| c == d
    ||| 'A' <= c <= 'Z' && d as int == c as int + 32
    ||| 'A' <= d <= 'Z' && c as int == d as int + 32
}

/// Two texts are the same but for the case of ASCII letters.
pub open spec fn same_letters(a: Seq<char>, b: Seq<char>) -> bool {
    a.len() == b.len() && forall|i: int| 0 <= i < a.len() ==> same_letter(#[trigger] a[i], b[i])
}

proof fn lemma_lower_char(c: char)
    ensures
        'A' <= c <= 'Z' ==> lower_char(c) as int == c as int + 32,
        !('A' <= c <= 'Z') ==> lower_char(c) == c,
        !('A' <= lower_char(c) <= 'Z'),
{
}

/// Folding the case of ASCII makes texts equal exactly where they were the same but for
/// case, keeps every other character, and has nothing left to fold.
pub proof fn law_ascii_folding(a: Seq<char>, b: Seq<char>)
    ensures
        ascii_lower(a) == ascii_lower(b) <==> same_letters(a, b),
        ascii_lower(ascii_lower(a)) == ascii_lower(a),
        ascii_lower(a).len() == a.len(),
        forall|i: int| 0 <= i < a.len() && !('A' <= a[i] <= 'Z') ==> #[trigger] ascii_lower(a)[i] == a[i],
{
    let x = ascii_lower(a);
    let y = ascii_lower(b);
    assert forall|i: int| 0 <= i < a.len() implies !('A' <= #[trigger] x[i] <= 'Z') && (!('A' <= a[i] <= 'Z')
        ==> x[i] == a[i]) by {
        lemma_lower_char(a[i]);
    }
    assert(ascii_lower(x) =~= x) by {
        assert forall|i: int| 0 <= i < x.len() implies ascii_lower(x)[i] == x[i] by {
            lemma_lower_char(x[i]);
        }
    }
    if x == y {
        assert(x.len() == a.len() && y.len() == b.len());
        assert forall|i: int| 0 <= i < a.len() implies same_letter(#[trigger] a[i], b[i]) by {
            lemma_lower_char(a[i]);
            lemma_lower_char(b[i]);
            assert(x[i] == y[i]);
            lemma_char_codes(a[i], b[i]);
        }
    }
    if same_letters(a, b) {
        assert forall|i: int| 0 <= i < a.len() implies x[i] == y[i] by {
            lemma_lower_char(a[i]);
            lemma_lower_char(b[i]);
            assert(same_letter(a[i], b[i]));
            lemma_char_codes(x[i], y[i]);
        }
        assert(x =~= y);
    }
}

/// A character is its code.
proof fn lemma_char_codes(c: char, d: char)
    ensures
        c as int == d as int ==> c == d,
{
}

/// A list that is joined by a separator which none of its items holds is split into its
/// items.
pub proof fn law_lists_read_back(items: Seq<Seq<char>>, c: char)
    requires
        items.len() > 0,
        forall|i: int| 0 <= i < items.len() ==> lacks(#[trigger] items[i], c),
    ensures
        split(join(items, seq![c]), Class::One(c)) == items,
    decreases items.len(),
{
    assert(lacks(items[0], c));
    if items.len() == 1 {
        law_split_reads_back(items[0], c, seq![]);
        assert(items =~= seq![items[0]]);
    } else {
        let rest = items.skip(1);
        assert forall|i: int| 0 <= i < rest.len() implies lacks(#[trigger] rest[i], c) by {
            assert(rest[i] == items[i + 1]);
        }
        law_lists_read_back(rest, c);
        lemma_join_front(items, seq![c]);
        law_split_reads_back(items[0], c, join(rest, seq![c]));
        assert(seq![items[0]] + rest =~= items);
    }
}

/// A part of the text says this, whatever the case of its ASCII letters.
pub open spec fn tells(text: Seq<char>, phrase: Seq<char>) -> bool {
    exists|i: int|
        0 <= i && i + phrase.len() <= text.len() && same_letters(#[trigger] text.subrange(i, i + phrase.len()), phrase)
}

/// A lower case phrase is found in a folded text exactly where the text says it in some
/// case.
pub proof fn law_folded_search(text: Seq<char>, phrase: Seq<char>)
    requires
        ascii_lower(phrase) == phrase,
    ensures
        contains(ascii_lower(text), phrase) <==> tells(text, phrase),
{
    let t = ascii_lower(text);
    assert(t.len() == text.len());
    assert forall|i: int| 0 <= i && i + phrase.len() <= text.len() implies occurs_at(t, phrase, i) == same_letters(
        #[trigger] text.subrange(i, i + phrase.len()),
        phrase,
    ) by {
        let part = text.subrange(i, i + phrase.len());
        law_ascii_folding(part, phrase);
        assert(ascii_lower(part) =~= t.subrange(i, i + phrase.len()));
    }
    if contains(t, phrase) {
        let i = choose|i: int| occurs_at(t, phrase, i);
        assert(same_letters(text.subrange(i, i + phrase.len()), phrase));
    }
    if tells(text, phrase) {
        let i = choose|i: int|
            0 <= i && i + phrase.len() <= text.len() && same_letters(
                #[trigger] text.subrange(i, i + phrase.len()),
                phrase,
            );
        assert(occurs_at(t, phrase, i));
    }
}

/// What is in a joined sequence is in one of its two parts.
pub proof fn lemma_in_either<T>(a: Seq<T>, b: Seq<T>, x: T)
    ensures
        (a + b).contains(x) <==> a.contains(x) || b.contains(x),
{
    let c = a + b;
    if c.contains(x) {
        let i = choose|i: int| 0 <= i < c.len() && c[i] == x;
        if i < a.len() {
            assert(a[i] == x);
        } else {
            assert(b[i - a.len()] == x);
        }
    }
    if a.contains(x) {
        let i = choose|i: int| 0 <= i < a.len() && a[i] == x;
        assert(c[i] == x);
    }
    if b.contains(x) {
        let i = choose|i: int| 0 <= i < b.len() && b[i] == x;
        assert(c[i + a.len()] == x);
    }
}

/// The classes of characters, by their codes.
pub proof fn law_classes(c: char)
    ensures
        ({
            let n = c as u32;
            let digit = 0x30 <= n <= 0x39;
            let upper = 0x41 <= n <= 0x5a;
            let lower = 0x61 <= n <= 0x7a;
            let alnum = digit || upper || lower;
            &&& Class::Digit.has(c) <==> digit
            &&& Class::Alnum.has(c) <==> alnum
            &&& Class::HexDigit.has(c) <==> digit || 0x41 <= n <= 0x46 || 0x61 <= n <= 0x66
            &&& Class::DateChar.has(c) <==> digit || n == 0x2d
            &&& Class::PackageChar.has(c) <==> alnum || n == 0x2e || n == 0x5f
            &&& Class::VersionChar.has(c) <==> alnum || n == 0x2e
            &&& Class::BufferChar.has(c) <==> lower || digit || n == 0x5f
            &&& Class::FileChar.has(c) <==> alnum || n == 0x2d || n == 0x2e || n == 0x5f
            &&& Class::FileEdge.has(c) <==> n == 0x2d || n == 0x2e || n == 0x5f
            &&& Class::ReleaseSep.has(c) <==> n == 0x20 || n == 0x2d || n == 0x2e || n == 0x5f
            &&& Class::PathSep.has(c) <==> n == 0x2f || n == 0x5c
            &&& Class::SubsystemChar.has(c) <==> alnum || n == 0x20 || n == 0x2d || n == 0x2e || n == 0x2f || n == 0x5f
            &&& Class::ShellSafe.has(c) <==> alnum || 0x2b <= n <= 0x2f || n == 0x3a || n == 0x3d || n == 0x40 || n
                == 0x5f
        }),
{
}

/// White space is what Unicode calls so.
pub proof fn law_white_space(c: char)
    ensures
        ({
            let n = c as u32;
            is_space(c) <==> 0x9 <= n <= 0xd || n == 0x20 || n == 0x85 || n == 0xa0 || n == 0x1680 || 0x2000 <= n
                <= 0x200a || n == 0x2028 || n == 0x2029 || n == 0x202f || n == 0x205f || n == 0x3000
        }),
{
}

/// Numbers out of range are no numbers, and neither is anything but digits behind one sign
/// at most; a sign in front of a number that cannot be negative is a plus.
pub proof fn law_what_is_no_integer(n: nat, max: nat, s: Seq<char>, i: int)
    requires
        0 <= i < s.len(),
        !('0' <= s[i] <= '9'),
    ensures
        parse_unsigned(dec(n), max) == if n <= max {
            Some(n)
        } else {
            None
        },
        n > i32::MAX ==> parse_i32(dec(n)) is None,
        n > 0x8000_0000 ==> parse_i32(seq!['-'] + dec(n)) is None,
        n <= i32::MAX ==> parse_i32(seq!['+'] + dec(n)) == Some(n as i32),
        i > 0 || (s[0] != '+' && s[0] != '-') ==> parse_i32(s) is None,
        i > 0 || s[0] != '+' ==> parse_unsigned(s, max) is None,
        parse_i32(seq!['+']) is None && parse_i32(seq!['-']) is None,
        parse_i32(Seq::<char>::empty()) is None && parse_unsigned(Seq::<char>::empty(), max) is None,
{
    law_dec_reads_back(n);
    lemma_dec_digits(n);
    assert((seq!['-'] + dec(n)).skip(1) =~= dec(n));
    assert((seq!['+'] + dec(n)).skip(1) =~= dec(n));
    assert(seq!['+'].skip(1) =~= seq![]);
    assert(seq!['-'].skip(1) =~= seq![]);
    assert(!Class::Digit.has(s[i]));
    if s[0] == '+' || s[0] == '-' {
        let t = s.skip(1);
        if i > 0 {
            assert(t[i - 1] == s[i]);
            assert(!all_in(t, Class::Digit));
        }
    }
    assert(!all_in(s, Class::Digit));
}

} // verus!
