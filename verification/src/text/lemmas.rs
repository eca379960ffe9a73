//! Facts about text that the contracts of the library rest on.
use crate::text::model;
use vstd::prelude::*;

verus! {

/// `first` is a position of `c`, or the length, and no `c` stands before it.
pub proof fn lemma_first(s: Seq<char>, c: char)
    ensures
        model::first(s, c) <= s.len(),
        forall|i: int| 0 <= i < model::first(s, c) ==> s[i] != c,
        model::first(s, c) < s.len() ==> s[model::first(s, c) as int] == c,
    decreases s.len(),
{
    if s.len() > 0 && s[0] != c {
        lemma_first(s.skip(1), c);
        let n = model::first(s.skip(1), c);
        assert forall|i: int| 0 <= i < 1 + n implies s[i] != c by {
            if i > 0 {
                assert(s.skip(1)[i - 1] == s[i]);
            }
        }
        if n < s.skip(1).len() {
            assert(s.skip(1)[n as int] == s[n as int + 1]);
        }
    }
}

/// A position with no `c` before it, and `c` at it, is the first one.
pub proof fn lemma_first_is(s: Seq<char>, c: char, n: nat)
    requires
        n <= s.len(),
        forall|i: int| 0 <= i < n ==> s[i] != c,
        n < s.len() ==> s[n as int] == c,
    ensures
        model::first(s, c) == n,
{
    lemma_first(s, c);
    let m = model::first(s, c);
    if m < n {
        assert(s[m as int] != c);
    } else if n < m {
        assert(s[n as int] != c);
    }
}

/// Text without `c` is one piece.
pub proof fn lemma_split_none(s: Seq<char>, c: char)
    requires
        !s.contains(c),
    ensures
        model::first(s, c) == s.len(),
        model::split_once(s, c) is None,
        model::split(s, c) == seq![s],
{
    assert forall|i: int| 0 <= i < s.len() implies s[i] != c by {
        if s[i] == c {
            assert(s.contains(c));
        }
    }
    lemma_first_is(s, c, s.len());
}

/// Text cut at its first `c`.
pub proof fn lemma_split_some(a: Seq<char>, c: char, b: Seq<char>)
    requires
        !a.contains(c),
    ensures
        model::first(a + seq![c] + b, c) == a.len(),
        model::split_once(a + seq![c] + b, c) == Some((a, b)),
        model::split(a + seq![c] + b, c) == seq![a] + model::split(b, c),
{
    let s = a + seq![c] + b;
    assert forall|i: int| 0 <= i < a.len() implies s[i] != c by {
        assert(s[i] == a[i]);
        if a[i] == c {
            assert(a.contains(c));
        }
    }
    assert(s[a.len() as int] == c);
    lemma_first_is(s, c, a.len());
    assert(s.take(a.len() as int) == a);
    assert(s.skip(a.len() as int + 1) == b);
}

/// Splitting undoes joining.
pub proof fn lemma_split_join(parts: Seq<Seq<char>>, c: char)
    requires
        parts.len() > 0,
        forall|i: int| 0 <= i < parts.len() ==> !(#[trigger] parts[i]).contains(c),
    ensures
        model::split(model::join(parts, seq![c]), c) == parts,
    decreases parts.len(),
{
    if parts.len() == 1 {
        lemma_split_none(parts[0], c);
        assert(parts == seq![parts[0]]);
    } else {
        let rest = parts.skip(1);
        assert forall|i: int| 0 <= i < rest.len() implies !(#[trigger] rest[i]).contains(c) by {
            assert(rest[i] == parts[i + 1]);
        }
        lemma_split_join(rest, c);
        lemma_split_some(parts[0], c, model::join(rest, seq![c]));
        assert(seq![parts[0]] + rest == parts);
    }
}

/// Joining one piece more.
pub proof fn lemma_join_push(parts: Seq<Seq<char>>, sep: Seq<char>, x: Seq<char>)
    ensures
        parts.len() == 0 ==> model::join(parts.push(x), sep) == x,
        parts.len() > 0 ==> model::join(parts.push(x), sep) == model::join(parts, sep) + sep + x,
    decreases parts.len(),
{
    if parts.len() == 1 {
        assert(parts.push(x).skip(1) == seq![x]);
        assert(model::join(seq![x], sep) == x);
        assert(model::join(parts.push(x), sep) == parts[0] + sep + x);
    } else if parts.len() > 1 {
        let rest = parts.skip(1);
        lemma_join_push(rest, sep, x);
        assert(parts.push(x).skip(1) == rest.push(x));
        assert(parts[0] + sep + (model::join(rest, sep) + sep + x) == parts[0] + sep + model::join(
            rest,
            sep,
        ) + sep + x);
    }
}

/// A piece at the end is the last one.
pub proof fn lemma_split_push(a: Seq<char>, c: char, b: Seq<char>)
    requires
        !b.contains(c),
    ensures
        model::split(a + seq![c] + b, c) == model::split(a, c).push(b),
    decreases a.len(),
{
    lemma_first(a, c);
    let n = model::first(a, c) as int;
    if n < a.len() {
        let head = a.take(n);
        let rest = a.skip(n + 1);
        assert(!head.contains(c));
        assert(a == head + seq![c] + rest);
        lemma_split_push(rest, c, b);
        lemma_split_some(head, c, rest);
        lemma_split_some(head, c, rest + seq![c] + b);
        assert(a + seq![c] + b == head + seq![c] + (rest + seq![c] + b));
        assert(seq![head] + model::split(rest, c).push(b) == (seq![head] + model::split(
            rest,
            c,
        )).push(b));
    } else {
        assert(!a.contains(c)) by {
            if a.contains(c) {
                let i = choose|i: int| 0 <= i < a.len() && a[i] == c;
                assert(a[i] != c);
            }
        }
        lemma_split_none(a, c);
        lemma_split_none(b, c);
        lemma_split_some(a, c, b);
        assert(seq![a] + seq![b] == seq![a].push(b));
    }
}

/// A character that no piece and no separator holds is not in their joining.
pub proof fn lemma_join_without(parts: Seq<Seq<char>>, sep: Seq<char>, c: char)
    requires
        forall|i: int| 0 <= i < parts.len() ==> !(#[trigger] parts[i]).contains(c),
        !sep.contains(c),
    ensures
        !model::join(parts, sep).contains(c),
    decreases parts.len(),
{
    if parts.len() > 1 {
        let rest = parts.skip(1);
        assert forall|i: int| 0 <= i < rest.len() implies !(#[trigger] rest[i]).contains(c) by {
            assert(rest[i] == parts[i + 1]);
        }
        lemma_join_without(rest, sep, c);
    }
}

/// What trimming at the front leaves is no longer, and does not start with
/// white space.
pub proof fn lemma_trim_start(s: Seq<char>)
    ensures
        model::trim_start(s).len() <= s.len(),
        model::trim_start(s) == s.skip(s.len() - model::trim_start(s).len()),
        model::trim_start(s).len() > 0 ==> !model::is_white(model::trim_start(s)[0]),
        forall|i: int| 0 <= i < s.len() - model::trim_start(s).len() ==> model::is_white(#[trigger] s[i]),
    decreases s.len(),
{
    if s.len() > 0 && model::is_white(s[0]) {
        lemma_trim_start(s.skip(1));
        let t = model::trim_start(s.skip(1));
        assert(s.skip(1).skip(s.len() - 1 - t.len()) == s.skip(s.len() - t.len()));
        assert forall|i: int| 0 <= i < s.len() - t.len() implies model::is_white(#[trigger] s[i]) by {
            if i > 0 {
                assert(s[i] == s.skip(1)[i - 1]);
            }
        }
    } else {
        assert(s.skip(0) == s);
    }
}

/// How far the first word reaches.
pub proof fn lemma_word_len(s: Seq<char>)
    ensures
        model::word_len(s) <= s.len(),
        forall|i: int| 0 <= i < model::word_len(s) ==> !model::is_white(#[trigger] s[i]),
        model::word_len(s) < s.len() ==> model::is_white(s[model::word_len(s) as int]),
        s.len() > 0 && !model::is_white(s[0]) ==> model::word_len(s) > 0,
    decreases s.len(),
{
    if s.len() > 0 && !model::is_white(s[0]) {
        lemma_word_len(s.skip(1));
        let n = model::word_len(s.skip(1));
        assert forall|i: int| 0 <= i < 1 + n implies !model::is_white(#[trigger] s[i]) by {
            if i > 0 {
                assert(s[i] == s.skip(1)[i - 1]);
            }
        }
        if n < s.skip(1).len() {
            assert(s.skip(1)[n as int] == s[n as int + 1]);
        }
    }
}

/// Text without white space is one word.
pub proof fn lemma_one_word(s: Seq<char>)
    requires
        s.len() > 0,
        forall|i: int| 0 <= i < s.len() ==> !model::is_white(#[trigger] s[i]),
    ensures
        model::words(s) == seq![s],
{
    assert(!model::is_white(s[0]));
    assert(model::trim_start(s) == s);
    lemma_word_len(s);
    let n = model::word_len(s) as int;
    if n < s.len() {
        assert(model::is_white(s[n]));
    }
    assert(s.take(n) == s);
    assert(s.skip(n) == Seq::<char>::empty());
    assert(model::words(s.skip(n)) == Seq::<Seq<char>>::empty());
    assert(seq![s] + Seq::<Seq<char>>::empty() == seq![s]);
}

/// The decimal form of a number reads back as it.
pub proof fn lemma_decimal(n: nat)
    ensures
        model::decimal(n).len() > 0,
        model::all_digits(model::decimal(n)),
        model::digits_value(model::decimal(n)) == n,
        model::parse_nat(model::decimal(n)) == Some(n),
    decreases n,
{
    let d = model::decimal(n);
    if n < 10 {
        assert(d.drop_last() == Seq::<char>::empty());
        assert(model::digits_value(d.drop_last()) == 0);
    } else {
        lemma_decimal(n / 10);
        assert(d.drop_last() == model::decimal(n / 10));
        assert forall|i: int| 0 <= i < d.len() implies model::is_digit(#[trigger] d[i]) by {
            if i < d.len() - 1 {
                assert(d[i] == model::decimal(n / 10)[i]);
            }
        }
    }
    assert(model::is_digit(d[0]));
}

/// The same with a leading zero.
pub proof fn lemma_decimal2(n: nat)
    ensures
        model::decimal2(n).len() > 0,
        model::all_digits(model::decimal2(n)),
        model::parse_nat(model::decimal2(n)) == Some(n),
{
    lemma_decimal(n);
    let d = model::decimal2(n);
    if n < 10 {
        assert(model::decimal(n) == seq![model::digit(n)]);
        assert(d == seq!['0', model::digit(n)]);
        assert(d.drop_last() == seq!['0']);
        assert(d.drop_last().drop_last() == Seq::<char>::empty());
        assert(model::digits_value(d.drop_last().drop_last()) == 0);
        assert(model::digits_value(d.drop_last()) == 0);
        assert(model::digits_value(d) == n);
    }
    assert(model::is_digit(d[0]));
}

/// Digits are none of the marks that the grammars use.
pub proof fn lemma_digits_without(s: Seq<char>, c: char)
    requires
        model::all_digits(s),
        !model::is_digit(c),
    ensures
        !s.contains(c),
{
    if s.contains(c) {
        let i = choose|i: int| 0 <= i < s.len() && s[i] == c;
        assert(model::is_digit(s[i]));
    }
}

/// A longer row of digits stands for at least as much.
pub proof fn lemma_digits_value_prefix(s: Seq<char>, n: int)
    requires
        0 <= n <= s.len(),
        model::all_digits(s),
    ensures
        model::digits_value(s.take(n)) <= model::digits_value(s),
    decreases s.len() - n,
{
    if n < s.len() {
        assert(model::is_digit(s.take(n + 1).last()));
        assert(s.take(n + 1).drop_last() == s.take(n));
        lemma_digits_value_prefix(s, n + 1);
    } else {
        assert(s.take(n) == s);
    }
}

/// The order of texts: each comes before itself or is it.
pub proof fn lemma_le_reflexive(a: Seq<char>)
    ensures
        model::le(a, a),
    decreases a.len(),
{
    if a.len() > 0 {
        lemma_le_reflexive(a.skip(1));
    }
}

/// The order of texts: of two, one comes first.
pub proof fn lemma_le_total(a: Seq<char>, b: Seq<char>)
    ensures
        model::le(a, b) || model::le(b, a),
    decreases a.len(),
{
    if a.len() > 0 && b.len() > 0 && a[0] == b[0] {
        lemma_le_total(a.skip(1), b.skip(1));
    }
}

/// The order of texts: two that come before each other are one.
pub proof fn lemma_le_antisymmetric(a: Seq<char>, b: Seq<char>)
    requires
        model::le(a, b),
        model::le(b, a),
    ensures
        a == b,
    decreases a.len(),
{
    if a.len() == 0 || b.len() == 0 {
        assert(a == b);
    } else {
        lemma_le_antisymmetric(a.skip(1), b.skip(1));
        assert(a == seq![a[0]] + a.skip(1));
        assert(b == seq![b[0]] + b.skip(1));
    }
}

/// The order of texts: it carries over.
pub proof fn lemma_le_transitive(a: Seq<char>, b: Seq<char>, c: Seq<char>)
    requires
        model::le(a, b),
        model::le(b, c),
    ensures
        model::le(a, c),
    decreases a.len(),
{
    if a.len() > 0 && b.len() > 0 && c.len() > 0 && a[0] == b[0] && b[0] == c[0] {
        lemma_le_transitive(a.skip(1), b.skip(1), c.skip(1));
    }
}

/// Upper case keeps white space and is reached in one step.
pub proof fn lemma_upper(c: char)
    ensures
        model::is_white(model::upper(c)) == model::is_white(c),
        model::upper(model::upper(c)) == model::upper(c),
{
}

/// Leading white space is the same in upper case.
proof fn lemma_trim_start_upper(s: Seq<char>)
    ensures
        model::trim_start(model::to_upper(s)) == model::to_upper(model::trim_start(s)),
    decreases s.len(),
{
    let u = model::to_upper(s);
    if s.len() > 0 {
        lemma_upper(s[0]);
        if model::is_white(s[0]) {
            lemma_trim_start_upper(s.skip(1));
            assert(u.skip(1) == model::to_upper(s.skip(1)));
        }
    }
}

/// The first word ends at the same place in upper case.
proof fn lemma_word_len_upper(s: Seq<char>)
    ensures
        model::word_len(model::to_upper(s)) == model::word_len(s),
    decreases s.len(),
{
    let u = model::to_upper(s);
    if s.len() > 0 {
        lemma_upper(s[0]);
        if !model::is_white(s[0]) {
            lemma_word_len_upper(s.skip(1));
            assert(u.skip(1) == model::to_upper(s.skip(1)));
        }
    }
}

/// The words of a text in upper case are its words in upper case.
pub proof fn lemma_words_upper(s: Seq<char>)
    ensures
        model::words(model::to_upper(s)).len() == model::words(s).len(),
        forall|i: int|
            0 <= i < model::words(s).len() ==> #[trigger] model::words(model::to_upper(s))[i]
                == model::to_upper(model::words(s)[i]),
    decreases s.len(),
{
    let u = model::to_upper(s);
    let t = model::trim_start(s);
    let n = model::word_len(t) as int;
    lemma_trim_start_upper(s);
    lemma_word_len_upper(t);
    lemma_trim_start(s);
    lemma_word_len(t);
    if n > 0 {
        lemma_words_upper(t.skip(n));
        assert(model::to_upper(t).take(n) == model::to_upper(t.take(n)));
        assert(model::to_upper(t).skip(n) == model::to_upper(t.skip(n)));
        let rest = model::words(t.skip(n));
        let upper_rest = model::words(model::to_upper(t.skip(n)));
        assert(model::words(u) == seq![model::to_upper(t.take(n))] + upper_rest);
        assert(model::words(s) == seq![t.take(n)] + rest);
        assert forall|i: int| 0 <= i < model::words(s).len() implies #[trigger] model::words(u)[i]
            == model::to_upper(model::words(s)[i]) by {
            if i > 0 {
                assert(model::words(u)[i] == upper_rest[i - 1]);
                assert(model::words(s)[i] == rest[i - 1]);
            }
        }
    }
}

/// A word that white space follows is the first word.
pub proof fn lemma_first_word(w: Seq<char>, rest: Seq<char>)
    requires
        w.len() > 0,
        forall|i: int| 0 <= i < w.len() ==> !model::is_white(#[trigger] w[i]),
        rest.len() > 0 ==> model::is_white(rest[0]),
    ensures
        model::words(w + rest).len() > 0,
        model::words(w + rest)[0] == w,
{
    let s = w + rest;
    assert(s[0] == w[0]);
    assert(model::trim_start(s) == s);
    lemma_word_len(s);
    let n = model::word_len(s) as int;
    if n < w.len() {
        assert(s[n] == w[n]);
        assert(model::is_white(s[n]));
    } else if n > w.len() {
        assert(!model::is_white(s[w.len() as int]));
        assert(s[w.len() as int] == rest[0]);
    }
    assert(s.take(n) == w);
}

/// A word and a space are the first word and what follows.
pub proof fn lemma_words_cons(w: Seq<char>, rest: Seq<char>)
    requires
        w.len() > 0,
        forall|i: int| 0 <= i < w.len() ==> !model::is_white(#[trigger] w[i]),
    ensures
        model::words(w + seq![' '] + rest) == seq![w] + model::words(rest),
{
    let tail = seq![' '] + rest;
    let s = w + tail;
    assert(s == w + seq![' '] + rest);
    lemma_first_word(w, tail);
    assert(s[0] == w[0]);
    assert(model::trim_start(s) == s);
    lemma_word_len(s);
    let n = model::word_len(s) as int;
    if n < w.len() {
        assert(s[n] == w[n]);
    } else if n > w.len() {
        assert(s[w.len() as int] == tail[0]);
    }
    assert(s.skip(n) == tail);
    assert(tail.skip(1) == rest);
    lemma_trim_start(rest);
    assert(model::words(tail) == model::words(rest));
}

/// Pieces before the last one are split off.
pub proof fn lemma_split_n_some(a: Seq<char>, c: char, b: Seq<char>, n: nat)
    requires
        n > 1,
        !a.contains(c),
    ensures
        model::split_n(a + seq![c] + b, c, n) == seq![a] + model::split_n(b, c, (n - 1) as nat),
{
    lemma_split_some(a, c, b);
    let s = a + seq![c] + b;
    assert(s.take(a.len() as int) == a);
    assert(s.skip(a.len() as int + 1) == b);
}

/// White space at the end goes, up to what is none.
pub proof fn lemma_trim_end_sum(a: Seq<char>, b: Seq<char>)
    requires
        a.len() > 0,
        !model::is_white(a.last()),
    ensures
        model::trim_end(a + b) == a + model::trim_end(b),
    decreases b.len(),
{
    let s = a + b;
    if b.len() == 0 {
        assert(s == a);
        assert(a + model::trim_end(b) == a);
    } else {
        assert(s.last() == b.last());
        if model::is_white(b.last()) {
            assert(s.drop_last() == a + b.drop_last());
            lemma_trim_end_sum(a, b.drop_last());
        }
    }
}

/// What does not occur is not replaced.
pub proof fn lemma_replace_absent(s: Seq<char>, from: Seq<char>, to: Seq<char>)
    requires
        !model::contains(s, from),
    ensures
        model::replace(s, from, to) == s,
    decreases s.len(),
{
    if s.len() > 0 && from.len() > 0 {
        assert(!model::stands_at(s, from, 0));
        let rest = s.skip(1);
        assert forall|i: int| !model::stands_at(rest, from, i) by {
            if model::stands_at(rest, from, i) {
                assert(rest.subrange(i, i + from.len()) == s.subrange(i + 1, i + 1 + from.len()));
                assert(model::stands_at(s, from, i + 1));
            }
        }
        lemma_replace_absent(rest, from, to);
        assert(seq![s[0]] + rest == s);
    }
}

/// White space is this.
pub proof fn law_white_space(c: char)
    ensures
        model::is_white(c) <==> {
            ||| c == '\t'
            ||| c == '\n'
            ||| c == '\u{b}'
            ||| c == '\u{c}'
            ||| c == '\r'
            ||| c == ' '
            ||| c == '\u{85}'
            ||| c == '\u{a0}'
            ||| c == '\u{1680}'
            ||| '\u{2000}' <= c <= '\u{200a}'
            ||| c == '\u{2028}'
            ||| c == '\u{2029}'
            ||| c == '\u{202f}'
            ||| c == '\u{205f}'
            ||| c == '\u{3000}'
        },
{
}

/// White space at both ends is taken off, and nothing else.
pub proof fn law_trim(a: Seq<char>, core: Seq<char>, b: Seq<char>)
    requires
        forall|i: int| 0 <= i < a.len() ==> model::is_white(#[trigger] a[i]),
        forall|i: int| 0 <= i < b.len() ==> model::is_white(#[trigger] b[i]),
        core.len() > 0 ==> !model::is_white(core[0]) && !model::is_white(core.last()),
    ensures
        model::trim(a + core + b) == core,
    decreases a.len(),
{
    let s = a + core + b;
    if a.len() > 0 {
        let rest = a.skip(1);
        assert forall|i: int| 0 <= i < rest.len() implies model::is_white(#[trigger] rest[i]) by {
            assert(rest[i] == a[i + 1]);
        }
        law_trim(rest, core, b);
        assert(s[0] == a[0]);
        assert(s.skip(1) == rest + core + b);
        assert(model::trim_start(s) == model::trim_start(s.skip(1)));
    } else {
        assert(s == core + b);
        if core.len() > 0 {
            assert(s[0] == core[0]);
            assert(model::trim_start(s) == s);
            lemma_trim_end_sum(core, b);
            lemma_trim_end_white(b);
            assert(core + Seq::<char>::empty() == core);
        } else {
            assert(s == b);
            lemma_trim_white(b);
        }
    }
}

/// Nothing is left of white space.
proof fn lemma_trim_end_white(b: Seq<char>)
    requires
        forall|i: int| 0 <= i < b.len() ==> model::is_white(#[trigger] b[i]),
    ensures
        model::trim_end(b) == Seq::<char>::empty(),
    decreases b.len(),
{
    if b.len() > 0 {
        let rest = b.drop_last();
        assert(model::is_white(b[b.len() - 1]));
        assert forall|i: int| 0 <= i < rest.len() implies model::is_white(#[trigger] rest[i]) by {
            assert(rest[i] == b[i]);
        }
        lemma_trim_end_white(rest);
    }
}

/// Nothing is left of white space.
proof fn lemma_trim_white(b: Seq<char>)
    requires
        forall|i: int| 0 <= i < b.len() ==> model::is_white(#[trigger] b[i]),
    ensures
        model::trim(b) == Seq::<char>::empty(),
    decreases b.len(),
{
    if b.len() > 0 {
        let rest = b.skip(1);
        assert(model::is_white(b[0]));
        assert forall|i: int| 0 <= i < rest.len() implies model::is_white(#[trigger] rest[i]) by {
            assert(rest[i] == b[i + 1]);
        }
        lemma_trim_white(rest);
    }
}

/// A line ends at a line feed, with or without a carriage return before it; what follows the
/// last line feed is a line where there is any.
pub proof fn law_lines(line: Seq<char>, rest: Seq<char>)
    requires
        !line.contains('\n'),
        line.len() > 0 ==> line.last() != '\r',
    ensures
        model::lines(line + seq!['\n'] + rest) == seq![line] + model::lines(rest),
        model::lines(line + seq!['\r'] + seq!['\n'] + rest) == seq![line] + model::lines(rest),
        line.len() > 0 ==> model::lines(line) == seq![line],
        model::lines(Seq::empty()).len() == 0,
{
    lemma_split_some(line, '\n', rest);
    let s = line + seq!['\n'] + rest;
    assert(s.take(line.len() as int) == line);
    assert(s.skip(line.len() as int + 1) == rest);
    let cr = line + seq!['\r'];
    if cr.contains('\n') {
        let i = choose|i: int| 0 <= i < cr.len() && cr[i] == '\n';
        if i < line.len() {
            assert(line[i] == '\n');
        }
    }
    lemma_split_some(cr, '\n', rest);
    let t = cr + seq!['\n'] + rest;
    assert(t.take(cr.len() as int) == cr);
    assert(t.skip(cr.len() as int + 1) == rest);
    assert(cr.drop_last() == line);
    lemma_split_none(line, '\n');
}

/// Words are what stands between white space.
pub proof fn law_words(pad: Seq<char>, w: Seq<char>, rest: Seq<char>)
    requires
        forall|i: int| 0 <= i < pad.len() ==> model::is_white(#[trigger] pad[i]),
        w.len() > 0,
        forall|i: int| 0 <= i < w.len() ==> !model::is_white(#[trigger] w[i]),
    ensures
        model::words(pad).len() == 0,
        model::words(pad + w) == seq![w],
        model::words(pad + (w + seq![' '] + rest)) == seq![w] + model::words(rest),
{
    lemma_words_pad(pad, Seq::empty());
    assert(pad + Seq::<char>::empty() == pad);
    lemma_words_pad(pad, w);
    lemma_words_pad(pad, w + seq![' '] + rest);
    lemma_one_word(w);
    lemma_words_cons(w, rest);
}

/// White space at the front makes no difference.
proof fn lemma_words_pad(pad: Seq<char>, s: Seq<char>)
    requires
        forall|i: int| 0 <= i < pad.len() ==> model::is_white(#[trigger] pad[i]),
    ensures
        model::words(pad + s) == model::words(s),
    decreases pad.len(),
{
    lemma_trim_start_pad(pad, s);
    lemma_trim_start(s);
    lemma_word_len(model::trim_start(s));
}

/// White space at the front is taken off.
proof fn lemma_trim_start_pad(pad: Seq<char>, s: Seq<char>)
    requires
        forall|i: int| 0 <= i < pad.len() ==> model::is_white(#[trigger] pad[i]),
    ensures
        model::trim_start(pad + s) == model::trim_start(s),
    decreases pad.len(),
{
    let all = pad + s;
    if pad.len() == 0 {
        assert(all == s);
    } else {
        let rest = pad.skip(1);
        assert(all[0] == pad[0]);
        assert forall|i: int| 0 <= i < rest.len() implies model::is_white(#[trigger] rest[i]) by {
            assert(rest[i] == pad[i + 1]);
        }
        lemma_trim_start_pad(rest, s);
        assert(all.skip(1) == rest + s);
    }
}

/// A text holds what stands anywhere in it.
pub proof fn law_contains(a: Seq<char>, needle: Seq<char>, b: Seq<char>, s: Seq<char>)
    ensures
        model::contains(a + needle + b, needle),
        model::contains(s, needle) ==> exists|x: Seq<char>, y: Seq<char>|
            s == #[trigger] (x + needle + y),
{
    let t = a + needle + b;
    assert(t.subrange(a.len() as int, a.len() as int + needle.len()) == needle);
    assert(model::stands_at(t, needle, a.len() as int));
    if model::contains(s, needle) {
        let i = choose|i: int| model::stands_at(s, needle, i);
        let x = s.take(i);
        let y = s.skip(i + needle.len());
        assert(s == x + needle + y);
    }
}

/// Only the letters from `a` to `z` change, each to its capital.
pub proof fn law_upper(c: char)
    ensures
        'a' <= c <= 'z' ==> model::upper(c) as u32 + 32 == c as u32,
        !('a' <= c <= 'z') ==> model::upper(c) == c,
{
}

/// A number in decimal has no zero in front, but for zero itself, and its digits stand for
/// it; a sign stands before a negative one.
pub proof fn law_decimal(n: nat, i: int)
    ensures
        model::all_digits(model::decimal(n)),
        model::digits_value(model::decimal(n)) == n,
        n > 0 ==> model::decimal(n)[0] != '0',
        n == 0 ==> model::decimal(n) == seq!['0'],
        i < 0 ==> model::decimal_int(i) == seq!['-'] + model::decimal((-i) as nat),
        i >= 0 ==> model::decimal_int(i) == model::decimal(i as nat),
    decreases n,
{
    lemma_decimal(n);
    if n >= 10 {
        law_decimal(n / 10, 0);
        lemma_decimal(n / 10);
        assert(model::decimal(n)[0] == model::decimal(n / 10)[0]);
    }
}

} // verus!
