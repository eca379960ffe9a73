//! Text as sequences of characters: searching, splitting, trimming.
//!
//! The functions work on `&[char]`; `chars_of` and `string_of` convert from
//! and to strings. Each one is stated over `Seq<char>`, the view that a slice
//! of characters, a `&str` and a `String` share.
use vstd::prelude::*;
use vstd::slice::slice_subrange;

pub mod lemmas;
pub mod model;
pub mod number;

verus! {

/// `String::push` appends one character.
pub assume_specification[ String::push ](s: &mut String, c: char)
    ensures
        final(s)@ == old(s)@.push(c),
;

/// The characters of a string.
pub fn chars_of(s: &str) -> (r: Vec<char>)
    ensures
        r@ == s@,
{
    let mut out: Vec<char> = Vec::new();
    for c in it: s.chars()
        invariant
            out@ == it.seq().take(it.index() as int),
            it.seq() == s@,
    {
        out.push(c);
    }
    out
}

/// The string made of the given characters.
pub fn string_of(cs: &[char]) -> (r: String)
    ensures
        r@ == cs@,
{
    let mut out = String::new();
    push_chars(&mut out, cs);
    out
}

/// Appends characters to a string.
pub fn push_chars(out: &mut String, cs: &[char])
    ensures
        final(out)@ == old(out)@ + cs@,
{
    let mut i: usize = 0;
    while i < cs.len()
        invariant
            i <= cs.len(),
            out@ == old(out)@ + cs@.take(i as int),
        decreases cs.len() - i,
    {
        out.push(cs[i]);
        i = i + 1;
        assert(cs@.take(i as int) == cs@.take(i - 1).push(cs@[i - 1]));
    }
    assert(cs@.take(i as int) == cs@);
}

/// Whether the characters spell the given string.
pub fn is_str(cs: &[char], lit: &str) -> (r: bool)
    ensures
        r == (cs@ == lit@),
{
    let other = chars_of(lit);
    if cs.len() != other.len() {
        return false;
    }
    let mut i: usize = 0;
    while i < cs.len()
        invariant
            i <= cs.len(),
            cs.len() == other.len(),
            other@ == lit@,
            forall|k: int| 0 <= k < i ==> cs@[k] == other@[k],
        decreases cs.len() - i,
    {
        if cs[i] != other[i] {
            return false;
        }
        i = i + 1;
    }
    assert(cs@ == lit@);
    true
}

/// The position of the first `c`; the length where there is none.
pub fn find(s: &[char], c: char) -> (r: usize)
    ensures
        r == model::first(s@, c),
        r <= s.len(),
{
    let mut i: usize = 0;
    while i < s.len()
        invariant
            i <= s.len(),
            forall|k: int| 0 <= k < i ==> s@[k] != c,
        decreases s.len() - i,
    {
        if s[i] == c {
            proof {
                lemmas::lemma_first_is(s@, c, i as nat);
            }
            return i;
        }
        i = i + 1;
    }
    proof {
        lemmas::lemma_first_is(s@, c, i as nat);
    }
    i
}

/// Whether `c` occurs.
pub fn has(s: &[char], c: char) -> (r: bool)
    ensures
        r == s@.contains(c),
{
    let n = find(s, c);
    proof {
        lemmas::lemma_first(s@, c);
    }
    n < s.len()
}

/// Cuts at the first `c`.
pub fn split_once(s: &[char], c: char) -> (r: Option<(&[char], &[char])>)
    ensures
        match r {
            Some((a, b)) => model::split_once(s@, c) == Some((a@, b@)),
            None => model::split_once(s@, c) is None,
        },
{
    let n = find(s, c);
    if n < s.len() {
        let a = slice_subrange(s, 0, n);
        let b = slice_subrange(s, n + 1, s.len());
        assert(a@ == s@.take(n as int));
        assert(b@ == s@.skip(n as int + 1));
        Some((a, b))
    } else {
        None
    }
}

/// Cuts at every `c`.
pub fn split(s: &[char], c: char) -> (r: Vec<&[char]>)
    ensures
        model::views(r@) == model::split(s@, c),
        r.len() > 0,
{
    let mut out: Vec<&[char]> = Vec::new();
    let mut rest: &[char] = s;
    assert(model::views(out@) + model::split(rest@, c) == model::split(s@, c));
    loop
        invariant
            model::views(out@) + model::split(rest@, c) == model::split(s@, c),
        decreases rest.len(),
    {
        let ghost before = out@;
        let ghost old_rest = rest@;
        match split_once(rest, c) {
            Some((a, b)) => {
                out.push(a);
                proof {
                    lemmas::lemma_first(old_rest, c);
                    assert(model::views(out@) == model::views(before).push(a@));
                    assert(model::split(old_rest, c) == seq![a@] + model::split(b@, c));
                    assert(model::views(out@) + model::split(b@, c) == model::views(before) + (seq![
                        a@,
                    ] + model::split(b@, c)));
                }
                rest = b;
            },
            None => {
                out.push(rest);
                proof {
                    assert(model::views(out@) == model::views(before).push(rest@));
                    assert(model::split(rest@, c) == seq![rest@]);
                    assert(model::views(out@) == model::views(before) + seq![rest@]);
                }
                return out;
            },
        }
    }
}

/// Cuts at every `c`, into at most `n` pieces.
pub fn split_n(s: &[char], c: char, n: usize) -> (r: Vec<&[char]>)
    ensures
        model::views(r@) == model::split_n(s@, c, n as nat),
{
    let mut out: Vec<&[char]> = Vec::new();
    let mut rest: &[char] = s;
    let mut left: usize = n;
    assert(model::views(out@) + model::split_n(rest@, c, left as nat) == model::split_n(
        s@,
        c,
        n as nat,
    ));
    while left > 0
        invariant
            model::views(out@) + model::split_n(rest@, c, left as nat) == model::split_n(
                s@,
                c,
                n as nat,
            ),
        decreases left,
    {
        let ghost before = out@;
        let ghost old_rest = rest@;
        let cut = split_once(rest, c);
        match cut {
            Some((a, b)) if left > 1 => {
                out.push(a);
                proof {
                    assert(model::views(out@) == model::views(before).push(a@));
                    assert(model::views(out@) + model::split_n(b@, c, (left - 1) as nat)
                        == model::views(before) + (seq![a@] + model::split_n(
                        b@,
                        c,
                        (left - 1) as nat,
                    )));
                }
                rest = b;
                left = left - 1;
            },
            _ => {
                out.push(rest);
                proof {
                    assert(model::views(out@) == model::views(before).push(rest@));
                    assert(model::views(out@) == model::views(before) + seq![rest@]);
                }
                return out;
            },
        }
    }
    assert(model::views(out@) + Seq::<Seq<char>>::empty() == model::views(out@));
    out
}

/// Whether the character is white space.
pub fn is_white(c: char) -> (r: bool)
    ensures
        r == model::is_white(c),
{
    let n: u32 = c as u32;
    (0x9 <= n && n <= 0xd) || n == 0x20 || n == 0x85 || n == 0xa0 || n == 0x1680 || (0x2000 <= n
        && n <= 0x200a) || n == 0x2028 || n == 0x2029 || n == 0x202f || n == 0x205f || n == 0x3000
}

/// The text without leading white space.
pub fn trim_start(s: &[char]) -> (r: &[char])
    ensures
        r@ == model::trim_start(s@),
        r.len() <= s.len(),
{
    let mut i: usize = 0;
    assert(s@.skip(0) == s@);
    while i < s.len() && is_white(s[i])
        invariant
            i <= s.len(),
            model::trim_start(s@.skip(i as int)) == model::trim_start(s@),
        decreases s.len() - i,
    {
        assert(s@.skip(i as int).skip(1) == s@.skip(i + 1));
        i = i + 1;
    }
    let r = slice_subrange(s, i, s.len());
    assert(r@ == s@.skip(i as int));
    r
}

/// The text without trailing white space.
pub fn trim_end(s: &[char]) -> (r: &[char])
    ensures
        r@ == model::trim_end(s@),
        r.len() <= s.len(),
{
    let mut i: usize = s.len();
    assert(s@.take(i as int) == s@);
    while i > 0 && is_white(s[i - 1])
        invariant
            i <= s.len(),
            model::trim_end(s@.take(i as int)) == model::trim_end(s@),
        decreases i,
    {
        assert(s@.take(i as int).drop_last() == s@.take(i - 1));
        i = i - 1;
    }
    let r = slice_subrange(s, 0, i);
    assert(r@ == s@.take(i as int));
    r
}

/// The text without leading and trailing white space.
pub fn trim(s: &[char]) -> (r: &[char])
    ensures
        r@ == model::trim(s@),
        r.len() <= s.len(),
{
    trim_end(trim_start(s))
}

/// The words of the text.
pub fn words(s: &[char]) -> (r: Vec<&[char]>)
    ensures
        model::views(r@) == model::words(s@),
{
    let mut out: Vec<&[char]> = Vec::new();
    let mut rest: &[char] = s;
    assert(model::views(out@) + model::words(rest@) == model::words(s@));
    loop
        invariant
            model::views(out@) + model::words(rest@) == model::words(s@),
        decreases rest.len(),
    {
        let ghost before = out@;
        let ghost old_rest = rest@;
        let t = trim_start(rest);
        let mut n: usize = 0;
        assert(t@.skip(0) == t@);
        while n < t.len() && !is_white(t[n])
            invariant
                n <= t.len(),
                n + model::word_len(t@.skip(n as int)) == model::word_len(t@),
            decreases t.len() - n,
        {
            assert(t@.skip(n as int).skip(1) == t@.skip(n + 1));
            n = n + 1;
        }
        proof {
            lemmas::lemma_trim_start(old_rest);
            lemmas::lemma_word_len(t@);
        }
        if n == 0 {
            assert(model::views(out@) + Seq::<Seq<char>>::empty() == model::views(out@));
            return out;
        }
        let word = slice_subrange(t, 0, n);
        let tail = slice_subrange(t, n, t.len());
        out.push(word);
        proof {
            assert(word@ == t@.take(n as int));
            assert(tail@ == t@.skip(n as int));
            assert(model::views(out@) == model::views(before).push(word@));
            assert(model::views(out@) + model::words(tail@) == model::views(before) + (seq![word@]
                + model::words(tail@)));
        }
        rest = tail;
    }
}

/// The lines of the text.
pub fn lines(s: &[char]) -> (r: Vec<&[char]>)
    ensures
        model::views(r@) == model::lines(s@),
{
    let mut out: Vec<&[char]> = Vec::new();
    let mut rest: &[char] = s;
    assert(model::views(out@) + model::lines(rest@) == model::lines(s@));
    while rest.len() > 0
        invariant
            model::views(out@) + model::lines(rest@) == model::lines(s@),
        decreases rest.len(),
    {
        let ghost before = out@;
        let n = find(rest, '\n');
        if n < rest.len() {
            let end = if n > 0 && rest[n - 1] == '\r' {
                n - 1
            } else {
                n
            };
            let line = slice_subrange(rest, 0, end);
            let tail = slice_subrange(rest, n + 1, rest.len());
            out.push(line);
            proof {
                assert(line@ == model::strip_cr(rest@.take(n as int)));
                assert(tail@ == rest@.skip(n as int + 1));
                assert(model::views(out@) == model::views(before).push(line@));
                assert(model::views(out@) + model::lines(tail@) == model::views(before) + (seq![
                    line@,
                ] + model::lines(tail@)));
            }
            rest = tail;
        } else {
            out.push(rest);
            proof {
                assert(model::views(out@) == model::views(before).push(rest@));
                assert(model::views(out@) == model::views(before) + seq![rest@]);
            }
            return out;
        }
    }
    assert(model::views(out@) + Seq::<Seq<char>>::empty() == model::views(out@));
    out
}

/// Whether `needle` stands in `s` at position `at`.
pub fn stands_at(s: &[char], needle: &[char], at: usize) -> (r: bool)
    requires
        at <= s.len(),
    ensures
        r == model::stands_at(s@, needle@, at as int),
{
    if s.len() - at < needle.len() {
        return false;
    }
    let mut i: usize = 0;
    while i < needle.len()
        invariant
            i <= needle.len(),
            at + needle.len() <= s.len(),
            forall|k: int| 0 <= k < i ==> s@[at + k] == needle@[k],
        decreases needle.len() - i,
    {
        if s[at + i] != needle[i] {
            assert(s@.subrange(at as int, at + needle.len())[i as int] != needle@[i as int]);
            return false;
        }
        i = i + 1;
    }
    assert(s@.subrange(at as int, at + needle.len()) == needle@);
    true
}

/// Whether `needle` stands somewhere in `s`.
pub fn contains(s: &[char], needle: &[char]) -> (r: bool)
    ensures
        r == model::contains(s@, needle@),
{
    let mut i: usize = 0;
    loop
        invariant
            i <= s.len(),
            forall|k: int| 0 <= k < i ==> !model::stands_at(s@, needle@, k),
        decreases s.len() - i,
    {
        if stands_at(s, needle, i) {
            return true;
        }
        if i == s.len() {
            assert(forall|k: int| k > s.len() ==> !model::stands_at(s@, needle@, k));
            return false;
        }
        i = i + 1;
    }
}

/// The text with `to` in place of each `from`.
pub fn replace(s: &[char], from: &[char], to: &[char]) -> (r: Vec<char>)
    ensures
        r@ == model::replace(s@, from@, to@),
{
    let mut out: Vec<char> = Vec::new();
    let mut i: usize = 0;
    assert(s@.skip(0) == s@);
    assert(out@ + model::replace(s@.skip(0), from@, to@) == model::replace(s@, from@, to@));
    while i < s.len()
        invariant
            i <= s.len(),
            out@ + model::replace(s@.skip(i as int), from@, to@) == model::replace(
                s@,
                from@,
                to@,
            ),
        decreases s.len() - i,
    {
        let ghost before = out@;
        let ghost rest = s@.skip(i as int);
        let hit = from.len() > 0 && stands_at(s, from, i);
        proof {
            if from.len() <= rest.len() {
                assert(rest.subrange(0, from@.len() as int) == s@.subrange(
                    i as int,
                    i + from@.len(),
                ));
            }
            assert(hit == (from@.len() > 0 && model::stands_at(rest, from@, 0)));
        }
        if hit {
            out.extend_from_slice(to);
            i = i + from.len();
            proof {
                assert(rest.skip(from@.len() as int) == s@.skip(i as int));
                assert(out@ == before + to@);
                assert(out@ + model::replace(s@.skip(i as int), from@, to@) == before + (to@
                    + model::replace(s@.skip(i as int), from@, to@)));
            }
        } else {
            out.push(s[i]);
            i = i + 1;
            proof {
                assert(rest.skip(1) == s@.skip(i as int));
                assert(out@ == before + seq![rest[0]]);
                if from@.len() > 0 {
                    assert(out@ + model::replace(s@.skip(i as int), from@, to@) == before + (seq![
                        rest[0],
                    ] + model::replace(s@.skip(i as int), from@, to@)));
                } else {
                    assert(out@ + s@.skip(i as int) == before + rest);
                }
            }
        }
    }
    assert(out@ + model::replace(s@.skip(i as int), from@, to@) == out@);
    out
}

/// The character, in upper case where it is an ASCII letter.
pub fn upper(c: char) -> (r: char)
    ensures
        r == model::upper(c),
{
    if 'a' <= c && c <= 'z' {
        ((c as u8) - 32) as char
    } else {
        c
    }
}

/// The text with its ASCII letters in upper case.
pub fn to_upper(s: &[char]) -> (r: Vec<char>)
    ensures
        r@ == model::to_upper(s@),
{
    let mut out: Vec<char> = Vec::new();
    let mut i: usize = 0;
    while i < s.len()
        invariant
            i <= s.len(),
            out@ == model::to_upper(s@).take(i as int),
        decreases s.len() - i,
    {
        out.push(upper(s[i]));
        i = i + 1;
        assert(model::to_upper(s@).take(i as int) == model::to_upper(s@).take(i - 1).push(
            model::to_upper(s@)[i - 1],
        ));
    }
    assert(model::to_upper(s@).take(i as int) == model::to_upper(s@));
    out
}

/// Whether `a` comes before `b`, or is it, in the order of the code points.
pub fn le(a: &[char], b: &[char]) -> (r: bool)
    ensures
        r == model::le(a@, b@),
{
    let mut i: usize = 0;
    assert(a@.skip(0) == a@);
    assert(b@.skip(0) == b@);
    while i < a.len() && i < b.len()
        invariant
            i <= a.len(),
            i <= b.len(),
            model::le(a@.skip(i as int), b@.skip(i as int)) == model::le(a@, b@),
        decreases a.len() - i,
    {
        if a[i] != b[i] {
            return a[i] < b[i];
        }
        assert(a@.skip(i as int).skip(1) == a@.skip(i + 1));
        assert(b@.skip(i as int).skip(1) == b@.skip(i + 1));
        i = i + 1;
    }
    i == a.len()
}

/// A copy of the strings.
pub fn copy_strings(v: &[String]) -> (r: Vec<String>)
    ensures
        model::texts(r@) == model::texts(v@),
{
    let mut out: Vec<String> = Vec::new();
    let mut i: usize = 0;
    while i < v.len()
        invariant
            i <= v.len(),
            model::texts(out@) == model::texts(v@).take(i as int),
        decreases v.len() - i,
    {
        let ghost before = out@;
        let s = v[i].clone();
        out.push(s);
        assert(model::texts(out@) == model::texts(before).push(s@));
        assert(model::texts(v@).take(i + 1) == model::texts(v@).take(i as int).push(v@[i as int]@));
        i = i + 1;
    }
    assert(model::texts(v@).take(i as int) == model::texts(v@));
    out
}

} // verus!
