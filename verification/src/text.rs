//! Character level operations on text.
//!
//! A text is modelled by the sequence of its characters.
use vstd::prelude::*;
use vstd::string::*;
use vstd::utf8::*;

verus! {

/// `String::push` appends the character `c` to the end of `s`.
pub assume_specification[ String::push ](s: &mut String, c: char)
    ensures
        final(s)@ == old(s)@.push(c),
;

/// Whether `c` has the Unicode property White_Space.
pub open spec fn white_space(c: char) -> bool {
    ||| '\u{9}' <= c <= '\u{d}'
    ||| c == ' '
    ||| c == '\u{85}'
    ||| c == '\u{a0}'
    ||| c == '\u{1680}'
    ||| '\u{2000}' <= c <= '\u{200a}'
    ||| c == '\u{2028}'
    ||| c == '\u{2029}'
    ||| c == '\u{202f}'
    ||| c == '\u{205f}'
    ||| c == '\u{3000}'
}

/// `s` without the white space at its two ends.
pub open spec fn trimmed(s: Seq<char>) -> Seq<char>
    decreases s.len(),
{
    if s.len() > 0 && white_space(s.first()) {
        trimmed(s.drop_first())
    } else if s.len() > 0 && white_space(s.last()) {
        trimmed(s.drop_last())
    } else {
        s
    }
}

/// Whether `pattern` stands somewhere in `s`.
pub open spec fn occurs(s: Seq<char>, pattern: Seq<char>) -> bool {
    exists|i: int|
        0 <= i <= s.len() - pattern.len() && #[trigger] s.subrange(i, i + pattern.len()) == pattern
}

/// `s` with every occurrence of `from` replaced by `to`. Occurrences are taken from left to
/// right and do not overlap.
pub open spec fn replaced(s: Seq<char>, from: Seq<char>, to: Seq<char>) -> Seq<char>
    decreases s.len(),
{
    if s.len() == 0 || from.len() == 0 {
        s
    } else if from.is_prefix_of(s) {
        to + replaced(s.skip(from.len() as int), from, to)
    } else {
        seq![s.first()] + replaced(s.drop_first(), from, to)
    }
}

/// The position of the first `c` in `s`, or the length of `s` where there is none.
pub open spec fn first_position(s: Seq<char>, c: char) -> int
    decreases s.len(),
{
    if s.len() == 0 || s.first() == c {
        0
    } else {
        1 + first_position(s.drop_first(), c)
    }
}

/// The decimal digits of `n`, without leading zeros.
pub open spec fn decimal(n: nat) -> Seq<char>
    decreases n,
{
    let last = seq![(('0' as int) + n % 10) as char];
    if n < 10 {
        last
    } else {
        decimal(n / 10) + last
    }
}

/// Replacing a pattern that does not occur changes nothing.
pub proof fn law_replaced_absent(s: Seq<char>, from: Seq<char>, to: Seq<char>)
    requires
        !occurs(s, from),
    ensures
        replaced(s, from, to) == s,
    decreases s.len(),
{
    if s.len() > 0 && from.len() > 0 {
        if from.is_prefix_of(s) {
            assert(s.subrange(0int, 0int + from.len()) == from);
        }
        let rest = s.drop_first();
        assert forall|i: int| 0 <= i <= rest.len() - from.len() implies #[trigger] rest.subrange(
            i,
            i + from.len(),
        ) != from by {
            assert(rest.subrange(i, i + from.len()) == s.subrange(i + 1, i + 1 + from.len()));
        }
        law_replaced_absent(rest, from, to);
    }
}

/// An occurrence at the very start is replaced, and what follows it is dealt with on its own.
pub proof fn law_replaced_leading(from: Seq<char>, rest: Seq<char>, to: Seq<char>)
    requires
        from.len() > 0,
    ensures
        replaced(from + rest, from, to) == to + replaced(rest, from, to),
{
    assert(from.is_prefix_of(from + rest));
    assert((from + rest).skip(from.len() as int) == rest);
}

/// A character that the pattern does not hold parts a text: the pattern is replaced in what
/// stands on its two sides separately.
pub proof fn law_replaced_on_both_sides(
    a: Seq<char>,
    c: char,
    b: Seq<char>,
    from: Seq<char>,
    to: Seq<char>,
)
    requires
        !from.contains(c),
    ensures
        replaced(a + seq![c] + b, from, to) == replaced(a, from, to) + seq![c] + replaced(
            b,
            from,
            to,
        ),
    decreases a.len(),
{
    let s = a + seq![c] + b;
    assert(s[a.len() as int] == c);
    if from.len() > 0 {
        if from.is_prefix_of(s) && from.len() > a.len() {
            assert(from[a.len() as int] == s.subrange(0, from.len() as int)[a.len() as int]);
        }
        if a.len() == 0 {
            assert(s.drop_first() == b);
        } else if from.is_prefix_of(s) {
            let rest = a.skip(from.len() as int);
            assert(a.subrange(0, from.len() as int) == s.subrange(0, from.len() as int));
            assert(s.skip(from.len() as int) == rest + seq![c] + b);
            law_replaced_on_both_sides(rest, c, b, from, to);
        } else {
            if from.is_prefix_of(a) {
                assert(a.subrange(0, from.len() as int) == s.subrange(0, from.len() as int));
            }
            assert(s.drop_first() == a.drop_first() + seq![c] + b);
            law_replaced_on_both_sides(a.drop_first(), c, b, from, to);
        }
    }
}

/// A character that neither the text nor the replacement holds does not come in.
pub proof fn law_replaced_adds_no_character(
    s: Seq<char>,
    from: Seq<char>,
    to: Seq<char>,
    c: char,
)
    requires
        !s.contains(c),
        !to.contains(c),
    ensures
        !replaced(s, from, to).contains(c),
    decreases s.len(),
{
    if s.len() > 0 && from.len() > 0 {
        let (head, rest) = if from.is_prefix_of(s) {
            (to, s.skip(from.len() as int))
        } else {
            (seq![s.first()], s.drop_first())
        };
        assert(forall|i: int| 0 <= i < rest.len() ==> s.contains(#[trigger] rest[i]));
        law_replaced_adds_no_character(rest, from, to, c);
        let res = replaced(s, from, to);
        assert(res == head + replaced(rest, from, to));
        assert forall|i: int| 0 <= i < res.len() implies #[trigger] res[i] != c by {
            if i < head.len() {
                assert(res[i] == head[i]);
            } else {
                assert(res[i] == replaced(rest, from, to)[i - head.len()]);
            }
        }
    }
}

/// The first occurrence of the pattern, wherever it stands, is replaced. What stands before it stays
/// as it was, and what stands behind it is dealt with on its own.
pub proof fn law_replaced_first_occurrence(
    before: Seq<char>,
    from: Seq<char>,
    rest: Seq<char>,
    to: Seq<char>,
)
    requires
        from.len() > 0,
        forall|i: int|
            0 <= i < before.len() ==> #[trigger] (before + from + rest).subrange(
                i,
                i + from.len(),
            ) != from,
    ensures
        replaced(before + from + rest, from, to) == before + to + replaced(rest, from, to),
    decreases before.len(),
{
    let s = before + from + rest;
    if before.len() == 0 {
        assert(s == from + rest);
        law_replaced_leading(from, rest, to);
    } else {
        let less = before.drop_first();
        assert(s.drop_first() == less + from + rest);
        assert(s.subrange(0int, 0int + from.len()) != from);
        assert forall|i: int| 0 <= i < less.len() implies #[trigger] (less + from + rest).subrange(
            i,
            i + from.len(),
        ) != from by {
            assert((less + from + rest).subrange(i, i + from.len()) == s.subrange(
                i + 1,
                i + 1 + from.len(),
            ));
        }
        law_replaced_first_occurrence(less, from, rest, to);
        assert(before == seq![s.first()] + less);
    }
}

/// Where the pattern stands nowhere, nothing is replaced.
pub proof fn law_nothing_is_replaced(s: Seq<char>, from: Seq<char>, to: Seq<char>)
    requires
        forall|i: int|
            0 <= i <= s.len() - from.len() ==> #[trigger] s.subrange(i, i + from.len()) != from,
    ensures
        !occurs(s, from),
        replaced(s, from, to) == s,
{
    law_replaced_absent(s, from, to);
}

/// The white space is the characters with these codes.
pub proof fn law_white_space_codes(c: char)
    ensures
        white_space(c) <==> {
            ||| 9 <= c as u32 <= 13
            ||| c as u32 == 32
            ||| c as u32 == 133
            ||| c as u32 == 160
            ||| c as u32 == 5760
            ||| 8192 <= c as u32 <= 8202
            ||| 8232 <= c as u32 <= 8233
            ||| c as u32 == 8239
            ||| c as u32 == 8287
            ||| c as u32 == 12288
        },
{
}

/// Of white space, a text without white space at its ends, and white space again, the text is left.
pub proof fn law_trimmed_keeps_the_middle(before: Seq<char>, middle: Seq<char>, after: Seq<char>)
    requires
        forall|i: int| 0 <= i < before.len() ==> white_space(#[trigger] before[i]),
        forall|i: int| 0 <= i < after.len() ==> white_space(#[trigger] after[i]),
        middle.len() > 0 ==> !white_space(middle.first()) && !white_space(middle.last()),
    ensures
        trimmed(before + middle + after) == middle,
    decreases before.len() + after.len(),
{
    let s = before + middle + after;
    if before.len() > 0 {
        assert(s.first() == before[0]);
        assert(s.drop_first() == before.drop_first() + middle + after);
        law_trimmed_keeps_the_middle(before.drop_first(), middle, after);
    } else if after.len() > 0 {
        assert(s.last() == after.last());
        if middle.len() > 0 {
            assert(s.first() == middle.first());
            assert(s.drop_last() == before + middle + after.drop_last());
            law_trimmed_keeps_the_middle(before, middle, after.drop_last());
        } else {
            assert(s.first() == after[0]);
            assert(s.drop_first() == before + middle + after.drop_first());
            law_trimmed_keeps_the_middle(before, middle, after.drop_first());
        }
    } else {
        assert(s == middle);
    }
}

/// A decimal text consists of digits, its first is no zero unless it is the only one, and read as a
/// number it gives back the number.
pub proof fn law_decimal_reads_back(n: nat)
    ensures
        decimal(n).len() > 0,
        forall|i: int| 0 <= i < decimal(n).len() ==> '0' <= #[trigger] decimal(n)[i] <= '9',
        decimal(n)[0] == '0' ==> decimal(n).len() == 1,
        decimal(n).fold_left(0, |value: int, c: char| 10 * value + (c as int - '0' as int)) == n,
    decreases n,
{
    let read = |value: int, c: char| 10 * value + (c as int - '0' as int);
    let last = (('0' as int) + n % 10) as char;
    assert(last as int == '0' as int + n % 10);
    reveal_with_fuel(Seq::fold_left, 2);
    if n < 10 {
        assert(decimal(n) == seq![last]);
        assert(decimal(n).drop_last() == Seq::<char>::empty());
    } else {
        law_decimal_reads_back(n / 10);
        assert(decimal(n) == decimal(n / 10).push(last));
        assert(decimal(n).drop_last() == decimal(n / 10));
        if decimal(n)[0] == '0' {
            assert(decimal(n / 10)[0] == '0');
            assert(decimal(n / 10) == seq!['0']);
            assert(decimal(n / 10).drop_last() == Seq::<char>::empty());
        }
    }
}

/// Trimming leaves nothing to trim.
pub proof fn law_trimmed_ends(s: Seq<char>)
    ensures
        trimmed(s).len() > 0 ==> !white_space(trimmed(s).first()) && !white_space(
            trimmed(s).last(),
        ),
        trimmed(trimmed(s)) == trimmed(s),
    decreases s.len(),
{
    if s.len() > 0 && white_space(s.first()) {
        law_trimmed_ends(s.drop_first());
    } else if s.len() > 0 && white_space(s.last()) {
        law_trimmed_ends(s.drop_last());
    }
}

/// Nothing is left of a text of nothing but white space.
pub proof fn law_trimmed_blank(s: Seq<char>)
    requires
        forall|i: int| 0 <= i < s.len() ==> white_space(#[trigger] s[i]),
    ensures
        trimmed(s).len() == 0,
    decreases s.len(),
{
    if s.len() > 0 {
        law_trimmed_blank(s.drop_first());
    }
}

/// [`first_position`] is the position of a `c` with no `c` before it, where there is a `c` at all.
pub proof fn law_first_position(s: Seq<char>, c: char)
    ensures
        0 <= first_position(s, c) <= s.len(),
        forall|i: int| 0 <= i < first_position(s, c) ==> s[i] != c,
        first_position(s, c) < s.len() ==> s[first_position(s, c)] == c,
        first_position(s, c) < s.len() <==> s.contains(c),
    decreases s.len(),
{
    if s.len() > 0 && s.first() != c {
        law_first_position(s.drop_first(), c);
        assert forall|i: int| 0 <= i < first_position(s, c) implies s[i] != c by {
            if i > 0 {
                assert(s[i] == s.drop_first()[i - 1]);
            }
        }
    }
}

/// Decides [`white_space`].
fn is_white_space(c: char) -> (res: bool)
    ensures
        res == white_space(c),
{
    ('\u{9}' <= c && c <= '\u{d}') || c == ' ' || c == '\u{85}' || c == '\u{a0}' || c == '\u{1680}'
        || ('\u{2000}' <= c && c <= '\u{200a}') || c == '\u{2028}' || c == '\u{2029}' || c
        == '\u{202f}' || c == '\u{205f}' || c == '\u{3000}'
}

/// The characters of `s`, in order.
pub fn chars_of(s: &str) -> (res: Vec<char>)
    ensures
        res@ == s@,
{
    let mut res: Vec<char> = Vec::new();
    for c in it: s.chars()
        invariant
            res@ == s@.take(it.index() as int),
            it.seq() == s@,
    {
        res.push(c);
    }
    res
}

/// The text made of the characters `chars`.
pub fn text_of(chars: &Vec<char>) -> (res: String)
    ensures
        res@ == chars@,
{
    let mut res = String::new();
    let mut i: usize = 0;
    while i < chars.len()
        invariant
            i <= chars.len(),
            res@ == chars@.take(i as int),
        decreases chars.len() - i,
    {
        res.push(chars[i]);
        i += 1;
    }
    res
}

/// Whether two texts are the same.
pub fn same_text(a: &str, b: &str) -> (res: bool)
    ensures
        res == (a@ == b@),
{
    let x = a.as_bytes();
    let y = b.as_bytes();
    proof {
        encode_utf8_decode_utf8(a@);
        encode_utf8_decode_utf8(b@);
    }
    if x.len() != y.len() {
        return false;
    }
    let mut i: usize = 0;
    while i < x.len()
        invariant
            i <= x@.len() == y@.len(),
            x@ == encode_utf8(a@),
            y@ == encode_utf8(b@),
            x@.take(i as int) == y@.take(i as int),
        decreases x@.len() - i,
    {
        if x[i] != y[i] {
            return false;
        }
        i += 1;
    }
    assert(x@.take(i as int) == x@);
    assert(y@.take(i as int) == y@);
    true
}

/// Whether `pattern` stands in `s` at position `at`.
fn stands_at(s: &Vec<char>, at: usize, pattern: &Vec<char>) -> (res: bool)
    requires
        at <= s@.len(),
    ensures
        res == pattern@.is_prefix_of(s@.skip(at as int)),
{
    if s.len() - at < pattern.len() {
        return false;
    }
    let mut i: usize = 0;
    while i < pattern.len()
        invariant
            i <= pattern.len() <= s.len() - at,
            forall|j: int| 0 <= j < i ==> pattern@[j] == s@[at + j],
        decreases pattern.len() - i,
    {
        if s[at + i] != pattern[i] {
            return false;
        }
        i += 1;
    }
    true
}

/// Whether `s` begins with `pattern`.
pub fn begins_with(s: &str, pattern: &str) -> (res: bool)
    ensures
        res == pattern@.is_prefix_of(s@),
{
    let s = chars_of(s);
    let pattern = chars_of(pattern);
    stands_at(&s, 0, &pattern)
}

/// [`replaced`] on characters.
pub fn replace_all(s: &Vec<char>, from: &str, to: &str) -> (res: Vec<char>)
    ensures
        res@ == replaced(s@, from@, to@),
{
    let from = chars_of(from);
    let to = chars_of(to);
    let mut res: Vec<char> = Vec::new();
    let mut i: usize = 0;
    assert(s@.skip(0) == s@);
    while i < s.len()
        invariant
            i <= s@.len(),
            replaced(s@, from@, to@) == res@ + replaced(s@.skip(i as int), from@, to@),
        decreases s.len() - i,
    {
        let ghost before = res@;
        if from.len() > 0 && stands_at(s, i, &from) {
            let mut k: usize = 0;
            while k < to.len()
                invariant
                    k <= to@.len(),
                    res@ == before + to@.take(k as int),
                decreases to.len() - k,
            {
                res.push(to[k]);
                k += 1;
            }
            assert(s@.skip(i as int).skip(from@.len() as int) == s@.skip(i + from@.len()));
            i += from.len();
        } else {
            res.push(s[i]);
            assert(s@.skip(i as int).drop_first() == s@.skip(i + 1));
            i += 1;
        }
    }
    res
}

/// The position of the first `c` in `s`, or the length of `s` where there is none.
pub fn find_char(s: &Vec<char>, c: char) -> (res: usize)
    ensures
        res == first_position(s@, c),
        res <= s@.len(),
{
    let mut i: usize = 0;
    assert(s@.skip(0) == s@);
    while i < s.len() && s[i] != c
        invariant
            i <= s@.len(),
            first_position(s@, c) == i + first_position(s@.skip(i as int), c),
        decreases s.len() - i,
    {
        assert(s@.skip(i as int).drop_first() == s@.skip(i + 1));
        i += 1;
    }
    i
}

/// [`trimmed`] on a text.
pub fn trim(s: &str) -> (res: &str)
    ensures
        res@ == trimmed(s@),
{
    let chars = chars_of(s);
    let mut from: usize = 0;
    let mut to: usize = chars.len();
    assert(s@.subrange(0, to as int) == s@);
    while from < to && is_white_space(chars[from])
        invariant
            from <= to == chars@.len(),
            chars@ == s@,
            trimmed(s@) == trimmed(s@.subrange(from as int, to as int)),
        decreases to - from,
    {
        assert(s@.subrange(from as int, to as int).drop_first() == s@.subrange(
            from + 1,
            to as int,
        ));
        from += 1;
    }
    while from < to && is_white_space(chars[to - 1])
        invariant
            from <= to <= chars@.len(),
            chars@ == s@,
            from < to ==> !white_space(s@[from as int]),
            trimmed(s@) == trimmed(s@.subrange(from as int, to as int)),
        decreases to - from,
    {
        assert(s@.subrange(from as int, to as int).drop_last() == s@.subrange(
            from as int,
            to - 1,
        ));
        to -= 1;
    }
    s.substring_char(from, to)
}

/// [`decimal`] as a text.
pub fn decimal_text(n: usize) -> (res: String)
    ensures
        res@ == decimal(n as nat),
    decreases n,
{
    let digit = match n % 10 {
        0 => '0',
        1 => '1',
        2 => '2',
        3 => '3',
        4 => '4',
        5 => '5',
        6 => '6',
        7 => '7',
        8 => '8',
        _ => '9',
    };
    let mut res = if n < 10 {
        String::new()
    } else {
        decimal_text(n / 10)
    };
    res.push(digit);
    res
}

/// `a` followed by `b`.
pub fn join(a: &str, b: &str) -> (res: String)
    ensures
        res@ == a@ + b@,
{
    let mut res = a.to_owned();
    res.append(b);
    res
}

} // verus!
