//! Trimming and splitting of text, over sequences of characters.

use vstd::arithmetic::div_mod::{lemma_fundamental_div_mod, lemma_mod_multiples_vanish};
use vstd::prelude::*;

verus! {

/// Whether `c` is white space: one of the code points that carry the Unicode
/// property `White_Space`.
pub open spec fn is_white_space(c: char) -> bool {
    let n = c as u32;
    ||| 0x09 <= n <= 0x0D
    ||| n == 0x20
    ||| n == 0x85
    ||| n == 0xA0
    ||| n == 0x1680
    ||| 0x2000 <= n <= 0x200A
    ||| n == 0x2028
    ||| n == 0x2029
    ||| n == 0x202F
    ||| n == 0x205F
    ||| n == 0x3000
}

/// `s` without the white space it begins with.
pub open spec fn trimmed_start(s: Seq<char>) -> Seq<char>
    decreases s.len(),
{
    if s.len() > 0 && is_white_space(s.first()) {
        trimmed_start(s.drop_first())
    } else {
        s
    }
}

/// `s` without the white space it ends with.
pub open spec fn trimmed_end(s: Seq<char>) -> Seq<char>
    decreases s.len(),
{
    if s.len() > 0 && is_white_space(s.last()) {
        trimmed_end(s.drop_last())
    } else {
        s
    }
}

/// `s` without the white space at either end.
pub open spec fn trimmed(s: Seq<char>) -> Seq<char> {
    trimmed_end(trimmed_start(s))
}

/// The pieces of `s` between occurrences of `sep`, in order. There is always
/// at least one piece, and a piece may be empty.
pub open spec fn split_on(s: Seq<char>, sep: char) -> Seq<Seq<char>>
    decreases s.len(),
{
    if s.len() == 0 {
        seq![Seq::<char>::empty()]
    } else {
        let before = split_on(s.drop_last(), sep);
        if s.last() == sep {
            before.push(Seq::<char>::empty())
        } else {
            before.drop_last().push(before.last().push(s.last()))
        }
    }
}

/// The pieces joined again, with `sep` between neighbours.
pub open spec fn joined(pieces: Seq<Seq<char>>, sep: char) -> Seq<char>
    decreases pieces.len(),
{
    if pieces.len() == 0 {
        Seq::<char>::empty()
    } else if pieces.len() == 1 {
        pieces[0]
    } else {
        joined(pieces.drop_last(), sep).push(sep) + pieces.last()
    }
}

/// Cutting `start` characters of white space off the front of `s` is trimming
/// its start, when the cut ends at the end of `s` or before other text.
pub proof fn lemma_trimmed_start_is_skip(s: Seq<char>, start: int)
    requires
        0 <= start <= s.len(),
        forall|i: int| 0 <= i < start ==> is_white_space(#[trigger] s[i]),
        start == s.len() || !is_white_space(s[start]),
    ensures
        trimmed_start(s) == s.skip(start),
    decreases start,
{
    if start > 0 {
        lemma_trimmed_start_is_skip(s.drop_first(), start - 1);
    }
}

/// Keeping the first `end` characters of `s` is trimming its end, when all
/// that follows is white space and the kept part is empty or ends in other
/// text.
pub proof fn lemma_trimmed_end_is_take(s: Seq<char>, end: int)
    requires
        0 <= end <= s.len(),
        forall|i: int| end <= i < s.len() ==> is_white_space(#[trigger] s[i]),
        end == 0 || !is_white_space(s[end - 1]),
    ensures
        trimmed_end(s) == s.take(end),
    decreases s.len() - end,
{
    if end < s.len() {
        lemma_trimmed_end_is_take(s.drop_last(), end);
    }
}

/// How many characters of white space `s` begins with.
pub open spec fn white_space_before(s: Seq<char>) -> int
    decreases s.len(),
{
    if s.len() > 0 && is_white_space(s.first()) {
        1 + white_space_before(s.drop_first())
    } else {
        0
    }
}

/// How many characters of white space `s` ends with.
pub open spec fn white_space_after(s: Seq<char>) -> int
    decreases s.len(),
{
    if s.len() > 0 && is_white_space(s.last()) {
        1 + white_space_after(s.drop_last())
    } else {
        0
    }
}

/// The white space that `s` begins with ends at the end of `s` or before
/// other text.
pub proof fn lemma_white_space_before(s: Seq<char>)
    ensures
        0 <= white_space_before(s) <= s.len(),
        forall|i: int| 0 <= i < white_space_before(s) ==> is_white_space(#[trigger] s[i]),
        white_space_before(s) == s.len() || !is_white_space(s[white_space_before(s)]),
    decreases s.len(),
{
    if s.len() > 0 && is_white_space(s.first()) {
        let rest = s.drop_first();
        lemma_white_space_before(rest);
        assert forall|i: int| 0 <= i < white_space_before(s) implies is_white_space(
            #[trigger] s[i],
        ) by {
            if i > 0 {
                assert(s[i] == rest[i - 1]);
            }
        }
    }
}

/// The white space that `s` ends with begins at the start of `s` or behind
/// other text.
pub proof fn lemma_white_space_after(s: Seq<char>)
    ensures
        0 <= white_space_after(s) <= s.len(),
        forall|i: int|
            s.len() - white_space_after(s) <= i < s.len() ==> is_white_space(#[trigger] s[i]),
        white_space_after(s) == s.len() || !is_white_space(s[s.len() - white_space_after(s) - 1]),
    decreases s.len(),
{
    if s.len() > 0 && is_white_space(s.last()) {
        let rest = s.drop_last();
        lemma_white_space_after(rest);
        assert forall|i: int| s.len() - white_space_after(s) <= i < s.len() implies is_white_space(
            #[trigger] s[i],
        ) by {
            if i < s.len() - 1 {
                assert(s[i] == rest[i]);
            }
        }
    }
}

/// Trimming cuts white space off the two ends and changes nothing else.
/// What is left is one stretch of the text; all that is cut before it and
/// behind it is white space; and it is empty or begins and ends with a
/// character that is no white space.
pub proof fn lemma_trimmed_is_the_core(s: Seq<char>) -> (ends: (int, int))
    ensures
        0 <= ends.0 <= ends.1 <= s.len(),
        trimmed(s) == s.subrange(ends.0, ends.1),
        forall|i: int| 0 <= i < ends.0 ==> is_white_space(#[trigger] s[i]),
        forall|i: int| ends.1 <= i < s.len() ==> is_white_space(#[trigger] s[i]),
        ends.0 < ends.1 ==> !is_white_space(s[ends.0]) && !is_white_space(s[ends.1 - 1]),
        ends.0 < ends.1 ==> !is_white_space(trimmed(s).first()) && !is_white_space(
            trimmed(s).last(),
        ),
{
    let start = white_space_before(s);
    lemma_white_space_before(s);
    lemma_trimmed_start_is_skip(s, start);
    let tail = s.skip(start);
    let kept = tail.len() - white_space_after(tail);
    lemma_white_space_after(tail);
    lemma_trimmed_end_is_take(tail, kept);
    let end = start + kept;
    assert forall|i: int| end <= i < s.len() implies is_white_space(#[trigger] s[i]) by {
        assert(s[i] == tail[i - start]);
    }
    (start, end)
}

/// Text that is trimmed has nothing left to trim.
pub proof fn lemma_trimmed_twice(s: Seq<char>)
    ensures
        trimmed(trimmed(s)) == trimmed(s),
{
    lemma_trimmed_is_the_core(s);
    let core = trimmed(s);
    if core.len() > 0 {
        lemma_trimmed_start_is_skip(core, 0);
        lemma_trimmed_end_is_take(core, core.len() as int);
    }
}

/// No piece of a split holds the separator.
pub proof fn lemma_split_pieces_lack_separator(s: Seq<char>, sep: char)
    ensures
        split_on(s, sep).len() >= 1,
        forall|k: int, i: int|
            0 <= k < split_on(s, sep).len() && 0 <= i < split_on(s, sep)[k].len()
                ==> #[trigger] split_on(s, sep)[k][i] != sep,
    decreases s.len(),
{
    if s.len() > 0 {
        lemma_split_pieces_lack_separator(s.drop_last(), sep);
    }
}

/// Joining the pieces of a split with the separator gives the text back.
pub proof fn lemma_split_then_join(s: Seq<char>, sep: char)
    ensures
        joined(split_on(s, sep), sep) == s,
    decreases s.len(),
{
    if s.len() > 0 {
        let front = s.drop_last();
        let before = split_on(front, sep);
        lemma_split_pieces_lack_separator(front, sep);
        lemma_split_then_join(front, sep);
        if s.last() == sep {
            let pieces = before.push(Seq::<char>::empty());
            assert(pieces.drop_last() =~= before);
        } else {
            let grown = before.last().push(s.last());
            let pieces = before.drop_last().push(grown);
            if before.len() > 1 {
                assert(pieces.drop_last() =~= before.drop_last());
            }
            assert(front.push(s.last()) =~= s);
        }
    }
}

/// Whether `c` is one of the digits `0` to `9`.
pub open spec fn is_decimal_digit(c: char) -> bool {
    '0' <= c <= '9'
}

/// The number that a text of decimal digits writes. A text that is empty or
/// holds anything but digits writes none.
pub open spec fn decimal(text: Seq<char>) -> Option<nat>
    decreases text.len(),
{
    if text.len() == 0 || !is_decimal_digit(text.last()) {
        None
    } else if text.len() == 1 {
        Some((text.last() as u32 - '0' as u32) as nat)
    } else {
        match decimal(text.drop_last()) {
            Some(front) => Some(front * 10 + (text.last() as u32 - '0' as u32) as nat),
            None => None,
        }
    }
}

/// Tells white space from other characters.
pub fn is_whitespace(c: char) -> (b: bool)
    ensures
        b == is_white_space(c),
{
    let n: u32 = c as u32;
    (0x09 <= n && n <= 0x0D) || n == 0x20 || n == 0x85 || n == 0xA0 || n == 0x1680 || (0x2000 <= n
        && n <= 0x200A) || n == 0x2028 || n == 0x2029 || n == 0x202F || n == 0x205F || n == 0x3000
}

/// The characters of `s`, one element each.
pub fn characters(s: &str) -> (out: Vec<char>)
    ensures
        out@ == s@,
{
    let mut out: Vec<char> = Vec::new();
    for c in it: s.chars()
        invariant
            out@ == it.seq().take(it.index() as int),
            it.seq() == s@,
    {
        out.push(c);
    }
    out
}

/// The part of `s` that is left when the white space at both ends is taken
/// away.
pub fn trim<'a>(s: &'a str) -> (t: &'a str)
    ensures
        t@ == trimmed(s@),
{
    let chars = characters(s);
    let n: usize = chars.len();
    let mut start: usize = 0;
    while start < n && is_whitespace(chars[start])
        invariant
            start <= n,
            n == chars.len(),
            forall|i: int| 0 <= i < start ==> is_white_space(#[trigger] chars@[i]),
        decreases n - start,
    {
        start = start + 1;
    }
    let mut end: usize = n;
    while end > start && is_whitespace(chars[end - 1])
        invariant
            start <= end <= n,
            n == chars.len(),
            forall|i: int| end <= i < n ==> is_white_space(#[trigger] chars@[i]),
        decreases end,
    {
        end = end - 1;
    }
    proof {
        lemma_trimmed_start_is_skip(s@, start as int);
        lemma_trimmed_end_is_take(s@.skip(start as int), end - start);
    }
    s.substring_char(start, end)
}

/// The pieces of `s` between occurrences of `sep`, each as a string of its
/// own.
pub fn split(s: &str, sep: char) -> (pieces: Vec<String>)
    ensures
        pieces.deep_view() == split_on(s@, sep),
{
    let chars = characters(s);
    let n: usize = chars.len();
    let mut pieces: Vec<String> = Vec::new();
    let mut start: usize = 0;
    let mut i: usize = 0;
    proof {
        assert(s@.subrange(0, 0) =~= Seq::<char>::empty());
    }
    while i < n
        invariant
            start <= i <= n,
            n == chars.len(),
            chars@ == s@,
            split_on(s@.take(i as int), sep) == pieces.deep_view().push(
                s@.subrange(start as int, i as int),
            ),
        decreases n - i,
    {
        let ghost open = s@.subrange(start as int, i as int);
        proof {
            let next = s@.take(i + 1);
            assert(next.drop_last() =~= s@.take(i as int));
        }
        if chars[i] == sep {
            let piece = s.substring_char(start, i);
            pieces.push(String::from_str(piece));
            proof {
                assert(s@.subrange(i + 1, i + 1) =~= Seq::<char>::empty());
            }
            start = i + 1;
        } else {
            proof {
                assert(open.push(s@[i as int]) =~= s@.subrange(start as int, i + 1));
            }
        }
        i = i + 1;
    }
    let last = s.substring_char(start, n);
    pieces.push(String::from_str(last));
    proof {
        assert(s@.take(n as int) =~= s@);
    }
    pieces
}

/// What is left of the number that `text` writes in decimal digits when it
/// is divided by `modulus`. `None` where `text` writes no number.
pub(crate) fn decimal_remainder(text: &str, modulus: u32) -> (remainder: Option<u32>)
    requires
        0 < modulus <= 0x1000_0000,
    ensures
        remainder == match decimal(text@) {
            Some(number) => Some((number % (modulus as nat)) as u32),
            None => None,
        },
{
    let digits = characters(text);
    let n: usize = digits.len();
    if n == 0 {
        return None;
    }
    let mut remainder: u32 = 0;
    let mut i: usize = 0;
    while i < n
        invariant
            i <= n,
            n == digits.len(),
            digits@ == text@,
            0 < modulus <= 0x1000_0000,
            remainder < modulus,
            i > 0 ==> decimal(text@.take(i as int)) is Some,
            i > 0 ==> decimal(text@.take(i as int))->Some_0 % (modulus as nat) == remainder,
            i == 0 ==> remainder == 0,
        decreases n - i,
    {
        let c = digits[i];
        proof {
            assert(text@.take(i + 1).drop_last() =~= text@.take(i as int));
        }
        if c < '0' || c > '9' {
            proof {
                lemma_decimal_needs_digits(text@, i as int);
            }
            return None;
        }
        let digit: u32 = c as u32 - '0' as u32;
        proof {
            if i > 0 {
                let front = decimal(text@.take(i as int))->Some_0;
                lemma_remainder_of_next_digit(front as int, digit as int, modulus as int);
            }
        }
        remainder = (remainder * 10 + digit) % modulus;
        i = i + 1;
    }
    proof {
        assert(text@.take(n as int) =~= text@);
    }
    Some(remainder)
}

/// A text with a character that is no digit writes no number.
pub proof fn lemma_decimal_needs_digits(text: Seq<char>, at: int)
    requires
        0 <= at < text.len(),
        !is_decimal_digit(text[at]),
    ensures
        decimal(text) is None,
    decreases text.len(),
{
    if at < text.len() - 1 {
        lemma_decimal_needs_digits(text.drop_last(), at);
    }
}

/// The remainder of a number with one more digit follows from the remainder
/// of the number without it.
proof fn lemma_remainder_of_next_digit(front: int, digit: int, modulus: int)
    requires
        modulus > 0,
    ensures
        ((front % modulus) * 10 + digit) % modulus == (front * 10 + digit) % modulus,
{
    let quotient = front / modulus;
    let rest = front % modulus;
    lemma_fundamental_div_mod(front, modulus);
    assert(front * 10 + digit == modulus * (quotient * 10) + (rest * 10 + digit))
        by (nonlinear_arith)
        requires
            front == modulus * quotient + rest,
    ;
    lemma_mod_multiples_vanish(quotient * 10, rest * 10 + digit, modulus);
}

} // verus!
