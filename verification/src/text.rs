//! Text as sequences of characters: comparing, building, and reading and
//! writing decimal numbers.

use vstd::prelude::*;

verus! {

/// `c` is one of the ten decimal digits.
pub open spec fn is_digit(c: char) -> bool {
    '0' <= c <= '9'
}

/// The number that the decimal digit `c` stands for.
pub open spec fn digit_value(c: char) -> int {
    c as int - '0' as int
}

/// Every character of `s` is a decimal digit.
pub open spec fn all_digits(s: Seq<char>) -> bool {
    forall|i: int| 0 <= i < s.len() ==> is_digit(#[trigger] s[i])
}

/// The number that a run of decimal digits stands for, 0 for the empty run.
pub open spec fn digits_value(s: Seq<char>) -> int
    decreases s.len(),
{
    if s.len() == 0 {
        0
    } else {
        digits_value(s.drop_last()) * 10 + digit_value(s.last())
    }
}

/// The digit that stands for `d`, for `d` below ten.
pub open spec fn digit_char(d: int) -> char {
    (d + '0' as int) as char
}

/// The decimal digits of `n`, without leading zeros; one `0` for zero.
pub open spec fn decimal_digits(n: nat) -> Seq<char>
    decreases n,
{
    if n < 10 {
        seq![digit_char(n as int)]
    } else {
        decimal_digits(n / 10).push(digit_char((n % 10) as int))
    }
}

/// A run of digits stands for a number that is not negative, and a longer
/// run for one that is not smaller than what its beginning stands for.
pub proof fn lemma_digits_value_grows(s: Seq<char>, k: int)
    requires
        all_digits(s),
        0 <= k <= s.len(),
    ensures
        0 <= digits_value(s.take(k)) <= digits_value(s),
    decreases s.len(),
{
    if k == s.len() {
        assert(s.take(k) =~= s);
        if s.len() > 0 {
            lemma_digits_value_grows(s.drop_last(), s.len() - 1);
            assert(s.drop_last().take(s.len() - 1) =~= s.drop_last());
        }
    } else {
        lemma_digits_value_grows(s.drop_last(), k);
        assert(s.drop_last().take(k) =~= s.take(k));
        lemma_digits_value_grows(s.drop_last(), s.len() - 1);
        assert(s.drop_last().take(s.len() - 1) =~= s.drop_last());
    }
}

/// What `decimal_digits` writes, `digits_value` reads back.
pub proof fn lemma_decimal_round_trip(n: nat)
    ensures
        all_digits(decimal_digits(n)),
        decimal_digits(n).len() >= 1,
        digits_value(decimal_digits(n)) == n,
    decreases n,
{
    if n < 10 {
        let s = decimal_digits(n);
        assert(s.drop_last() =~= Seq::<char>::empty());
        assert(digits_value(s.drop_last()) == 0);
    } else {
        lemma_decimal_round_trip(n / 10);
        let s = decimal_digits(n);
        assert(s.drop_last() =~= decimal_digits(n / 10));
    }
}

/// The characters of a string slice, in a vector.
pub fn chars_of(text: &str) -> (r: Vec<char>)
    ensures
        r@ == text@,
{
    let mut out: Vec<char> = Vec::new();
    for c in it: text.chars()
        invariant
            out@ == it.seq().take(it.index() as int),
            it.seq() == text@,
    {
        out.push(c);
    }
    out
}

/// Two vectors hold the same characters.
pub fn same_chars(a: &Vec<char>, b: &Vec<char>) -> (r: bool)
    ensures
        r == (a@ == b@),
{
    if a.len() != b.len() {
        return false;
    }
    let mut i: usize = 0;
    while i < a.len()
        invariant
            i <= a.len(),
            a.len() == b.len(),
            a@.take(i as int) == b@.take(i as int),
        decreases a.len() - i,
    {
        if a[i] != b[i] {
            return false;
        }
        i += 1;
        assert(a@.take(i as int) =~= a@.take(i - 1).push(a@[i - 1]));
        assert(b@.take(i as int) =~= b@.take(i - 1).push(b@[i - 1]));
    }
    assert(a@.take(i as int) =~= a@);
    assert(b@.take(i as int) =~= b@);
    true
}

/// Two string slices hold the same characters.
pub fn same_text(a: &str, b: &str) -> (r: bool)
    ensures
        r == (a@ == b@),
{
    let x = chars_of(a);
    let y = chars_of(b);
    same_chars(&x, &y)
}

/// `chars[from..to]` spell `word`.
pub fn spells(chars: &Vec<char>, from: usize, to: usize, word: &str) -> (r: bool)
    requires
        from <= to <= chars.len(),
    ensures
        r == (chars@.subrange(from as int, to as int) == word@),
{
    let other = chars_of(word);
    if other.len() != to - from {
        return false;
    }
    let mut k: usize = 0;
    while k < other.len()
        invariant
            k <= other.len(),
            other.len() == to - from,
            other@ == word@,
            from <= to <= chars.len(),
            chars@.subrange(from as int, from + k) == other@.take(k as int),
        decreases other.len() - k,
    {
        if chars[from + k] != other[k] {
            assert(chars@.subrange(from as int, to as int)[k as int] != other@[k as int]);
            return false;
        }
        k += 1;
        assert(chars@.subrange(from as int, from + k) =~= chars@.subrange(
            from as int,
            from + k - 1,
        ).push(chars@[from + k - 1]));
        assert(other@.take(k as int) =~= other@.take(k - 1).push(other@[k - 1]));
    }
    assert(other@.take(k as int) =~= other@);
    true
}

/// `String::push` of the standard library: the character is appended at the
/// end and nothing else changes.
#[verifier::external_body]
pub(crate) fn push_char(s: &mut String, c: char)
    ensures
        final(s)@ == old(s)@.push(c),
{
    s.push(c);
}

/// The characters `chars[from..to]` as a string.
pub fn string_of(chars: &Vec<char>, from: usize, to: usize) -> (r: String)
    requires
        from <= to <= chars.len(),
    ensures
        r@ == chars@.subrange(from as int, to as int),
{
    let mut out = String::new();
    let mut i: usize = from;
    while i < to
        invariant
            from <= i <= to <= chars.len(),
            out@ == chars@.subrange(from as int, i as int),
        decreases to - i,
    {
        push_char(&mut out, chars[i]);
        i += 1;
        assert(out@ =~= chars@.subrange(from as int, i as int));
    }
    out
}

/// The decimal digits of `n`.
pub fn decimal_text(n: usize) -> (r: String)
    ensures
        r@ == decimal_digits(n as nat),
    decreases n,
{
    if n < 10 {
        let mut out = String::new();
        let c: char = digit_to_char(n as u8);
        push_char(&mut out, c);
        assert(out@ =~= seq![digit_char(n as int)]);
        out
    } else {
        let mut out = decimal_text(n / 10);
        let c: char = digit_to_char((n % 10) as u8);
        push_char(&mut out, c);
        out
    }
}

/// The decimal digits of `n`.
pub fn decimal_text_u64(n: u64) -> (r: String)
    ensures
        r@ == decimal_digits(n as nat),
    decreases n,
{
    if n < 10 {
        let mut out = String::new();
        let c: char = digit_to_char(n as u8);
        push_char(&mut out, c);
        assert(out@ =~= seq![digit_char(n as int)]);
        out
    } else {
        let mut out = decimal_text_u64(n / 10);
        let c: char = digit_to_char((n % 10) as u8);
        push_char(&mut out, c);
        out
    }
}

/// What `{:?}` of the standard library writes for a string: the text
/// between double quotes, with the characters escaped that cannot stand
/// there as they are.
pub uninterp spec fn debug_quoted(s: Seq<char>) -> Seq<char>;

/// The `Debug` form of a string slice, through `format!`: the string that
/// `debug_quoted` names.
#[verifier::external_body]
pub(crate) fn quoted(text: &str) -> (r: String)
    ensures
        r@ == debug_quoted(text@),
{
    format!("{:?}", text)
}

/// The texts one after the other, with `between` between each two.
pub open spec fn joined_with(texts: Seq<Seq<char>>, between: Seq<char>) -> Seq<char>
    decreases texts.len(),
{
    if texts.len() == 0 {
        Seq::empty()
    } else if texts.len() == 1 {
        texts[0]
    } else {
        joined_with(texts.drop_last(), between) + between + texts.last()
    }
}

/// The digit character for a number below ten.
pub fn digit_to_char(d: u8) -> (c: char)
    requires
        d < 10,
    ensures
        c == digit_char(d as int),
        is_digit(c),
        digit_value(c) == d,
{
    match d {
        0 => '0',
        1 => '1',
        2 => '2',
        3 => '3',
        4 => '4',
        5 => '5',
        6 => '6',
        7 => '7',
        8 => '8',
        _ => '9',
    }
}

/// The number of a digit character, or nothing for any other character.
pub fn char_to_digit(c: char) -> (d: Option<u8>)
    ensures
        d is Some <==> is_digit(c),
        d matches Some(v) ==> v == digit_value(c) && v < 10,
{
    match c {
        '0' => Some(0),
        '1' => Some(1),
        '2' => Some(2),
        '3' => Some(3),
        '4' => Some(4),
        '5' => Some(5),
        '6' => Some(6),
        '7' => Some(7),
        '8' => Some(8),
        '9' => Some(9),
        _ => None,
    }
}

/// An unsigned decimal number as the standard library reads one: an
/// optional `+`, then at least one digit.
pub open spec fn is_unsigned_decimal(s: Seq<char>) -> bool {
    let digits = if s.len() > 0 && s[0] == '+' { s.skip(1) } else { s };
    digits.len() > 0 && all_digits(digits)
}

/// The number that an unsigned decimal stands for.
pub open spec fn unsigned_decimal_value(s: Seq<char>) -> int {
    let digits = if s.len() > 0 && s[0] == '+' { s.skip(1) } else { s };
    digits_value(digits)
}

/// What reading `s` as a `u32` gives: its number, if it is an unsigned
/// decimal that fits.
pub open spec fn spec_parse_u32(s: Seq<char>) -> Option<u32> {
    if is_unsigned_decimal(s) && unsigned_decimal_value(s) <= u32::MAX {
        Some(unsigned_decimal_value(s) as u32)
    } else {
        None
    }
}

/// Reads `chars[from..]` as a `u32`.
pub fn parse_u32(chars: &Vec<char>, from: usize) -> (r: Option<u32>)
    requires
        from <= chars.len(),
    ensures
        r == spec_parse_u32(chars@.skip(from as int)),
{
    let ghost s = chars@.skip(from as int);
    let mut i: usize = from;
    if i < chars.len() && chars[i] == '+' {
        i += 1;
    }
    let start: usize = i;
    let ghost digits = chars@.skip(start as int);
    assert(digits =~= if s.len() > 0 && s[0] == '+' { s.skip(1) } else { s });
    if i == chars.len() {
        return None;
    }
    let mut value: u32 = 0;
    while i < chars.len()
        invariant
            start <= i <= chars.len(),
            from <= chars.len(),
            start < chars.len(),
            s == chars@.skip(from as int),
            digits == chars@.skip(start as int),
            digits == (if s.len() > 0 && s[0] == '+' { s.skip(1) } else { s }),
            all_digits(digits.take(i - start)),
            value == digits_value(digits.take(i - start)),
        decreases chars.len() - i,
    {
        let ghost before = digits.take(i - start);
        let ghost after = digits.take(i - start + 1);
        assert(after.drop_last() =~= before);
        assert(after.last() == chars@[i as int]);
        match char_to_digit(chars[i]) {
            None => {
                assert(!is_digit(digits[i - start]));
                return None;
            },
            Some(d) => {
                assert(all_digits(after)) by {
                    assert forall|k: int| 0 <= k < after.len() implies is_digit(
                        #[trigger] after[k],
                    ) by {
                        if k < before.len() {
                            assert(after[k] == before[k]);
                        }
                    }
                }
                let next: Option<u32> = match value.checked_mul(10) {
                    Some(v) => v.checked_add(d as u32),
                    None => None,
                };
                match next {
                    Some(v) => {
                        value = v;
                    },
                    None => {
                        proof {
                            assert(digits_value(after) > u32::MAX);
                            if all_digits(digits) {
                                lemma_digits_value_grows(digits, i - start + 1);
                            }
                        }
                        return None;
                    },
                }
            },
        }
        i += 1;
    }
    assert(digits.take(i - start) =~= digits);
    Some(value)
}

} // verus!
