//! Integers of any size, as far as the front end needs them: read from
//! decimal text and handed on whole.

use crate::text::{
    all_digits, char_to_digit, chars_of, decimal_digits, digit_char, digit_to_char, digit_value,
    digits_value, is_digit, push_char, string_of,
};
use vstd::prelude::*;
use vstd::string::StringExecFns;

verus! {

/// A decimal literal without its sign.
pub open spec fn strip_sign(s: Seq<char>) -> Seq<char> {
    if s.len() > 0 && (s[0] == '+' || s[0] == '-') {
        s.skip(1)
    } else {
        s
    }
}

/// A decimal literal: an optional sign, then at least one digit.
pub open spec fn is_decimal(s: Seq<char>) -> bool {
    strip_sign(s).len() > 0 && all_digits(strip_sign(s))
}

/// The number that a decimal literal stands for.
pub open spec fn decimal_value(s: Seq<char>) -> int {
    if s.len() > 0 && s[0] == '-' {
        -digits_value(strip_sign(s))
    } else {
        digits_value(strip_sign(s))
    }
}

/// A zero in front of a run of digits does not change its number.
pub proof fn lemma_leading_zero(s: Seq<char>)
    requires
        s.len() > 0,
        s[0] == '0',
    ensures
        digits_value(s) == digits_value(s.skip(1)),
    decreases s.len(),
{
    if s.len() == 1 {
        assert(s.drop_last() =~= Seq::<char>::empty());
        assert(s.skip(1) =~= Seq::<char>::empty());
        assert(digits_value(s.drop_last()) == 0);
    } else {
        lemma_leading_zero(s.drop_last());
        assert(s.drop_last().skip(1) =~= s.skip(1).drop_last());
    }
}

/// A run of digits that does not start with a zero stands for a number
/// above zero.
pub proof fn lemma_no_leading_zero_positive(s: Seq<char>)
    requires
        s.len() > 0,
        all_digits(s),
        s[0] != '0',
    ensures
        digits_value(s) > 0,
    decreases s.len(),
{
    if s.len() == 1 {
        assert(s.drop_last() =~= Seq::<char>::empty());
        assert(digits_value(s.drop_last()) == 0);
        assert(is_digit(s[0]));
    } else {
        lemma_no_leading_zero_positive(s.drop_last());
        assert(is_digit(s.last()));
    }
}

/// A number as it is written: its decimal digits, after a `-` where it is
/// below zero.
pub open spec fn spec_text(n: int) -> Seq<char> {
    if n < 0 {
        seq!['-'] + decimal_digits((-n) as nat)
    } else {
        decimal_digits(n as nat)
    }
}

/// A run of digits that does not start with a zero is the decimal form
/// of the number it stands for.
pub proof fn lemma_canonical_digits(s: Seq<char>)
    requires
        s.len() > 0,
        all_digits(s),
        s[0] != '0',
    ensures
        digits_value(s) > 0,
        decimal_digits(digits_value(s) as nat) == s,
    decreases s.len(),
{
    lemma_no_leading_zero_positive(s);
    let front = s.drop_last();
    assert(is_digit(s.last()));
    if front.len() == 0 {
        assert(digits_value(front) == 0);
        assert(decimal_digits(digits_value(s) as nat) =~= s);
    } else {
        lemma_canonical_digits(front);
        let v = digits_value(s);
        assert(v / 10 == digits_value(front) && v % 10 == digit_value(s.last())) by {
            assert(v == digits_value(front) * 10 + digit_value(s.last()));
            assert(0 <= digit_value(s.last()) < 10);
        }
        assert(digit_char(digit_value(s.last())) == s.last());
        assert(decimal_digits(v as nat) =~= s);
    }
}

/// A whole number of any size.
#[derive(Debug, PartialEq, Eq)]
pub struct IBig {
    negative: bool,
    /// Decimal digits from the most significant down, none for zero.
    digits: Vec<char>,
}

impl View for IBig {
    type V = int;

    closed spec fn view(&self) -> int {
        if self.negative {
            -digits_value(self.digits@)
        } else {
            digits_value(self.digits@)
        }
    }
}

impl IBig {
    #[verifier::type_invariant]
    spec fn canonical(self) -> bool {
        &&& all_digits(self.digits@)
        &&& self.digits@.len() > 0 ==> self.digits@[0] != '0'
        &&& self.negative ==> self.digits@.len() > 0
    }

    /// Reads a decimal literal: an optional sign and at least one digit.
    pub fn parse(text: &str) -> (r: Option<IBig>)
        ensures
            r is Some <==> is_decimal(text@),
            r matches Some(v) ==> v@ == decimal_value(text@),
    {
        let chars = chars_of(text);
        let n: usize = chars.len();
        let minus: bool = n > 0 && chars[0] == '-';
        let signed: bool = n > 0 && (chars[0] == '-' || chars[0] == '+');
        let start: usize = if signed { 1 } else { 0 };
        let ghost body = chars@.skip(start as int);
        assert(body =~= strip_sign(text@));
        if start == n {
            return None;
        }
        let mut i: usize = start;
        while i < n
            invariant
                start <= i <= n,
                n == chars.len(),
                body == chars@.skip(start as int),
                body == strip_sign(text@),
                all_digits(body.take(i - start)),
            decreases n - i,
        {
            if char_to_digit(chars[i]).is_none() {
                assert(!is_digit(body[i - start]));
                return None;
            }
            assert(all_digits(body.take(i - start + 1))) by {
                assert forall|k: int| 0 <= k < i - start + 1 implies is_digit(
                    #[trigger] body.take(i - start + 1)[k],
                ) by {
                    if k < i - start {
                        assert(body.take(i - start + 1)[k] == body.take(i - start)[k]);
                    }
                }
            }
            i += 1;
        }
        assert(body.take(n - start) =~= body);
        let mut lead: usize = start;
        while lead < n && chars[lead] == '0'
            invariant
                start <= lead <= n,
                n == chars.len(),
                body == chars@.skip(start as int),
                all_digits(body),
                digits_value(chars@.skip(lead as int)) == digits_value(body),
            decreases n - lead,
        {
            proof {
                lemma_leading_zero(chars@.skip(lead as int));
                assert(chars@.skip(lead as int).skip(1) =~= chars@.skip(lead + 1));
            }
            lead += 1;
        }
        let mut digits: Vec<char> = Vec::new();
        let mut k: usize = lead;
        while k < n
            invariant
                lead <= k <= n,
                n == chars.len(),
                digits@ == chars@.subrange(lead as int, k as int),
            decreases n - k,
        {
            digits.push(chars[k]);
            k += 1;
            assert(digits@ =~= chars@.subrange(lead as int, k as int));
        }
        assert(digits@ =~= chars@.skip(lead as int));
        assert(all_digits(digits@)) by {
            assert forall|j: int| 0 <= j < digits@.len() implies is_digit(#[trigger] digits@[j]) by {
                assert(digits@[j] == body[j + lead - start]);
            }
        }
        let negative: bool = minus && digits.len() > 0;
        proof {
            if digits@.len() == 0 {
                assert(digits_value(digits@) == 0);
            }
        }
        Some(IBig { negative, digits })
    }

    /// The number `n`.
    pub fn from_u64(n: u64) -> (r: IBig)
        ensures
            r@ == n,
    {
        let mut reversed: Vec<char> = Vec::new();
        let mut rest: u64 = n;
        let ghost mut scale: int = 1;
        while rest > 0
            invariant
                all_digits(reversed@),
                scale == pow10(reversed@.len()),
                scale >= 1,
                n == rest * scale + digits_value(reversed@.reverse()),
                0 <= digits_value(reversed@.reverse()) < scale,
                rest == 0 && reversed@.len() > 0 ==> reversed@.last() != '0',
            decreases rest,
        {
            let d: u8 = (rest % 10) as u8;
            let c: char = digit_to_char(d);
            proof {
                let old_rev = reversed@.reverse();
                let new_rev = reversed@.push(c).reverse();
                assert(new_rev =~= seq![c] + old_rev);
                lemma_prepend_digit(c, old_rev);
                assert(rest == (rest / 10) * 10 + d);
                assert(rest * scale == (rest / 10) * (scale * 10) + d * scale) by (nonlinear_arith)
                    requires
                        rest == (rest / 10) * 10 + d,
                ;
                assert forall|k: int| 0 <= k < reversed@.push(c).len() implies is_digit(
                    #[trigger] reversed@.push(c)[k],
                ) by {
                    if k < reversed@.len() {
                        assert(reversed@.push(c)[k] == reversed@[k]);
                    }
                }
                assert(d * scale + digits_value(old_rev) < scale * 10) by (nonlinear_arith)
                    requires
                        d < 10,
                        0 <= digits_value(old_rev) < scale,
                        d >= 0,
                ;
                if rest / 10 == 0 {
                    assert(d != 0);
                }
            }
            reversed.push(c);
            rest = rest / 10;
            proof {
                scale = scale * 10;
            }
        }
        let mut digits: Vec<char> = Vec::new();
        let mut i: usize = reversed.len();
        while i > 0
            invariant
                i <= reversed.len(),
                digits@ == reversed@.reverse().take(reversed.len() - i),
            decreases i,
        {
            i -= 1;
            digits.push(reversed[i]);
            assert(digits@ =~= reversed@.reverse().take(reversed.len() - i));
        }
        assert(digits@ =~= reversed@.reverse());
        assert(all_digits(digits@)) by {
            assert forall|j: int| 0 <= j < digits@.len() implies is_digit(#[trigger] digits@[j]) by {
                assert(digits@[j] == reversed@[reversed@.len() - 1 - j]);
            }
        }
        IBig { negative: false, digits }
    }

    /// The number as a `u64`, where it is one.
    pub fn to_u64(&self) -> (r: Option<u64>)
        ensures
            r is Some <==> 0 <= self@ <= u64::MAX,
            r matches Some(v) ==> v == self@,
    {
        proof {
            use_type_invariant(self);
            if self.digits@.len() > 0 {
                lemma_no_leading_zero_positive(self.digits@);
            }
        }
        if self.negative {
            return None;
        }
        let mut value: u64 = 0;
        let mut i: usize = 0;
        while i < self.digits.len()
            invariant
                i <= self.digits.len(),
                all_digits(self.digits@),
                value == digits_value(self.digits@.take(i as int)),
            decreases self.digits.len() - i,
        {
            let ghost after = self.digits@.take(i + 1);
            assert(after.drop_last() =~= self.digits@.take(i as int));
            let d: u8 = match char_to_digit(self.digits[i]) {
                Some(d) => d,
                None => 0,
            };
            let next: Option<u64> = match value.checked_mul(10) {
                Some(v) => v.checked_add(d as u64),
                None => None,
            };
            match next {
                Some(v) => {
                    value = v;
                },
                None => {
                    proof {
                        crate::text::lemma_digits_value_grows(self.digits@, i + 1);
                    }
                    return None;
                },
            }
            i += 1;
        }
        assert(self.digits@.take(i as int) =~= self.digits@);
        Some(value)
    }

    /// The number as it is written: its decimal digits, after a `-` where
    /// it is below zero.
    pub fn to_text(&self) -> (r: String)
        ensures
            r@ == spec_text(self@),
    {
        proof {
            use_type_invariant(self);
            if self.digits@.len() > 0 {
                lemma_canonical_digits(self.digits@);
            }
        }
        if self.digits.len() == 0 {
            let mut out = String::new();
            push_char(&mut out, '0');
            assert(out@ =~= decimal_digits(0));
            return out;
        }
        let digits = string_of(&self.digits, 0, self.digits.len());
        assert(digits@ =~= self.digits@);
        if self.negative {
            let mut out = String::new();
            push_char(&mut out, '-');
            out.append(digits.as_str());
            assert(out@ =~= seq!['-'] + self.digits@);
            out
        } else {
            digits
        }
    }

    /// The number is below zero.
    pub fn is_negative(&self) -> (r: bool)
        ensures
            r == (self@ < 0),
    {
        proof {
            use_type_invariant(self);
            if self.digits@.len() > 0 {
                lemma_no_leading_zero_positive(self.digits@);
            }
        }
        self.negative
    }

    /// The number is zero.
    pub fn is_zero(&self) -> (r: bool)
        ensures
            r == (self@ == 0),
    {
        proof {
            use_type_invariant(self);
            if self.digits@.len() > 0 {
                lemma_no_leading_zero_positive(self.digits@);
            }
        }
        self.digits.len() == 0
    }
}

/// A digit in front of a run of digits that stands for less than `scale`,
/// a power of ten of as many places, adds the digit times `scale`.
proof fn lemma_prepend_digit(c: char, s: Seq<char>)
    requires
        is_digit(c),
    ensures
        digits_value(seq![c] + s) - digits_value(s) == digit_value(c) * pow10(s.len()),
    decreases s.len(),
{
    let t = seq![c] + s;
    if s.len() == 0 {
        assert(t.drop_last() =~= Seq::<char>::empty());
        assert(digits_value(t.drop_last()) == 0);
    } else {
        lemma_prepend_digit(c, s.drop_last());
        assert(t.drop_last() =~= seq![c] + s.drop_last());
        assert(t.last() == s.last());
        assert(digit_value(c) * pow10(s.len()) == digit_value(c) * pow10((s.len() - 1) as nat) * 10)
            by (nonlinear_arith)
            requires
                pow10(s.len()) == pow10((s.len() - 1) as nat) * 10,
        ;
    }
}

/// Ten to the power of `n`.
pub open spec fn pow10(n: nat) -> int
    decreases n,
{
    if n == 0 {
        1
    } else {
        pow10((n - 1) as nat) * 10
    }
}

} // verus!
