//! Decimal text: how numbers are written into keys and read back out of them.

use crate::order::{lemma_lex_asymmetric, less_at, lex_less};
use vstd::prelude::*;

verus! {

/// The ASCII digit of `d`.
pub open spec fn digit(d: nat) -> u8 {
    (48 + d) as u8
}

/// The decimal text of `n`, without leading zeros.
pub open spec fn decimal(n: nat) -> Seq<u8>
    decreases n,
{
    if n < 10 {
        seq![digit(n)]
    } else {
        decimal(n / 10).push(digit(n % 10))
    }
}

/// `count` ASCII zeros.
pub open spec fn zeros(count: nat) -> Seq<u8> {
    Seq::new(count, |i: int| 48u8)
}

/// The decimal text of `n`, filled up with leading zeros to at least `width` digits.
pub open spec fn padded(n: nat, width: nat) -> Seq<u8> {
    let text = decimal(n);
    if text.len() < width {
        zeros((width - text.len()) as nat) + text
    } else {
        text
    }
}

/// Every byte is an ASCII digit.
pub open spec fn all_digits(text: Seq<u8>) -> bool {
    forall|i: int| 0 <= i < text.len() ==> 48 <= #[trigger] text[i] <= 57
}

/// The number that a row of digits stands for.
pub open spec fn decimal_value(digits: Seq<u8>) -> nat
    decreases digits.len(),
{
    if digits.len() == 0 {
        0
    } else {
        decimal_value(digits.drop_last()) * 10 + (digits.last() - 48) as nat
    }
}

/// The number that a text denotes: an optional plus sign followed by one or more digits.
pub open spec fn parsed(text: Seq<u8>) -> Option<nat> {
    let digits = if text.len() > 0 && text[0] == 43 {
        text.skip(1)
    } else {
        text
    };
    if digits.len() > 0 && all_digits(digits) {
        Some(decimal_value(digits))
    } else {
        None
    }
}

/// Renders a number as decimal text.
pub fn decimal_digits(n: u64) -> (text: Vec<u8>)
    ensures
        text@ == decimal(n as nat),
        all_digits(text@),
        decimal_value(text@) == n,
        text@.len() > 0,
        text@.len() > 1 ==> text@[0] != 48,
    decreases n,
{
    proof {
        lemma_decimal(n as nat);
        lemma_no_leading_zero(n as nat);
    }
    if n < 10 {
        let text: Vec<u8> = vec![48 + n as u8];
        assert(text@ =~= decimal(n as nat));
        text
    } else {
        let mut text: Vec<u8> = decimal_digits(n / 10);
        text.push(48 + (n % 10) as u8);
        text
    }
}

/// Renders a number as decimal text of at least `width` digits.
pub fn padded_digits(n: u32, width: usize) -> (text: Vec<u8>)
    ensures
        text@ == padded(n as nat, width as nat),
        all_digits(text@),
        decimal_value(text@) == n,
        text@.len() >= width,
        text@.len() > width && text@.len() > 1 ==> text@[0] != 48,
{
    proof {
        lemma_padded(n as nat, width as nat);
        lemma_no_leading_zero(n as nat);
    }
    let digits: Vec<u8> = decimal_digits(n as u64);
    if digits.len() >= width {
        return digits;
    }
    let fill: usize = width - digits.len();
    let mut text: Vec<u8> = vec![48u8; fill];
    assert(text@ =~= zeros(fill as nat));
    text.extend_from_slice(digits.as_slice());
    text
}

/// What the decimal text of a number looks like: digits only, and it denotes that number.
pub proof fn lemma_decimal(n: nat)
    ensures
        decimal(n).len() > 0,
        all_digits(decimal(n)),
        decimal_value(decimal(n)) == n,
    decreases n,
{
    if n < 10 {
        assert(decimal(n).drop_last() =~= Seq::<u8>::empty());
        assert(decimal_value(Seq::<u8>::empty()) == 0);
    } else {
        lemma_decimal(n / 10);
        assert(decimal(n).drop_last() =~= decimal(n / 10));
    }
}

/// Decimal text has no leading zero.
pub proof fn lemma_no_leading_zero(n: nat)
    ensures
        decimal(n).len() > 1 ==> decimal(n)[0] != 48,
        n > 0 ==> decimal(n)[0] != 48,
    decreases n,
{
    if n >= 10 {
        lemma_no_leading_zero(n / 10);
        lemma_decimal(n / 10);
        assert(decimal(n)[0] == decimal(n / 10)[0]);
    }
}

/// A row of digits without a leading zero is the decimal text of what it stands for: every number
/// has that text and no other.
pub proof fn law_decimal_is_the_text(digits: Seq<u8>)
    requires
        digits.len() > 0,
        all_digits(digits),
        digits.len() > 1 ==> digits[0] != 48,
    ensures
        decimal(decimal_value(digits)) == digits,
    decreases digits.len(),
{
    let n = decimal_value(digits);
    let front = digits.drop_last();
    assert(48 <= digits.last() <= 57);
    if digits.len() == 1 {
        assert(decimal_value(front) == 0);
        assert(decimal(n) =~= digits);
    } else {
        assert(front[0] == digits[0]);
        law_decimal_is_the_text(front);
        lemma_positive(front);
        assert(n / 10 == decimal_value(front));
        assert(n % 10 == digits.last() - 48);
        assert(decimal(n) =~= digits);
    }
}

/// A row of digits that starts with one other than zero stands for more than nothing.
proof fn lemma_positive(digits: Seq<u8>)
    requires
        digits.len() > 0,
        all_digits(digits),
        digits[0] != 48,
    ensures
        decimal_value(digits) > 0,
    decreases digits.len(),
{
    let front = digits.drop_last();
    if digits.len() > 1 {
        assert(front[0] == digits[0]);
        lemma_positive(front);
    } else {
        assert(digits.last() == digits[0]);
    }
}

/// A row of `width` digits is the padded text of what it stands for: a number that fits in has
/// that text and no other, so that padded numbers are equally long.
pub proof fn law_padded_is_the_row(digits: Seq<u8>)
    requires
        digits.len() > 0,
        all_digits(digits),
    ensures
        padded(decimal_value(digits), digits.len()) == digits,
{
    let n = decimal_value(digits);
    let width = digits.len();
    lemma_value_bound(digits);
    lemma_decimal_len(n, width);
    lemma_padded(n, width);
    lemma_digits_order(padded(n, width), digits);
}

/// A row of digits stands for less than the power of ten of its length.
proof fn lemma_value_bound(digits: Seq<u8>)
    requires
        all_digits(digits),
    ensures
        decimal_value(digits) < ten_to(digits.len()),
    decreases digits.len(),
{
    if digits.len() > 0 {
        assert(48 <= digits.last() <= 57);
        lemma_value_bound(digits.drop_last());
    }
}

/// Reading a number's decimal text gives the number back.
pub proof fn lemma_parsed_decimal(n: nat)
    ensures
        parsed(decimal(n)) == Some(n),
{
    lemma_decimal(n);
    assert(48 <= decimal(n)[0] <= 57);
}

/// Leading zeros do not change what a row of digits stands for.
pub proof fn lemma_zeros_value(count: nat, digits: Seq<u8>)
    ensures
        decimal_value(zeros(count) + digits) == decimal_value(digits),
    decreases digits.len(), count,
{
    let text = zeros(count) + digits;
    if digits.len() > 0 {
        lemma_zeros_value(count, digits.drop_last());
        assert(text.drop_last() =~= zeros(count) + digits.drop_last());
    } else if count > 0 {
        lemma_zeros_value((count - 1) as nat, digits);
        assert(text.drop_last() =~= zeros((count - 1) as nat) + digits);
    }
}

/// What padded text looks like: digits only, and it denotes the number.
pub proof fn lemma_padded(n: nat, width: nat)
    ensures
        padded(n, width).len() > 0,
        padded(n, width).len() >= width,
        all_digits(padded(n, width)),
        decimal_value(padded(n, width)) == n,
        parsed(padded(n, width)) == Some(n),
{
    lemma_decimal(n);
    let text = decimal(n);
    if text.len() < width {
        let count = (width - text.len()) as nat;
        lemma_zeros_value(count, text);
    }
    assert(48 <= padded(n, width)[0] <= 57);
}

/// Ten to the power `e`.
pub open spec fn ten_to(e: nat) -> nat
    decreases e,
{
    if e == 0 {
        1
    } else {
        10 * ten_to((e - 1) as nat)
    }
}

/// A number below the `width`th power of ten has at most `width` digits.
pub proof fn lemma_decimal_len(n: nat, width: nat)
    requires
        width > 0,
        n < ten_to(width),
    ensures
        decimal(n).len() <= width,
    decreases width,
{
    if n >= 10 {
        if width == 1 {
            assert(ten_to(1) == 10 * ten_to(0));
            assert(ten_to(0) == 1);
        } else {
            lemma_decimal_len(n / 10, (width - 1) as nat);
        }
    }
}

/// The text of a 32-bit number, padded to twelve digits, has exactly twelve digits.
pub proof fn lemma_padded_u32_len(n: u32)
    ensures
        padded(n as nat, 12).len() == 12,
{
    reveal_with_fuel(ten_to, 11);
    lemma_decimal_len(n as nat, 10);
}

/// The text of a 64-bit number has at most twenty digits.
pub proof fn lemma_decimal_u64_len(n: u64)
    ensures
        decimal(n as nat).len() <= 20,
{
    reveal_with_fuel(ten_to, 21);
    lemma_decimal_len(n as nat, 20);
}

/// Two rows of digits of one length: the one that stands for less comes first, and only equal
/// rows stand for the same number.
pub proof fn lemma_digits_order(a: Seq<u8>, b: Seq<u8>)
    requires
        all_digits(a),
        all_digits(b),
        a.len() == b.len(),
    ensures
        decimal_value(a) < decimal_value(b) <==> lex_less(a, b),
        decimal_value(a) == decimal_value(b) <==> a == b,
{
    lemma_digits_less(a, b);
    lemma_digits_less(b, a);
    if lex_less(a, b) {
        lemma_lex_asymmetric(a, b);
    }
    if lex_less(b, a) {
        lemma_lex_asymmetric(b, a);
    }
}

proof fn lemma_digits_less(a: Seq<u8>, b: Seq<u8>)
    requires
        all_digits(a),
        all_digits(b),
        a.len() == b.len(),
    ensures
        decimal_value(a) < decimal_value(b) ==> lex_less(a, b),
        decimal_value(a) == decimal_value(b) ==> a == b,
    decreases a.len(),
{
    if a.len() == 0 {
        assert(a =~= b);
    } else {
        let p = a.drop_last();
        let q = b.drop_last();
        lemma_digits_less(p, q);
        let n = a.len() - 1;
        assert(48 <= a[n] <= 57);
        assert(48 <= b[n] <= 57);
        if decimal_value(a) < decimal_value(b) {
            if decimal_value(p) < decimal_value(q) {
                let i = choose|i: int| less_at(p, q, i);
                assert(less_at(a, b, i)) by {
                    assert forall|j: int| 0 <= j < i implies a[j] == b[j] by {
                        assert(p[j] == q[j]);
                    }
                }
            } else {
                assert(p == q);
                assert(less_at(a, b, n)) by {
                    assert forall|j: int| 0 <= j < n implies a[j] == b[j] by {
                        assert(p[j] == q[j]);
                    }
                }
            }
        } else if decimal_value(a) == decimal_value(b) {
            assert(p == q);
            assert forall|j: int| 0 <= j < a.len() implies a[j] == b[j] by {
                if j < n {
                    assert(p[j] == q[j]);
                }
            }
            assert(a =~= b);
        }
    }
}

} // verus!
