//! Padded base32hex text, whose bytewise order follows that of the data it encodes.

use crate::decimal::all_digits;
use crate::order::{less_at, lex_less};
use data_encoding::{DecodeError, DecodePartial, BASE32HEX};
use vstd::prelude::*;
use vstd::utf8::encode_utf8;

verus! {

/// What bit `j` of a byte counts for, bit 0 being the highest.
pub open spec fn place(j: int) -> int {
    if j == 0 {
        128
    } else if j == 1 {
        64
    } else if j == 2 {
        32
    } else if j == 3 {
        16
    } else if j == 4 {
        8
    } else if j == 5 {
        4
    } else if j == 6 {
        2
    } else {
        1
    }
}

/// Bit `k` of the data, counted from the highest bit of its first byte; zero after the end.
#[verifier::opaque]
pub open spec fn bit(data: Seq<u8>, k: int) -> int {
    if 0 <= k / 8 < data.len() {
        (data[k / 8] as int / place(k % 8)) % 2
    } else {
        0
    }
}

/// The number made of the five bits of group `i`.
pub open spec fn quintet(data: Seq<u8>, i: int) -> int {
    16 * bit(data, 5 * i) + 8 * bit(data, 5 * i + 1) + 4 * bit(data, 5 * i + 2) + 2 * bit(
        data,
        5 * i + 3,
    ) + bit(data, 5 * i + 4)
}

/// The symbol of a five-bit number: `0` to `9`, then `A` to `V`.
pub open spec fn symbol(v: int) -> u8 {
    if v < 10 {
        (48 + v) as u8
    } else {
        (55 + v) as u8
    }
}

/// The padded base32hex text of `data`: one symbol for every started group of five bits, filled
/// up with `=` to a multiple of eight.
pub open spec fn base32hex(data: Seq<u8>) -> Seq<u8> {
    Seq::new(
        8 * ((data.len() + 4) / 5),
        |i: int|
            if 5 * i < 8 * data.len() {
                symbol(quintet(data, i))
            } else {
                61u8
            },
    )
}

/// `text` is a row of blocks of eight, each the text of one to five bytes, and `data` is those
/// bytes in a row.
pub open spec fn decodes_to(text: Seq<u8>, data: Seq<u8>) -> bool
    decreases text.len(),
{
    if text.len() == 0 {
        data.len() == 0
    } else {
        &&& text.len() >= 8
        &&& exists|n: int| #[trigger] block_holds(text, data, n) && decodes_to(text.skip(8), data.skip(n))
    }
}

/// The first block of `text` is the text of the first `n` bytes of `data`.
pub open spec fn block_holds(text: Seq<u8>, data: Seq<u8>, n: int) -> bool {
    &&& 1 <= n <= 5
    &&& n <= data.len()
    &&& text.take(8) == base32hex(data.take(n))
}

/// Whether `text` decodes at all.
pub open spec fn decodable(text: Seq<u8>) -> bool {
    exists|data: Seq<u8>| decodes_to(text, data)
}

/// The bytes that a decodable text stands for.
pub open spec fn decoded(text: Seq<u8>) -> Seq<u8> {
    choose|data: Seq<u8>| decodes_to(text, data)
}

/// `data_encoding`'s error for text that does not decode.
#[verifier::external_type_specification]
#[verifier::external_body]
pub struct ExDecodeError(DecodeError);

/// `data_encoding`'s error for text that decodes in part only.
#[verifier::external_type_specification]
#[verifier::external_body]
pub struct ExDecodePartial(DecodePartial);

/// `BASE32HEX.encode` of `data_encoding`: returns the padded base32hex text of the data. The
/// crate promises not to panic up to the length that is asked for here.
#[verifier::external_body]
pub(crate) fn encode(data: &[u8]) -> (text: String)
    requires
        data@.len() <= usize::MAX / 512,
    ensures
        encode_utf8(text@) == base32hex(data@),
{
    BASE32HEX.encode(data)
}

/// `BASE32HEX.decode_len` of `data_encoding`: five bytes for every block of eight, and an error
/// where the length is no multiple of eight. The crate promises not to panic up to the length
/// that is asked for here.
#[verifier::external_body]
pub(crate) fn decode_len(len: usize) -> (result: Result<usize, DecodeError>)
    requires
        len <= usize::MAX / 8,
    ensures
        match result {
            Ok(n) => len % 8 == 0 && n == len / 8 * 5,
            Err(_) => len % 8 != 0,
        },
{
    BASE32HEX.decode_len(len)
}

/// `BASE32HEX.decode_mut` of `data_encoding`: writes the decoded bytes to the front of the output
/// and returns how many there are, or an error where the text does not decode. It panics unless
/// the output has the length that `decode_len` returns.
#[verifier::external_body]
pub(crate) fn decode_mut(text: &[u8], output: &mut [u8]) -> (result: Result<usize, DecodePartial>)
    requires
        text@.len() <= usize::MAX / 8,
        text@.len() % 8 == 0,
        old(output)@.len() == text@.len() / 8 * 5,
    ensures
        final(output)@.len() == old(output)@.len(),
        match result {
            Ok(n) => n <= final(output)@.len() && decodes_to(text@, final(output)@.take(n as int)),
            Err(_) => !decodable(text@),
        },
{
    BASE32HEX.decode_mut(text, output)
}

/// Decodes base32hex text; nothing where it does not decode.
pub fn decode(text: &[u8]) -> (result: Option<Vec<u8>>)
    requires
        text@.len() <= usize::MAX / 8,
    ensures
        match result {
            Some(data) => decodable(text@) && data@ == decoded(text@) && decodes_to(text@, data@),
            None => !decodable(text@) && forall|data: Seq<u8>| !decodes_to(text@, data),
        },
{
    let len: usize = match decode_len(text.len()) {
        Ok(len) => len,
        Err(_) => {
            proof {
                if decodable(text@) {
                    lemma_decodable_len(text@, decoded(text@));
                }
            }
            return None;
        },
    };
    let mut output: Vec<u8> = vec![0u8; len];
    let written: usize = match decode_mut(text, output.as_mut_slice()) {
        Ok(written) => written,
        Err(_) => {
            return None;
        },
    };
    let ghost full = output@;
    output.truncate(written);
    proof {
        assert(output@ =~= full.take(written as int));
        assert(decodes_to(text@, output@));
        lemma_decodes_unique(text@, output@, decoded(text@));
    }
    Some(output)
}

/// Decodable text is a whole number of blocks.
pub proof fn lemma_decodable_len(text: Seq<u8>, data: Seq<u8>)
    requires
        decodes_to(text, data),
    ensures
        text.len() % 8 == 0,
    decreases text.len(),
{
    if text.len() > 0 {
        let n = choose|n: int| #[trigger]
            block_holds(text, data, n) && decodes_to(text.skip(8), data.skip(n));
        lemma_decodable_len(text.skip(8), data.skip(n));
    }
}

/// A bit is zero or one.
proof fn lemma_bit(data: Seq<u8>, k: int)
    ensures
        0 <= bit(data, k) <= 1,
{
    reveal(bit);
}

/// Bit `t` of byte `j`.
proof fn lemma_bit_of_byte(data: Seq<u8>, j: int, t: int)
    requires
        0 <= j < data.len(),
        0 <= t < 8,
    ensures
        bit(data, 8 * j + t) == (data[j] as int / place(t)) % 2,
{
    reveal(bit);
    assert((8 * j + t) / 8 == j);
    assert((8 * j + t) % 8 == t);
}

/// A byte is the sum of its bits.
proof fn lemma_byte_bits(data: Seq<u8>, j: int)
    requires
        0 <= j < data.len(),
    ensures
        data[j] == 128 * bit(data, 8 * j) + 64 * bit(data, 8 * j + 1) + 32 * bit(data, 8 * j + 2)
            + 16 * bit(data, 8 * j + 3) + 8 * bit(data, 8 * j + 4) + 4 * bit(data, 8 * j + 5) + 2
            * bit(data, 8 * j + 6) + bit(data, 8 * j + 7),
        forall|k: int| 0 <= #[trigger] bit(data, k) <= 1,
{
    let b = data[j];
    assert(b == 128 * ((b / 128) % 2) + 64 * ((b / 64) % 2) + 32 * ((b / 32) % 2) + 16 * ((b / 16)
        % 2) + 8 * ((b / 8) % 2) + 4 * ((b / 4) % 2) + 2 * ((b / 2) % 2) + b % 2) by (bit_vector);
    lemma_bit_of_byte(data, j, 0);
    lemma_bit_of_byte(data, j, 1);
    lemma_bit_of_byte(data, j, 2);
    lemma_bit_of_byte(data, j, 3);
    lemma_bit_of_byte(data, j, 4);
    lemma_bit_of_byte(data, j, 5);
    lemma_bit_of_byte(data, j, 6);
    lemma_bit_of_byte(data, j, 7);
    assert forall|k: int| 0 <= #[trigger] bit(data, k) <= 1 by {
        lemma_bit(data, k);
    }
}

/// Five bits are below thirty-two, and equal groups have equal bits.
proof fn lemma_quintet(a: Seq<u8>, b: Seq<u8>, i: int)
    ensures
        0 <= quintet(a, i) < 32,
        quintet(a, i) == quintet(b, i) ==> forall|k: int|
            5 * i <= k < 5 * i + 5 ==> bit(a, k) == bit(b, k),
{
    assert forall|s: Seq<u8>, k: int| 0 <= #[trigger] bit(s, k) <= 1 by {
        lemma_bit(s, k);
    }
    if quintet(a, i) == quintet(b, i) {
        assert forall|k: int| 5 * i <= k < 5 * i + 5 implies bit(a, k) == bit(b, k) by {
            let t = k - 5 * i;
            assert(t == 0 || t == 1 || t == 2 || t == 3 || t == 4);
        }
    }
}

/// Only equal data have equal text.
pub proof fn lemma_base32hex_injective(a: Seq<u8>, b: Seq<u8>)
    requires
        base32hex(a) == base32hex(b),
    ensures
        a == b,
{
    lemma_same_text_len(a, b);
    lemma_same_text_len(b, a);
    assert forall|j: int| 0 <= j < a.len() implies a[j] == b[j] by {
        assert forall|k: int| 8 * j <= k < 8 * j + 8 implies bit(a, k) == bit(b, k) by {
            let i = k / 5;
            assert(base32hex(a)[i] == symbol(quintet(a, i)));
            assert(base32hex(b)[i] == symbol(quintet(b, i)));
            lemma_quintet(a, b, i);
            lemma_quintet(b, a, i);
        }
        lemma_byte_bits(a, j);
        lemma_byte_bits(b, j);
    }
    assert(a =~= b);
}

proof fn lemma_same_text_len(a: Seq<u8>, b: Seq<u8>)
    requires
        base32hex(a) == base32hex(b),
    ensures
        b.len() <= a.len(),
{
    if a.len() < b.len() {
        let i = (8 * a.len() + 4) / 5;
        assert(base32hex(b).len() == 8 * ((b.len() + 4) / 5));
        assert(5 * i < 8 * b.len());
        lemma_quintet(b, a, i as int);
        assert(base32hex(b)[i as int] == symbol(quintet(b, i as int)));
        assert(base32hex(a)[i as int] == 61);
    }
}

/// A text stands for one row of bytes only.
pub proof fn lemma_decodes_unique(text: Seq<u8>, a: Seq<u8>, b: Seq<u8>)
    requires
        decodes_to(text, a),
        decodes_to(text, b),
    ensures
        a == b,
    decreases text.len(),
{
    if text.len() == 0 {
        assert(a =~= b);
    } else {
        let n = choose|n: int| #[trigger]
            block_holds(text, a, n) && decodes_to(text.skip(8), a.skip(n));
        let m = choose|m: int| #[trigger]
            block_holds(text, b, m) && decodes_to(text.skip(8), b.skip(m));
        lemma_base32hex_injective(a.take(n), b.take(m));
        assert(a.take(n).len() == n);
        assert(b.take(m).len() == m);
        lemma_decodes_unique(text.skip(8), a.skip(n), b.skip(m));
        assert(a =~= a.take(n) + a.skip(n));
        assert(b =~= b.take(m) + b.skip(m));
    }
}

/// What a text decodes to is the bytes that it stands for.
pub proof fn law_decoded_is_the_data(text: Seq<u8>, data: Seq<u8>)
    requires
        decodes_to(text, data),
    ensures
        decodable(text),
        decoded(text) == data,
{
    lemma_decodes_unique(text, data, decoded(text));
}

/// Every text that was encoded decodes to its data.
pub proof fn lemma_decodes_own(data: Seq<u8>)
    ensures
        decodes_to(base32hex(data), data),
        decodable(base32hex(data)),
        decoded(base32hex(data)) == data,
    decreases data.len(),
{
    let text = base32hex(data);
    if data.len() > 0 {
        let n: int = if data.len() < 5 {
            data.len() as int
        } else {
            5
        };
        lemma_decodes_own(data.skip(n));
        let head = data.take(n);
        let tail = data.skip(n);
        assert(text.take(8) =~= base32hex(head)) by {
            assert(base32hex(head).len() == 8);
            assert forall|i: int| 0 <= i < 8 implies text[i] == base32hex(head)[i] by {
                if n == 5 {
                    assert forall|k: int| 0 <= k < 40 implies bit(data, k) == bit(head, k) by {
                        reveal(bit);
                    }
                } else {
                    assert(head =~= data);
                }
            }
        }
        assert(text.skip(8) =~= base32hex(tail)) by {
            if n == 5 {
                assert(text.len() - 8 == base32hex(tail).len());
                assert forall|i: int| 0 <= i < text.len() - 8 implies text[i + 8] == base32hex(
                    tail,
                )[i] by {
                    assert forall|k: int| k >= 0 implies #[trigger] bit(tail, k) == bit(
                        data,
                        k + 40,
                    ) by {
                        reveal(bit);
                        assert((k + 40) / 8 == k / 8 + 5);
                        assert((k + 40) % 8 == k % 8);
                    }
                    assert(bit(tail, 5 * i) == bit(data, 5 * (i + 8)));
                    assert(bit(tail, 5 * i + 1) == bit(data, 5 * (i + 8) + 1));
                    assert(bit(tail, 5 * i + 2) == bit(data, 5 * (i + 8) + 2));
                    assert(bit(tail, 5 * i + 3) == bit(data, 5 * (i + 8) + 3));
                    assert(bit(tail, 5 * i + 4) == bit(data, 5 * (i + 8) + 4));
                }
            }
        }
        assert(block_holds(text, data, n) && decodes_to(text.skip(8), data.skip(n)));
        assert(decodes_to(text, data));
    } else {
        assert(text.len() == 0);
        assert(decodes_to(text, data));
    }
    assert(decodable(text));
    lemma_decodes_unique(text, data, decoded(text));
}

/// The text is ASCII and holds no hyphen.
pub proof fn lemma_base32hex_bytes(data: Seq<u8>)
    ensures
        forall|i: int|
            0 <= i < base32hex(data).len() ==> 48 <= #[trigger] base32hex(data)[i] <= 86,
{
    assert forall|i: int| 0 <= i < base32hex(data).len() implies 48 <= #[trigger] base32hex(
        data,
    )[i] <= 86 by {
        lemma_quintet(data, data, i);
    }
}

/// Text that decodes is ASCII and holds no hyphen.
pub proof fn lemma_decodable_bytes(text: Seq<u8>, data: Seq<u8>)
    requires
        decodes_to(text, data),
    ensures
        forall|i: int| 0 <= i < text.len() ==> 48 <= #[trigger] text[i] <= 86,
    decreases text.len(),
{
    if text.len() > 0 {
        let n = choose|n: int| #[trigger]
            block_holds(text, data, n) && decodes_to(text.skip(8), data.skip(n));
        lemma_decodable_bytes(text.skip(8), data.skip(n));
        lemma_base32hex_bytes(data.take(n));
        assert forall|i: int| 0 <= i < text.len() implies 48 <= #[trigger] text[i] <= 86 by {
            if i < 8 {
                assert(text[i] == text.take(8)[i]);
                assert(48 <= base32hex(data.take(n))[i] <= 86);
            } else {
                assert(text[i] == text.skip(8)[i - 8]);
            }
        }
    }
}

/// Of two bytes the smaller has a zero where the two first differ.
proof fn lemma_first_bit(a: Seq<u8>, b: Seq<u8>, j: int) -> (t: int)
    requires
        0 <= j < a.len(),
        0 <= j < b.len(),
        a[j] < b[j],
    ensures
        0 <= t < 8,
        forall|s: int| 8 * j <= s < 8 * j + t ==> bit(a, s) == bit(b, s),
        bit(a, 8 * j + t) == 0,
        bit(b, 8 * j + t) == 1,
{
    lemma_byte_bits(a, j);
    lemma_byte_bits(b, j);
    if bit(a, 8 * j) != bit(b, 8 * j) {
        0
    } else if bit(a, 8 * j + 1) != bit(b, 8 * j + 1) {
        1
    } else if bit(a, 8 * j + 2) != bit(b, 8 * j + 2) {
        2
    } else if bit(a, 8 * j + 3) != bit(b, 8 * j + 3) {
        3
    } else if bit(a, 8 * j + 4) != bit(b, 8 * j + 4) {
        4
    } else if bit(a, 8 * j + 5) != bit(b, 8 * j + 5) {
        5
    } else if bit(a, 8 * j + 6) != bit(b, 8 * j + 6) {
        6
    } else {
        7
    }
}

/// Where all earlier bits agree and bit `k` is zero in one and one in the other, the groups
/// before that of `k` agree and the group of `k` is smaller.
proof fn lemma_groups(a: Seq<u8>, b: Seq<u8>, k: int)
    requires
        k >= 0,
        forall|s: int| 0 <= s < k ==> bit(a, s) == bit(b, s),
        bit(a, k) == 0,
        bit(b, k) == 1,
    ensures
        forall|p: int| 0 <= p < k / 5 ==> quintet(a, p) == quintet(b, p),
        0 <= quintet(a, k / 5) < quintet(b, k / 5) < 32,
{
    let q = k / 5;
    lemma_quintet(a, b, q);
    lemma_quintet(b, a, q);
    assert forall|p: int| 0 <= p < q implies quintet(a, p) == quintet(b, p) by {
        assert(5 * p + 4 < k);
    }
    assert forall|s: Seq<u8>, n: int| 0 <= #[trigger] bit(s, n) <= 1 by {
        lemma_bit(s, n);
    }
    let r = k - 5 * q;
    assert(r == 0 || r == 1 || r == 2 || r == 3 || r == 4);
}

/// Text that a hyphen follows keeps the order of the digits it encodes.
pub proof fn lemma_base32hex_order(a: Seq<u8>, b: Seq<u8>, x: Seq<u8>, y: Seq<u8>)
    requires
        all_digits(a),
        all_digits(b),
        lex_less(a, b),
    ensures
        lex_less(base32hex(a) + seq![45u8] + x, base32hex(b) + seq![45u8] + y),
{
    let i = choose|i: int| less_at(a, b, i);
    let left = base32hex(a) + seq![45u8] + x;
    let right = base32hex(b) + seq![45u8] + y;
    let k: int;
    if i < a.len() {
        let t = lemma_first_bit(a, b, i);
        k = 8 * i + t;
    } else {
        k = 8 * i + 2;
        assert(48 <= b[i] <= 57);
        lemma_bit_of_byte(b, i, 0);
        lemma_bit_of_byte(b, i, 1);
        lemma_bit_of_byte(b, i, 2);
        lemma_bit_of_byte(b, i, 3);
        assert forall|s: int| s >= 8 * i implies bit(a, s) == 0 by {
            reveal(bit);
        }
    }
    assert forall|s: int| 0 <= s < k implies bit(a, s) == bit(b, s) by {
        if s < 8 * i {
            reveal(bit);
            assert(0 <= s / 8 < i);
            assert(a[s / 8] == b[s / 8]);
        }
    }
    lemma_groups(a, b, k);
    let q = k / 5;
    assert forall|p: int| 0 <= p < q implies left[p] == right[p] by {
        assert(5 * p < 8 * a.len());
        assert(5 * p < 8 * b.len());
        assert(quintet(a, p) == quintet(b, p));
    }
    assert(right[q] == symbol(quintet(b, q)));
    assert(left[q] < right[q]) by {
        if 5 * q < 8 * a.len() {
            assert(left[q] == symbol(quintet(a, q)));
        } else {
            assert(i == a.len());
            if q < base32hex(a).len() {
                assert(left[q] == 61);
                assert(5 * q == 8 * i + 1 || 5 * q == 8 * i + 2);
                assert forall|s: Seq<u8>, n: int| 0 <= #[trigger] bit(s, n) <= 1 by {
                    lemma_bit(s, n);
                }
                assert(quintet(b, q) >= 10);
            } else {
                assert(q == base32hex(a).len());
                assert(left[q] == 45);
            }
        }
    }
    assert(less_at(left, right, q));
}

} // verus!
