//! Text as bytes: UTF-8, cutting at a separator, and reading numbers.

use crate::decimal::parsed;
use std::num::IntErrorKind;
use std::str::FromStr;
use vstd::prelude::*;
use vstd::string::StringSliceAdditionalSpecFns;
use vstd::utf8::{
    char_is_scalar, decode_utf8, encode_scalar, encode_utf8, encode_utf8_decode_utf8,
    encode_utf8_valid_utf8, is_char_boundary, is_char_boundary_iff_not_is_continuation_byte,
    pop_first_scalar, valid_utf8, valid_utf8_split,
};

verus! {

/// Where bytes stop being UTF-8.
#[derive(Debug, Clone, Copy, PartialEq, Eq)]
pub struct Utf8Fault {
    /// The length of the longest front that is UTF-8.
    pub valid_up_to: usize,
    /// The length of the invalid sequence that follows; nothing where the bytes end too early.
    pub error_len: Option<usize>,
}

/// More bytes would make UTF-8 of these.
pub open spec fn incomplete(bytes: Seq<u8>) -> bool {
    exists|rest: Seq<u8>| #[trigger] valid_utf8(bytes + rest)
}

/// The fault says where and how these bytes stop being UTF-8.
pub open spec fn utf8_fault_of(bytes: Seq<u8>, fault: Utf8Fault) -> bool {
    &&& fault.valid_up_to < bytes.len()
    &&& valid_utf8(bytes.take(fault.valid_up_to as int))
    &&& forall|n: int|
        fault.valid_up_to < n <= bytes.len() ==> !valid_utf8(#[trigger] bytes.take(n))
    &&& match fault.error_len {
        Some(len) => !incomplete(bytes) && 1 <= len <= bytes.len() - fault.valid_up_to,
        None => incomplete(bytes) && bytes.len() - fault.valid_up_to <= 3,
    }
}

/// `std::str::from_utf8`: succeeds on valid UTF-8, and only there, with the text of those bytes.
/// Its error gives the longest front that is UTF-8, and after it either the length of an invalid
/// sequence, or nothing where the bytes break off inside a character. How long an invalid
/// sequence is counted to be is left unsaid, but that it is not empty and lies in the bytes.
#[verifier::external_body]
pub(crate) fn utf8_text(bytes: &[u8]) -> (result: Result<&str, Utf8Fault>)
    ensures
        match result {
            Ok(text) => valid_utf8(bytes@) && text.spec_bytes() == bytes@,
            Err(fault) => !valid_utf8(bytes@) && utf8_fault_of(bytes@, fault),
        },
{
    match std::str::from_utf8(bytes) {
        Ok(text) => Ok(text),
        Err(error) => Err(
            Utf8Fault { valid_up_to: error.valid_up_to(), error_len: error.error_len() },
        ),
    }
}

/// Why text is no number of the wanted type.
#[derive(Debug, Clone, Copy, PartialEq, Eq)]
pub enum NumberFault {
    /// There is no text.
    Empty,
    /// There is something other than digits, or a sign out of place.
    InvalidDigit,
    /// The number is too large.
    PosOverflow,
    /// Anything else, which does not happen to unsigned numbers.
    Other,
}

/// The fault says why the text is no number up to `max`. Where digits that already stand for too
/// large a number are followed by something else, either fault can be named.
pub open spec fn number_fault_of(text: Seq<u8>, max: nat, fault: NumberFault) -> bool {
    match fault {
        NumberFault::Empty => text.len() == 0,
        NumberFault::InvalidDigit => text.len() > 0 && parsed(text) is None,
        NumberFault::PosOverflow => exists|n: int|
            0 < n <= text.len() && (#[trigger] parsed(text.take(n)) matches Some(value) && value
                > max),
        NumberFault::Other => false,
    }
}

/// `u64::from_str`: accepts an optional plus sign followed by digits, where the number fits. Its
/// error tells apart no text, an invalid digit and too large a number. Which of the last two it
/// names where both are met in the text is left unsaid.
#[verifier::external_body]
pub(crate) fn parse_u64(text: &str) -> (result: Result<u64, NumberFault>)
    ensures
        match result {
            Ok(n) => parsed(text.spec_bytes()) == Some(n as nat),
            Err(fault) => fails_to_parse(text.spec_bytes(), u64::MAX as nat) && number_fault_of(
                text.spec_bytes(),
                u64::MAX as nat,
                fault,
            ),
        },
{
    match u64::from_str(text) {
        Ok(n) => Ok(n),
        Err(error) => match error.kind() {
            IntErrorKind::Empty => Err(NumberFault::Empty),
            IntErrorKind::InvalidDigit => Err(NumberFault::InvalidDigit),
            IntErrorKind::PosOverflow => Err(NumberFault::PosOverflow),
            _ => Err(NumberFault::Other),
        },
    }
}

/// `u32::from_str`: accepts an optional plus sign followed by digits, where the number fits. Its
/// error tells apart no text, an invalid digit and too large a number. Which of the last two it
/// names where both are met in the text is left unsaid.
#[verifier::external_body]
pub(crate) fn parse_u32(text: &str) -> (result: Result<u32, NumberFault>)
    ensures
        match result {
            Ok(n) => parsed(text.spec_bytes()) == Some(n as nat),
            Err(fault) => fails_to_parse(text.spec_bytes(), u32::MAX as nat) && number_fault_of(
                text.spec_bytes(),
                u32::MAX as nat,
                fault,
            ),
        },
{
    match u32::from_str(text) {
        Ok(n) => Ok(n),
        Err(error) => match error.kind() {
            IntErrorKind::Empty => Err(NumberFault::Empty),
            IntErrorKind::InvalidDigit => Err(NumberFault::InvalidDigit),
            IntErrorKind::PosOverflow => Err(NumberFault::PosOverflow),
            _ => Err(NumberFault::Other),
        },
    }
}

/// `String::from` of a string slice: a string of the same characters.
pub assume_specification<'a>[ <String as From<&'a str>>::from ](text: &str) -> (result: String)
    ensures
        result@ == text@,
;

/// The text denotes no number, or one above `max`.
pub open spec fn fails_to_parse(text: Seq<u8>, max: nat) -> bool {
    match parsed(text) {
        Some(n) => n > max,
        None => true,
    }
}

/// How many bytes come before the first `sep`, or before the end.
pub open spec fn run_len(text: Seq<u8>, sep: u8) -> nat
    decreases text.len(),
{
    if text.len() == 0 || text[0] == sep {
        0
    } else {
        1 + run_len(text.skip(1), sep)
    }
}

/// The parts of a text between its separators: one more than there are separators.
pub open spec fn split(text: Seq<u8>, sep: u8) -> Seq<Seq<u8>>
    decreases text.len(),
{
    let i = run_len(text, sep) as int;
    if i < text.len() {
        seq![text.take(i)] + split(text.skip(i + 1), sep)
    } else {
        seq![text]
    }
}

/// What `run_len` counts.
pub proof fn lemma_run_len(text: Seq<u8>, sep: u8)
    ensures
        run_len(text, sep) <= text.len(),
        forall|i: int| 0 <= i < run_len(text, sep) ==> text[i] != sep,
        run_len(text, sep) < text.len() ==> text[run_len(text, sep) as int] == sep,
    decreases text.len(),
{
    if text.len() > 0 && text[0] != sep {
        lemma_run_len(text.skip(1), sep);
        assert forall|i: int| 0 <= i < run_len(text, sep) implies text[i] != sep by {
            if i > 0 {
                assert(text.skip(1)[i - 1] != sep);
            }
        }
    }
}

/// The first separator determines `run_len`.
pub proof fn lemma_run_len_is(text: Seq<u8>, sep: u8, n: int)
    requires
        0 <= n <= text.len(),
        forall|i: int| 0 <= i < n ==> text[i] != sep,
        n < text.len() ==> text[n] == sep,
    ensures
        run_len(text, sep) == n,
{
    lemma_run_len(text, sep);
    let k = run_len(text, sep) as int;
    if k < n {
        assert(text[k] != sep);
    }
}

/// A text without a separator is its only part; a first part without one is cut off.
pub proof fn lemma_split_head(head: Seq<u8>, tail: Seq<u8>, sep: u8)
    requires
        forall|i: int| 0 <= i < head.len() ==> head[i] != sep,
    ensures
        split(head, sep) == seq![head],
        split(head + seq![sep] + tail, sep) == seq![head] + split(tail, sep),
{
    lemma_run_len_is(head, sep, head.len() as int);
    let text = head + seq![sep] + tail;
    lemma_run_len_is(text, sep, head.len() as int);
    assert(text.take(head.len() as int) =~= head);
    assert(text.skip(head.len() as int + 1) =~= tail);
}

/// The bytes of `text` and its characters determine each other.
pub proof fn lemma_utf8_injective(a: Seq<char>, b: Seq<char>)
    requires
        encode_utf8(a) == encode_utf8(b),
    ensures
        a == b,
{
    encode_utf8_decode_utf8(a);
    encode_utf8_decode_utf8(b);
}

/// A text that holds a separator has at least two parts.
pub proof fn lemma_split_many(text: Seq<u8>, sep: u8, i: int)
    requires
        0 <= i < text.len(),
        text[i] == sep,
    ensures
        split(text, sep).len() >= 2,
{
    lemma_run_len(text, sep);
    lemma_split_len(text.skip(run_len(text, sep) as int + 1), sep);
}

/// Every text has at least one part.
pub proof fn lemma_split_len(text: Seq<u8>, sep: u8)
    ensures
        split(text, sep).len() >= 1,
{
}

/// Parts written one after the other, with the separator between them.
pub open spec fn joined(parts: Seq<Seq<u8>>, sep: u8) -> Seq<u8>
    decreases parts.len(),
{
    if parts.len() == 0 {
        seq![]
    } else if parts.len() == 1 {
        parts[0]
    } else {
        parts[0] + seq![sep] + joined(parts.skip(1), sep)
    }
}

/// Parts that do not hold the separator are what their text is cut into.
pub proof fn law_split_undoes_joining(parts: Seq<Seq<u8>>, sep: u8)
    requires
        parts.len() > 0,
        forall|i: int, k: int|
            0 <= i < parts.len() && 0 <= k < parts[i].len() ==> #[trigger] parts[i][k] != sep,
    ensures
        split(joined(parts, sep), sep) == parts,
    decreases parts.len(),
{
    assert forall|k: int| 0 <= k < parts[0].len() implies parts[0][k] != sep by {}
    if parts.len() == 1 {
        lemma_split_head(parts[0], seq![], sep);
        assert(parts =~= seq![parts[0]]);
    } else {
        let rest = parts.skip(1);
        assert forall|i: int, k: int|
            0 <= i < rest.len() && 0 <= k < rest[i].len() implies #[trigger] rest[i][k] != sep by {
            assert(parts[i + 1][k] != sep);
        }
        law_split_undoes_joining(rest, sep);
        lemma_split_head(parts[0], joined(rest, sep), sep);
        assert(parts =~= seq![parts[0]] + rest);
    }
}

/// Cutting a text loses nothing: its parts joined again are the text, and none holds the
/// separator.
pub proof fn law_joining_undoes_split(text: Seq<u8>, sep: u8)
    ensures
        joined(split(text, sep), sep) == text,
        split(text, sep).len() > 0,
        forall|i: int, k: int|
            0 <= i < split(text, sep).len() && 0 <= k < split(text, sep)[i].len()
                ==> #[trigger] split(text, sep)[i][k] != sep,
    decreases text.len(),
{
    lemma_run_len(text, sep);
    let n = run_len(text, sep) as int;
    let parts = split(text, sep);
    if n < text.len() {
        let after = text.skip(n + 1);
        let rest = split(after, sep);
        law_joining_undoes_split(after, sep);
        assert(parts == seq![text.take(n)] + rest);
        assert(parts.skip(1) =~= rest);
        assert(text =~= text.take(n) + seq![sep] + after);
        assert forall|i: int, k: int|
            0 <= i < parts.len() && 0 <= k < parts[i].len() implies #[trigger] parts[i][k] != sep by {
            if i > 0 {
                assert(parts[i] == rest[i - 1]);
                assert(rest[i - 1][k] != sep);
            }
        }
    }
}

/// No part holds the separator, and the parts of UTF-8 text are UTF-8.
pub proof fn lemma_split_parts(text: Seq<u8>, sep: u8)
    requires
        sep < 128,
    ensures
        forall|i: int, k: int|
            0 <= i < split(text, sep).len() && 0 <= k < split(text, sep)[i].len()
                ==> #[trigger] split(text, sep)[i][k] != sep,
        valid_utf8(text) ==> forall|i: int|
            0 <= i < split(text, sep).len() ==> valid_utf8(#[trigger] split(text, sep)[i]),
    decreases text.len(),
{
    lemma_run_len(text, sep);
    let n = run_len(text, sep) as int;
    if n < text.len() {
        let head = text.take(n);
        let tail = text.skip(n);
        let after = text.skip(n + 1);
        lemma_split_parts(after, sep);
        if valid_utf8(text) {
            lemma_ascii_boundary(text, n);
            valid_utf8_split(text, n);
            assert(head =~= text.subrange(0, n));
            assert(tail =~= text.subrange(n, text.len() as int));
            lemma_ascii_boundary(tail, 0);
            valid_utf8_split(tail, 1);
            assert(after =~= tail.subrange(1, tail.len() as int));
        }
        let parts = split(text, sep);
        let rest = split(after, sep);
        assert(parts == seq![head] + rest);
        assert forall|i: int| 0 < i < parts.len() implies parts[i] == #[trigger] rest[i - 1] by {}
        assert forall|i: int, k: int|
            0 <= i < parts.len() && 0 <= k < parts[i].len() implies #[trigger] parts[i][k] != sep by {
            if i > 0 {
                assert(parts[i] == rest[i - 1]);
                assert(rest[i - 1][k] != sep);
            }
        }
        if valid_utf8(text) {
            assert forall|i: int| 0 <= i < parts.len() implies valid_utf8(#[trigger] parts[i]) by {
                if i > 0 {
                    assert(parts[i] == rest[i - 1]);
                }
            }
        }
    }
}

/// ASCII bytes are valid UTF-8.
pub proof fn lemma_ascii_utf8(bytes: Seq<u8>)
    requires
        forall|i: int| 0 <= i < bytes.len() ==> bytes[i] < 128,
    ensures
        valid_utf8(bytes),
    decreases bytes.len(),
{
    if bytes.len() > 0 {
        let b = bytes[0];
        assert((b & 0x7F) as u32 == b as u32) by (bit_vector)
            requires
                b < 128,
        ;
        lemma_ascii_utf8(bytes.skip(1));
        assert(pop_first_scalar(bytes) =~= bytes.skip(1));
    }
}

/// An ASCII byte occurs in the UTF-8 form of a text exactly where its character does.
pub proof fn lemma_utf8_ascii_byte(chars: Seq<char>, c: char)
    requires
        (c as u32) < 128,
    ensures
        encode_utf8(chars).contains(c as u8) <==> chars.contains(c),
    decreases chars.len(),
{
    let bytes = encode_utf8(chars);
    if chars.len() == 0 {
        assert(!bytes.contains(c as u8));
        assert(!chars.contains(c));
    } else {
        let rest = chars.drop_first();
        let first = encode_scalar(chars[0] as u32);
        lemma_utf8_ascii_byte(rest, c);
        lemma_scalar_ascii_byte(chars[0], c);
        assert(bytes == first + encode_utf8(rest));
        assert(chars =~= seq![chars[0]] + rest);
        if chars.contains(c) {
            let i = choose|i: int| 0 <= i < chars.len() && chars[i] == c;
            if i == 0 {
                assert(bytes[0] == c as u8);
            } else {
                assert(rest[i - 1] == c);
                let k = choose|k: int| 0 <= k < encode_utf8(rest).len() && encode_utf8(rest)[k] == c as u8;
                assert(bytes[first.len() + k] == c as u8);
            }
        }
        if bytes.contains(c as u8) {
            let k = choose|k: int| 0 <= k < bytes.len() && bytes[k] == c as u8;
            if k < first.len() {
                assert(first[k] == c as u8);
                assert(chars[0] == c);
            } else {
                assert(encode_utf8(rest)[k - first.len()] == c as u8);
                let i = choose|i: int| 0 <= i < rest.len() && rest[i] == c;
                assert(chars[i + 1] == c);
            }
        }
    }
}

proof fn lemma_scalar_ascii_byte(x: char, c: char)
    requires
        (c as u32) < 128,
    ensures
        encode_scalar(x as u32).len() > 0,
        x == c ==> encode_scalar(x as u32)[0] == c as u8,
        forall|k: int|
            0 <= k < encode_scalar(x as u32).len() && #[trigger] encode_scalar(x as u32)[k]
                == c as u8 ==> x == c,
{
    let s = x as u32;
    char_is_scalar(x);
    assert(s < 128 ==> (s & 0x7F) as u8 == s) by (bit_vector);
    assert(0xC0 | ((s >> 6) & 0x1F) as u8 >= 128) by (bit_vector);
    assert(0xE0 | ((s >> 12) & 0x0F) as u8 >= 128) by (bit_vector);
    assert(0xF0 | ((s >> 18) & 0x7) as u8 >= 128) by (bit_vector);
    assert(0x80 | (s & 0x3F) as u8 >= 128) by (bit_vector);
    assert(0x80 | ((s >> 6) & 0x3F) as u8 >= 128) by (bit_vector);
    assert(0x80 | ((s >> 12) & 0x3F) as u8 >= 128) by (bit_vector);
}

/// The position of the first `sep`, or the length.
fn find(bytes: &[u8], sep: u8) -> (n: usize)
    ensures
        n == run_len(bytes@, sep),
{
    let mut n: usize = 0;
    while n < bytes.len() && bytes[n] != sep
        invariant
            n <= bytes@.len(),
            forall|i: int| 0 <= i < n ==> bytes@[i] != sep,
        decreases bytes@.len() - n,
    {
        n += 1;
    }
    proof {
        lemma_run_len_is(bytes@, sep, n as int);
    }
    n
}

/// The bytes of each part.
pub open spec fn part_bytes(parts: Seq<&str>) -> Seq<Seq<u8>> {
    parts.map_values(|part: &str| part.spec_bytes())
}

/// An ASCII byte in valid UTF-8 is a character of its own.
proof fn lemma_ascii_boundary(bytes: Seq<u8>, n: int)
    requires
        valid_utf8(bytes),
        0 <= n < bytes.len(),
        bytes[n] < 128,
    ensures
        is_char_boundary(bytes, n),
        n == 0 ==> is_char_boundary(bytes, 1),
{
    is_char_boundary_iff_not_is_continuation_byte(bytes, n);
    if n == 0 {
        reveal_with_fuel(is_char_boundary, 2);
    }
}

/// Cuts a text at every ASCII separator.
pub fn split_text<'a>(text: &'a str, sep: u8) -> (parts: Vec<&'a str>)
    requires
        sep < 128,
    ensures
        part_bytes(parts@) == split(text.spec_bytes(), sep),
        parts@.len() == split(text.spec_bytes(), sep).len(),
        forall|i: int|
            0 <= i < parts@.len() ==> (#[trigger] parts@[i]).spec_bytes() == split(
                text.spec_bytes(),
                sep,
            )[i],
{
    let mut parts: Vec<&'a str> = Vec::new();
    let mut rest: &'a str = text;
    assert(part_bytes(parts@) + split(rest.spec_bytes(), sep) =~= split(text.spec_bytes(), sep));
    loop
        invariant
            sep < 128,
            part_bytes(parts@) + split(rest.spec_bytes(), sep) == split(text.spec_bytes(), sep),
        decreases rest.spec_bytes().len(),
    {
        let bytes: &[u8] = rest.as_bytes();
        let n: usize = find(bytes, sep);
        proof {
            encode_utf8_valid_utf8(rest@);
            lemma_run_len(bytes@, sep);
        }
        let ghost before = parts@;
        if n == bytes.len() {
            parts.push(rest);
            assert(part_bytes(parts@) =~= part_bytes(before) + seq![bytes@]);
            assert(forall|i: int|
                0 <= i < parts@.len() ==> (#[trigger] parts@[i]).spec_bytes() == part_bytes(
                    parts@,
                )[i]);
            return parts;
        }
        proof {
            lemma_ascii_boundary(bytes@, n as int);
        }
        let (head, tail) = rest.split_at(n);
        proof {
            encode_utf8_valid_utf8(tail@);
            assert(tail.spec_bytes()[0] == sep);
            lemma_ascii_boundary(tail.spec_bytes(), 0);
        }
        let (_sep, after) = tail.split_at(1);
        parts.push(head);
        proof {
            assert(head.spec_bytes() =~= bytes@.take(n as int));
            assert(after.spec_bytes() =~= bytes@.skip(n + 1));
            assert(part_bytes(parts@) =~= part_bytes(before) + seq![head.spec_bytes()]);
            assert(part_bytes(parts@) + split(after.spec_bytes(), sep) =~= part_bytes(before)
                + split(bytes@, sep));
        }
        rest = after;
    }
}

/// Whether two texts are equal.
pub fn same_text(a: &str, b: &str) -> (same: bool)
    ensures
        same == (a@ == b@),
{
    let x: &[u8] = a.as_bytes();
    let y: &[u8] = b.as_bytes();
    if x.len() != y.len() {
        return false;
    }
    let mut n: usize = 0;
    while n < x.len()
        invariant
            n <= x@.len(),
            x@.len() == y@.len(),
            x@ == a.spec_bytes(),
            y@ == b.spec_bytes(),
            forall|i: int| 0 <= i < n ==> x@[i] == y@[i],
        decreases x@.len() - n,
    {
        if x[n] != y[n] {
            return false;
        }
        n += 1;
    }
    proof {
        assert(x@ =~= y@);
        lemma_utf8_injective(a@, b@);
    }
    true
}

/// Text made of given UTF-8 bytes.
pub fn text_of(bytes: &[u8]) -> (text: String)
    requires
        valid_utf8(bytes@),
    ensures
        encode_utf8(text@) == bytes@,
        text@ == decode_utf8(bytes@),
{
    let text: &str = utf8_text(bytes).unwrap();
    proof {
        encode_utf8_decode_utf8(text@);
    }
    String::from(text)
}

} // verus!
