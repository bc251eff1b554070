//! Keys of stored transactions, `{timestamp}-{height}-{hash}`. They are ordered by the decimal text
//! of the timestamp, which is by time where the digit counts agree, then by height, then by hash.

use crate::base32hex::{
    base32hex, decodable, decode, decoded, decodes_to, encode, law_decoded_is_the_data,
    lemma_base32hex_bytes, lemma_base32hex_injective, lemma_base32hex_order,
    lemma_decodable_bytes, lemma_decodes_own,
};
use crate::decimal::{
    all_digits, decimal, decimal_digits, decimal_value, law_decimal_is_the_text,
    law_padded_is_the_row, lemma_decimal, lemma_decimal_u64_len, lemma_digits_order,
    lemma_padded, lemma_padded_u32_len, lemma_parsed_decimal, padded, padded_digits, parsed,
};
use crate::order::{
    lemma_lex_asymmetric, lemma_lex_extend, lemma_lex_prepend, lemma_lex_total, less_at, lex_less,
};
use crate::text::{
    fails_to_parse, joined, law_split_undoes_joining, lemma_ascii_utf8, lemma_run_len_is, lemma_split_head, lemma_split_many,
    lemma_split_parts, lemma_utf8_ascii_byte, lemma_utf8_injective, number_fault_of, parse_u32,
    parse_u64, part_bytes, run_len, split, split_text, text_of, utf8_fault_of, utf8_text,
    NumberFault, Utf8Fault,
};
use vstd::prelude::*;
use vstd::string::{StringExecFns, StringSliceAdditionalSpecFns};
use vstd::utf8::{
    decode_utf8, decode_utf8_encode_utf8, encode_utf8, encode_utf8_decode_utf8,
    encode_utf8_valid_utf8, valid_utf8, valid_utf8_concat,
};

verus! {

/// The byte between the parts of a key.
pub const HYPHEN: u8 = 45;

/// The number of digits to which a height is padded.
pub const HEIGHT_DIGITS: usize = 12;

/// `{timestamp}-{height}-{hash}`: the key of a transaction. The timestamp is base32hex text of
/// its decimal digits, and the height is padded to twelve digits, for sequential iteration.
#[derive(Debug)]
pub struct TransactionKey(u64, u32, String);

/// What a transaction key holds.
pub struct KeyParts {
    pub timestamp: u64,
    pub height: u32,
    pub hash: Seq<char>,
}

impl View for TransactionKey {
    type V = KeyParts;

    closed spec fn view(&self) -> KeyParts {
        KeyParts { timestamp: self.0, height: self.1, hash: self.2@ }
    }
}

impl Clone for TransactionKey {
    fn clone(&self) -> (key: Self)
        ensures
            key@ == self@,
    {
        Self(self.0, self.1, self.2.clone())
    }
}

/// The bytes of a key.
pub open spec fn key_bytes(key: KeyParts) -> Seq<u8> {
    base32hex(decimal(key.timestamp as nat)) + seq![HYPHEN] + (padded(
        key.height as nat,
        HEIGHT_DIGITS as nat,
    ) + seq![HYPHEN] + encode_utf8(key.hash))
}

/// Why bytes are no key.
pub enum KeyFault {
    /// They are not UTF-8.
    Utf8,
    /// They do not have three parts.
    Shape,
    /// The first part is not the text of a 64-bit number.
    Timestamp,
    /// The second part is not a 32-bit number.
    Height,
}

/// Why bytes were rejected as a key.
#[derive(Debug)]
pub enum KeyError {
    /// The bytes are not UTF-8.
    Utf8(Utf8Fault),
    /// The text does not have three parts.
    Shape { message: String },
    /// The timestamp is no 64-bit number.
    Timestamp(NumberFault),
    /// The height is no 32-bit number.
    Height(NumberFault),
}

impl KeyError {
    /// The kind of fault.
    pub open spec fn fault(self) -> KeyFault {
        match self {
            KeyError::Utf8(_) => KeyFault::Utf8,
            KeyError::Shape { .. } => KeyFault::Shape,
            KeyError::Timestamp(_) => KeyFault::Timestamp,
            KeyError::Height(_) => KeyFault::Height,
        }
    }

    /// What it says besides is true of the bytes: where they stop being UTF-8, what they are, or
    /// why a part is no number.
    pub open spec fn explains(self, bytes: Seq<u8>) -> bool {
        match self {
            KeyError::Utf8(fault) => utf8_fault_of(bytes, fault),
            KeyError::Shape { message } => message@ == "Invalid transaction key: "@ + decode_utf8(
                bytes,
            ),
            KeyError::Timestamp(fault) => number_fault_of(
                timestamp_text(bytes),
                u64::MAX as nat,
                fault,
            ),
            KeyError::Height(fault) => number_fault_of(
                split(bytes, HYPHEN)[1],
                u32::MAX as nat,
                fault,
            ),
        }
    }
}

/// The decimal text that the first part of a key stands for.
pub open spec fn timestamp_text(bytes: Seq<u8>) -> Seq<u8> {
    decoded(split(bytes, HYPHEN)[0])
}

/// What bytes say as a key.
pub open spec fn read_key(bytes: Seq<u8>) -> Result<KeyParts, KeyFault> {
    let parts = split(bytes, HYPHEN);
    if !valid_utf8(bytes) {
        Err(KeyFault::Utf8)
    } else if parts.len() != 3 {
        Err(KeyFault::Shape)
    } else if fails_to_parse(timestamp_text(bytes), u64::MAX as nat) {
        Err(KeyFault::Timestamp)
    } else if fails_to_parse(parts[1], u32::MAX as nat) {
        Err(KeyFault::Height)
    } else {
        Ok(
            KeyParts {
                timestamp: parsed(timestamp_text(bytes))->0 as u64,
                height: parsed(parts[1])->0 as u32,
                hash: decode_utf8(parts[2]),
            },
        )
    }
}

/// Text of three parts has a first part that is base32hex of UTF-8 text.
pub open spec fn has_timestamp(bytes: Seq<u8>) -> bool {
    let parts = split(bytes, HYPHEN);
    valid_utf8(bytes) && parts.len() == 3 ==> {
        &&& parts[0].len() <= usize::MAX / 8
        &&& decodable(parts[0])
        &&& valid_utf8(decoded(parts[0]))
    }
}

/// `From` of a type for itself: returns its argument unchanged.
pub assume_specification<T>[ <T as From<T>>::from ](value: T) -> (result: T)
    ensures
        result == value,
;

impl TransactionKey {
    /// Creates a new key for a transaction.
    pub fn new<S>(h: u32, t: u64, s: S) -> (key: Self) where S: Into<String>
        ensures
            key@.height == h,
            key@.timestamp == t,
            exists|hash: String| #[trigger] call_ensures(S::into, (s,), hash) && key@.hash == hash@,
    {
        Self(t, h, s.into())
    }

    /// Returns the key as bytes.
    pub fn bytes(&self) -> (bytes: Vec<u8>)
        ensures
            bytes@ == key_bytes(self@),
            bytes@ == base32hex(decimal(self@.timestamp as nat)) + seq![45u8] + padded(
                self@.height as nat,
                12,
            ) + seq![45u8] + encode_utf8(self@.hash),
    {
        proof {
            lemma_decimal_u64_len(self.0);
        }
        let digits: Vec<u8> = decimal_digits(self.0);
        let timestamp_hash: String = encode(digits.as_slice());
        let mut bytes: Vec<u8> = Vec::new();
        bytes.extend_from_slice(timestamp_hash.as_str().as_bytes());
        bytes.push(HYPHEN);
        let height: Vec<u8> = padded_digits(self.1, HEIGHT_DIGITS);
        bytes.extend_from_slice(height.as_slice());
        bytes.push(HYPHEN);
        bytes.extend_from_slice(self.2.as_str().as_bytes());
        assert(bytes@ =~= key_bytes(self@));
        bytes
    }

    /// Returns the key as text.
    pub fn to_string(&self) -> (text: String)
        ensures
            encode_utf8(text@) == key_bytes(self@),
            encode_utf8(text@) == base32hex(decimal(self@.timestamp as nat)) + seq![45u8] + padded(
                self@.height as nat,
                12,
            ) + seq![45u8] + encode_utf8(self@.hash),
    {
        proof {
            lemma_key_utf8(self@);
        }
        let bytes: Vec<u8> = self.bytes();
        text_of(bytes.as_slice())
    }

    /// Whether a slice can be read: text of three parts needs a timestamp that decodes.
    pub fn is_readable(bytes: &[u8]) -> (readable: bool)
        ensures
            readable == has_timestamp(bytes@),
            readable <==> (valid_utf8(bytes@) && split(bytes@, 45).len() == 3 ==> split(
                bytes@,
                45,
            )[0].len() <= usize::MAX / 8 && exists|data: Seq<u8>|
                decodes_to(split(bytes@, 45)[0], data) && #[trigger] valid_utf8(data)),
    {
        let key: &str = match utf8_text(bytes) {
            Ok(key) => key,
            Err(_) => {
                return true;
            },
        };
        let parts: Vec<&str> = split_text(key, HYPHEN);
        assert(part_bytes(parts@).len() == parts@.len());
        if parts.len() != 3 {
            return true;
        }
        assert(part_bytes(parts@)[0] == parts@[0].spec_bytes());
        let input: &[u8] = parts[0].as_bytes();
        if input.len() > usize::MAX / 8 {
            return false;
        }
        match decode(input) {
            Some(output) => {
                proof {
                    assert forall|data: Seq<u8>|
                        decodes_to(input@, data) && #[trigger] valid_utf8(data) implies data
                        == output@ by {
                        law_decoded_is_the_data(input@, data);
                    }
                }
                utf8_text(output.as_slice()).is_ok()
            },
            None => false,
        }
    }

    /// Creates a new key from a slice.
    pub fn from_slice(bytes: &[u8]) -> (result: Result<Self, KeyError>)
        requires
            has_timestamp(bytes@),
        ensures
            match result {
                Ok(key) => read_key(bytes@) == Ok::<KeyParts, KeyFault>(key@),
                Err(error) => read_key(bytes@) == Err::<KeyParts, KeyFault>(error.fault()),
            },
            result matches Err(error) ==> error.explains(bytes@),
            ({
                let parts = split(bytes@, 45);
                let stamp = parsed(decoded(parts[0]));
                let height = parsed(parts[1]);
                match result {
                    Ok(key) => {
                        &&& valid_utf8(bytes@)
                        &&& parts.len() == 3
                        &&& stamp == Some(key@.timestamp as nat)
                        &&& height == Some(key@.height as nat)
                        &&& encode_utf8(key@.hash) == parts[2]
                    },
                    Err(KeyError::Utf8(fault)) => {
                        &&& !valid_utf8(bytes@)
                        &&& utf8_fault_of(bytes@, fault)
                    },
                    Err(KeyError::Shape { message }) => {
                        &&& valid_utf8(bytes@)
                        &&& parts.len() != 3
                        &&& message@ == "Invalid transaction key: "@ + decode_utf8(bytes@)
                    },
                    Err(KeyError::Timestamp(fault)) => {
                        &&& number_fault_of(decoded(parts[0]), u64::MAX as nat, fault)
                        &&& valid_utf8(bytes@)
                        &&& parts.len() == 3
                        &&& stamp is None || stamp->0 > u64::MAX
                    },
                    Err(KeyError::Height(fault)) => {
                        &&& number_fault_of(parts[1], u32::MAX as nat, fault)
                        &&& valid_utf8(bytes@)
                        &&& parts.len() == 3
                        &&& stamp is Some && stamp->0 <= u64::MAX
                        &&& height is None || height->0 > u32::MAX
                    },
                }
            }),
    {
        let key: &str = match utf8_text(bytes) {
            Ok(key) => key,
            Err(error) => {
                return Err(KeyError::Utf8(error));
            },
        };
        let parts: Vec<&str> = split_text(key, HYPHEN);
        let ghost pieces = split(bytes@, HYPHEN);
        assert(part_bytes(parts@).len() == parts@.len());
        if parts.len() != 3 {
            let mut message: String = String::from("Invalid transaction key: ");
            message.append(key);
            proof {
                encode_utf8_decode_utf8(key@);
            }
            return Err(KeyError::Shape { message });
        }
        assert(forall|i: int| 0 <= i < 3 ==> pieces[i] == part_bytes(parts@)[i]);
        assert(parts@[0].spec_bytes() == pieces[0]);
        assert(parts@[1].spec_bytes() == pieces[1]);
        assert(parts@[2].spec_bytes() == pieces[2]);
        // decode timestamp hash
        let output: Vec<u8> = decode(parts[0].as_bytes()).unwrap();
        let millis_str: &str = utf8_text(output.as_slice()).unwrap();
        let timestamp: u64 = match parse_u64(millis_str) {
            Ok(timestamp) => timestamp,
            Err(error) => {
                return Err(KeyError::Timestamp(error));
            },
        };
        let height: u32 = match parse_u32(parts[1]) {
            Ok(height) => height,
            Err(error) => {
                return Err(KeyError::Height(error));
            },
        };
        proof {
            encode_utf8_decode_utf8(parts@[2]@);
        }
        Ok(Self(timestamp, height, String::from(parts[2])))
    }

    /// Returns the timestamp of the transaction.
    pub fn timestamp(&self) -> (timestamp: u64)
        ensures
            timestamp == self@.timestamp,
    {
        self.0
    }

    /// Returns the height of the transaction.
    pub fn height(&self) -> (height: u32)
        ensures
            height == self@.height,
    {
        self.1
    }

    /// Returns the hash of the transaction.
    pub fn hash(&self) -> (hash: &str)
        ensures
            hash@ == self@.hash,
    {
        self.2.as_str()
    }
}

/// The bytes of a key are UTF-8.
pub proof fn lemma_key_utf8(key: KeyParts)
    ensures
        valid_utf8(key_bytes(key)),
{
    let stamp = base32hex(decimal(key.timestamp as nat));
    let height = padded(key.height as nat, HEIGHT_DIGITS as nat);
    let front = stamp + seq![HYPHEN] + height + seq![HYPHEN];
    lemma_base32hex_bytes(decimal(key.timestamp as nat));
    lemma_padded(key.height as nat, HEIGHT_DIGITS as nat);
    assert forall|i: int| 0 <= i < front.len() implies front[i] < 128 by {
        if i < stamp.len() {
            assert(front[i] == stamp[i]);
        } else if stamp.len() < i < front.len() - 1 {
            assert(front[i] == height[i - stamp.len() - 1]);
        }
    }
    lemma_ascii_utf8(front);
    encode_utf8_valid_utf8(key.hash);
    valid_utf8_concat(front, encode_utf8(key.hash));
    assert(key_bytes(key) =~= front + encode_utf8(key.hash));
}

/// The parts of a key: its timestamp, its height, and the parts of its hash.
proof fn lemma_key_split(key: KeyParts)
    ensures
        split(key_bytes(key), HYPHEN) == seq![base32hex(decimal(key.timestamp as nat))] + (seq![
            padded(key.height as nat, HEIGHT_DIGITS as nat),
        ] + split(encode_utf8(key.hash), HYPHEN)),
        run_len(key_bytes(key), HYPHEN) == base32hex(decimal(key.timestamp as nat)).len(),
{
    let stamp = base32hex(decimal(key.timestamp as nat));
    let height = padded(key.height as nat, HEIGHT_DIGITS as nat);
    let hash = encode_utf8(key.hash);
    lemma_base32hex_bytes(decimal(key.timestamp as nat));
    lemma_padded(key.height as nat, HEIGHT_DIGITS as nat);
    lemma_split_head(height, hash, HYPHEN);
    lemma_split_head(stamp, height + seq![HYPHEN] + hash, HYPHEN);
    lemma_run_len_is(key_bytes(key), HYPHEN, stamp.len() as int);
}

/// Reading the bytes of a key gives the key back, unless its hash holds a hyphen.
pub proof fn law_key_round_trip(key: KeyParts)
    requires
        !key.hash.contains('-'),
    ensures
        has_timestamp(key_bytes(key)),
        read_key(key_bytes(key)) == Ok::<KeyParts, KeyFault>(key),
{
    let bytes = key_bytes(key);
    let digits = decimal(key.timestamp as nat);
    let hash = encode_utf8(key.hash);
    lemma_key_utf8(key);
    lemma_key_split(key);
    lemma_utf8_ascii_byte(key.hash, '-');
    assert forall|i: int| 0 <= i < hash.len() implies hash[i] != HYPHEN by {
        assert(hash.contains(hash[i]));
    }
    lemma_split_head(hash, seq![], HYPHEN);
    lemma_decodes_own(digits);
    lemma_decimal(key.timestamp as nat);
    lemma_decimal_u64_len(key.timestamp);
    lemma_ascii_utf8(digits);
    lemma_parsed_decimal(key.timestamp as nat);
    lemma_padded(key.height as nat, HEIGHT_DIGITS as nat);
    encode_utf8_decode_utf8(key.hash);
}

/// The bytes of a key whose hash holds a hyphen are not read as a key: they have too many parts.
pub proof fn law_hyphenated_hash_is_rejected(key: KeyParts)
    requires
        key.hash.contains('-'),
    ensures
        has_timestamp(key_bytes(key)),
        read_key(key_bytes(key)) == Err::<KeyParts, KeyFault>(KeyFault::Shape),
{
    let hash = encode_utf8(key.hash);
    lemma_key_utf8(key);
    lemma_key_split(key);
    lemma_utf8_ascii_byte(key.hash, '-');
    let i = choose|i: int| 0 <= i < hash.len() && hash[i] == '-' as u8;
    lemma_split_many(hash, HYPHEN, i);
}

/// A key that was read has no hyphen in its hash, so writing it out and reading it again gives
/// the same key.
pub proof fn law_key_read_is_written_back(bytes: Seq<u8>, key: KeyParts)
    requires
        read_key(bytes) == Ok::<KeyParts, KeyFault>(key),
    ensures
        !key.hash.contains('-'),
        has_timestamp(key_bytes(key)),
        read_key(key_bytes(key)) == Ok::<KeyParts, KeyFault>(key),
{
    let part = split(bytes, HYPHEN)[2];
    lemma_split_parts(bytes, HYPHEN);
    decode_utf8_encode_utf8(part);
    lemma_utf8_ascii_byte(key.hash, '-');
    if part.contains('-' as u8) {
        let k = choose|k: int| 0 <= k < part.len() && part[k] == '-' as u8;
        assert(split(bytes, HYPHEN)[2][k] != HYPHEN);
    }
    law_key_round_trip(key);
}

/// What the bytes of a key are: base32hex text of the digits of its timestamp, a hyphen, its
/// height in twelve digits, a hyphen, and its hash. Whatever rows of digits stand for the two
/// numbers in that way are the ones that are written.
pub proof fn law_key_is_written_in_parts(stamp: Seq<u8>, height: Seq<u8>, key: KeyParts)
    requires
        stamp.len() > 0,
        all_digits(stamp),
        stamp.len() > 1 ==> stamp[0] != 48,
        decimal_value(stamp) == key.timestamp,
        height.len() == 12,
        all_digits(height),
        decimal_value(height) == key.height,
    ensures
        key_bytes(key) == joined(seq![base32hex(stamp), height, encode_utf8(key.hash)], 45),
{
    law_decimal_is_the_text(stamp);
    law_padded_is_the_row(height);
    let parts = seq![base32hex(stamp), height, encode_utf8(key.hash)];
    assert(parts.skip(1) =~= seq![height, encode_utf8(key.hash)]);
    assert(parts.skip(1).skip(1) =~= seq![encode_utf8(key.hash)]);
    reveal_with_fuel(joined, 3);
    assert(joined(parts, 45) =~= key_bytes(key));
}

/// What is read from three parts with a hyphen between them: the number that the first decodes
/// to, the number in the second, and the third as it is. Neither number needs to be written as a
/// key writes it.
pub proof fn law_three_parts_are_read(
    stamp: Seq<u8>,
    data: Seq<u8>,
    height: Seq<u8>,
    key: KeyParts,
)
    requires
        stamp.len() <= usize::MAX / 8,
        decodes_to(stamp, data),
        parsed(data) == Some(key.timestamp as nat),
        parsed(height) == Some(key.height as nat),
        !key.hash.contains('-'),
    ensures
        ({
            let bytes = joined(seq![stamp, height, encode_utf8(key.hash)], 45);
            &&& has_timestamp(bytes)
            &&& read_key(bytes) == Ok::<KeyParts, KeyFault>(key)
        }),
{
    let hash = encode_utf8(key.hash);
    let parts = seq![stamp, height, hash];
    let bytes = joined(parts, 45);
    law_decoded_is_the_data(stamp, data);
    lemma_decodable_bytes(stamp, data);
    lemma_number_bytes(data);
    lemma_number_bytes(height);
    lemma_ascii_utf8(data);
    lemma_utf8_ascii_byte(key.hash, '-');
    assert forall|i: int, k: int|
        0 <= i < parts.len() && 0 <= k < parts[i].len() implies #[trigger] parts[i][k] != 45 by {
        if i == 0 {
            assert(48 <= stamp[k] <= 86);
        } else if i == 1 {
            assert(height[k] != 45);
        } else {
            assert(hash.contains(hash[k]));
        }
    }
    law_split_undoes_joining(parts, 45);
    assert(parts.skip(1) =~= seq![height, hash]);
    assert(parts.skip(1).skip(1) =~= seq![hash]);
    reveal_with_fuel(joined, 3);
    let front = stamp + seq![45u8] + height + seq![45u8];
    assert(bytes =~= front + hash);
    assert forall|i: int| 0 <= i < front.len() implies front[i] < 128 by {
        if i < stamp.len() {
            assert(front[i] == stamp[i]);
        } else if stamp.len() < i < front.len() - 1 {
            assert(front[i] == height[i - stamp.len() - 1]);
        }
    }
    lemma_ascii_utf8(front);
    encode_utf8_valid_utf8(key.hash);
    valid_utf8_concat(front, hash);
    encode_utf8_decode_utf8(key.hash);
}

/// Text that denotes a number is ASCII and holds no hyphen.
proof fn lemma_number_bytes(text: Seq<u8>)
    requires
        parsed(text) is Some,
    ensures
        forall|i: int| 0 <= i < text.len() ==> 43 <= #[trigger] text[i] <= 57 && text[i] != 45,
{
    assert forall|i: int| 0 <= i < text.len() implies 43 <= #[trigger] text[i] <= 57 && text[i]
        != 45 by {
        if text[0] == 43 {
            if i > 0 {
                assert(48 <= text.skip(1)[i - 1] <= 57);
            }
        } else {
            assert(48 <= text[i] <= 57);
        }
    }
}

/// What is wrong with bytes that are no key, looked at from the front: that they are not UTF-8,
/// that they have not three parts, that the first decodes to no 64-bit number, or that the second
/// is no 32-bit number.
pub proof fn law_first_fault_is_named(bytes: Seq<u8>, data: Seq<u8>)
    ensures
        ({
            let parts = split(bytes, 45);
            let shaped = valid_utf8(bytes) && parts.len() == 3;
            let stamped = parsed(data) is Some && parsed(data)->0 <= u64::MAX;
            let heighted = parsed(parts[1]) is Some && parsed(parts[1])->0 <= u32::MAX;
            &&& read_key(bytes) == Err::<KeyParts, KeyFault>(KeyFault::Utf8) <==> !valid_utf8(bytes)
            &&& read_key(bytes) == Err::<KeyParts, KeyFault>(KeyFault::Shape) <==> valid_utf8(bytes)
                && parts.len() != 3
            &&& shaped && decodes_to(parts[0], data) ==> {
                &&& read_key(bytes) == Err::<KeyParts, KeyFault>(KeyFault::Timestamp) <==> !stamped
                &&& read_key(bytes) == Err::<KeyParts, KeyFault>(KeyFault::Height) <==> stamped
                    && !heighted
                &&& read_key(bytes) is Ok <==> stamped && heighted
                &&& read_key(bytes) matches Ok(key) ==> parsed(data) == Some(key.timestamp as nat)
                    && parsed(parts[1]) == Some(key.height as nat) && encode_utf8(key.hash)
                    == parts[2]
            }
        }),
{
    let parts = split(bytes, 45);
    if valid_utf8(bytes) && parts.len() == 3 && decodes_to(parts[0], data) {
        law_decoded_is_the_data(parts[0], data);
        lemma_split_parts(bytes, 45);
        decode_utf8_encode_utf8(parts[2]);
    }
}

/// What an error says besides its kind is said of the part that is at fault: of the bytes that
/// are not UTF-8 or have not three parts, of what the first part decodes to, or of the second.
pub proof fn law_error_speaks_of_the_fault(bytes: Seq<u8>, data: Seq<u8>, error: KeyError)
    requires
        error.explains(bytes),
    ensures
        ({
            let parts = split(bytes, 45);
            match error {
                KeyError::Utf8(fault) => utf8_fault_of(bytes, fault) && error.fault()
                    == KeyFault::Utf8,
                KeyError::Shape { message } => error.fault() == KeyFault::Shape && message@
                    == "Invalid transaction key: "@ + decode_utf8(bytes),
                KeyError::Timestamp(fault) => error.fault() == KeyFault::Timestamp && (decodes_to(
                    parts[0],
                    data,
                ) ==> number_fault_of(data, u64::MAX as nat, fault)),
                KeyError::Height(fault) => error.fault() == KeyFault::Height && number_fault_of(
                    parts[1],
                    u32::MAX as nat,
                    fault,
                ),
            }
        }),
{
    let parts = split(bytes, 45);
    if decodes_to(parts[0], data) {
        law_decoded_is_the_data(parts[0], data);
    }
}

/// Different keys have different bytes.
pub proof fn law_key_injective(a: KeyParts, b: KeyParts)
    requires
        key_bytes(a) == key_bytes(b),
    ensures
        a == b,
{
    let stamp_a = base32hex(decimal(a.timestamp as nat));
    let stamp_b = base32hex(decimal(b.timestamp as nat));
    let height_a = padded(a.height as nat, HEIGHT_DIGITS as nat);
    let height_b = padded(b.height as nat, HEIGHT_DIGITS as nat);
    lemma_key_split(a);
    lemma_key_split(b);
    assert(stamp_a == split(key_bytes(a), HYPHEN)[0]);
    assert(stamp_b == split(key_bytes(b), HYPHEN)[0]);
    assert(height_a == split(key_bytes(a), HYPHEN)[1]);
    assert(height_b == split(key_bytes(b), HYPHEN)[1]);
    lemma_base32hex_injective(decimal(a.timestamp as nat), decimal(b.timestamp as nat));
    lemma_decimal(a.timestamp as nat);
    lemma_decimal(b.timestamp as nat);
    lemma_padded(a.height as nat, HEIGHT_DIGITS as nat);
    lemma_padded(b.height as nat, HEIGHT_DIGITS as nat);
    let front = stamp_a.len() + height_a.len() + 2;
    assert(key_bytes(a).skip(front as int) =~= encode_utf8(a.hash));
    assert(key_bytes(b).skip(front as int) =~= encode_utf8(b.hash));
    lemma_utf8_injective(a.hash, b.hash);
}

/// `a` comes before `b`: by the decimal text of the timestamp, then by the height, then by the
/// bytes of the hash.
pub open spec fn key_before(a: KeyParts, b: KeyParts) -> bool {
    if a.timestamp != b.timestamp {
        lex_less(decimal(a.timestamp as nat), decimal(b.timestamp as nat))
    } else if a.height != b.height {
        a.height < b.height
    } else {
        lex_less(encode_utf8(a.hash), encode_utf8(b.hash))
    }
}

/// The bytes of keys are ordered by timestamp text, then height, then hash.
pub proof fn law_key_order(a: KeyParts, b: KeyParts)
    ensures
        lex_less(key_bytes(a), key_bytes(b)) <==> key_before(a, b),
{
    if key_before(a, b) {
        lemma_key_order(a, b);
    } else if key_before(b, a) {
        lemma_key_order(b, a);
        lemma_lex_asymmetric(key_bytes(b), key_bytes(a));
    } else {
        lemma_lex_total(decimal(a.timestamp as nat), decimal(b.timestamp as nat));
        lemma_lex_total(encode_utf8(a.hash), encode_utf8(b.hash));
        lemma_decimal(a.timestamp as nat);
        lemma_decimal(b.timestamp as nat);
        assert(key_bytes(a) == key_bytes(b));
        if lex_less(key_bytes(a), key_bytes(b)) {
            lemma_lex_asymmetric(key_bytes(a), key_bytes(b));
        }
    }
}

proof fn lemma_key_order(a: KeyParts, b: KeyParts)
    requires
        key_before(a, b),
    ensures
        lex_less(key_bytes(a), key_bytes(b)),
{
    let digits_a = decimal(a.timestamp as nat);
    let digits_b = decimal(b.timestamp as nat);
    let height_a = padded(a.height as nat, HEIGHT_DIGITS as nat);
    let height_b = padded(b.height as nat, HEIGHT_DIGITS as nat);
    let hash_a = encode_utf8(a.hash);
    let hash_b = encode_utf8(b.hash);
    let tail_a = height_a + seq![HYPHEN] + hash_a;
    let tail_b = height_b + seq![HYPHEN] + hash_b;
    if a.timestamp != b.timestamp {
        lemma_decimal(a.timestamp as nat);
        lemma_decimal(b.timestamp as nat);
        lemma_base32hex_order(digits_a, digits_b, tail_a, tail_b);
    } else {
        let front = base32hex(digits_a) + seq![HYPHEN];
        if a.height != b.height {
            lemma_padded(a.height as nat, HEIGHT_DIGITS as nat);
            lemma_padded(b.height as nat, HEIGHT_DIGITS as nat);
            lemma_padded_u32_len(a.height);
            lemma_padded_u32_len(b.height);
            lemma_digits_order(height_a, height_b);
            let i = choose|i: int| less_at(height_a, height_b, i);
            lemma_lex_extend(height_a, height_b, i, seq![HYPHEN] + hash_a, seq![HYPHEN] + hash_b);
            assert(tail_a =~= height_a + (seq![HYPHEN] + hash_a));
            assert(tail_b =~= height_b + (seq![HYPHEN] + hash_b));
        } else {
            lemma_lex_prepend(height_a + seq![HYPHEN], hash_a, hash_b);
        }
        lemma_lex_prepend(front, tail_a, tail_b);
    }
}

/// The decimal texts of two timestamps are ordered as the timestamps are.
pub open spec fn sorts_by_time(a: u64, b: u64) -> bool {
    lex_less(decimal(a as nat), decimal(b as nat)) <==> a < b
}

/// Timestamps with equally many digits sort by time.
pub proof fn law_equal_digits_sort_by_time(a: u64, b: u64)
    requires
        decimal(a as nat).len() == decimal(b as nat).len(),
    ensures
        sorts_by_time(a, b),
{
    lemma_decimal(a as nat);
    lemma_decimal(b as nat);
    lemma_digits_order(decimal(a as nat), decimal(b as nat));
}

/// Keys whose timestamps sort by time are ordered by time, then by height, then by hash.
pub proof fn law_keys_sorted_by_time(a: KeyParts, b: KeyParts)
    requires
        sorts_by_time(a.timestamp, b.timestamp),
    ensures
        lex_less(key_bytes(a), key_bytes(b)) <==> {
            ||| a.timestamp < b.timestamp
            ||| a.timestamp == b.timestamp && a.height < b.height
            ||| a.timestamp == b.timestamp && a.height == b.height && lex_less(
                encode_utf8(a.hash),
                encode_utf8(b.hash),
            )
        },
{
    law_key_order(a, b);
}

} // verus!
