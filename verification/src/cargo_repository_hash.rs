//! The identifier that Cargo derives from a registry's URL.
//!
//! Cargo names its per-registry directories `<host>-<hash>`. The hash is
//! SipHash 2-4 with both keys zero over the registry's source id, written as
//! sixteen hex digits, least significant byte first. A mirror is only found
//! by Cargo if this text is reproduced exactly.

#![allow(deprecated)]

use std::hash::SipHasher;
use std::hash::Hasher;
use vstd::prelude::*;
use vstd::string::*;
use vstd::utf8::*;

verus! {

/// `std::hash::SipHasher`, a streaming hasher. Nothing inside it is seen
/// here; what is known of one is its keys and what was written to it.
#[verifier::external_type_specification]
#[verifier::external_body]
pub struct ExSipHasher(SipHasher);

/// The two keys a hasher was made with.
pub uninterp spec fn hasher_keys(hasher: SipHasher) -> (u64, u64);

/// Every byte written to a hasher so far, in order.
pub uninterp spec fn hasher_input(hasher: SipHasher) -> Seq<u8>;

/// SipHash 2-4 of `input` under the 128-bit key `(key0, key1)`.
pub uninterp spec fn siphash_2_4(key0: u64, key1: u64, input: Seq<u8>) -> u64;

/// `SipHasher::new_with_keys`: a hasher keyed as asked that has seen no byte.
#[verifier::external_body]
fn new_hasher(key0: u64, key1: u64) -> (hasher: SipHasher)
    ensures
        hasher_keys(hasher) == (key0, key1),
        hasher_input(hasher) == Seq::<u8>::empty(),
{
    SipHasher::new_with_keys(key0, key1)
}

/// `Hasher::write` of `SipHasher`: the bytes join the end of the input; the
/// keys stay. The hasher streams, so only the concatenation of all writes
/// counts, not where one write ends and the next begins.
#[verifier::external_body]
fn hasher_write(hasher: &mut SipHasher, bytes: &[u8])
    ensures
        hasher_keys(*final(hasher)) == hasher_keys(*old(hasher)),
        hasher_input(*final(hasher)) == hasher_input(*old(hasher)) + bytes@,
{
    hasher.write(bytes)
}

/// `Hasher::finish` of `SipHasher`: the SipHash 2-4 digest of what was
/// written, under the hasher's keys.
#[verifier::external_body]
fn hasher_finish(hasher: &SipHasher) -> (digest: u64)
    ensures
        digest == siphash_2_4(hasher_keys(*hasher).0, hasher_keys(*hasher).1, hasher_input(*hasher)),
{
    hasher.finish()
}

/// How Cargo's source id numbers the kind "registry": it is the third of
/// three kinds, counted from zero. The hash depends on this number, so it is
/// fixed here and not derived.
pub const REGISTRY_KIND: u8 = 2;

/// The kind "registry" as it enters the hash: eight bytes, the least
/// significant first.
pub open spec fn registry_kind_tag() -> Seq<u8> {
    seq![REGISTRY_KIND, 0u8, 0u8, 0u8, 0u8, 0u8, 0u8, 0u8]
}

/// The byte stream that stands for a registry source id: the kind, then the
/// URL in UTF-8, then the byte `0xff` that ends a string.
pub open spec fn source_id_bytes(url: Seq<char>) -> Seq<u8> {
    registry_kind_tag() + encode_utf8(url) + seq![0xffu8]
}

/// The lower-case hex digit for `value`.
pub open spec fn hex_char(value: int) -> char {
    if value < 10 {
        crate::text::digit_char(value)
    } else if value == 10 {
        'a'
    } else if value == 11 {
        'b'
    } else if value == 12 {
        'c'
    } else if value == 13 {
        'd'
    } else if value == 14 {
        'e'
    } else {
        'f'
    }
}

/// The byte of `num` at position `index`, where position 0 is the least
/// significant.
pub open spec fn byte_at(num: u64, index: int) -> int {
    if index == 0 {
        (num as int) % 256
    } else if index == 1 {
        (num as int / 0x100) % 256
    } else if index == 2 {
        (num as int / 0x1_0000) % 256
    } else if index == 3 {
        (num as int / 0x100_0000) % 256
    } else if index == 4 {
        (num as int / 0x1_0000_0000) % 256
    } else if index == 5 {
        (num as int / 0x100_0000_0000) % 256
    } else if index == 6 {
        (num as int / 0x1_0000_0000_0000) % 256
    } else {
        (num as int / 0x100_0000_0000_0000) % 256
    }
}

/// Sixteen hex digits for `num`: its eight bytes from the least significant
/// to the most, each as two digits, high nibble first.
pub open spec fn hex_le(num: u64) -> Seq<char> {
    Seq::new(
        16,
        |i: int|
            if i % 2 == 0 {
                hex_char(byte_at(num, i / 2) / 16)
            } else {
                hex_char(byte_at(num, i / 2) % 16)
            },
    )
}

/// The one-character text of a hex digit.
fn hex_digit_text(value: u8) -> (text: &'static str)
    requires
        value < 16,
    ensures
        text@ == seq![hex_char(value as int)],
{
    if value < 10 {
        crate::text::digit_text(value)
    } else {
        proof {
            reveal_strlit("a");
            reveal_strlit("b");
            reveal_strlit("c");
            reveal_strlit("d");
            reveal_strlit("e");
            reveal_strlit("f");
        }
        let text = match value {
            10 => "a",
            11 => "b",
            12 => "c",
            13 => "d",
            14 => "e",
            _ => "f",
        };
        text
    }
}

/// Writes a 64-bit hash the way Cargo does in directory names.
pub fn hex_le_u64(num: u64) -> (hex: String)
    ensures
        hex@ == hex_le(num),
{
    let mut hex = String::new();
    let mut rest: u64 = num;
    let mut index: usize = 0;
    while index < 8
        invariant
            index <= 8,
            hex@.len() == 2 * index,
            forall|i: int| 0 <= i < 2 * index ==> hex@[i] == hex_le(num)[i],
            index == 0 ==> rest as int == num as int,
            index == 1 ==> rest as int == num as int / 0x100,
            index == 2 ==> rest as int == num as int / 0x1_0000,
            index == 3 ==> rest as int == num as int / 0x100_0000,
            index == 4 ==> rest as int == num as int / 0x1_0000_0000,
            index == 5 ==> rest as int == num as int / 0x100_0000_0000,
            index == 6 ==> rest as int == num as int / 0x1_0000_0000_0000,
            index == 7 ==> rest as int == num as int / 0x100_0000_0000_0000,
        decreases 8 - index,
    {
        let byte: u8 = (rest % 256) as u8;
        hex.append(hex_digit_text(byte / 16));
        hex.append(hex_digit_text(byte % 16));
        rest = rest / 256;
        index = index + 1;
    }
    hex
}

/// The hash that names the registry at `url`, before it is written as hex.
pub open spec fn registry_hash(url: Seq<char>) -> u64 {
    siphash_2_4(0, 0, source_id_bytes(url))
}

/// The bytes that stand for the source id of the registry at `url`.
pub fn source_id(url: &str) -> (bytes: Vec<u8>)
    ensures
        bytes@ == source_id_bytes(url@),
{
    let mut bytes: Vec<u8> = Vec::new();
    bytes.push(REGISTRY_KIND);
    let mut filled: usize = 1;
    while filled < 8
        invariant
            1 <= filled <= 8,
            bytes@.len() == filled,
            bytes@[0] == REGISTRY_KIND,
            forall|i: int| 1 <= i < filled ==> bytes@[i] == 0u8,
        decreases 8 - filled,
    {
        bytes.push(0);
        filled = filled + 1;
    }
    bytes.extend_from_slice(url.as_bytes());
    bytes.push(0xff);
    bytes
}

/// Cargo's short hash of the registry at `url`: sixteen lower-case hex digits.
pub fn short_hash(url: &str) -> (hex: String)
    ensures
        hex@ == hex_le(registry_hash(url@)),
{
    let bytes = source_id(url);
    let mut hasher = new_hasher(0, 0);
    hasher_write(&mut hasher, bytes.as_slice());
    hex_le_u64(hasher_finish(&hasher))
}

} // verus!
