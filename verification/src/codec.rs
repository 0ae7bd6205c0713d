//! The byte layout of a stored card record.
//!
//! A record is the concatenation, in this order, of
//!
//! | field  | bytes                                             |
//! |--------|---------------------------------------------------|
//! | name   | its length as 4 bytes, big-endian, then the bytes |
//! | rarity | 1                                                 |
//! | power  | 4, big-endian                                     |
//! | owner  | 32                                                |
//!
//! Nothing precedes or follows these fields.

use vstd::prelude::*;
use crate::address::{Address, ADDRESS_LEN};
use crate::card::{CardData, CardView};

verus! {

/// Width of the length prefix in front of the name.
pub const LENGTH_PREFIX_LEN: usize = 4;

/// Number of bytes after the name: rarity, power and owner.
pub const FIXED_TAIL_LEN: usize = 37;

/// Why a card could not be written as a record.
#[derive(Clone, Copy, Debug, PartialEq, Eq, Structural)]
pub enum EncodeError {
    /// The name is longer than the length prefix can express.
    NameTooLong,
}

/// Why bytes could not be read as a record.
#[derive(Clone, Copy, Debug, PartialEq, Eq, Structural)]
pub enum DecodeError {
    /// The bytes end before the record does.
    InputTooShort,
    /// Bytes are left over after the record.
    InputTooLong,
}

/// The four bytes of `v`, most significant first.
pub open spec fn be_bytes_of_u32(v: u32) -> Seq<u8> {
    seq![
        (v / 0x100_0000) as u8,
        (v / 0x1_0000 % 0x100) as u8,
        (v / 0x100 % 0x100) as u8,
        (v % 0x100) as u8,
    ]
}

/// The number whose big-endian bytes are the first four of `bytes`.
pub open spec fn u32_of_be_bytes(bytes: Seq<u8>) -> u32
    recommends
        bytes.len() >= 4,
{
    (bytes[0] * 0x100_0000 + bytes[1] * 0x1_0000 + bytes[2] * 0x100 + bytes[3]) as u32
}

/// Whether the name of `card` is short enough for the length prefix.
pub open spec fn encodable(card: CardView) -> bool {
    card.name.len() <= u32::MAX
}

/// The record that stands for `card`.
pub open spec fn encode_card(card: CardView) -> Seq<u8>
    recommends
        encodable(card),
{
    be_bytes_of_u32(card.name.len() as u32) + card.name + seq![card.rarity] + be_bytes_of_u32(
        card.power,
    ) + card.owner.bytes@
}

/// The length of the record that `bytes` begins, as far as its length
/// prefix tells; `None` when even the prefix is incomplete.
pub open spec fn announced_len(bytes: Seq<u8>) -> Option<int> {
    if bytes.len() < LENGTH_PREFIX_LEN {
        None
    } else {
        Some(LENGTH_PREFIX_LEN + u32_of_be_bytes(bytes) + FIXED_TAIL_LEN)
    }
}

/// Whether `bytes` is one whole record and nothing more.
pub open spec fn is_card_record(bytes: Seq<u8>) -> bool {
    announced_len(bytes) == Some(bytes.len() as int)
}

/// Whether `bytes` stops before the record that it begins is complete.
pub open spec fn is_truncated(bytes: Seq<u8>) -> bool {
    match announced_len(bytes) {
        None => true,
        Some(len) => bytes.len() < len,
    }
}

/// Reading back the bytes of a number gives the number.
pub proof fn lemma_u32_be_roundtrip(v: u32)
    ensures
        be_bytes_of_u32(v).len() == 4,
        u32_of_be_bytes(be_bytes_of_u32(v)) == v,
{
    let bytes = be_bytes_of_u32(v);
    assert(bytes[0] == v / 0x100_0000);
    assert(bytes[1] == v / 0x1_0000 % 0x100);
    assert(bytes[2] == v / 0x100 % 0x100);
    assert(bytes[3] == v % 0x100);
}

/// Writing out the number read from four bytes gives those bytes.
pub proof fn lemma_be_u32_roundtrip(bytes: Seq<u8>)
    requires
        bytes.len() >= 4,
    ensures
        be_bytes_of_u32(u32_of_be_bytes(bytes)) == bytes.subrange(0, 4),
{
    let v = u32_of_be_bytes(bytes);
    let low3 = bytes[1] * 0x1_0000 + bytes[2] * 0x100 + bytes[3];
    let low2 = bytes[2] * 0x100 + bytes[3];
    assert(v == bytes[0] * 0x100_0000 + low3 && 0 <= low3 < 0x100_0000);
    assert(v / 0x100_0000 == bytes[0]);
    assert(v / 0x1_0000 == bytes[0] * 0x100 + bytes[1] && 0 <= low2 < 0x1_0000);
    assert(v / 0x100 == bytes[0] * 0x1_0000 + bytes[1] * 0x100 + bytes[2]);
    assert(be_bytes_of_u32(v) =~= bytes.subrange(0, 4));
}

/// The record of a card is a whole record, 41 bytes longer than the name.
pub proof fn lemma_encoding_is_a_record(card: CardView)
    requires
        encodable(card),
    ensures
        encode_card(card).len() == card.name.len() + 41,
        is_card_record(encode_card(card)),
{
    lemma_record_fields(card);
}

/// A record stands for one card only: cards with the same record are equal
/// in every field.
pub proof fn lemma_encoding_is_injective(a: CardView, b: CardView)
    requires
        encodable(a),
        encodable(b),
        encode_card(a) == encode_card(b),
    ensures
        a == b,
{
    lemma_record_fields(a);
    lemma_record_fields(b);
    assert(a.name =~= b.name);
    assert(a.owner.bytes =~= b.owner.bytes);
}

/// Where the fields of a card lie in its record.
proof fn lemma_record_fields(card: CardView)
    requires
        encodable(card),
    ensures
        ({
            let n = card.name.len() as int;
            let bytes = encode_card(card);
            &&& u32_of_be_bytes(bytes) == n
            &&& bytes.len() == n + 41
            &&& bytes.subrange(4, 4 + n) == card.name
            &&& bytes[4 + n] == card.rarity
            &&& u32_of_be_bytes(bytes.subrange(5 + n, 9 + n)) == card.power
            &&& bytes.subrange(9 + n, 41 + n) == card.owner.bytes@
        }),
{
    let n = card.name.len() as int;
    let bytes = encode_card(card);
    let prefix = be_bytes_of_u32(n as u32);
    lemma_u32_be_roundtrip(n as u32);
    lemma_u32_be_roundtrip(card.power);
    assert(bytes[0] == prefix[0] && bytes[1] == prefix[1] && bytes[2] == prefix[2] && bytes[3]
        == prefix[3]);
    assert(bytes.subrange(4, 4 + n) =~= card.name);
    assert(bytes.subrange(5 + n, 9 + n) =~= be_bytes_of_u32(card.power));
    assert(bytes.subrange(9 + n, 41 + n) =~= card.owner.bytes@);
}

/// The value of the length prefix for a name of `name_len` bytes, or
/// `NameTooLong` when four bytes cannot express that length.
pub fn length_prefix(name_len: usize) -> (r: Result<u32, EncodeError>)
    ensures
        r is Ok <==> name_len <= u32::MAX,
        r matches Ok(prefix) ==> prefix == name_len,
        r matches Err(e) ==> e == EncodeError::NameTooLong,
{
    if name_len > u32::MAX as usize {
        Err(EncodeError::NameTooLong)
    } else {
        Ok(name_len as u32)
    }
}

/// Appends the four bytes of `v`, most significant first.
fn push_u32_be(dest: &mut Vec<u8>, v: u32)
    ensures
        final(dest)@ == old(dest)@ + be_bytes_of_u32(v),
{
    dest.push((v / 0x100_0000) as u8);
    dest.push((v / 0x1_0000 % 0x100) as u8);
    dest.push((v / 0x100 % 0x100) as u8);
    dest.push((v % 0x100) as u8);
    assert(dest@ =~= old(dest)@ + be_bytes_of_u32(v));
}

/// Appends `src` to `dest`.
fn push_bytes(dest: &mut Vec<u8>, src: &[u8])
    ensures
        final(dest)@ == old(dest)@ + src@,
{
    let mut i: usize = 0;
    while i < src.len()
        invariant
            i <= src.len(),
            dest@ == old(dest)@ + src@.subrange(0, i as int),
        decreases src.len() - i,
    {
        dest.push(src[i]);
        i += 1;
        assert(dest@ =~= old(dest)@ + src@.subrange(0, i as int));
    }
    assert(src@.subrange(0, i as int) =~= src@);
}

/// Reads the big-endian number in the four bytes at `at`.
fn read_u32_be(bytes: &[u8], at: usize) -> (v: u32)
    requires
        at + 4 <= bytes.len(),
    ensures
        v == u32_of_be_bytes(bytes@.subrange(at as int, at + 4)),
{
    let b0 = bytes[at] as u32;
    let b1 = bytes[at + 1] as u32;
    let b2 = bytes[at + 2] as u32;
    let b3 = bytes[at + 3] as u32;
    b0 * 0x100_0000 + b1 * 0x1_0000 + b2 * 0x100 + b3
}

impl CardData {
    /// Writes the card as a record. A name of more than `u32::MAX` bytes
    /// does not fit the layout and is refused.
    pub fn encode(&self) -> (r: Result<Vec<u8>, EncodeError>)
        ensures
            r is Ok <==> encodable(self@),
            r matches Ok(bytes) ==> bytes@ == encode_card(self@),
            r matches Err(e) ==> e == EncodeError::NameTooLong,
    {
        let prefix = match length_prefix(self.name.len()) {
            Ok(prefix) => prefix,
            Err(e) => {
                return Err(e);
            },
        };
        let mut bytes: Vec<u8> = Vec::new();
        push_u32_be(&mut bytes, prefix);
        push_bytes(&mut bytes, self.name.as_slice());
        bytes.push(self.rarity);
        push_u32_be(&mut bytes, self.power);
        push_bytes(&mut bytes, self.owner.bytes.as_slice());
        assert(bytes@ =~= encode_card(self@));
        Ok(bytes)
    }

    /// Reads a record back into the card that it stands for. The bytes must
    /// be exactly one record: a shorter input is `InputTooShort`, a longer
    /// one `InputTooLong`.
    pub fn decode(bytes: &[u8]) -> (r: Result<CardData, DecodeError>)
        ensures
            r is Ok <==> is_card_record(bytes@),
            r matches Ok(card) ==> encodable(card@) && encode_card(card@) == bytes@,
            r matches Err(e) ==> e == (if is_truncated(bytes@) {
                DecodeError::InputTooShort
            } else {
                DecodeError::InputTooLong
            }),
    {
        let len = bytes.len();
        if len < LENGTH_PREFIX_LEN {
            return Err(DecodeError::InputTooShort);
        }
        let name_len = read_u32_be(bytes, 0);
        assert(u32_of_be_bytes(bytes@.subrange(0, 4)) == u32_of_be_bytes(bytes@));
        let announced: u64 = LENGTH_PREFIX_LEN as u64 + name_len as u64 + FIXED_TAIL_LEN as u64;
        if (len as u64) < announced {
            return Err(DecodeError::InputTooShort);
        }
        if (len as u64) > announced {
            return Err(DecodeError::InputTooLong);
        }
        let rarity_at: usize = LENGTH_PREFIX_LEN + name_len as usize;
        let power_at: usize = rarity_at + 1;
        let owner_at: usize = power_at + 4;
        let mut name: Vec<u8> = Vec::new();
        push_bytes(&mut name, vstd::slice::slice_subrange(bytes, LENGTH_PREFIX_LEN, rarity_at));
        let rarity = bytes[rarity_at];
        let power = read_u32_be(bytes, power_at);
        let mut owner: [u8; 32] = [0u8; 32];
        let mut i: usize = 0;
        while i < ADDRESS_LEN
            invariant
                i <= ADDRESS_LEN,
                owner_at + ADDRESS_LEN == bytes.len(),
                forall|k: int| 0 <= k < i ==> owner[k] == bytes@[owner_at + k],
            decreases ADDRESS_LEN - i,
        {
            owner[i] = bytes[owner_at + i];
            i += 1;
        }
        let card = CardData { name, rarity, power, owner: Address { bytes: owner } };
        proof {
            lemma_be_u32_roundtrip(bytes@);
            lemma_be_u32_roundtrip(bytes@.subrange(power_at as int, owner_at as int));
            assert(encode_card(card@) =~= bytes@);
        }
        Ok(card)
    }
}

} // verus!
