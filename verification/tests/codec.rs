use multiversx_sc::codec::{top_encode_to_vec_u8, TopDecode};
use xsphere::address::Address;
use xsphere::card::CardData;
use xsphere::codec::{length_prefix, DecodeError, EncodeError, FIXED_TAIL_LEN, LENGTH_PREFIX_LEN};

fn owner() -> Address {
    let mut bytes = [0u8; 32];
    for (index, byte) in bytes.iter_mut().enumerate() {
        *byte = 0xE0 + index as u8 % 32;
    }
    Address { bytes }
}

fn goblin() -> CardData {
    CardData { name: b"Goblin".to_vec(), rarity: 1, power: 10, owner: owner() }
}

fn goblin_record() -> Vec<u8> {
    let mut record = vec![0, 0, 0, 6, b'G', b'o', b'b', b'l', b'i', b'n', 1, 0, 0, 0, 10];
    record.extend_from_slice(&owner().bytes);
    record
}

#[test]
fn record_layout_byte_for_byte() {
    assert_eq!(goblin().encode(), Ok(goblin_record()));
    assert_eq!(goblin_record().len(), 6 + LENGTH_PREFIX_LEN + FIXED_TAIL_LEN);
}

#[test]
fn power_and_length_are_big_endian() {
    let card = CardData { name: vec![7; 0x0102], rarity: 0xFE, power: 0x0A0B0C0D, owner: owner() };
    let record = card.encode().unwrap();
    assert_eq!(&record[..4], &[0, 0, 1, 2]);
    assert_eq!(&record[4..4 + 0x0102], &[7u8; 0x0102][..]);
    assert_eq!(record[4 + 0x0102], 0xFE);
    assert_eq!(&record[5 + 0x0102..9 + 0x0102], &[0x0A, 0x0B, 0x0C, 0x0D]);
    assert_eq!(&record[9 + 0x0102..], &owner().bytes[..]);
    assert_eq!(record.len(), 0x0102 + 41);
}

#[test]
fn empty_name_record() {
    let card = CardData { name: Vec::new(), rarity: 0, power: 0, owner: Address { bytes: [0; 32] } };
    assert_eq!(card.encode(), Ok(vec![0u8; 41]));
    assert_eq!(CardData::decode(&[0u8; 41]), Ok(card));
}

#[test]
fn decode_reads_the_record_back() {
    assert_eq!(CardData::decode(&goblin_record()), Ok(goblin()));
}

#[test]
fn decode_inverts_encode() {
    for n in 0..70u32 {
        let card = CardData {
            name: (0..n).map(|k| (k * 37 + n) as u8).collect(),
            rarity: (n * 5) as u8,
            power: n.wrapping_mul(0x0101_0101).wrapping_add(0xFFFF_FF00),
            owner: Address { bytes: [n as u8; 32] },
        };
        let record = card.encode().unwrap();
        assert_eq!(record.len(), n as usize + 41);
        assert_eq!(CardData::decode(&record), Ok(card));
    }
}

#[test]
fn encode_inverts_decode() {
    let mut record = vec![0, 0, 0, 3, 1, 2, 3, 9, 0xFF, 0xFF, 0xFF, 0xFF];
    record.extend_from_slice(&[0x55; 32]);
    let card = CardData::decode(&record).unwrap();
    assert_eq!(
        card,
        CardData { name: vec![1, 2, 3], rarity: 9, power: u32::MAX, owner: Address { bytes: [0x55; 32] } }
    );
    assert_eq!(card.encode(), Ok(record));
}

#[test]
fn truncated_input_is_too_short() {
    let record = goblin_record();
    for len in 0..record.len() {
        assert_eq!(CardData::decode(&record[..len]), Err(DecodeError::InputTooShort));
    }
}

#[test]
fn trailing_bytes_are_too_long() {
    let mut record = goblin_record();
    record.push(0);
    assert_eq!(CardData::decode(&record), Err(DecodeError::InputTooLong));
    record.extend_from_slice(&[1, 2, 3]);
    assert_eq!(CardData::decode(&record), Err(DecodeError::InputTooLong));
}

#[test]
fn announced_length_decides_between_short_and_long() {
    let mut input = vec![0, 0, 0, 2];
    input.extend_from_slice(&[0xAA; 39]);
    assert_eq!(input.len(), 43);
    assert!(CardData::decode(&input).is_ok());
    input[3] = 3;
    assert_eq!(CardData::decode(&input), Err(DecodeError::InputTooShort));
    input[3] = 1;
    assert_eq!(CardData::decode(&input), Err(DecodeError::InputTooLong));
    input[0] = 0xFF;
    assert_eq!(CardData::decode(&input), Err(DecodeError::InputTooShort));
}

#[test]
fn length_prefix_is_the_length() {
    assert_eq!(length_prefix(0), Ok(0));
    assert_eq!(length_prefix(6), Ok(6));
    assert_eq!(length_prefix(u32::MAX as usize), Ok(u32::MAX));
}

#[test]
fn length_beyond_four_bytes_is_refused() {
    assert_eq!(length_prefix(u32::MAX as usize + 1), Err(EncodeError::NameTooLong));
    assert_eq!(length_prefix(usize::MAX), Err(EncodeError::NameTooLong));
}

#[test]
fn record_is_what_the_chain_codec_writes() {
    for n in [0usize, 1, 6, 255, 256, 1000] {
        let card = CardData {
            name: (0..n).map(|k| (k % 251) as u8).collect(),
            rarity: n as u8,
            power: (n as u32).wrapping_mul(0x0001_0203),
            owner: owner(),
        };
        let fields = (card.name.clone(), card.rarity, card.power, card.owner.bytes);
        assert_eq!(card.encode().unwrap(), top_encode_to_vec_u8(&fields).unwrap());
    }
}

#[test]
fn record_is_what_the_chain_codec_reads() {
    let record = goblin_record();
    let (name, rarity, power, owner_bytes) =
        <(Vec<u8>, u8, u32, [u8; 32])>::top_decode(record.as_slice()).unwrap();
    assert_eq!(
        CardData::decode(&record),
        Ok(CardData { name, rarity, power, owner: Address { bytes: owner_bytes } })
    );
}

#[test]
fn framing_errors_agree_with_the_chain_codec() {
    let mut record = goblin_record();
    let short = <(Vec<u8>, u8, u32, [u8; 32])>::top_decode(&record[..20]).unwrap_err();
    assert_eq!(short, multiversx_sc::codec::DecodeError::INPUT_TOO_SHORT);
    assert_eq!(CardData::decode(&record[..20]), Err(DecodeError::InputTooShort));
    record.push(0);
    let long = <(Vec<u8>, u8, u32, [u8; 32])>::top_decode(record.as_slice()).unwrap_err();
    assert_eq!(long, multiversx_sc::codec::DecodeError::INPUT_TOO_LONG);
    assert_eq!(CardData::decode(&record), Err(DecodeError::InputTooLong));
}
