use rfid_sfl::rfid_items::{DanishRfidItem, DecodeError};

fn sample_item(item_id: &str) -> DanishRfidItem {
    let mut item = DanishRfidItem::default();
    item.set_item_id(item_id).unwrap();
    item.set_country("RU").unwrap();
    item.set_library_id("293").unwrap();
    item
}

#[test]
fn bytes_to_item() {
    let bytes = [
        0x81, 0x01, 0x01, 0x32, 0x39, 0x33, 0x35, 0x30, 0x30, 0x30, 0x30, 0x30, 0x33, 0x36, 0x34,
        0x39, 0x00, 0x00, 0x00, 0x87, 0x93, 0x52, 0x55, 0x32, 0x39, 0x33, 0x00, 0x00, 0x00,
    ];
    let item = DanishRfidItem::from_bytes(&bytes).unwrap();
    println!("{:?}", item);
}

#[test]
fn item_to_bytes() {
    let item = sample_item("2935000003649");
    let bytes = item.to_bytes();
    for b in &bytes {
        println!("{:#X} ", b);
    }
    assert_eq!(
        bytes,
        vec![
            0x81, 0x01, 0x01, 0x32, 0x39, 0x33, 0x35, 0x30, 0x30, 0x30, 0x30, 0x30, 0x33, 0x36,
            0x34, 0x39, 0x00, 0x00, 0x00, 0x87, 0x93, 0x52, 0x55, 0x32, 0x39, 0x33, 0x00, 0x00,
            0x00, 0x00, 0x00, 0x00, 0x00, 0x00,
        ]
    );
}

#[test]
fn crc() {
    let bytes_without_crc = [
        0x81, 0x01, 0x01, 0x32, 0x39, 0x33, 0x35, 0x30, 0x30, 0x30, 0x30, 0x30, 0x33, 0x36, 0x34,
        0x39, 0x00, 0x00, 0x00, 0x52, 0x55, 0x32, 0x39, 0x33, 0x00, 0x00, 0x00, 0x00, 0x00, 0x00,
        0x00, 0x00,
    ];
    let sum = DanishRfidItem::calc_crc(&bytes_without_crc);
    println!("{:#X}", sum);
    // On the tag the low byte comes first: 0x87, then 0x93.
    assert_eq!(sum.to_le_bytes(), [0x87, 0x93]);
    assert_eq!(sum, 0x9387);
}

#[test]
fn crc_is_stable() {
    let bytes = [0x81u8, 0x01, 0x01, 0x32];
    assert_eq!(DanishRfidItem::calc_crc(&bytes), DanishRfidItem::calc_crc(&bytes));
}

#[test]
fn crc_known_values() {
    assert_eq!(DanishRfidItem::calc_crc(&[]), 0xFFFF);
    assert_eq!(DanishRfidItem::calc_crc(b"1"), 0xC782);
    assert_eq!(DanishRfidItem::calc_crc(b"123456789"), 0x29B1);
    assert_eq!(DanishRfidItem::calc_crc(b"RFID tag data model"), 0x1AEE);
}

#[test]
fn crc_update_and_extend_agree() {
    let mut reg = rfid_sfl::crc::INITIAL;
    for b in b"123456789" {
        reg = rfid_sfl::crc::update(reg, *b);
    }
    assert_eq!(reg, 0x29B1);
    let first = rfid_sfl::crc::extend(rfid_sfl::crc::INITIAL, b"1234");
    assert_eq!(rfid_sfl::crc::extend(first, b"56789"), 0x29B1);
}

#[test]
fn frame_with_foreign_checksum_is_unreadable() {
    // The checksum bytes 0x87, 0x93 belong to the 32-byte body of the record,
    // not to this frame with two zero bytes in their place at the end.
    let bytes = [
        0x81, 0x01, 0x01, 0x32, 0x39, 0x33, 0x35, 0x30, 0x30, 0x30, 0x30, 0x30, 0x33, 0x36, 0x34,
        0x39, 0x00, 0x00, 0x00, 0x87, 0x93, 0x52, 0x55, 0x32, 0x39, 0x33, 0x00, 0x00, 0x00,
    ];
    let item = DanishRfidItem::from_bytes(&bytes).unwrap();
    assert!(item.is_empty());
    assert_eq!(item.usage_type(), 8);
    assert_eq!(item.standart_version(), 1);
    assert_eq!(item.number_of_parts(), 1);
    assert_eq!(item.ordinal_number(), 1);
    assert_eq!(item.item_id(), "");
    assert_eq!(item.country(), "");
    assert_eq!(item.library_id(), "");
    assert!(item.card_id().is_empty());
}

#[test]
fn frame_with_its_own_checksum_decodes() {
    let bytes = [
        0x81, 0x01, 0x01, 0x32, 0x39, 0x33, 0x35, 0x30, 0x30, 0x30, 0x30, 0x30, 0x33, 0x36, 0x34,
        0x39, 0x00, 0x00, 0x00, 0x1D, 0x99, 0x52, 0x55, 0x32, 0x39, 0x33, 0x00, 0x00, 0x00,
    ];
    let item = DanishRfidItem::from_bytes(&bytes).unwrap();
    assert!(!item.is_empty());
    assert_eq!(item.usage_type(), 8);
    assert_eq!(item.standart_version(), 1);
    assert_eq!(item.number_of_parts(), 1);
    assert_eq!(item.ordinal_number(), 1);
    assert_eq!(item.item_id(), "2935000003649");
    assert_eq!(item.country(), "RU");
    assert_eq!(item.library_id(), "293");
    assert!(item.card_id().is_empty());
}

#[test]
fn inner_zero_byte_is_kept() {
    let bytes = [
        0x81, 0x01, 0x01, 0x41, 0x42, 0x00, 0x43, 0x44, 0x00, 0x00, 0x00, 0x00, 0x00, 0x00, 0x00,
        0x00, 0x00, 0x00, 0x00, 0xD9, 0x66, 0x52, 0x55, 0x32, 0x39, 0x33, 0x00, 0x00, 0x00,
    ];
    let item = DanishRfidItem::from_bytes(&bytes).unwrap();
    assert!(!item.is_empty());
    assert_eq!(item.item_id(), "AB\0CD");
    assert_eq!(item.library_id(), "293");
}

#[test]
fn strip0s_cuts_only_at_the_end() {
    assert_eq!(DanishRfidItem::strip0s(b"AB\0CD\0\0\0"), b"AB\0CD");
    assert_eq!(DanishRfidItem::strip0s(b"AB"), b"AB");
    assert_eq!(DanishRfidItem::strip0s(&[0, 0, 0]), b"");
    assert_eq!(DanishRfidItem::strip0s(&[]), b"");
    assert_eq!(DanishRfidItem::strip0s(&[0, 1]), &[0, 1]);
}

#[test]
fn shortest_frame_decodes() {
    let bytes = [
        0x81, 0x01, 0x01, 0x31, 0x32, 0x33, 0x34, 0x35, 0x36, 0x37, 0x38, 0x39, 0x30, 0x00, 0x00,
        0x00, 0x00, 0x00, 0x00, 0x7B, 0x3E, 0x44, 0x4B,
    ];
    let item = DanishRfidItem::from_bytes(&bytes).unwrap();
    assert!(!item.is_empty());
    assert_eq!(item.item_id(), "1234567890");
    assert_eq!(item.country(), "DK");
    assert_eq!(item.library_id(), "");
}

#[test]
fn short_frame_is_refused() {
    let bytes = [0u8; 22];
    assert_eq!(DanishRfidItem::from_bytes(&bytes).unwrap_err(), DecodeError::FrameTooShort);
    assert_eq!(DanishRfidItem::from_bytes(&[]).unwrap_err(), DecodeError::FrameTooShort);
}

#[test]
fn text_that_is_not_utf8_is_refused() {
    let item_id = [
        0x81, 0x01, 0x01, 0xFF, 0x00, 0x00, 0x00, 0x00, 0x00, 0x00, 0x00, 0x00, 0x00, 0x00, 0x00,
        0x00, 0x00, 0x00, 0x00, 0x34, 0x67, 0x52, 0x55, 0x32, 0x39, 0x33,
    ];
    assert_eq!(DanishRfidItem::from_bytes(&item_id).unwrap_err(), DecodeError::InvalidText);
    let country = [
        0x81, 0x01, 0x01, 0x31, 0x00, 0x00, 0x00, 0x00, 0x00, 0x00, 0x00, 0x00, 0x00, 0x00, 0x00,
        0x00, 0x00, 0x00, 0x00, 0x61, 0x4C, 0xC3, 0x28, 0x32, 0x39, 0x33,
    ];
    assert_eq!(DanishRfidItem::from_bytes(&country).unwrap_err(), DecodeError::InvalidText);
    let library_id = [
        0x81, 0x01, 0x01, 0x31, 0x00, 0x00, 0x00, 0x00, 0x00, 0x00, 0x00, 0x00, 0x00, 0x00, 0x00,
        0x00, 0x00, 0x00, 0x00, 0x95, 0x07, 0x52, 0x55, 0x80,
    ];
    assert_eq!(DanishRfidItem::from_bytes(&library_id).unwrap_err(), DecodeError::InvalidText);
}

#[test]
fn library_id_is_all_that_follows_the_country() {
    let twelve = [
        0x81, 0x01, 0x01, 0x31, 0x00, 0x00, 0x00, 0x00, 0x00, 0x00, 0x00, 0x00, 0x00, 0x00, 0x00,
        0x00, 0x00, 0x00, 0x00, 0xA0, 0xBF, 0x52, 0x55, 0x31, 0x32, 0x33, 0x34, 0x35, 0x36, 0x37,
        0x38, 0x39, 0x30, 0x31, 0x32,
    ];
    let item = DanishRfidItem::from_bytes(&twelve).unwrap();
    assert!(!item.is_empty());
    assert_eq!(item.item_id(), "1");
    assert_eq!(item.country(), "RU");
    assert_eq!(item.library_id(), "123456789012");
    let eleven = [
        0x81, 0x01, 0x01, 0x31, 0x00, 0x00, 0x00, 0x00, 0x00, 0x00, 0x00, 0x00, 0x00, 0x00, 0x00,
        0x00, 0x00, 0x00, 0x00, 0xB5, 0x37, 0x52, 0x55, 0x31, 0x32, 0x33, 0x34, 0x35, 0x36, 0x37,
        0x38, 0x39, 0x30, 0x31, 0x00, 0x00,
    ];
    let item = DanishRfidItem::from_bytes(&eleven).unwrap();
    assert_eq!(item.library_id(), "12345678901");
}

#[test]
fn long_library_id_is_encoded_whole() {
    let twelve = [
        0x81, 0x01, 0x01, 0x31, 0x00, 0x00, 0x00, 0x00, 0x00, 0x00, 0x00, 0x00, 0x00, 0x00, 0x00,
        0x00, 0x00, 0x00, 0x00, 0xA0, 0xBF, 0x52, 0x55, 0x31, 0x32, 0x33, 0x34, 0x35, 0x36, 0x37,
        0x38, 0x39, 0x30, 0x31, 0x32,
    ];
    let item = DanishRfidItem::from_bytes(&twelve).unwrap();
    let bytes = item.to_bytes();
    assert_eq!(bytes.len(), 35);
    assert_eq!(&bytes[..19], &twelve[..19]);
    assert_eq!(&bytes[21..], &twelve[21..]);
}

#[test]
fn fields_of_zero_bytes_decode_to_empty_texts() {
    let bytes = [
        0x00, 0x00, 0x00, 0x00, 0x00, 0x00, 0x00, 0x00, 0x00, 0x00, 0x00, 0x00, 0x00, 0x00, 0x00,
        0x00, 0x00, 0x00, 0x00, 0xB8, 0xA9, 0x00, 0x00, 0x00, 0x00, 0x00, 0x00, 0x00, 0x00, 0x00,
        0x00, 0x00, 0x00, 0x00,
    ];
    let item = DanishRfidItem::from_bytes(&bytes).unwrap();
    assert!(!item.is_empty());
    assert_eq!(item.usage_type(), 0);
    assert_eq!(item.standart_version(), 0);
    assert_eq!(item.number_of_parts(), 0);
    assert_eq!(item.ordinal_number(), 0);
    assert_eq!(item.item_id(), "");
    assert_eq!(item.country(), "");
    assert_eq!(item.library_id(), "");
}

#[test]
fn text_beyond_ascii_decodes() {
    let bytes = [
        0x3F, 0xC8, 0x07, 0xC3, 0x9C, 0x6E, 0xC3, 0xAF, 0x00, 0x00, 0x00, 0x00, 0x00, 0x00, 0x00,
        0x00, 0x00, 0x00, 0x00, 0x4C, 0x28, 0x44, 0x00, 0xC3, 0xA9,
    ];
    let item = DanishRfidItem::from_bytes(&bytes).unwrap();
    assert_eq!(item.usage_type(), 3);
    assert_eq!(item.standart_version(), 15);
    assert_eq!(item.number_of_parts(), 200);
    assert_eq!(item.ordinal_number(), 7);
    assert_eq!(item.item_id(), "Ünï");
    assert_eq!(item.country(), "D");
    assert_eq!(item.library_id(), "é");
}

#[test]
fn round_trip_where_the_checksum_passes() {
    // The bodies of these two records have the checksums 0xF01F and 0x0000,
    // the two that two further zero bytes leave as they are.
    for id in ["2935000079181", "2935000061563"] {
        let mut item = sample_item(id);
        item.set_card_id(vec![1, 2, 3]);
        let decoded = DanishRfidItem::from_bytes(&item.to_bytes()).unwrap();
        assert!(!decoded.is_empty());
        assert_eq!(decoded.usage_type(), item.usage_type());
        assert_eq!(decoded.standart_version(), item.standart_version());
        assert_eq!(decoded.number_of_parts(), item.number_of_parts());
        assert_eq!(decoded.ordinal_number(), item.ordinal_number());
        assert_eq!(decoded.item_id(), item.item_id());
        assert_eq!(decoded.country(), item.country());
        assert_eq!(decoded.library_id(), item.library_id());
        assert!(decoded.card_id().is_empty());
    }
}

#[test]
fn encoding_whose_checksum_does_not_pass_is_unreadable() {
    let item = sample_item("2935000003649");
    let decoded = DanishRfidItem::from_bytes(&item.to_bytes()).unwrap();
    assert!(decoded.is_empty());
}

#[test]
fn every_flipped_bit_is_detected() {
    let frame = [
        0x81u8, 0x01, 0x01, 0x32, 0x39, 0x33, 0x35, 0x30, 0x30, 0x30, 0x30, 0x30, 0x33, 0x36,
        0x34, 0x39, 0x00, 0x00, 0x00, 0x1D, 0x99, 0x52, 0x55, 0x32, 0x39, 0x33, 0x00, 0x00, 0x00,
    ];
    assert!(!DanishRfidItem::from_bytes(&frame).unwrap().is_empty());
    for at in 0..frame.len() {
        if at == 19 || at == 20 {
            continue;
        }
        for bit in 0..8 {
            let mut flipped = frame;
            flipped[at] ^= 1 << bit;
            let item = DanishRfidItem::from_bytes(&flipped).unwrap();
            assert!(item.is_empty(), "byte {} bit {}", at, bit);
        }
    }
}

#[test]
fn short_country_is_padded() {
    let mut item = DanishRfidItem::default();
    item.set_country("R").unwrap();
    item.set_library_id("U1").unwrap();
    let bytes = item.to_bytes();
    assert_eq!(bytes.len(), 34);
    assert_eq!(&bytes[21..23], &[b'R', 0]);
    assert_eq!(&bytes[23..25], b"U1");
    assert_eq!(&bytes[25..], &[0u8; 9]);
    let blank = DanishRfidItem::default().to_bytes();
    assert_eq!(blank.len(), 34);
    assert_eq!(&blank[..3], &[0x81, 1, 1]);
    assert_eq!(&blank[3..19], &[0u8; 16]);
    assert_eq!(&blank[21..], &[0u8; 13]);
}

#[test]
fn round_trip_with_short_texts() {
    // The bodies of these records have the checksum 0x0000.
    for (id, country, library) in [("41978", "R", "U1"), ("77988", "", "")] {
        let mut item = DanishRfidItem::default();
        item.set_item_id(id).unwrap();
        item.set_country(country).unwrap();
        item.set_library_id(library).unwrap();
        let decoded = DanishRfidItem::from_bytes(&item.to_bytes()).unwrap();
        assert!(!decoded.is_empty());
        assert_eq!(decoded.item_id(), id);
        assert_eq!(decoded.country(), country);
        assert_eq!(decoded.library_id(), library);
        assert_eq!(decoded.usage_type(), 8);
        assert_eq!(decoded.standart_version(), 1);
        assert_eq!(decoded.number_of_parts(), 1);
        assert_eq!(decoded.ordinal_number(), 1);
    }
}

#[test]
fn text_that_ends_in_a_zero_byte_loses_it() {
    // The body of this record has the checksum 0x0000 as well: the frame is
    // that of the item id without its last byte.
    let mut item = DanishRfidItem::default();
    item.set_item_id("41978\0").unwrap();
    item.set_country("R").unwrap();
    item.set_library_id("U1").unwrap();
    let decoded = DanishRfidItem::from_bytes(&item.to_bytes()).unwrap();
    assert!(!decoded.is_empty());
    assert_eq!(decoded.item_id(), "41978");
}

#[test]
fn encoding_pads_item_id_and_library_id() {
    let mut item = DanishRfidItem::default();
    item.set_usage_type(15).unwrap();
    item.set_standart_version(2).unwrap();
    item.set_number_of_parts(3);
    item.set_ordinal_number(2);
    item.set_item_id("0123456789ABCDEF").unwrap();
    item.set_country("DK").unwrap();
    item.set_library_id("12345678901").unwrap();
    item.set_card_id(vec![0xAA; 8]);
    let bytes = item.to_bytes();
    assert_eq!(bytes.len(), 34);
    assert_eq!(&bytes[..3], &[0xF2, 3, 2]);
    assert_eq!(&bytes[3..19], b"0123456789ABCDEF");
    assert_eq!(&bytes[21..23], b"DK");
    assert_eq!(&bytes[23..], b"12345678901");
    let mut body = bytes.clone();
    body.remove(19);
    body.remove(19);
    let sum = DanishRfidItem::calc_crc(&body);
    assert_eq!(bytes[19], (sum & 0xFF) as u8);
    assert_eq!(bytes[20], (sum >> 8) as u8);
}
