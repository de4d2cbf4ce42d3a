//! What holds between encoding and decoding of tag frames.

use crate::crc::{
    crc16, crc_byte, crc_byte_in_one_step, lemma_crc16_detects_one_byte,
    lemma_crc_byte_in_one_step, lemma_crc_fold_push, INITIAL,
};
use crate::rfid_items::{
    checked_bytes, checksum_matches, country_field, decode, encode, frame_body, high_byte,
    item_id_field, lemma_trim_is_unique, lemma_trim_trailing_zeros, library_id_field, low_byte,
    packed_byte,
    stored_checksum, texts_readable,
    trim_trailing_zeros, unpacked, zero_padded, DecodeError, TagRecord, CHECKSUM_AT,
    COUNTRY_WIDTH, ITEM_ID_WIDTH, LIBRARY_ID_WIDTH, MIN_FRAME_LEN,
};
use vstd::prelude::*;
use vstd::utf8::{
    decode_utf8_encode_utf8, encode_utf8, encode_utf8_decode_utf8, encode_utf8_valid_utf8,
};

verus! {

/// Whether the last byte of a text is a zero byte.
pub open spec fn ends_in_zero(text: Seq<u8>) -> bool {
    text.len() > 0 && text.last() == 0
}

/// Whether decoding can find the texts of a record again in its frame: no
/// text ends in a zero byte, which trimming would cut.
pub open spec fn texts_survive(record: TagRecord) -> bool {
    &&& !ends_in_zero(encode_utf8(record.item_id))
    &&& !ends_in_zero(encode_utf8(record.country))
    &&& !ends_in_zero(encode_utf8(record.library_id))
}

/// Trimming cuts only zero bytes at the end: a text that does not end in a
/// zero byte comes back from its padded field as it was, zero bytes inside it
/// included.
pub proof fn lemma_trim_of_padded(text: Seq<u8>, width: nat)
    requires
        !ends_in_zero(text),
    ensures
        trim_trailing_zeros(zero_padded(text, width)) == text,
{
    let padded = zero_padded(text, width);
    lemma_trim_is_unique(padded, text.len() as int);
    assert(padded.subrange(0, text.len() as int) =~= text);
}

/// The two packed fields come back out of the first byte of a frame.
pub proof fn lemma_packed_byte_unpacks(usage_type: u8, standart_version: u8)
    requires
        usage_type <= 15,
        standart_version <= 15,
    ensures
        packed_byte(usage_type, standart_version) >> 4 == usage_type,
        packed_byte(usage_type, standart_version) & 0x0F == standart_version,
{
    assert(usage_type <= 15 && standart_version <= 15 ==> ((usage_type << 4) | standart_version)
        >> 4 == usage_type) by (bit_vector);
    assert(usage_type <= 15 && standart_version <= 15 ==> ((usage_type << 4) | standart_version)
        & 0x0F == standart_version) by (bit_vector);
}

/// Two more zero bytes leave exactly two states of the register as they are.
pub proof fn lemma_two_zero_bytes(reg: u16)
    ensures
        crc_byte(crc_byte(reg, 0), 0) == reg <==> reg == 0x0000 || reg == 0xF01F,
{
    let once = crc_byte(reg, 0);
    lemma_crc_byte_in_one_step(reg, 0);
    lemma_crc_byte_in_one_step(once, 0);
    assert(crc_byte_in_one_step(crc_byte_in_one_step(reg, 0), 0) == reg <==> reg == 0x0000 || reg
        == 0xF01F) by (bit_vector);
}

/// The frame of a record passes the checksum test of decoding exactly when
/// the checksum it carries is one of the two that two more zero bytes leave
/// as they are: encoding takes the checksum of the frame without its
/// checksum bytes, decoding that of the same bytes with two zero bytes after
/// them.
pub proof fn lemma_checksum_of_encoding(record: TagRecord)
    ensures
        checksum_matches(encode(record)) <==> crc16(frame_body(record)) == 0x0000 || crc16(
            frame_body(record),
        ) == 0xF01F,
{
    let body = frame_body(record);
    let sum = crc16(body);
    let frame = encode(record);
    assert(zero_padded(encode_utf8(record.item_id), ITEM_ID_WIDTH as nat).len() >= ITEM_ID_WIDTH);
    assert(body.len() >= CHECKSUM_AT);
    assert(frame[CHECKSUM_AT as int] == low_byte(sum));
    assert(frame[CHECKSUM_AT + 1] == high_byte(sum));
    assert((((sum & 0xFF) as u8) as u16) | ((((sum >> 8) as u8) as u16) << 8) == sum)
        by (bit_vector);
    assert(stored_checksum(frame) == sum);
    assert(checked_bytes(frame) =~= body.push(0).push(0));
    lemma_crc_fold_push(INITIAL, body, 0);
    lemma_crc_fold_push(INITIAL, body.push(0), 0);
    lemma_two_zero_bytes(sum);
}

/// Round trip. For every valid record whose frame passes the checksum test
/// of decoding and whose texts do not end in a zero byte, decoding the frame
/// gives the record back: every field but the card id, which is never
/// encoded, and the record is not marked unreadable.
pub proof fn lemma_decode_encode(record: TagRecord)
    requires
        record.valid(),
        texts_survive(record),
        checksum_matches(encode(record)),
    ensures
        decode(encode(record)) == Ok::<TagRecord, DecodeError>(
            TagRecord { empty: false, card_id: Seq::empty(), ..record },
        ),
{
    let item = encode_utf8(record.item_id);
    let country = encode_utf8(record.country);
    let library = encode_utf8(record.library_id);
    let body = frame_body(record);
    let frame = encode(record);
    let rest = zero_padded(country, COUNTRY_WIDTH as nat) + zero_padded(
        library,
        LIBRARY_ID_WIDTH as nat,
    );

    assert(zero_padded(item, ITEM_ID_WIDTH as nat).len() == ITEM_ID_WIDTH);
    assert(zero_padded(country, COUNTRY_WIDTH as nat).len() == COUNTRY_WIDTH);
    assert(body.len() == CHECKSUM_AT + rest.len());
    assert(frame.len() == body.len() + 2);
    assert(frame[0] == packed_byte(record.usage_type, record.standart_version));
    assert(frame[1] == record.number_of_parts);
    assert(frame[2] == record.ordinal_number);
    lemma_packed_byte_unpacks(record.usage_type, record.standart_version);

    assert(item_id_field(frame) =~= zero_padded(item, ITEM_ID_WIDTH as nat));
    lemma_trim_of_padded(item, ITEM_ID_WIDTH as nat);
    assert(country_field(frame) =~= zero_padded(country, COUNTRY_WIDTH as nat));
    lemma_trim_of_padded(country, COUNTRY_WIDTH as nat);
    assert(library_id_field(frame) =~= zero_padded(library, LIBRARY_ID_WIDTH as nat));
    lemma_trim_of_padded(library, LIBRARY_ID_WIDTH as nat);
    encode_utf8_valid_utf8(record.item_id);
    encode_utf8_valid_utf8(record.country);
    encode_utf8_valid_utf8(record.library_id);
    encode_utf8_decode_utf8(record.item_id);
    encode_utf8_decode_utf8(record.country);
    encode_utf8_decode_utf8(record.library_id);
    assert(texts_readable(frame));
    assert(unpacked(frame) == TagRecord { empty: false, card_id: Seq::empty(), ..record });
}

/// The library id of a record decoded from a frame of no more than
/// `MIN_FRAME_LEN + LIBRARY_ID_WIDTH` bytes fits its place in a frame. A
/// longer frame can give a longer library id: all that follows the country
/// code is taken.
pub proof fn lemma_decoded_library_id_fits(frame: Seq<u8>)
    requires
        frame.len() <= MIN_FRAME_LEN + LIBRARY_ID_WIDTH,
        decode(frame) is Ok,
    ensures
        decode(frame)->Ok_0.library_id_fits(),
{
    if checksum_matches(frame) {
        let trimmed = trim_trailing_zeros(library_id_field(frame));
        lemma_trim_trailing_zeros(library_id_field(frame));
        decode_utf8_encode_utf8(trimmed);
    } else {
        assert(encode_utf8(Seq::<char>::empty()) =~= Seq::<u8>::empty());
    }
}

/// A frame that passes the checksum test fails it once one byte outside the
/// checksum has been changed, and so decodes to the unreadable record.
pub proof fn lemma_changed_byte_is_detected(frame: Seq<u8>, at: int, byte: u8)
    requires
        frame.len() >= MIN_FRAME_LEN,
        checksum_matches(frame),
        0 <= at < frame.len(),
        at != CHECKSUM_AT,
        at != CHECKSUM_AT + 1,
        byte != frame[at],
    ensures
        decode(frame.update(at, byte)) == Ok::<TagRecord, DecodeError>(TagRecord::unreadable()),
{
    let changed = frame.update(at, byte);
    let before = checked_bytes(frame);
    let after = checked_bytes(changed);
    let moved = if at < CHECKSUM_AT {
        at
    } else {
        at - 2
    };
    assert(stored_checksum(changed) == stored_checksum(frame));
    assert(before.len() == after.len());
    assert(after[moved] == byte);
    assert(before[moved] == frame[at]);
    assert forall|i: int| 0 <= i < before.len() && i != moved implies before[i] == after[i] by {
        if i < CHECKSUM_AT {
            assert(before[i] == frame[i]);
            assert(after[i] == changed[i]);
        } else if i < frame.len() - 2 {
            assert(before[i] == frame[i + 2]);
            assert(after[i] == changed[i + 2]);
        }
    }
    lemma_crc16_detects_one_byte(before, after, moved);
}

/// Corruption detection. Flipping any one bit of a frame that passes the
/// checksum test, outside the two checksum bytes, makes it decode to the
/// unreadable record and not to an error.
pub proof fn lemma_flipped_bit_is_detected(frame: Seq<u8>, at: int, bit: u8)
    requires
        frame.len() >= MIN_FRAME_LEN,
        checksum_matches(frame),
        0 <= at < frame.len(),
        at != CHECKSUM_AT,
        at != CHECKSUM_AT + 1,
        bit < 8,
    ensures
        decode(frame.update(at, frame[at] ^ (1u8 << bit))) == Ok::<TagRecord, DecodeError>(
            TagRecord::unreadable(),
        ),
{
    let byte = frame[at];
    assert(bit < 8 ==> byte ^ (1u8 << bit) != byte) by (bit_vector);
    lemma_changed_byte_is_detected(frame, at, byte ^ (1u8 << bit));
}

} // verus!
