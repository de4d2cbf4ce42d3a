//! The item record of the Danish tag data model and its byte frame.

use crate::crc::{crc16, extend, lemma_crc_fold_concat, lemma_crc_fold_push, update, INITIAL};
use crate::hex::{from_hex, hex_upper, parse_hex, to_hex_upper};
use vstd::prelude::*;
use vstd::slice::{slice_subrange, slice_to_vec};
use vstd::utf8::{decode_utf8, encode_utf8, encode_utf8_decode_utf8, valid_utf8};

verus! {

/// Bytes that the item id occupies in a frame.
pub const ITEM_ID_WIDTH: usize = 16;

/// Bytes that the country code occupies in a frame.
pub const COUNTRY_WIDTH: usize = 2;

/// Bytes that the library id occupies in a frame.
pub const LIBRARY_ID_WIDTH: usize = 11;

/// Shortest frame that can be decoded: header, item id, checksum and country.
pub const MIN_FRAME_LEN: usize = 23;

/// Where the two checksum bytes stand in a frame, low byte first.
pub const CHECKSUM_AT: usize = 19;

/// Why a frame was not decoded.
#[derive(Debug, Clone, Copy, PartialEq, Eq, Structural)]
pub enum DecodeError {
    /// The frame has fewer than `MIN_FRAME_LEN` bytes.
    FrameTooShort,
    /// The checksum matches, but a text field is not UTF-8.
    InvalidText,
}

/// The mathematical value of an item record.
pub struct TagRecord {
    /// A tag was read, but its content failed the checksum.
    pub empty: bool,
    /// The hardware id of the tag. It is no part of a frame.
    pub card_id: Seq<u8>,
    /// What the tag is used for, in four bits.
    pub usage_type: u8,
    /// The version of the data model, in four bits.
    pub standart_version: u8,
    /// The number of parts of the item.
    pub number_of_parts: u8,
    /// The place of this part among the parts of the item.
    pub ordinal_number: u8,
    /// The id of the item.
    pub item_id: Seq<char>,
    /// The country code of the library.
    pub country: Seq<char>,
    /// The id of the library within its country.
    pub library_id: Seq<char>,
}

impl TagRecord {
    /// The record that a caller starts from when it assembles one for writing.
    pub open spec fn blank() -> TagRecord {
        TagRecord {
            empty: false,
            card_id: Seq::empty(),
            usage_type: 8,
            standart_version: 1,
            number_of_parts: 1,
            ordinal_number: 1,
            item_id: Seq::empty(),
            country: Seq::empty(),
            library_id: Seq::empty(),
        }
    }

    /// The marker for a tag that was read but whose content failed the checksum.
    pub open spec fn unreadable() -> TagRecord {
        TagRecord { empty: true, ..TagRecord::blank() }
    }

    /// What holds of every record in memory: the two packed fields fit in
    /// four bits, and the item id and the country code fit their places in
    /// the frame.
    pub open spec fn valid(self) -> bool {
        &&& self.usage_type <= 15
        &&& self.standart_version <= 15
        &&& encode_utf8(self.item_id).len() <= ITEM_ID_WIDTH
        &&& encode_utf8(self.country).len() <= COUNTRY_WIDTH
    }

    /// Whether the library id fits its place in the frame. It does in a record
    /// that was assembled with the setters, and in one decoded from a frame of
    /// no more than `MIN_FRAME_LEN + LIBRARY_ID_WIDTH` bytes.
    pub open spec fn library_id_fits(self) -> bool {
        encode_utf8(self.library_id).len() <= LIBRARY_ID_WIDTH
    }
}

/// A run of `count` zero bytes.
pub open spec fn zeros(count: nat) -> Seq<u8> {
    Seq::new(count, |i: int| 0u8)
}

/// `text` followed by as many zero bytes as it lacks to `width`.
pub open spec fn zero_padded(text: Seq<u8>, width: nat) -> Seq<u8> {
    if text.len() < width {
        text + zeros((width - text.len()) as nat)
    } else {
        text
    }
}

/// The first byte of a frame: the usage type above the version.
pub open spec fn packed_byte(usage_type: u8, standart_version: u8) -> u8 {
    (usage_type << 4) | standart_version
}

/// A record laid out without a checksum: three header bytes, then the item
/// id, the country code and the library id, each padded to its width.
pub open spec fn frame_body(record: TagRecord) -> Seq<u8> {
    seq![
        packed_byte(record.usage_type, record.standart_version),
        record.number_of_parts,
        record.ordinal_number,
    ] + zero_padded(encode_utf8(record.item_id), ITEM_ID_WIDTH as nat) + zero_padded(
        encode_utf8(record.country),
        COUNTRY_WIDTH as nat,
    ) + zero_padded(encode_utf8(record.library_id), LIBRARY_ID_WIDTH as nat)
}

/// The low byte of a checksum.
pub open spec fn low_byte(sum: u16) -> u8 {
    (sum & 0xFF) as u8
}

/// The high byte of a checksum.
pub open spec fn high_byte(sum: u16) -> u8 {
    (sum >> 8) as u8
}

/// The frame of a record: its body with the checksum of that body put in at
/// `CHECKSUM_AT`, low byte first.
pub open spec fn encode(record: TagRecord) -> Seq<u8> {
    frame_body(record).insert(CHECKSUM_AT as int, low_byte(crc16(frame_body(record)))).insert(
        CHECKSUM_AT + 1,
        high_byte(crc16(frame_body(record))),
    )
}

/// `bytes` without the zero bytes at its end; zero bytes further in stay.
pub open spec fn trim_trailing_zeros(bytes: Seq<u8>) -> Seq<u8>
    decreases bytes.len(),
{
    if bytes.len() > 0 && bytes.last() == 0 {
        trim_trailing_zeros(bytes.drop_last())
    } else {
        bytes
    }
}

/// The checksum that a frame carries at `CHECKSUM_AT`.
pub open spec fn stored_checksum(frame: Seq<u8>) -> u16 {
    (frame[CHECKSUM_AT as int] as u16) | ((frame[CHECKSUM_AT + 1] as u16) << 8)
}

/// The bytes that the checksum of a received frame is computed over: the
/// frame with the two checksum bytes taken out and two zero bytes put at the
/// end in their place.
pub open spec fn checked_bytes(frame: Seq<u8>) -> Seq<u8> {
    frame.remove(CHECKSUM_AT as int).remove(CHECKSUM_AT as int).push(0).push(0)
}

/// Whether a frame of at least `MIN_FRAME_LEN` bytes carries the checksum of
/// its own content.
pub open spec fn checksum_matches(frame: Seq<u8>) -> bool {
    stored_checksum(frame) == crc16(checked_bytes(frame))
}

/// The place of the item id in a frame.
pub open spec fn item_id_field(frame: Seq<u8>) -> Seq<u8> {
    frame.subrange(3, CHECKSUM_AT as int)
}

/// The place of the country code in a frame.
pub open spec fn country_field(frame: Seq<u8>) -> Seq<u8> {
    frame.subrange(CHECKSUM_AT + 2, MIN_FRAME_LEN as int)
}

/// The place of the library id in a frame: all that follows the country code.
pub open spec fn library_id_field(frame: Seq<u8>) -> Seq<u8> {
    frame.subrange(MIN_FRAME_LEN as int, frame.len() as int)
}

/// Whether the three text fields of a frame can be taken into a record.
pub open spec fn texts_readable(frame: Seq<u8>) -> bool {
    &&& valid_utf8(trim_trailing_zeros(item_id_field(frame)))
    &&& valid_utf8(trim_trailing_zeros(country_field(frame)))
    &&& valid_utf8(trim_trailing_zeros(library_id_field(frame)))
}

/// The record that the fields of a frame spell out.
pub open spec fn unpacked(frame: Seq<u8>) -> TagRecord {
    TagRecord {
        empty: false,
        card_id: Seq::empty(),
        usage_type: frame[0] >> 4,
        standart_version: frame[0] & 0x0F,
        number_of_parts: frame[1],
        ordinal_number: frame[2],
        item_id: decode_utf8(trim_trailing_zeros(item_id_field(frame))),
        country: decode_utf8(trim_trailing_zeros(country_field(frame))),
        library_id: decode_utf8(trim_trailing_zeros(library_id_field(frame))),
    }
}

/// What decoding a frame gives.
pub open spec fn decode(frame: Seq<u8>) -> Result<TagRecord, DecodeError> {
    if frame.len() < MIN_FRAME_LEN {
        Err(DecodeError::FrameTooShort)
    } else if !checksum_matches(frame) {
        Ok(TagRecord::unreadable())
    } else if !texts_readable(frame) {
        Err(DecodeError::InvalidText)
    } else {
        Ok(unpacked(frame))
    }
}

/// What trimming leaves is the start of the input, nothing but zero bytes was
/// cut, and no zero byte is left at the end.
pub proof fn lemma_trim_trailing_zeros(bytes: Seq<u8>)
    ensures
        trim_trailing_zeros(bytes).len() <= bytes.len(),
        trim_trailing_zeros(bytes) == bytes.subrange(0, trim_trailing_zeros(bytes).len() as int),
        forall|i: int| trim_trailing_zeros(bytes).len() <= i < bytes.len() ==> bytes[i] == 0,
        trim_trailing_zeros(bytes).len() > 0 ==> trim_trailing_zeros(bytes).last() != 0,
    decreases bytes.len(),
{
    if bytes.len() > 0 && bytes.last() == 0 {
        lemma_trim_trailing_zeros(bytes.drop_last());
        let kept = trim_trailing_zeros(bytes).len() as int;
        assert(bytes.drop_last().subrange(0, kept) =~= bytes.subrange(0, kept));
        assert forall|i: int| kept <= i < bytes.len() implies bytes[i] == 0 by {
            if i < bytes.len() - 1 {
                assert(bytes.drop_last()[i] == bytes[i]);
            }
        }
    } else {
        assert(bytes.subrange(0, bytes.len() as int) =~= bytes);
    }
}

/// A cut after which only zero bytes follow, and before which the last byte
/// is not zero, is where trimming cuts.
pub proof fn lemma_trim_is_unique(bytes: Seq<u8>, kept: int)
    requires
        0 <= kept <= bytes.len(),
        forall|i: int| kept <= i < bytes.len() ==> bytes[i] == 0,
        kept > 0 ==> bytes[kept - 1] != 0,
    ensures
        trim_trailing_zeros(bytes) == bytes.subrange(0, kept),
    decreases bytes.len(),
{
    if kept == bytes.len() {
        assert(bytes.subrange(0, kept) =~= bytes);
    } else {
        lemma_trim_is_unique(bytes.drop_last(), kept);
        assert(bytes.drop_last().subrange(0, kept) =~= bytes.subrange(0, kept));
    }
}

/// Turns bytes into text with `String::from_utf8`: there is a string exactly
/// when the bytes are UTF-8, and its encoding is those bytes.
#[verifier::external_body]
fn string_from_utf8(bytes: Vec<u8>) -> (text: Option<String>)
    ensures
        text is Some <==> valid_utf8(bytes@),
        text matches Some(s) ==> encode_utf8(s@) == bytes@,
{
    match String::from_utf8(bytes) {
        Ok(s) => Some(s),
        Err(_) => None,
    }
}

/// Puts `text` at the end of `frame` and fills it up with zero bytes to `width`.
fn append_padded(frame: &mut Vec<u8>, text: &[u8], width: usize)
    ensures
        final(frame)@ == old(frame)@ + zero_padded(text@, width as nat),
{
    let mut at: usize = 0;
    while at < text.len()
        invariant
            at <= text.len(),
            frame@ == old(frame)@ + text@.subrange(0, at as int),
        decreases text.len() - at,
    {
        frame.push(text[at]);
        at = at + 1;
        proof {
            assert(frame@ =~= old(frame)@ + text@.subrange(0, at as int));
        }
    }
    proof {
        assert(text@.subrange(0, at as int) =~= text@);
    }
    while at < width
        invariant
            text.len() <= at,
            at <= width || at == text.len(),
            frame@ == old(frame)@ + text@ + zeros((at - text.len()) as nat),
        decreases width - at,
    {
        frame.push(0);
        at = at + 1;
        proof {
            assert(frame@ =~= old(frame)@ + text@ + zeros((at - text.len()) as nat));
        }
    }
    proof {
        assert(frame@ =~= old(frame)@ + zero_padded(text@, width as nat));
    }
}

/// An item record as it is read from or written to a tag.
#[derive(Debug)]
pub struct DanishRfidItem {
    empty: bool,
    card_id: Vec<u8>,
    usage_type: u8,
    standart_version: u8,
    number_of_parts: u8,
    ordinal_number: u8,
    item_id: String,
    country: String,
    library_id: String,
}

impl View for DanishRfidItem {
    type V = TagRecord;

    closed spec fn view(&self) -> TagRecord {
        TagRecord {
            empty: self.empty,
            card_id: self.card_id@,
            usage_type: self.usage_type,
            standart_version: self.standart_version,
            number_of_parts: self.number_of_parts,
            ordinal_number: self.ordinal_number,
            item_id: self.item_id@,
            country: self.country@,
            library_id: self.library_id@,
        }
    }
}

/// The values of a run of records.
pub open spec fn records(items: Seq<DanishRfidItem>) -> Seq<TagRecord> {
    items.map_values(|item: DanishRfidItem| item@)
}

impl Default for DanishRfidItem {
    /// The record that a caller starts from when it assembles one for writing.
    fn default() -> (item: Self)
        ensures
            item@ == TagRecord::blank(),
    {
        let item = DanishRfidItem {
            empty: false,
            card_id: Vec::new(),
            usage_type: 8,
            standart_version: 1,
            number_of_parts: 1,
            ordinal_number: 1,
            item_id: String::new(),
            country: String::new(),
            library_id: String::new(),
        };
        item
    }
}

impl DanishRfidItem {
    #[verifier::type_invariant]
    spec fn well_formed(&self) -> bool {
        self@.valid()
    }

    /// Decodes a frame read from a tag. A frame whose checksum does not match
    /// gives the unreadable record, not an error. The card id is left empty.
    pub fn from_bytes(bytes: &[u8]) -> (res: Result<Self, DecodeError>)
        ensures
            match decode(bytes@) {
                Ok(record) => res matches Ok(item) && item@ == record,
                Err(e) => res matches Err(got) && got == e,
            },
            bytes@.len() <= MIN_FRAME_LEN + LIBRARY_ID_WIDTH ==> (res matches Ok(item)
                ==> item@.library_id_fits()),
    {
        if bytes.len() < MIN_FRAME_LEN {
            return Err(DecodeError::FrameTooShort);
        }
        let stored: u16 = (bytes[CHECKSUM_AT] as u16) | ((bytes[CHECKSUM_AT + 1] as u16) << 8);
        let head = slice_subrange(bytes, 0, CHECKSUM_AT);
        let tail = slice_subrange(bytes, CHECKSUM_AT + 2, bytes.len());
        let sum: u16 = update(update(extend(extend(INITIAL, head), tail), 0), 0);
        proof {
            let joined = head@ + tail@;
            assert(checked_bytes(bytes@) =~= joined.push(0).push(0));
            lemma_crc_fold_concat(INITIAL, head@, tail@);
            lemma_crc_fold_push(INITIAL, joined, 0);
            lemma_crc_fold_push(INITIAL, joined.push(0), 0);
        }
        if sum != stored {
            return Ok(Self::unreadable());
        }
        let packed: u8 = bytes[0];
        let usage_type: u8 = packed >> 4;
        let standart_version: u8 = packed & 0x0F;
        proof {
            assert(packed >> 4 <= 15) by (bit_vector);
            assert(packed & 0x0F <= 15) by (bit_vector);
        }
        let item_id = match Self::text_of(slice_subrange(bytes, 3, CHECKSUM_AT)) {
            Some(s) => s,
            None => return Err(DecodeError::InvalidText),
        };
        let country = match Self::text_of(slice_subrange(bytes, CHECKSUM_AT + 2, MIN_FRAME_LEN)) {
            Some(s) => s,
            None => return Err(DecodeError::InvalidText),
        };
        let library_id = match Self::text_of(slice_subrange(bytes, MIN_FRAME_LEN, bytes.len())) {
            Some(s) => s,
            None => return Err(DecodeError::InvalidText),
        };
        proof {
            lemma_trim_trailing_zeros(item_id_field(bytes@));
            lemma_trim_trailing_zeros(country_field(bytes@));
            lemma_trim_trailing_zeros(library_id_field(bytes@));
        }
        Ok(
            DanishRfidItem {
                empty: false,
                card_id: Vec::new(),
                usage_type,
                standart_version,
                number_of_parts: bytes[1],
                ordinal_number: bytes[2],
                item_id,
                country,
                library_id,
            },
        )
    }

    /// Encodes the record as a frame. The card id is not part of it. A text
    /// shorter than its field is followed by zero bytes; a library id longer
    /// than its field goes in whole. The
    /// checksum is that of the frame without its checksum bytes; decoding
    /// tests it with two zero bytes at the end, so only a frame whose
    /// checksum those leave unchanged decodes to the record again.
    pub fn to_bytes(&self) -> (frame: Vec<u8>)
        ensures
            frame@ == encode(self@),
    {
        proof {
            use_type_invariant(self);
        }
        let mut bytes: Vec<u8> = Vec::with_capacity(MIN_FRAME_LEN + LIBRARY_ID_WIDTH);
        bytes.push((self.usage_type << 4) | self.standart_version);
        bytes.push(self.number_of_parts);
        bytes.push(self.ordinal_number);
        append_padded(&mut bytes, self.item_id.as_str().as_bytes(), ITEM_ID_WIDTH);
        append_padded(&mut bytes, self.country.as_str().as_bytes(), COUNTRY_WIDTH);
        append_padded(&mut bytes, self.library_id.as_str().as_bytes(), LIBRARY_ID_WIDTH);
        proof {
            assert(bytes@ =~= frame_body(self@));
        }
        let sum: u16 = Self::calc_crc(bytes.as_slice());
        bytes.insert(CHECKSUM_AT, (sum & 0xFF) as u8);
        bytes.insert(CHECKSUM_AT + 1, (sum >> 8) as u8);
        bytes
    }

    /// The record for a tag whose content failed the checksum.
    fn unreadable() -> (item: Self)
        ensures
            item@ == TagRecord::unreadable(),
    {
        DanishRfidItem {
            empty: true,
            card_id: Vec::new(),
            usage_type: 8,
            standart_version: 1,
            number_of_parts: 1,
            ordinal_number: 1,
            item_id: String::new(),
            country: String::new(),
            library_id: String::new(),
        }
    }

    /// The text in a field of a frame, if it is UTF-8 once the zero bytes at
    /// its end are cut.
    fn text_of(field: &[u8]) -> (text: Option<String>)
        ensures
            text is Some <==> valid_utf8(trim_trailing_zeros(field@)),
            text matches Some(s) ==> {
                &&& s@ == decode_utf8(trim_trailing_zeros(field@))
                &&& encode_utf8(s@) == trim_trailing_zeros(field@)
            },
    {
        let text = string_from_utf8(slice_to_vec(Self::strip0s(field)));
        proof {
            if text is Some {
                encode_utf8_decode_utf8(text.unwrap()@);
            }
        }
        text
    }

    /// Cuts the zero bytes at the end of a field; zero bytes further in stay.
    pub fn strip0s(bytes: &[u8]) -> (kept: &[u8])
        ensures
            kept@ == trim_trailing_zeros(bytes@),
    {
        let mut new_len: usize = bytes.len();
        proof {
            assert(bytes@.subrange(0, bytes.len() as int) =~= bytes@);
        }
        while new_len > 0 && bytes[new_len - 1] == 0
            invariant
                new_len <= bytes.len(),
                trim_trailing_zeros(bytes@) == trim_trailing_zeros(bytes@.subrange(0, new_len as int)),
            decreases new_len,
        {
            proof {
                assert(bytes@.subrange(0, new_len as int).drop_last() =~= bytes@.subrange(
                    0,
                    new_len - 1,
                ));
            }
            new_len = new_len - 1;
        }
        slice_subrange(bytes, 0, new_len)
    }

    /// The checksum of a run of bytes.
    pub fn calc_crc(bytes: &[u8]) -> (sum: u16)
        ensures
            sum == crc16(bytes@),
    {
        extend(INITIAL, bytes)
    }

    /// Sets the usage type, a value of four bits. A larger value is refused
    /// and leaves the record as it is.
    pub fn set_usage_type(&mut self, usage_type: u8) -> (res: Result<(), ()>)
        ensures
            res is Ok <==> usage_type <= 15,
            res is Ok ==> final(self)@ == (TagRecord { usage_type, ..old(self)@ }),
            res is Err ==> final(self)@ == old(self)@,
    {
        if usage_type > 15 {
            return Err(());
        }
        proof {
            use_type_invariant(&*self);
        }
        self.usage_type = usage_type;
        Ok(())
    }

    /// The usage type, a value of four bits.
    pub fn usage_type(&self) -> (value: u8)
        ensures
            value == self@.usage_type,
            value <= 15,
    {
        proof {
            use_type_invariant(self);
        }
        self.usage_type
    }

    /// Sets the version of the data model, a value of four bits. A larger
    /// value is refused and leaves the record as it is.
    pub fn set_standart_version(&mut self, standart_version: u8) -> (res: Result<(), ()>)
        ensures
            res is Ok <==> standart_version <= 15,
            res is Ok ==> final(self)@ == (TagRecord { standart_version, ..old(self)@ }),
            res is Err ==> final(self)@ == old(self)@,
    {
        if standart_version > 15 {
            return Err(());
        }
        proof {
            use_type_invariant(&*self);
        }
        self.standart_version = standart_version;
        Ok(())
    }

    /// The version of the data model, a value of four bits.
    pub fn standart_version(&self) -> (value: u8)
        ensures
            value == self@.standart_version,
            value <= 15,
    {
        proof {
            use_type_invariant(self);
        }
        self.standart_version
    }

    /// Sets the number of parts of the item; any value goes.
    pub fn set_number_of_parts(&mut self, number_of_parts: u8)
        ensures
            final(self)@ == (TagRecord { number_of_parts, ..old(self)@ }),
    {
        proof {
            use_type_invariant(&*self);
        }
        self.number_of_parts = number_of_parts;
    }

    /// The number of parts of the item.
    pub fn number_of_parts(&self) -> (value: u8)
        ensures
            value == self@.number_of_parts,
    {
        self.number_of_parts
    }

    /// Sets the place of this part among the parts of the item; any value
    /// goes, whatever the number of parts.
    pub fn set_ordinal_number(&mut self, ordinal_number: u8)
        ensures
            final(self)@ == (TagRecord { ordinal_number, ..old(self)@ }),
    {
        proof {
            use_type_invariant(&*self);
        }
        self.ordinal_number = ordinal_number;
    }

    /// The place of this part among the parts of the item.
    pub fn ordinal_number(&self) -> (value: u8)
        ensures
            value == self@.ordinal_number,
    {
        self.ordinal_number
    }

    /// Sets the item id. A text of more than `ITEM_ID_WIDTH` bytes is refused
    /// and leaves the record as it is.
    pub fn set_item_id(&mut self, item_id: &str) -> (res: Result<(), ()>)
        ensures
            res is Ok <==> encode_utf8(item_id@).len() <= ITEM_ID_WIDTH,
            res is Ok ==> final(self)@ == (TagRecord { item_id: item_id@, ..old(self)@ }),
            res is Err ==> final(self)@ == old(self)@,
    {
        if item_id.as_bytes().len() > ITEM_ID_WIDTH {
            return Err(());
        }
        proof {
            use_type_invariant(&*self);
        }
        self.item_id = item_id.to_owned();
        Ok(())
    }

    /// The item id, of at most `ITEM_ID_WIDTH` bytes.
    pub fn item_id(&self) -> (value: &String)
        ensures
            value@ == self@.item_id,
            encode_utf8(value@).len() <= ITEM_ID_WIDTH,
    {
        proof {
            use_type_invariant(self);
        }
        &self.item_id
    }

    /// Sets the country code. A text of more than `COUNTRY_WIDTH` bytes is
    /// refused and leaves the record as it is.
    pub fn set_country(&mut self, country: &str) -> (res: Result<(), ()>)
        ensures
            res is Ok <==> encode_utf8(country@).len() <= COUNTRY_WIDTH,
            res is Ok ==> final(self)@ == (TagRecord { country: country@, ..old(self)@ }),
            res is Err ==> final(self)@ == old(self)@,
    {
        if country.as_bytes().len() > COUNTRY_WIDTH {
            return Err(());
        }
        proof {
            use_type_invariant(&*self);
        }
        self.country = country.to_owned();
        Ok(())
    }

    /// The country code, of at most `COUNTRY_WIDTH` bytes.
    pub fn country(&self) -> (value: &String)
        ensures
            value@ == self@.country,
            encode_utf8(value@).len() <= COUNTRY_WIDTH,
    {
        proof {
            use_type_invariant(self);
        }
        &self.country
    }

    /// Sets the library id. A text of more than `LIBRARY_ID_WIDTH` bytes is
    /// refused and leaves the record as it is.
    pub fn set_library_id(&mut self, library_id: &str) -> (res: Result<(), ()>)
        ensures
            res is Ok <==> encode_utf8(library_id@).len() <= LIBRARY_ID_WIDTH,
            res is Ok ==> final(self)@ == (TagRecord { library_id: library_id@, ..old(self)@ }),
            res is Ok ==> final(self)@.library_id_fits(),
            res is Err ==> final(self)@ == old(self)@,
    {
        if library_id.as_bytes().len() > LIBRARY_ID_WIDTH {
            return Err(());
        }
        proof {
            use_type_invariant(&*self);
        }
        self.library_id = library_id.to_owned();
        Ok(())
    }

    /// The library id.
    pub fn library_id(&self) -> (value: &String)
        ensures
            value@ == self@.library_id,
    {
        &self.library_id
    }

    /// Attaches the hardware id of the tag that the record was read from.
    pub fn set_card_id(&mut self, card_id: Vec<u8>)
        ensures
            final(self)@ == (TagRecord { card_id: card_id@, ..old(self)@ }),
    {
        proof {
            use_type_invariant(&*self);
        }
        self.card_id = card_id;
    }

    /// Attaches a hardware id given as hexadecimal text. Where the text
    /// spells no bytes the record stays as it is.
    pub fn set_card_id_string(&mut self, card_id: &str) -> (res: Result<(), ()>)
        ensures
            match parse_hex(card_id@) {
                Some(bytes) => res is Ok && final(self)@ == (TagRecord {
                    card_id: bytes,
                    ..old(self)@
                }),
                None => res is Err && final(self)@ == old(self)@,
            },
    {
        match from_hex(card_id) {
            Some(bytes) => {
                self.set_card_id(bytes);
                Ok(())
            },
            None => Err(()),
        }
    }

    /// The hardware id of the tag; empty until one is attached.
    pub fn card_id(&self) -> (value: &[u8])
        ensures
            value@ == self@.card_id,
    {
        self.card_id.as_slice()
    }

    /// The hardware id as upper-case hexadecimal text.
    pub fn card_id_string(&self) -> (text: String)
        ensures
            text@ == hex_upper(self@.card_id),
    {
        to_hex_upper(self.card_id.as_slice())
    }

    /// Whether this is the marker for a tag whose content failed the checksum.
    pub fn is_empty(&self) -> (empty: bool)
        ensures
            empty == self@.empty,
    {
        self.empty
    }
}

} // verus!
