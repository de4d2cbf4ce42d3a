//! Writing tags: the outcome reported for each record.

use crate::hex::hex_upper;
use crate::rfid_items::{
    records, DanishRfidItem, TagRecord, COUNTRY_WIDTH, ITEM_ID_WIDTH, LIBRARY_ID_WIDTH,
};
use crate::routes::RfidStatus;
use crate::text::same_text;
use vstd::prelude::*;
use vstd::utf8::{
    decode_utf8, encode_utf8, encode_utf8_decode_utf8, encode_utf8_valid_utf8,
    is_char_boundary_iff_not_is_continuation_byte, is_char_boundary_start_end_of_seq,
};

verus! {

/// Why a record was not written.
#[derive(Debug, Clone, Copy, PartialEq, Eq, Structural)]
pub enum WriteFailure {
    /// More than one record was handed to a reader that writes one tag at a time.
    OneTagAtATime,
    /// The reader is not connected.
    Unreachable,
    /// The reader reported a failure, as it does when no tag is in range.
    NotWritten,
}

/// The error descriptor of an outcome.
#[derive(Debug)]
pub struct WriteError {
    pub kind: String,
    pub message: String,
}

/// The outcome of writing one record.
#[derive(Debug)]
pub struct WriteResponse {
    pub id: String,
    pub success: bool,
    pub error: Option<WriteError>,
}

/// The mathematical value of a `WriteError`.
pub struct WriteErrorView {
    pub kind: Seq<char>,
    pub message: Seq<char>,
}

/// The mathematical value of a `WriteResponse`.
pub struct WriteResponseView {
    pub id: Seq<char>,
    pub success: bool,
    pub error: Option<WriteErrorView>,
}

impl View for WriteError {
    type V = WriteErrorView;

    open spec fn view(&self) -> WriteErrorView {
        WriteErrorView { kind: self.kind@, message: self.message@ }
    }
}

impl View for WriteResponse {
    type V = WriteResponseView;

    open spec fn view(&self) -> WriteResponseView {
        WriteResponseView {
            id: self.id@,
            success: self.success,
            error: match self.error {
                Some(e) => Some(e@),
                None => None,
            },
        }
    }
}

impl WriteFailure {
    /// The words that tell the client what went wrong.
    pub open spec fn message(self) -> Seq<char> {
        match self {
            WriteFailure::OneTagAtATime => "Reader can write only one tag at a time"@,
            WriteFailure::Unreachable => "Couldn't connect to the reader"@,
            WriteFailure::NotWritten => "Error during writing a card. Probably there's no cards nearby."@,
        }
    }

    /// The error descriptor of this failure.
    pub open spec fn descriptor(self) -> WriteErrorView {
        WriteErrorView { kind: "Write Error"@, message: self.message() }
    }

    /// The error descriptor of this failure.
    pub fn error(self) -> (error: WriteError)
        ensures
            error@ == self.descriptor(),
    {
        let message = match self {
            WriteFailure::OneTagAtATime => "Reader can write only one tag at a time",
            WriteFailure::Unreachable => "Couldn't connect to the reader",
            WriteFailure::NotWritten => "Error during writing a card. Probably there's no cards nearby.",
        };
        WriteError { kind: "Write Error".to_owned(), message: message.to_owned() }
    }
}

/// The outcome for a record that was written.
pub open spec fn written_outcome(record: TagRecord) -> WriteResponseView {
    WriteResponseView { id: hex_upper(record.card_id), success: true, error: None }
}

/// The outcome for a record that was not written.
pub open spec fn failed_outcome(record: TagRecord, failure: WriteFailure) -> WriteResponseView {
    WriteResponseView {
        id: hex_upper(record.card_id),
        success: false,
        error: Some(failure.descriptor()),
    }
}

/// What a client sends to have tags written: for each tag its id as the
/// client knows it, the id of the item, the usage type, the library id with
/// the country code in front, the number of parts and the place among them.
#[derive(Debug)]
pub struct WriteRequest<'r> {
    pub action: &'r str,
    pub device_id: &'r str,
    pub id: Vec<&'r str>,
    pub item_id: Vec<&'r str>,
    pub kind: Vec<u8>,
    pub library_id: Vec<&'r str>,
    pub item_size: Vec<u8>,
    pub index_in_item_pack: Vec<u8>,
}

/// Whether a character starts at a place in the bytes of a text, or the text
/// ends there.
pub open spec fn starts_char(bytes: Seq<u8>, at: int) -> bool {
    at == bytes.len() || (0 <= at < bytes.len() && !(0x80 <= bytes[at] <= 0xBF))
}

/// A library id as a client sends it, taken apart: the country code in its
/// first two bytes and the library id from the fourth byte on, the third
/// being a separator. There are no parts where the text is shorter than
/// three bytes or a character lies across a cut.
pub open spec fn library_parts(combined: Seq<char>) -> Option<(Seq<char>, Seq<char>)> {
    let bytes = encode_utf8(combined);
    if bytes.len() >= 3 && starts_char(bytes, 2) && starts_char(bytes, 3) {
        Some(
            (
                decode_utf8(bytes.subrange(0, COUNTRY_WIDTH as int)),
                decode_utf8(bytes.subrange(COUNTRY_WIDTH + 1, bytes.len() as int)),
            ),
        )
    } else {
        None
    }
}

/// The record that one tag of a request asks for, if its fields fit.
pub open spec fn requested_record(
    item_id: Seq<char>,
    kind: u8,
    library_id: Seq<char>,
    item_size: u8,
    index_in_item_pack: u8,
) -> Option<TagRecord> {
    match library_parts(library_id) {
        Some((country, library)) => if encode_utf8(item_id).len() <= ITEM_ID_WIDTH && kind <= 15
            && encode_utf8(library_id).len() <= COUNTRY_WIDTH + 1 + LIBRARY_ID_WIDTH {
            Some(
                TagRecord {
                    usage_type: kind,
                    number_of_parts: item_size,
                    ordinal_number: index_in_item_pack,
                    item_id,
                    country,
                    library_id: library,
                    ..TagRecord::blank()
                },
            )
        } else {
            None
        },
        None => None,
    }
}

/// Takes a library id apart as `library_parts` says.
pub fn split_library_id<'a>(combined: &'a str) -> (parts: Option<(&'a str, &'a str)>)
    ensures
        match library_parts(combined@) {
            Some((country, library)) => parts matches Some(p) && p.0@ == country && p.1@
                == library,
            None => parts is None,
        },
        parts matches Some(p) ==> {
            &&& encode_utf8(p.0@).len() == COUNTRY_WIDTH
            &&& encode_utf8(p.1@).len() == encode_utf8(combined@).len() - (COUNTRY_WIDTH + 1)
        },
{
    let bytes = combined.as_bytes();
    proof {
        encode_utf8_valid_utf8(combined@);
        if bytes@.len() >= 3 {
            is_char_boundary_iff_not_is_continuation_byte(bytes@, 2);
            if bytes@.len() == 3 {
                is_char_boundary_start_end_of_seq(bytes@);
            } else {
                is_char_boundary_iff_not_is_continuation_byte(bytes@, 3);
            }
        }
    }
    if bytes.len() < 3 || !combined.is_char_boundary(COUNTRY_WIDTH) || !combined.is_char_boundary(
        COUNTRY_WIDTH + 1,
    ) {
        return None;
    }
    let (country, _) = combined.split_at(COUNTRY_WIDTH);
    let (_, library) = combined.split_at(COUNTRY_WIDTH + 1);
    proof {
        encode_utf8_decode_utf8(country@);
        encode_utf8_decode_utf8(library@);
    }
    Some((country, library))
}

impl<'r> WriteRequest<'r> {
    /// Whether the request names the action of writing tags.
    pub open spec fn asks_to_write(&self) -> bool {
        self.action@ == "writeTags"@
    }

    /// Whether the request holds each field once for each tag.
    pub open spec fn is_aligned(&self) -> bool {
        &&& self.id@.len() == self.item_id@.len()
        &&& self.kind@.len() == self.item_id@.len()
        &&& self.library_id@.len() == self.item_id@.len()
        &&& self.item_size@.len() == self.item_id@.len()
        &&& self.index_in_item_pack@.len() == self.item_id@.len()
    }

    /// The record that the `i`-th tag of an aligned request asks for.
    pub open spec fn record_at(&self, i: int) -> Option<TagRecord> {
        requested_record(
            self.item_id@[i]@,
            self.kind@[i],
            self.library_id@[i]@,
            self.item_size@[i],
            self.index_in_item_pack@[i],
        )
    }

    /// The records that the request asks to write, or the status that it is
    /// turned down with: 404 where it asks for something else, 400 where its
    /// fields do not line up or the fields of a tag do not fit a record.
    pub open spec fn records(&self) -> Result<Seq<TagRecord>, RfidStatus> {
        if !self.asks_to_write() {
            Err(RfidStatus::Err404)
        } else if !self.is_aligned() {
            Err(RfidStatus::Err400)
        } else if exists|i: int| 0 <= i < self.item_id@.len() && (#[trigger] self.record_at(i)) is None {
            Err(RfidStatus::Err400)
        } else {
            Ok(Seq::new(self.item_id@.len(), |i: int| self.record_at(i).unwrap()))
        }
    }

    /// The record for one tag of the request.
    fn item_at(&self, i: usize) -> (item: Option<DanishRfidItem>)
        requires
            self.is_aligned(),
            i < self.item_id@.len(),
        ensures
            match self.record_at(i as int) {
                Some(record) => item matches Some(it) && it@ == record,
                None => item is None,
            },
    {
        let (country, library) = match split_library_id(self.library_id[i]) {
            Some(parts) => parts,
            None => {
                return None;
            },
        };
        let mut item = DanishRfidItem::default();
        item.set_number_of_parts(self.item_size[i]);
        item.set_ordinal_number(self.index_in_item_pack[i]);
        if item.set_item_id(self.item_id[i]).is_err() {
            return None;
        }
        if item.set_usage_type(self.kind[i]).is_err() {
            return None;
        }
        if item.set_country(country).is_err() {
            return None;
        }
        if item.set_library_id(library).is_err() {
            return None;
        }
        Some(item)
    }

    /// Assembles the records that the request asks to write.
    pub fn items(&self) -> (res: Result<Vec<DanishRfidItem>, RfidStatus>)
        ensures
            match self.records() {
                Ok(wanted) => res matches Ok(items) && records(items@) == wanted,
                Err(status) => res matches Err(got) && got == status,
            },
    {
        if !same_text(self.action, "writeTags") {
            return Err(RfidStatus::Err404);
        }
        let count: usize = self.item_id.len();
        if self.id.len() != count || self.kind.len() != count || self.library_id.len() != count
            || self.item_size.len() != count || self.index_in_item_pack.len() != count {
            return Err(RfidStatus::Err400);
        }
        let mut items: Vec<DanishRfidItem> = Vec::new();
        let mut at: usize = 0;
        while at < count
            invariant
                self.asks_to_write(),
                self.is_aligned(),
                count == self.item_id@.len(),
                at <= count,
                items@.len() == at,
                forall|i: int| 0 <= i < at ==> self.record_at(i) == Some((#[trigger] items@[i])@),
            decreases count - at,
        {
            match self.item_at(at) {
                Some(item) => {
                    items.push(item);
                },
                None => {
                    proof {
                        assert(self.record_at(at as int) is None);
                    }
                    return Err(RfidStatus::Err400);
                },
            }
            at = at + 1;
        }
        proof {
            assert forall|i: int| 0 <= i < count implies (#[trigger] self.record_at(i)) is Some by {
                assert(self.record_at(i) == Some(items@[i]@));
            }
            assert(records(items@) =~= Seq::new(
                self.item_id@.len(),
                |i: int| self.record_at(i).unwrap(),
            ));
        }
        Ok(items)
    }
}

} // verus!
