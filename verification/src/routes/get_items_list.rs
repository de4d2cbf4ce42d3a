//! Listing the items in range of a reader.

use crate::hex::hex_upper;
use crate::rfid_items::{DanishRfidItem, TagRecord};
use vstd::prelude::*;
use vstd::string::StringExecFns;

verus! {

/// The number by which clients know the Danish data model.
pub const DANISH_FORMAT: i16 = 61;

/// The format reported for a tag that could not be read.
pub const UNKNOWN_FORMAT: i16 = -1;

/// A tag as the list of items shows it.
#[derive(Debug)]
pub struct Tag {
    pub tag_id: String,
    pub item_id: Option<String>,
    pub format: i16,
    pub kind: u8,
    pub item_size: u8,
    pub index_in_item_pack: u8,
    pub library_id: String,
}

/// An item as the list of items shows it: its id, its usage type and its tags.
#[derive(Debug)]
pub struct ItemResponse {
    pub id: Option<String>,
    pub kind: u8,
    pub tags: Vec<Tag>,
}

/// The mathematical value of a `Tag`.
pub struct TagView {
    pub tag_id: Seq<char>,
    pub item_id: Option<Seq<char>>,
    pub format: i16,
    pub kind: u8,
    pub item_size: u8,
    pub index_in_item_pack: u8,
    pub library_id: Seq<char>,
}

/// The mathematical value of an `ItemResponse`.
pub struct ItemResponseView {
    pub id: Option<Seq<char>>,
    pub kind: u8,
    pub tags: Seq<TagView>,
}

impl View for Tag {
    type V = TagView;

    open spec fn view(&self) -> TagView {
        TagView {
            tag_id: self.tag_id@,
            item_id: match self.item_id {
                Some(s) => Some(s@),
                None => None,
            },
            format: self.format,
            kind: self.kind,
            item_size: self.item_size,
            index_in_item_pack: self.index_in_item_pack,
            library_id: self.library_id@,
        }
    }
}

impl View for ItemResponse {
    type V = ItemResponseView;

    open spec fn view(&self) -> ItemResponseView {
        ItemResponseView {
            id: match self.id {
                Some(s) => Some(s@),
                None => None,
            },
            kind: self.kind,
            tags: self.tags@.map_values(|tag: Tag| tag@),
        }
    }
}

/// The library id as clients see it: country code, a hyphen, library id.
pub open spec fn full_library_id(record: TagRecord) -> Seq<char> {
    record.country + seq!['-'] + record.library_id
}

/// The one tag of the item that a record stands for. An unreadable record
/// shows as a tag without an item, of unknown format.
pub open spec fn tag_of(record: TagRecord) -> TagView {
    if record.empty {
        TagView {
            tag_id: seq!['{', '}'],
            item_id: None,
            format: UNKNOWN_FORMAT,
            kind: 0,
            item_size: 0,
            index_in_item_pack: 0,
            library_id: Seq::empty(),
        }
    } else {
        TagView {
            tag_id: hex_upper(record.card_id),
            item_id: Some(record.item_id),
            format: DANISH_FORMAT,
            kind: record.usage_type,
            item_size: record.number_of_parts,
            index_in_item_pack: record.ordinal_number,
            library_id: full_library_id(record),
        }
    }
}

/// The item that a record stands for, with its one tag.
pub open spec fn item_of(record: TagRecord) -> ItemResponseView {
    ItemResponseView {
        id: tag_of(record).item_id,
        kind: tag_of(record).kind,
        tags: seq![tag_of(record)],
    }
}

impl Tag {
    /// The tag that a record was read from, as the list of items shows it.
    pub fn from_item(item: &DanishRfidItem) -> (tag: Tag)
        ensures
            tag@ == tag_of(item@),
    {
        if item.is_empty() {
            proof {
                reveal_strlit("{}");
                reveal_strlit("");
                assert("{}"@ =~= seq!['{', '}']);
                assert(""@ =~= Seq::<char>::empty());
            }
            return Tag {
                tag_id: "{}".to_owned(),
                item_id: None,
                format: UNKNOWN_FORMAT,
                kind: 0,
                item_size: 0,
                index_in_item_pack: 0,
                library_id: "".to_owned(),
            };
        }
        let mut library_id = item.country().clone();
        library_id.append("-");
        library_id.append(item.library_id().as_str());
        proof {
            reveal_strlit("-");
            assert(library_id@ =~= full_library_id(item@));
        }
        Tag {
            tag_id: item.card_id_string(),
            item_id: Some(item.item_id().clone()),
            format: DANISH_FORMAT,
            kind: item.usage_type(),
            item_size: item.number_of_parts(),
            index_in_item_pack: item.ordinal_number(),
            library_id,
        }
    }
}

impl ItemResponse {
    /// The item that a record stands for, as the list of items shows it.
    pub fn from_item(item: &DanishRfidItem) -> (response: ItemResponse)
        ensures
            response@ == item_of(item@),
    {
        let tag = Tag::from_item(item);
        let id = match &tag.item_id {
            Some(s) => Some(s.clone()),
            None => None,
        };
        let kind: u8 = tag.kind;
        let mut tags: Vec<Tag> = Vec::new();
        tags.push(tag);
        let response = ItemResponse { id, kind, tags };
        proof {
            assert(response@.tags =~= seq![tag_of(item@)]);
        }
        response
    }
}

/// The list of items for the records that a read gave, in their order.
pub fn item_responses(items: &Vec<DanishRfidItem>) -> (responses: Vec<ItemResponse>)
    ensures
        responses@.len() == items@.len(),
        forall|i: int| 0 <= i < items@.len() ==> (#[trigger] responses@[i])@ == item_of(items@[i]@),
{
    let mut responses: Vec<ItemResponse> = Vec::new();
    let mut at: usize = 0;
    while at < items.len()
        invariant
            at <= items.len(),
            responses@.len() == at,
            forall|i: int| 0 <= i < at ==> (#[trigger] responses@[i])@ == item_of(items@[i]@),
        decreases items.len() - at,
    {
        responses.push(ItemResponse::from_item(&items[at]));
        at = at + 1;
    }
    responses
}

} // verus!
