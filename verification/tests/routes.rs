use rfid_sfl::devices::bibliotheca::Bibliotheca;
use rfid_sfl::devices::cf_rh320u_93::CfRh320u93;
use rfid_sfl::devices::{ConnectEvent, Device};
use rfid_sfl::rfid_items::DanishRfidItem;
use rfid_sfl::routes::get_devices_list::DeviceJson;
use rfid_sfl::routes::get_items_list::{item_responses, ItemResponse, Tag};
use rfid_sfl::routes::write_tags::{split_library_id, WriteFailure, WriteRequest};
use rfid_sfl::routes::{check_if_addr_local, RfidStatus};

fn request<'r>() -> WriteRequest<'r> {
    WriteRequest {
        action: "writeTags",
        device_id: "Chafon CF-RH320U-93",
        id: vec!["a", "b"],
        item_id: vec!["2935000003649", "77"],
        kind: vec![8, 2],
        library_id: vec!["RU-293", "DK-12345678901"],
        item_size: vec![1, 3],
        index_in_item_pack: vec![1, 2],
    }
}

#[test]
fn local_addresses_pass() {
    assert_eq!(check_if_addr_local(Some("127.0.0.1")), Ok(()));
    assert_eq!(check_if_addr_local(Some("0.0.0.0")), Ok(()));
    assert_eq!(check_if_addr_local(Some("127.0.0.0")), Ok(()));
}

#[test]
fn other_addresses_are_forbidden() {
    assert_eq!(check_if_addr_local(Some("192.168.0.1")), Err(RfidStatus::Err403));
    assert_eq!(check_if_addr_local(Some("127.0.0.10")), Err(RfidStatus::Err403));
    assert_eq!(check_if_addr_local(Some("")), Err(RfidStatus::Err403));
    assert_eq!(check_if_addr_local(None), Err(RfidStatus::Err403));
}

#[test]
fn only_a_connected_reader_is_listed() {
    let mut device = CfRh320u93::new();
    assert!(DeviceJson::describe("Chafon CF-RH320U-93", &device).is_none());
    device.connect(ConnectEvent::Requested);
    device.connect(ConnectEvent::Opened(true));
    let entry = DeviceJson::describe("Chafon CF-RH320U-93", &device).unwrap();
    assert_eq!(entry.id, "Chafon CF-RH320U-93");
    assert_eq!(entry.title, "Chafon CF-RH320U-93");
    assert!(entry.is_online);
    assert!(!entry.manual_connect_is_needed);
    assert!(!entry.multi_tag_is_supported);
    assert!(!entry.is_error);
    assert!(!entry.is_read_only);
    assert!(entry.compound_data_is_supported);
    let mut other = Bibliotheca::new();
    other.connect(ConnectEvent::Requested);
    other.connect(ConnectEvent::Opened(true));
    let entry = DeviceJson::describe("Bibliotheca 210 Reader", &other).unwrap();
    assert!(entry.multi_tag_is_supported);
}

#[test]
fn item_as_the_list_shows_it() {
    let mut item = DanishRfidItem::default();
    item.set_usage_type(2).unwrap();
    item.set_number_of_parts(3);
    item.set_ordinal_number(2);
    item.set_item_id("2935000003649").unwrap();
    item.set_country("RU").unwrap();
    item.set_library_id("293").unwrap();
    item.set_card_id(vec![0xE0, 0x04, 0x0A]);
    let response = ItemResponse::from_item(&item);
    assert_eq!(response.id.as_deref(), Some("2935000003649"));
    assert_eq!(response.kind, 2);
    assert_eq!(response.tags.len(), 1);
    let tag = &response.tags[0];
    assert_eq!(tag.tag_id, "E0040A");
    assert_eq!(tag.item_id.as_deref(), Some("2935000003649"));
    assert_eq!(tag.format, 61);
    assert_eq!(tag.kind, 2);
    assert_eq!(tag.item_size, 3);
    assert_eq!(tag.index_in_item_pack, 2);
    assert_eq!(tag.library_id, "RU-293");
}

#[test]
fn unreadable_tag_as_the_list_shows_it() {
    let mut item = DanishRfidItem::from_bytes(&[0u8; 23]).unwrap();
    item.set_card_id(vec![1, 2]);
    assert!(item.is_empty());
    let response = ItemResponse::from_item(&item);
    assert_eq!(response.id, None);
    assert_eq!(response.kind, 0);
    assert_eq!(response.tags.len(), 1);
    let tag = Tag::from_item(&item);
    assert_eq!(tag.tag_id, "{}");
    assert_eq!(tag.item_id, None);
    assert_eq!(tag.format, -1);
    assert_eq!(tag.kind, 0);
    assert_eq!(tag.item_size, 0);
    assert_eq!(tag.index_in_item_pack, 0);
    assert_eq!(tag.library_id, "");
    assert_eq!(response.tags[0].tag_id, "{}");
}

#[test]
fn list_of_items_keeps_the_order() {
    let mut first = DanishRfidItem::default();
    first.set_item_id("1").unwrap();
    let mut second = DanishRfidItem::default();
    second.set_item_id("2").unwrap();
    let responses = item_responses(&vec![first, second]);
    assert_eq!(responses.len(), 2);
    assert_eq!(responses[0].id.as_deref(), Some("1"));
    assert_eq!(responses[1].id.as_deref(), Some("2"));
    assert_eq!(responses[0].tags[0].library_id, "-");
    assert!(item_responses(&vec![]).is_empty());
}

#[test]
fn library_id_is_taken_apart() {
    assert_eq!(split_library_id("RU-293"), Some(("RU", "293")));
    assert_eq!(split_library_id("RU-"), Some(("RU", "")));
    assert_eq!(split_library_id("RUX293"), Some(("RU", "293")));
    assert_eq!(split_library_id("RU"), None);
    assert_eq!(split_library_id(""), None);
    // A character of two bytes lies across the cut after the second byte.
    assert_eq!(split_library_id("Ré-1"), None);
    // It fills the first two bytes.
    assert_eq!(split_library_id("é-1"), Some(("é", "1")));
    // It lies across the cut after the third byte.
    assert_eq!(split_library_id("RUé1"), None);
}

#[test]
fn request_gives_its_records() {
    let items = request().items().unwrap();
    assert_eq!(items.len(), 2);
    assert!(!items[0].is_empty());
    assert!(items[0].card_id().is_empty());
    assert_eq!(items[0].usage_type(), 8);
    assert_eq!(items[0].standart_version(), 1);
    assert_eq!(items[0].number_of_parts(), 1);
    assert_eq!(items[0].ordinal_number(), 1);
    assert_eq!(items[0].item_id(), "2935000003649");
    assert_eq!(items[0].country(), "RU");
    assert_eq!(items[0].library_id(), "293");
    assert_eq!(items[1].usage_type(), 2);
    assert_eq!(items[1].number_of_parts(), 3);
    assert_eq!(items[1].ordinal_number(), 2);
    assert_eq!(items[1].item_id(), "77");
    assert_eq!(items[1].country(), "DK");
    assert_eq!(items[1].library_id(), "12345678901");
}

#[test]
fn request_for_another_action_is_not_found() {
    let mut req = request();
    req.action = "readTags";
    assert_eq!(req.items().unwrap_err(), RfidStatus::Err404);
    req.id.pop();
    assert_eq!(req.items().unwrap_err(), RfidStatus::Err404);
}

#[test]
fn request_with_fields_out_of_line_is_bad() {
    let mut req = request();
    req.id.pop();
    assert_eq!(req.items().unwrap_err(), RfidStatus::Err400);
    let mut req = request();
    req.kind.push(1);
    assert_eq!(req.items().unwrap_err(), RfidStatus::Err400);
    let mut req = request();
    req.library_id.pop();
    assert_eq!(req.items().unwrap_err(), RfidStatus::Err400);
    let mut req = request();
    req.item_size.pop();
    assert_eq!(req.items().unwrap_err(), RfidStatus::Err400);
    let mut req = request();
    req.index_in_item_pack.push(0);
    assert_eq!(req.items().unwrap_err(), RfidStatus::Err400);
}

#[test]
fn request_with_a_field_that_does_not_fit_is_bad() {
    let mut req = request();
    req.library_id[1] = "DK";
    assert_eq!(req.items().unwrap_err(), RfidStatus::Err400);
    let mut req = request();
    req.library_id[0] = "RU-123456789012";
    assert_eq!(req.items().unwrap_err(), RfidStatus::Err400);
    let mut req = request();
    req.item_id[0] = "01234567890123456";
    assert_eq!(req.items().unwrap_err(), RfidStatus::Err400);
    let mut req = request();
    req.kind[1] = 16;
    assert_eq!(req.items().unwrap_err(), RfidStatus::Err400);
}

#[test]
fn request_without_tags_gives_no_records() {
    let req = WriteRequest {
        action: "writeTags",
        device_id: "",
        id: vec![],
        item_id: vec![],
        kind: vec![],
        library_id: vec![],
        item_size: vec![],
        index_in_item_pack: vec![],
    };
    assert!(req.items().unwrap().is_empty());
}

#[test]
fn failures_have_their_words() {
    let error = WriteFailure::OneTagAtATime.error();
    assert_eq!(error.kind, "Write Error");
    assert_eq!(error.message, "Reader can write only one tag at a time");
    let error = WriteFailure::Unreachable.error();
    assert_eq!(error.kind, "Write Error");
    assert_eq!(error.message, "Couldn't connect to the reader");
    let error = WriteFailure::NotWritten.error();
    assert_eq!(error.kind, "Write Error");
    assert_eq!(
        error.message,
        "Error during writing a card. Probably there's no cards nearby."
    );
}
