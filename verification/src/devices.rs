//! Readers: what each model can do, how a connection is kept alive, which
//! records a read gives and which writes are attempted.
//!
//! Nothing here touches hardware. A reader is driven from outside: the caller
//! performs what a decision asks for (open a session, probe it, read or write
//! a tag) and hands back what happened.

pub mod bibliotheca;
pub mod cf_rh320u_93;

use crate::rfid_items::{decode, encode, records, DanishRfidItem, TagRecord};
use crate::routes::write_tags::{
    failed_outcome, written_outcome, WriteFailure, WriteResponse,
};
use vstd::hash_map::StringHashMap;
use vstd::prelude::*;
use vstd::slice::slice_to_vec;

verus! {

/// What a reader model can do.
#[derive(Debug, Clone, Copy, PartialEq, Eq, Structural)]
pub struct Capabilities {
    /// The reader handles several tags in range at once.
    pub multi_tag: bool,
    /// The reader can represent items that consist of several tags.
    pub compound_data: bool,
    /// The reader cannot write.
    pub read_only: bool,
}

/// What happened to the session of a reader.
#[derive(Debug, Clone, Copy, PartialEq, Eq, Structural)]
pub enum ConnectEvent {
    /// A caller wants to use the reader.
    Requested,
    /// The session was probed; `true` if it answered.
    Probed(bool),
    /// Opening a session was tried; `true` if there is one now.
    Opened(bool),
}

/// What the caller has to do next to the session of a reader.
#[derive(Debug, Clone, Copy, PartialEq, Eq, Structural)]
pub enum ConnectAction {
    /// Open a session and report `ConnectEvent::Opened`.
    Open,
    /// Probe the session and report `ConnectEvent::Probed`.
    Probe,
    /// Nothing: the state of the connection is settled.
    Done,
}

/// The connection after an event, and what to do next. Without a session one
/// is opened; an existing session is probed, and dropped and opened again if
/// it does not answer. A result that was not asked for changes nothing.
pub open spec fn connect_step(connected: bool, event: ConnectEvent) -> (bool, ConnectAction) {
    match event {
        ConnectEvent::Requested => if connected {
            (true, ConnectAction::Probe)
        } else {
            (false, ConnectAction::Open)
        },
        ConnectEvent::Probed(alive) => if connected && !alive {
            (false, ConnectAction::Open)
        } else {
            (connected, ConnectAction::Done)
        },
        ConnectEvent::Opened(opened) => if connected {
            (true, ConnectAction::Done)
        } else {
            (opened, ConnectAction::Done)
        },
    }
}

/// Computes `connect_step`.
pub fn next_connect_step(connected: bool, event: ConnectEvent) -> (next: (bool, ConnectAction))
    ensures
        next == connect_step(connected, event),
{
    match event {
        ConnectEvent::Requested => if connected {
            (true, ConnectAction::Probe)
        } else {
            (false, ConnectAction::Open)
        },
        ConnectEvent::Probed(alive) => if connected && !alive {
            (false, ConnectAction::Open)
        } else {
            (connected, ConnectAction::Done)
        },
        ConnectEvent::Opened(opened) => if connected {
            (true, ConnectAction::Done)
        } else {
            (opened, ConnectAction::Done)
        },
    }
}

/// A connection is lost only when a probe finds the session dead, and it is
/// gained only when a session has been opened. A request alone changes nothing.
pub proof fn lemma_connection_changes(connected: bool, event: ConnectEvent)
    ensures
        connected && !connect_step(connected, event).0 ==> event == ConnectEvent::Probed(false),
        !connected && connect_step(connected, event).0 ==> event == ConnectEvent::Opened(true),
        event == ConnectEvent::Requested ==> connect_step(connected, event).0 == connected,
{
}

/// Connecting twice is connecting once: a request on a live connection asks
/// for a probe, and the probe that answers leaves the connection as it is.
pub proof fn lemma_connect_is_idempotent()
    ensures
        connect_step(true, ConnectEvent::Requested) == (true, ConnectAction::Probe),
        connect_step(true, ConnectEvent::Probed(true)) == (true, ConnectAction::Done),
{
}

/// A tag as the hardware knows it: its id and the bytes of its frame.
#[derive(Debug)]
pub struct TagFrame {
    pub card_id: Vec<u8>,
    pub frame: Vec<u8>,
}

/// The record that one tag gives: its decoded frame with the id of the tag
/// attached, or nothing where the frame is refused.
pub open spec fn read_record(card_id: Seq<u8>, frame: Seq<u8>) -> Option<TagRecord> {
    match decode(frame) {
        Ok(record) => Some(TagRecord { card_id, ..record }),
        Err(_) => None,
    }
}

/// The records that the tags in range give, in their order; tags whose frame
/// is refused are left out.
pub open spec fn collected(reads: Seq<TagFrame>) -> Seq<TagRecord>
    decreases reads.len(),
{
    if reads.len() == 0 {
        Seq::empty()
    } else {
        let earlier = collected(reads.drop_last());
        match read_record(reads.last().card_id@, reads.last().frame@) {
            Some(record) => earlier.push(record),
            None => earlier,
        }
    }
}

/// Whether the frames of the tags in range are read at all: not by a reader
/// that is not connected, and by a reader that handles one tag at a time
/// only where exactly one tag is in range.
pub open spec fn read_is_attempted(connected: bool, multi_tag: bool, in_range: nat) -> bool {
    connected && (multi_tag || in_range == 1)
}

/// What a read gives for the tags found in range: their records where the
/// read is attempted, else nothing.
pub open spec fn items_read(connected: bool, multi_tag: bool, reads: Seq<TagFrame>) -> Seq<
    TagRecord,
> {
    if read_is_attempted(connected, multi_tag, reads.len()) {
        collected(reads)
    } else {
        Seq::empty()
    }
}

/// Decides whether the frames of the tags in range are to be read.
pub fn attempts_read(connected: bool, multi_tag: bool, in_range: usize) -> (attempted: bool)
    ensures
        attempted == read_is_attempted(connected, multi_tag, in_range as nat),
{
    connected && (multi_tag || in_range == 1)
}

/// Decodes what was read from the tags in range.
pub fn collect_items(connected: bool, multi_tag: bool, reads: &Vec<TagFrame>) -> (items: Vec<
    DanishRfidItem,
>)
    ensures
        records(items@) == items_read(connected, multi_tag, reads@),
        items@.len() == items_read(connected, multi_tag, reads@).len(),
{
    let mut items: Vec<DanishRfidItem> = Vec::new();
    if !attempts_read(connected, multi_tag, reads.len()) {
        proof {
            assert(records(items@) =~= Seq::<TagRecord>::empty());
        }
        return items;
    }
    let mut at: usize = 0;
    proof {
        assert(records(items@) =~= collected(reads@.subrange(0, 0)));
    }
    while at < reads.len()
        invariant
            at <= reads.len(),
            records(items@) == collected(reads@.subrange(0, at as int)),
        decreases reads.len() - at,
    {
        let read = &reads[at];
        proof {
            assert(reads@.subrange(0, at + 1).drop_last() =~= reads@.subrange(0, at as int));
            assert(reads@.subrange(0, at + 1).last() == reads@[at as int]);
        }
        let ghost before = items@;
        match DanishRfidItem::from_bytes(read.frame.as_slice()) {
            Ok(mut item) => {
                item.set_card_id(read.card_id.clone());
                items.push(item);
                proof {
                    assert(records(items@) =~= records(before).push(item@));
                }
            },
            Err(_) => {},
        }
        at = at + 1;
    }
    proof {
        assert(reads@.subrange(0, at as int) =~= reads@);
        assert(records(items@).len() == items@.len());
    }
    items
}

/// What is to be done about a batch of records to write.
#[derive(Debug)]
pub enum WriteDecision {
    /// No write is attempted; every record has its failure outcome.
    Refused(Vec<WriteResponse>),
    /// Each record is to be written to its tag as the frame given here.
    Attempt(Vec<TagFrame>),
}

/// Why no record of a batch is written, if that is so. A reader that is not
/// connected is unreachable whatever the batch; a connected reader that
/// writes one tag at a time refuses more than one record.
pub open spec fn refusal(connected: bool, multi_tag: bool, count: nat) -> Option<WriteFailure> {
    if !connected {
        Some(WriteFailure::Unreachable)
    } else if !multi_tag && count > 1 {
        Some(WriteFailure::OneTagAtATime)
    } else {
        None
    }
}

/// Whether a decision refuses a batch: one outcome for each record, in
/// order, each with the given failure, and no frame to write.
pub open spec fn refused_with(
    decision: WriteDecision,
    items: Seq<DanishRfidItem>,
    failure: WriteFailure,
) -> bool {
    &&& decision matches WriteDecision::Refused(outcomes)
    &&& outcomes@.len() == items.len()
    &&& forall|i: int|
        0 <= i < items.len() ==> (#[trigger] outcomes@[i])@ == failed_outcome(items[i]@, failure)
}

/// Whether a decision has each record of a batch written: one frame for
/// each record, in order, with the id of its tag.
pub open spec fn attempts_all(decision: WriteDecision, items: Seq<DanishRfidItem>) -> bool {
    &&& decision matches WriteDecision::Attempt(writes)
    &&& writes@.len() == items.len()
    &&& forall|i: int|
        0 <= i < items.len() ==> {
            &&& (#[trigger] writes@[i]).card_id@ == items[i]@.card_id
            &&& writes@[i].frame@ == encode(items[i]@)
        }
}

/// Whether a decision is the right one for a batch.
pub open spec fn decided(
    connected: bool,
    multi_tag: bool,
    items: Seq<DanishRfidItem>,
    decision: WriteDecision,
) -> bool {
    match refusal(connected, multi_tag, items.len()) {
        Some(failure) => refused_with(decision, items, failure),
        None => attempts_all(decision, items),
    }
}

/// The failure outcome of every record of a batch.
fn refuse_all(items: &Vec<DanishRfidItem>, failure: WriteFailure) -> (outcomes: Vec<WriteResponse>)
    ensures
        outcomes@.len() == items@.len(),
        forall|i: int|
            0 <= i < items@.len() ==> (#[trigger] outcomes@[i])@ == failed_outcome(
                items@[i]@,
                failure,
            ),
{
    let mut outcomes: Vec<WriteResponse> = Vec::new();
    let mut at: usize = 0;
    while at < items.len()
        invariant
            at <= items.len(),
            outcomes@.len() == at,
            forall|i: int|
                0 <= i < at ==> (#[trigger] outcomes@[i])@ == failed_outcome(items@[i]@, failure),
        decreases items.len() - at,
    {
        outcomes.push(
            WriteResponse {
                id: items[at].card_id_string(),
                success: false,
                error: Some(failure.error()),
            },
        );
        at = at + 1;
    }
    outcomes
}

/// Decides what to do about a batch of records to write.
pub fn plan_write(connected: bool, multi_tag: bool, items: &Vec<DanishRfidItem>) -> (decision:
    WriteDecision)
    ensures
        decided(connected, multi_tag, items@, decision),
        !connected ==> refused_with(decision, items@, WriteFailure::Unreachable),
        connected && !multi_tag && items@.len() > 1 ==> refused_with(
            decision,
            items@,
            WriteFailure::OneTagAtATime,
        ),
{
    if !connected {
        return WriteDecision::Refused(refuse_all(items, WriteFailure::Unreachable));
    }
    if !multi_tag && items.len() > 1 {
        return WriteDecision::Refused(refuse_all(items, WriteFailure::OneTagAtATime));
    }
    let mut writes: Vec<TagFrame> = Vec::new();
    let mut at: usize = 0;
    while at < items.len()
        invariant
            at <= items.len(),
            writes@.len() == at,
            forall|i: int|
                0 <= i < at ==> {
                    &&& (#[trigger] writes@[i]).card_id@ == items@[i]@.card_id
                    &&& writes@[i].frame@ == encode(items@[i]@)
                },
        decreases items.len() - at,
    {
        let item = &items[at];
        writes.push(TagFrame { card_id: slice_to_vec(item.card_id()), frame: item.to_bytes() });
        at = at + 1;
    }
    WriteDecision::Attempt(writes)
}

/// Whether the hardware reported the `i`-th write as done; a write without a
/// report counts as not done.
pub open spec fn was_written(written: Seq<bool>, i: int) -> bool {
    0 <= i < written.len() && written[i]
}

/// The outcome of each record of a batch that was attempted, in order, from
/// what the hardware reported for each write. A failed write is the failure
/// of its record alone.
pub fn report_writes(items: &Vec<DanishRfidItem>, written: &Vec<bool>) -> (outcomes: Vec<
    WriteResponse,
>)
    ensures
        outcomes@.len() == items@.len(),
        forall|i: int|
            0 <= i < items@.len() ==> (#[trigger] outcomes@[i])@ == if was_written(written@, i) {
                written_outcome(items@[i]@)
            } else {
                failed_outcome(items@[i]@, WriteFailure::NotWritten)
            },
{
    let mut outcomes: Vec<WriteResponse> = Vec::new();
    let mut at: usize = 0;
    while at < items.len()
        invariant
            at <= items.len(),
            outcomes@.len() == at,
            forall|i: int|
                0 <= i < at ==> (#[trigger] outcomes@[i])@ == if was_written(written@, i) {
                    written_outcome(items@[i]@)
                } else {
                    failed_outcome(items@[i]@, WriteFailure::NotWritten)
                },
        decreases items.len() - at,
    {
        let done: bool = at < written.len() && written[at];
        let error = if done {
            None
        } else {
            Some(WriteFailure::NotWritten.error())
        };
        outcomes.push(WriteResponse { id: items[at].card_id_string(), success: done, error });
        at = at + 1;
    }
    outcomes
}

/// The name under which the Chafon reader is listed.
pub const CF_RH320U_93_NAME: &'static str = "Chafon CF-RH320U-93";

/// The name under which the Bibliotheca reader is listed.
pub const BIBLIOTHECA_NAME: &'static str = "Bibliotheca 210 Reader";

/// The readers that the server knows, each under its name. The list is made
/// once and never changes: nothing is added, taken out or put in place of
/// another. What stands for a reader is the caller's choice, so that each
/// can sit behind a guard of its own.
#[verifier::reject_recursive_types(D)]
pub struct DevicesList<D> {
    devices: StringHashMap<D>,
}

impl<D> View for DevicesList<D> {
    type V = Map<Seq<char>, D>;

    closed spec fn view(&self) -> Map<Seq<char>, D> {
        self.devices@
    }
}

/// The two names differ.
pub proof fn lemma_names_differ()
    ensures
        CF_RH320U_93_NAME@ != BIBLIOTHECA_NAME@,
{
    reveal_strlit("Chafon CF-RH320U-93");
    reveal_strlit("Bibliotheca 210 Reader");
    assert(CF_RH320U_93_NAME@.len() != BIBLIOTHECA_NAME@.len());
}

impl<D> DevicesList<D> {
    #[verifier::type_invariant]
    spec fn well_formed(&self) -> bool {
        self.devices@.dom() =~= set![CF_RH320U_93_NAME@, BIBLIOTHECA_NAME@]
    }

    /// Lists one reader of each known model under its name.
    pub fn new(chafon: D, bibliotheca: D) -> (list: Self)
        ensures
            list@ == Map::<Seq<char>, D>::empty().insert(CF_RH320U_93_NAME@, chafon).insert(
                BIBLIOTHECA_NAME@,
                bibliotheca,
            ),
    {
        let mut devices: StringHashMap<D> = StringHashMap::new();
        devices.insert(CF_RH320U_93_NAME.to_owned(), chafon);
        devices.insert(BIBLIOTHECA_NAME.to_owned(), bibliotheca);
        DevicesList { devices }
    }

    /// The listed readers by name: exactly the two names of `names` are in it.
    pub fn get(&self) -> (devices: &StringHashMap<D>)
        ensures
            devices@ == self@,
            devices@.dom() =~= set![CF_RH320U_93_NAME@, BIBLIOTHECA_NAME@],
    {
        proof {
            use_type_invariant(self);
        }
        &self.devices
    }

    /// The names of all listed readers.
    pub fn names(&self) -> (names: Vec<&'static str>)
        ensures
            names@.len() == 2,
            names@[0]@ == CF_RH320U_93_NAME@,
            names@[1]@ == BIBLIOTHECA_NAME@,
            forall|name: Seq<char>|
                self@.dom().contains(name) <==> name == names@[0]@ || name == names@[1]@,
    {
        proof {
            use_type_invariant(self);
        }
        let mut names: Vec<&'static str> = Vec::new();
        names.push(CF_RH320U_93_NAME);
        names.push(BIBLIOTHECA_NAME);
        names
    }
}

/// A reader of some model, as the server sees it.
pub trait Device {
    /// Whether a session with the hardware is taken to exist.
    spec fn connected(&self) -> bool;

    /// What the model can do.
    spec fn capabilities(&self) -> Capabilities;

    /// Takes the connection one step further: records what happened to the
    /// session and says what to do next. Only the connection changes.
    fn connect(&mut self, event: ConnectEvent) -> (action: ConnectAction)
        ensures
            (final(self).connected(), action) == connect_step(old(self).connected(), event),
            final(self).capabilities() == old(self).capabilities(),
    ;

    /// Whether a session with the hardware is taken to exist.
    fn is_connected(&self) -> (connected: bool)
        ensures
            connected == self.connected(),
    ;

    /// Whether the reader handles several tags in range at once.
    fn multi_tag_is_supported(&self) -> (supported: bool)
        ensures
            supported == self.capabilities().multi_tag,
    ;

    /// Whether the reader can represent items that consist of several tags.
    fn compound_data_is_supported(&self) -> (supported: bool)
        ensures
            supported == self.capabilities().compound_data,
    ;

    /// Whether the reader cannot write.
    fn is_read_only(&self) -> (read_only: bool)
        ensures
            read_only == self.capabilities().read_only,
    ;

    /// Whether the frames of the tags found in range are to be read.
    fn reads_tags(&self, in_range: usize) -> (attempted: bool)
        ensures
            attempted == read_is_attempted(
                self.connected(),
                self.capabilities().multi_tag,
                in_range as nat,
            ),
    ;

    /// The records of the tags found in range. A reader that is not
    /// connected gives none.
    fn get_items(&self, reads: &Vec<TagFrame>) -> (items: Vec<DanishRfidItem>)
        ensures
            records(items@) == items_read(self.connected(), self.capabilities().multi_tag, reads@),
            items@.len() == items_read(
                self.connected(),
                self.capabilities().multi_tag,
                reads@,
            ).len(),
            !self.connected() ==> items@.len() == 0,
    ;

    /// What to do about a batch of records to write. On a reader that is not
    /// connected every record fails as unreachable. On a connected reader
    /// that writes one tag at a time, every record of a batch of more than
    /// one fails for that reason. In both cases no write is attempted. Any
    /// other batch is to be written frame by frame.
    fn write_tags(&self, items: &Vec<DanishRfidItem>) -> (decision: WriteDecision)
        ensures
            decided(self.connected(), self.capabilities().multi_tag, items@, decision),
            !self.connected() ==> refused_with(decision, items@, WriteFailure::Unreachable),
            self.connected() && !self.capabilities().multi_tag && items@.len() > 1
                ==> refused_with(decision, items@, WriteFailure::OneTagAtATime),
    ;
}

} // verus!
