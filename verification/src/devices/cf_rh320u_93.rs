//! The Chafon CF-RH320U-93 reader.

use crate::devices::{
    attempts_read, collect_items, next_connect_step, plan_write, Capabilities, ConnectAction, ConnectEvent,
    Device, TagFrame, WriteDecision,
};
use crate::rfid_items::DanishRfidItem;
use vstd::prelude::*;

verus! {

/// A Chafon CF-RH320U-93: it handles one tag at a time.
#[derive(Debug)]
pub struct CfRh320u93 {
    connected: bool,
}

impl CfRh320u93 {
    /// A reader without a session.
    pub fn new() -> (device: Self)
        ensures
            !device.connected(),
    {
        CfRh320u93 { connected: false }
    }
}

impl Device for CfRh320u93 {
    closed spec fn connected(&self) -> bool {
        self.connected
    }

    open spec fn capabilities(&self) -> Capabilities {
        Capabilities { multi_tag: false, compound_data: true, read_only: false }
    }

    fn connect(&mut self, event: ConnectEvent) -> (action: ConnectAction) {
        let (connected, action) = next_connect_step(self.connected, event);
        self.connected = connected;
        action
    }

    fn is_connected(&self) -> (connected: bool) {
        self.connected
    }

    fn multi_tag_is_supported(&self) -> (supported: bool) {
        false
    }

    fn compound_data_is_supported(&self) -> (supported: bool) {
        true
    }

    fn is_read_only(&self) -> (read_only: bool) {
        false
    }

    fn reads_tags(&self, in_range: usize) -> (attempted: bool) {
        attempts_read(self.connected, false, in_range)
    }

    fn get_items(&self, reads: &Vec<TagFrame>) -> (items: Vec<DanishRfidItem>) {
        collect_items(self.connected, false, reads)
    }

    fn write_tags(&self, items: &Vec<DanishRfidItem>) -> (decision: WriteDecision) {
        plan_write(self.connected, false, items)
    }
}

} // verus!
