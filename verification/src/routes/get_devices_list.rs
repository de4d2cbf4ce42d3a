//! Listing the readers.

use crate::devices::Device;
use vstd::prelude::*;

verus! {

/// A reader as the list of readers shows it.
#[derive(Debug)]
pub struct DeviceJson {
    pub id: String,
    pub title: String,
    pub is_online: bool,
    pub manual_connect_is_needed: bool,
    pub multi_tag_is_supported: bool,
    pub is_error: bool,
    pub is_read_only: bool,
    pub compound_data_is_supported: bool,
}

impl DeviceJson {
    /// The entry of a reader in the list of readers. Only a connected reader
    /// has one; it goes by its name, is online and in no error state, needs
    /// no manual connecting, and shows what its model can do.
    pub fn describe<D: Device>(name: &str, device: &D) -> (entry: Option<DeviceJson>)
        ensures
            entry is Some <==> device.connected(),
            entry matches Some(e) ==> {
                &&& e.id@ == name@
                &&& e.title@ == name@
                &&& e.is_online
                &&& !e.manual_connect_is_needed
                &&& e.multi_tag_is_supported == device.capabilities().multi_tag
                &&& !e.is_error
                &&& e.is_read_only == device.capabilities().read_only
                &&& e.compound_data_is_supported == device.capabilities().compound_data
            },
    {
        if !device.is_connected() {
            return None;
        }
        Some(
            DeviceJson {
                id: name.to_owned(),
                title: name.to_owned(),
                is_online: true,
                manual_connect_is_needed: false,
                multi_tag_is_supported: device.multi_tag_is_supported(),
                is_error: false,
                is_read_only: device.is_read_only(),
                compound_data_is_supported: device.compound_data_is_supported(),
            },
        )
    }
}

} // verus!
