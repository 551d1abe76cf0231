//! Data of a Bluetooth LE advertisement.
use std::collections::HashMap;
use vstd::prelude::*;

verus! {

/// Manufacturer specific data of an advertisement.
pub struct ManufacturerData {
    /// Company identifier of the manufacturer (assigned by the Bluetooth SIG).
    pub company_id: u16,
    /// The manufacturer's data after the company identifier.
    pub data: Vec<u8>,
}

/// The data of an advertisement packet. UUIDs are held as their 128-bit
/// values.
pub struct AdvertisementData {
    /// The advertised local name of the device.
    pub local_name: Option<String>,
    /// Manufacturer specific data.
    pub manufacturer_data: Option<ManufacturerData>,
    /// The advertised service UUIDs.
    pub services: Vec<u128>,
    /// Service data, by service UUID.
    pub service_data: HashMap<u128, Vec<u8>>,
    /// The transmit power level of the advertisement.
    pub tx_power_level: Option<i16>,
    /// Whether the device accepts connections.
    pub is_connectable: bool,
}

} // verus!
