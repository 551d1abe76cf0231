//! Data model and conversions of the CoreBluetooth backend of bluest.
pub mod advertisement;
pub mod btuuid;
pub mod corebluetooth;
pub mod properties;

pub use advertisement::{AdvertisementData, ManufacturerData};
pub use properties::CharacteristicProperties;
