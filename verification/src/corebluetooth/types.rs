//! The CoreBluetooth value types and the data that CoreBluetooth objects hold.
use std::collections::HashMap;
use vstd::prelude::*;
use crate::advertisement::{AdvertisementData, ManufacturerData};
use crate::properties::{properties_of_bits, CharacteristicProperties};
use crate::btuuid::{
    as_bluetooth_bytes, be_bytes, be_value, bluetooth_bytes, from_bluetooth_bytes,
    is_bluetooth_uuid_len, lemma_be_bytes_len, lemma_be_bytes_of_be_value, lemma_be_value_bound,
    lemma_be_value_of_be_bytes, lemma_pow256_values, uuid_from_bytes, uuid_of_bluetooth_bytes,
    uuid_to_bytes,
};

verus! {

/// Signed integer of the Objective-C runtime (`NSInteger`).
pub type NSInteger = isize;

/// Unsigned integer of the Objective-C runtime (`NSUInteger`).
pub type NSUInteger = usize;


/// State of a `CBCentralManager`, as CoreBluetooth reports it.
///
/// The value is the raw integer that CoreBluetooth uses; the associated
/// functions give the values that it defines.
#[derive(Default, Debug, Clone, Copy, PartialEq, Eq, PartialOrd, Ord, Hash, Structural)]
pub struct CBManagerState(pub NSInteger);

#[allow(non_snake_case)]
impl CBManagerState {
    #[verifier::allow_in_spec]
    pub fn UNKNOWN() -> Self
        returns
            CBManagerState(0),
    {
        CBManagerState(0)
    }

    #[verifier::allow_in_spec]
    pub fn RESETTING() -> Self
        returns
            CBManagerState(1),
    {
        CBManagerState(1)
    }

    #[verifier::allow_in_spec]
    pub fn UNSUPPORTED() -> Self
        returns
            CBManagerState(2),
    {
        CBManagerState(2)
    }

    #[verifier::allow_in_spec]
    pub fn UNAUTHORIZED() -> Self
        returns
            CBManagerState(3),
    {
        CBManagerState(3)
    }

    #[verifier::allow_in_spec]
    pub fn POWERED_OFF() -> Self
        returns
            CBManagerState(4),
    {
        CBManagerState(4)
    }

    #[verifier::allow_in_spec]
    pub fn POWERED_ON() -> Self
        returns
            CBManagerState(5),
    {
        CBManagerState(5)
    }
}

/// Authorization of the application to use Bluetooth.
///
/// The value is the raw integer that CoreBluetooth uses; the associated
/// functions give the values that it defines.
#[derive(Default, Debug, Clone, Copy, PartialEq, Eq, PartialOrd, Ord, Hash, Structural)]
pub struct CBManagerAuthorization(pub NSInteger);

#[allow(non_snake_case)]
impl CBManagerAuthorization {
    #[verifier::allow_in_spec]
    pub fn NOT_DETERMINED() -> Self
        returns
            CBManagerAuthorization(0),
    {
        CBManagerAuthorization(0)
    }

    #[verifier::allow_in_spec]
    pub fn RESTRICTED() -> Self
        returns
            CBManagerAuthorization(1),
    {
        CBManagerAuthorization(1)
    }

    #[verifier::allow_in_spec]
    pub fn DENIED() -> Self
        returns
            CBManagerAuthorization(2),
    {
        CBManagerAuthorization(2)
    }

    #[verifier::allow_in_spec]
    pub fn ALLOWED_ALWAYS() -> Self
        returns
            CBManagerAuthorization(3),
    {
        CBManagerAuthorization(3)
    }
}

/// Optional features that a `CBCentralManager` may support.
///
/// The value is the raw integer that CoreBluetooth uses; the associated
/// functions give the values that it defines.
#[derive(Default, Debug, Clone, Copy, PartialEq, Eq, PartialOrd, Ord, Hash, Structural)]
pub struct CBCentralManagerFeatures(pub NSUInteger);

#[allow(non_snake_case)]
impl CBCentralManagerFeatures {
    #[verifier::allow_in_spec]
    pub fn EXTENDED_SCAN_AND_CONNECT() -> Self
        returns
            CBCentralManagerFeatures(1),
    {
        CBCentralManagerFeatures(1)
    }
}

/// Connection state of a `CBPeripheral`.
///
/// The value is the raw integer that CoreBluetooth uses; the associated
/// functions give the values that it defines.
#[derive(Default, Debug, Clone, Copy, PartialEq, Eq, PartialOrd, Ord, Hash, Structural)]
pub struct CBPeripheralState(pub NSInteger);

#[allow(non_snake_case)]
impl CBPeripheralState {
    #[verifier::allow_in_spec]
    pub fn DISCONNECTED() -> Self
        returns
            CBPeripheralState(0),
    {
        CBPeripheralState(0)
    }

    #[verifier::allow_in_spec]
    pub fn CONNECTING() -> Self
        returns
            CBPeripheralState(1),
    {
        CBPeripheralState(1)
    }

    #[verifier::allow_in_spec]
    pub fn CONNECTED() -> Self
        returns
            CBPeripheralState(2),
    {
        CBPeripheralState(2)
    }

    #[verifier::allow_in_spec]
    pub fn DISCONNECTING() -> Self
        returns
            CBPeripheralState(3),
    {
        CBPeripheralState(3)
    }
}

/// Property bits of a `CBCharacteristic`; each constant is one bit.
///
/// The value is the raw integer that CoreBluetooth uses; the associated
/// functions give the values that it defines.
#[derive(Default, Debug, Clone, Copy, PartialEq, Eq, PartialOrd, Ord, Hash, Structural)]
pub struct CBCharacteristicProperties(pub NSUInteger);

#[allow(non_snake_case)]
impl CBCharacteristicProperties {
    #[verifier::allow_in_spec]
    pub fn BROADCAST() -> Self
        returns
            CBCharacteristicProperties(0b0000_0001),
    {
        CBCharacteristicProperties(0b0000_0001)
    }

    #[verifier::allow_in_spec]
    pub fn READ() -> Self
        returns
            CBCharacteristicProperties(0b0000_0010),
    {
        CBCharacteristicProperties(0b0000_0010)
    }

    #[verifier::allow_in_spec]
    pub fn WRITE_WITHOUT_RESPONSE() -> Self
        returns
            CBCharacteristicProperties(0b0000_0100),
    {
        CBCharacteristicProperties(0b0000_0100)
    }

    #[verifier::allow_in_spec]
    pub fn WRITE() -> Self
        returns
            CBCharacteristicProperties(0b0000_1000),
    {
        CBCharacteristicProperties(0b0000_1000)
    }

    #[verifier::allow_in_spec]
    pub fn NOTIFY() -> Self
        returns
            CBCharacteristicProperties(0b0001_0000),
    {
        CBCharacteristicProperties(0b0001_0000)
    }

    #[verifier::allow_in_spec]
    pub fn INDICATE() -> Self
        returns
            CBCharacteristicProperties(0b0010_0000),
    {
        CBCharacteristicProperties(0b0010_0000)
    }

    #[verifier::allow_in_spec]
    pub fn AUTHENTICATED_SIGNED_WRITES() -> Self
        returns
            CBCharacteristicProperties(0b0100_0000),
    {
        CBCharacteristicProperties(0b0100_0000)
    }

    #[verifier::allow_in_spec]
    pub fn EXTENDED_PROPERTIES() -> Self
        returns
            CBCharacteristicProperties(0b1000_0000),
    {
        CBCharacteristicProperties(0b1000_0000)
    }

    #[verifier::allow_in_spec]
    pub fn NOTIFY_ENCRYPTION_REQUIRED() -> Self
        returns
            CBCharacteristicProperties(0b0001_0000_0000),
    {
        CBCharacteristicProperties(0b0001_0000_0000)
    }

    #[verifier::allow_in_spec]
    pub fn INDICATE_ENCRYPTION_REQUIRED() -> Self
        returns
            CBCharacteristicProperties(0b0010_0000_0000),
    {
        CBCharacteristicProperties(0b0010_0000_0000)
    }
}

/// Error code of the `CBErrorDomain`.
///
/// The value is the raw integer that CoreBluetooth uses; the associated
/// functions give the values that it defines.
#[derive(Default, Debug, Clone, Copy, PartialEq, Eq, PartialOrd, Ord, Hash, Structural)]
pub struct CBError(pub NSInteger);

#[allow(non_snake_case)]
impl CBError {
    #[verifier::allow_in_spec]
    pub fn UNKNOWN() -> Self
        returns
            CBError(0),
    {
        CBError(0)
    }

    #[verifier::allow_in_spec]
    pub fn INVALID_PARAMETERS() -> Self
        returns
            CBError(1),
    {
        CBError(1)
    }

    #[verifier::allow_in_spec]
    pub fn INVALID_HANDLE() -> Self
        returns
            CBError(2),
    {
        CBError(2)
    }

    #[verifier::allow_in_spec]
    pub fn NOT_CONNECTED() -> Self
        returns
            CBError(3),
    {
        CBError(3)
    }

    #[verifier::allow_in_spec]
    pub fn OUT_OF_SPACE() -> Self
        returns
            CBError(4),
    {
        CBError(4)
    }

    #[verifier::allow_in_spec]
    pub fn OPERATION_CANCELLED() -> Self
        returns
            CBError(5),
    {
        CBError(5)
    }

    #[verifier::allow_in_spec]
    pub fn CONNECTION_TIMEOUT() -> Self
        returns
            CBError(6),
    {
        CBError(6)
    }

    #[verifier::allow_in_spec]
    pub fn PERIPHERAL_DISCONNECTED() -> Self
        returns
            CBError(7),
    {
        CBError(7)
    }

    #[verifier::allow_in_spec]
    pub fn UUID_NOT_ALLOWED() -> Self
        returns
            CBError(8),
    {
        CBError(8)
    }

    #[verifier::allow_in_spec]
    pub fn ALREADY_ADVERTISING() -> Self
        returns
            CBError(9),
    {
        CBError(9)
    }

    #[verifier::allow_in_spec]
    pub fn CONNECTION_FAILED() -> Self
        returns
            CBError(10),
    {
        CBError(10)
    }

    #[verifier::allow_in_spec]
    pub fn CONNECTION_LIMIT_REACHED() -> Self
        returns
            CBError(11),
    {
        CBError(11)
    }

    #[verifier::allow_in_spec]
    pub fn UNKOWN_DEVICE() -> Self
        returns
            CBError(12),
    {
        CBError(12)
    }

    #[verifier::allow_in_spec]
    pub fn OPERATION_NOT_SUPPORTED() -> Self
        returns
            CBError(13),
    {
        CBError(13)
    }

    #[verifier::allow_in_spec]
    pub fn PEER_REMOVED_PAIRING_INFORMATION() -> Self
        returns
            CBError(14),
    {
        CBError(14)
    }

    #[verifier::allow_in_spec]
    pub fn ENCRYPTION_TIMED_OUT() -> Self
        returns
            CBError(15),
    {
        CBError(15)
    }

    #[verifier::allow_in_spec]
    pub fn TOO_MANY_LE_PAIRED_DEVICES() -> Self
        returns
            CBError(16),
    {
        CBError(16)
    }
}

/// Error code of the `CBATTErrorDomain`.
///
/// The value is the raw integer that CoreBluetooth uses; the associated
/// functions give the values that it defines.
#[derive(Default, Debug, Clone, Copy, PartialEq, Eq, PartialOrd, Ord, Hash, Structural)]
pub struct CBATTError(pub NSInteger);

#[allow(non_snake_case)]
impl CBATTError {
    #[verifier::allow_in_spec]
    pub fn SUCCESS() -> Self
        returns
            CBATTError(0),
    {
        CBATTError(0)
    }

    #[verifier::allow_in_spec]
    pub fn INVALID_HANDLE() -> Self
        returns
            CBATTError(1),
    {
        CBATTError(1)
    }

    #[verifier::allow_in_spec]
    pub fn READ_NOT_PERMITTED() -> Self
        returns
            CBATTError(2),
    {
        CBATTError(2)
    }

    #[verifier::allow_in_spec]
    pub fn WRITE_NOT_PERMITTED() -> Self
        returns
            CBATTError(3),
    {
        CBATTError(3)
    }

    #[verifier::allow_in_spec]
    pub fn INVALID_PDU() -> Self
        returns
            CBATTError(4),
    {
        CBATTError(4)
    }

    #[verifier::allow_in_spec]
    pub fn INSUFFICIENT_AUTHENTICATION() -> Self
        returns
            CBATTError(5),
    {
        CBATTError(5)
    }

    #[verifier::allow_in_spec]
    pub fn REQUEST_NOT_SUPPORTED() -> Self
        returns
            CBATTError(6),
    {
        CBATTError(6)
    }

    #[verifier::allow_in_spec]
    pub fn INVALID_OFFSET() -> Self
        returns
            CBATTError(7),
    {
        CBATTError(7)
    }

    #[verifier::allow_in_spec]
    pub fn INSUFFICIENT_AUTHORIZATION() -> Self
        returns
            CBATTError(8),
    {
        CBATTError(8)
    }

    #[verifier::allow_in_spec]
    pub fn PREPARE_QUEUE_FULL() -> Self
        returns
            CBATTError(9),
    {
        CBATTError(9)
    }

    #[verifier::allow_in_spec]
    pub fn ATTRIBUTE_NOT_FOUND() -> Self
        returns
            CBATTError(10),
    {
        CBATTError(10)
    }

    #[verifier::allow_in_spec]
    pub fn ATTRIBUTE_NOT_LONG() -> Self
        returns
            CBATTError(11),
    {
        CBATTError(11)
    }

    #[verifier::allow_in_spec]
    pub fn INSUFFICIENT_ENCRYPTION_KEY_SIZE() -> Self
        returns
            CBATTError(12),
    {
        CBATTError(12)
    }

    #[verifier::allow_in_spec]
    pub fn INVALID_ATTRIBUTE_VALUE_LENGTH() -> Self
        returns
            CBATTError(13),
    {
        CBATTError(13)
    }

    #[verifier::allow_in_spec]
    pub fn UNLIKELY_ERROR() -> Self
        returns
            CBATTError(14),
    {
        CBATTError(14)
    }

    #[verifier::allow_in_spec]
    pub fn INSUFFICIENT_ENCRYPTION() -> Self
        returns
            CBATTError(15),
    {
        CBATTError(15)
    }

    #[verifier::allow_in_spec]
    pub fn UNSUPPORTED_GROUP_TYPE() -> Self
        returns
            CBATTError(16),
    {
        CBATTError(16)
    }

    #[verifier::allow_in_spec]
    pub fn INSUFFICIENT_RESOURCES() -> Self
        returns
            CBATTError(17),
    {
        CBATTError(17)
    }
}

/// Status of an `NSStream`.
///
/// The value is the raw integer that CoreBluetooth uses; the associated
/// functions give the values that it defines.
#[derive(Default, Debug, Clone, Copy, PartialEq, Eq, PartialOrd, Ord, Hash, Structural)]
pub struct NSStreamStatus(pub NSInteger);

#[allow(non_snake_case)]
impl NSStreamStatus {
    #[verifier::allow_in_spec]
    pub fn NOT_OPEN() -> Self
        returns
            NSStreamStatus(0),
    {
        NSStreamStatus(0)
    }

    #[verifier::allow_in_spec]
    pub fn OPENING() -> Self
        returns
            NSStreamStatus(1),
    {
        NSStreamStatus(1)
    }

    #[verifier::allow_in_spec]
    pub fn OPEN() -> Self
        returns
            NSStreamStatus(2),
    {
        NSStreamStatus(2)
    }

    #[verifier::allow_in_spec]
    pub fn READING() -> Self
        returns
            NSStreamStatus(3),
    {
        NSStreamStatus(3)
    }

    #[verifier::allow_in_spec]
    pub fn WRITING() -> Self
        returns
            NSStreamStatus(4),
    {
        NSStreamStatus(4)
    }

    #[verifier::allow_in_spec]
    pub fn AT_END() -> Self
        returns
            NSStreamStatus(5),
    {
        NSStreamStatus(5)
    }

    #[verifier::allow_in_spec]
    pub fn CLOSED() -> Self
        returns
            NSStreamStatus(6),
    {
        NSStreamStatus(6)
    }

    #[verifier::allow_in_spec]
    pub fn ERROR() -> Self
        returns
            NSStreamStatus(7),
    {
        NSStreamStatus(7)
    }
}

/// Event of an `NSStream`; each event but `NONE` is one bit.
///
/// The value is the raw integer that CoreBluetooth uses; the associated
/// functions give the values that it defines.
#[derive(Default, Debug, Clone, Copy, PartialEq, Eq, PartialOrd, Ord, Hash, Structural)]
pub struct NSStreamEvent(pub NSInteger);

#[allow(non_snake_case)]
impl NSStreamEvent {
    #[verifier::allow_in_spec]
    pub fn NONE() -> Self
        returns
            NSStreamEvent(0),
    {
        NSStreamEvent(0)
    }

    #[verifier::allow_in_spec]
    pub fn OPEN_COMPLETED() -> Self
        returns
            NSStreamEvent(0b0_0001),
    {
        NSStreamEvent(0b0_0001)
    }

    #[verifier::allow_in_spec]
    pub fn HAS_BYTES_AVAILABLE() -> Self
        returns
            NSStreamEvent(0b0_0010),
    {
        NSStreamEvent(0b0_0010)
    }

    #[verifier::allow_in_spec]
    pub fn HAS_SPACE_AVAILABLE() -> Self
        returns
            NSStreamEvent(0b0_0100),
    {
        NSStreamEvent(0b0_0100)
    }

    #[verifier::allow_in_spec]
    pub fn ERROR_OCCURRED() -> Self
        returns
            NSStreamEvent(0b0_1000),
    {
        NSStreamEvent(0b0_1000)
    }

    #[verifier::allow_in_spec]
    pub fn END_ENCOUNTERED() -> Self
        returns
            NSStreamEvent(0b1_0000),
    {
        NSStreamEvent(0b1_0000)
    }
}

impl From<CBCharacteristicProperties> for CharacteristicProperties {
    /// The properties of a characteristic from its CoreBluetooth property bits.
    /// Only the low eight bits carry over; CoreBluetooth's bits 8 and 9 (the
    /// encryption requirements) are no characteristic properties.
    fn from(val: CBCharacteristicProperties) -> (props: Self) {
        CharacteristicProperties::from_bits((val.0 & 0xff) as u32)
    }
}

impl vstd::std_specs::convert::FromSpecImpl<CBCharacteristicProperties> for CharacteristicProperties {
    open spec fn obeys_from_spec() -> bool {
        true
    }

    open spec fn from_spec(val: CBCharacteristicProperties) -> Self {
        properties_of_bits((val.0 & 0xff) as u32)
    }
}

/// Law: converting CoreBluetooth property bits sets each of the eight
/// characteristic flags exactly when its CoreBluetooth bit (bit `i` for the
/// `i`-th flag, `bits / 2^i` odd) is set, and never sets the two flags of the
/// extended properties descriptor, whatever bits 8 and 9 hold.
pub proof fn lemma_properties_from_cb_bits(val: CBCharacteristicProperties)
    ensures
        ({
            let props = <CharacteristicProperties as vstd::std_specs::convert::FromSpec<
                CBCharacteristicProperties,
            >>::from_spec(val);
            &&& props.broadcast == (val.0 % 2 == 1)
            &&& props.read == ((val.0 / 2) % 2 == 1)
            &&& props.write_without_response == ((val.0 / 4) % 2 == 1)
            &&& props.write == ((val.0 / 8) % 2 == 1)
            &&& props.notify == ((val.0 / 16) % 2 == 1)
            &&& props.indicate == ((val.0 / 32) % 2 == 1)
            &&& props.authenticated_signed_writes == ((val.0 / 64) % 2 == 1)
            &&& props.extended_properties == ((val.0 / 128) % 2 == 1)
            &&& !props.reliable_write
            &&& !props.writable_auxiliaries
        }),
{
    let v = val.0;
    let w = (v & 0xff) as u32;
    assert({
        &&& (w & 0x001 != 0) == (v % 2 == 1)
        &&& (w & 0x002 != 0) == ((v / 2) % 2 == 1)
        &&& (w & 0x004 != 0) == ((v / 4) % 2 == 1)
        &&& (w & 0x008 != 0) == ((v / 8) % 2 == 1)
        &&& (w & 0x010 != 0) == ((v / 16) % 2 == 1)
        &&& (w & 0x020 != 0) == ((v / 32) % 2 == 1)
        &&& (w & 0x040 != 0) == ((v / 64) % 2 == 1)
        &&& (w & 0x080 != 0) == ((v / 128) % 2 == 1)
        &&& w & 0x100 == 0
        &&& w & 0x200 == 0
    }) by (bit_vector)
        requires
            w == (v & 0xff) as u32,
    ;
}

/// How a characteristic value is written: with or without a response from the peripheral.
#[non_exhaustive]
#[derive(Default, Debug, Clone, Copy, PartialEq, Eq, PartialOrd, Ord, Hash, Structural)]
pub enum CBCharacteristicWriteType {
    #[default]
    WithResponse,
    WithoutResponse,
}

impl CBCharacteristicWriteType {
    /// The raw value that CoreBluetooth expects for this write type.
    pub fn as_nsinteger(self) -> (raw: NSInteger)
        ensures
            raw == match self {
                CBCharacteristicWriteType::WithResponse => 0int,
                CBCharacteristicWriteType::WithoutResponse => 1int,
            },
    {
        match self {
            CBCharacteristicWriteType::WithResponse => 0,
            CBCharacteristicWriteType::WithoutResponse => 1,
        }
    }
}

/// Quality-of-service classes of a dispatch queue.
pub const QOS_CLASS_USER_INTERACTIVE: isize = 0x21;
pub const QOS_CLASS_USER_INITIATED: isize = 0x19;
pub const QOS_CLASS_DEFAULT: isize = 0x15;
pub const QOS_CLASS_UTILITY: isize = 0x11;
pub const QOS_CLASS_BACKGROUND: isize = 0x09;
pub const QOS_CLASS_UNSPECIFIED: isize = 0x00;

/// A reference to an Objective-C object, or `nil`.
pub enum Nullable<'a, T> {
    Nil,
    Object(&'a T),
}

/// The reference that an Objective-C message gets for an optional argument:
/// the object when there is one, else `nil`.
pub fn id_or_nil<'a, T>(val: Option<&'a T>) -> (id: Nullable<'a, T>)
    ensures
        match val {
            Some(x) => id == Nullable::Object(x),
            None => id is Nil,
        },
{
    match val {
        Some(x) => Nullable::Object(x),
        None => Nullable::Nil,
    }
}

/// A Bluetooth UUID as CoreBluetooth holds it: its 2-, 4- or 16-byte form
/// (the `data` of a `CBUUID`).
pub struct CBUUID {
    data: Vec<u8>,
}

impl View for CBUUID {
    type V = Seq<u8>;

    closed spec fn view(&self) -> Seq<u8> {
        self.data@
    }
}

impl CBUUID {
    #[verifier::type_invariant]
    spec fn has_bluetooth_uuid_len(self) -> bool {
        is_bluetooth_uuid_len(self.data@.len())
    }

    /// The `CBUUID` with the given data; `None` unless it has 2, 4 or 16 bytes.
    pub fn from_data(data: Vec<u8>) -> (uuid: Option<CBUUID>)
        ensures
            uuid is Some <==> is_bluetooth_uuid_len(data@.len()),
            uuid matches Some(u) ==> u@ == data@,
    {
        let len = data.len();
        if len == 2 || len == 4 || len == 16 {
            Some(CBUUID { data })
        } else {
            None
        }
    }

    /// The bytes of this UUID: 2, 4 or 16 of them.
    pub fn data(&self) -> (data: &[u8])
        ensures
            data@ == self@,
            is_bluetooth_uuid_len(data@.len()),
    {
        proof {
            use_type_invariant(self);
        }
        self.data.as_slice()
    }

    /// The `CBUUID` of a UUID: its shortest Bluetooth byte form.
    pub fn from_uuid(uuid: u128) -> (cb: CBUUID)
        ensures
            cb@ == bluetooth_bytes(uuid),
    {
        CBUUID { data: as_bluetooth_bytes(uuid) }
    }

    /// The UUID that this `CBUUID` stands for.
    pub fn to_uuid(&self) -> (uuid: u128)
        ensures
            uuid == uuid_of_bluetooth_bytes(self@),
    {
        proof {
            use_type_invariant(self);
        }
        from_bluetooth_bytes(self.data.as_slice())
    }
}

/// A UUID as Foundation holds it: its 16 big-endian bytes (the bytes of
/// `getUUIDBytes:`).
pub struct NSUUID {
    pub bytes: [u8; 16],
}

impl NSUUID {
    /// The `NSUUID` of a UUID.
    pub fn from_uuid(uuid: u128) -> (ns: NSUUID)
        ensures
            ns.bytes@ == be_bytes(uuid as nat, 16),
    {
        NSUUID { bytes: uuid_to_bytes(uuid) }
    }

    /// The UUID of this `NSUUID`.
    pub fn to_uuid(&self) -> (uuid: u128)
        ensures
            uuid == be_value(self.bytes@),
    {
        uuid_from_bytes(self.bytes)
    }
}

/// Law: the UUID of the `NSUUID` of a UUID is that UUID.
pub proof fn lemma_nsuuid_from_then_to(uuid: u128)
    ensures
        be_bytes(uuid as nat, 16).len() == 16,
        be_value(be_bytes(uuid as nat, 16)) == uuid,
{
    lemma_pow256_values();
    lemma_be_bytes_len(uuid as nat, 16);
    lemma_be_value_of_be_bytes(uuid as nat, 16);
}

/// Law: the `NSUUID` of the UUID of an `NSUUID` has the same bytes.
pub proof fn lemma_nsuuid_to_then_from(bytes: [u8; 16])
    ensures
        be_value(bytes@) <= u128::MAX,
        be_bytes(be_value(bytes@), 16) == bytes@,
{
    lemma_pow256_values();
    lemma_be_value_bound(bytes@);
    lemma_be_bytes_of_be_value(bytes@);
}

/// The entries of a CoreBluetooth advertisement dictionary that
/// `AdvertisementData` reads, each `None` when its key is absent.
pub struct AdvertisementDictionary {
    /// `kCBAdvDataIsConnectable`: whether its `boolValue` is `YES`.
    pub is_connectable: Option<bool>,
    /// `kCBAdvDataLocalName`.
    pub local_name: Option<String>,
    /// `kCBAdvDataManufacturerData`: the bytes of the data.
    pub manufacturer_data: Option<Vec<u8>>,
    /// `kCBAdvDataTxPowerLevel`: its `shortValue`.
    pub tx_power_level: Option<i16>,
    /// `kCBAdvDataServiceData`: its entries in enumeration order, each a
    /// service UUID and the bytes of its data.
    pub service_data: Option<Vec<(CBUUID, Vec<u8>)>>,
    /// `kCBAdvDataServiceUUIDs`.
    pub service_uuids: Option<Vec<CBUUID>>,
    /// `kCBAdvDataHashedServiceUUIDs`.
    pub hashed_service_uuids: Option<Vec<CBUUID>>,
}

/// The company identifier in the first two bytes of manufacturer data
/// (little-endian).
pub open spec fn company_id_of(bytes: Seq<u8>) -> int {
    bytes[0] + bytes[1] * 256
}

/// The UUIDs of a list of `CBUUID`s, in order; none when the list is absent.
pub open spec fn uuids_of(list: Option<Vec<CBUUID>>) -> Seq<u128> {
    match list {
        Some(v) => v@.map_values(|c: CBUUID| uuid_of_bluetooth_bytes(c@)),
        None => Seq::empty(),
    }
}

/// The service data entries as UUIDs and bytes, in order.
pub open spec fn service_data_entries(list: Option<Vec<(CBUUID, Vec<u8>)>>) -> Seq<(u128, Seq<u8>)> {
    match list {
        Some(v) => v@.map_values(|e: (CBUUID, Vec<u8>)| (uuid_of_bluetooth_bytes(e.0@), e.1@)),
        None => Seq::empty(),
    }
}

/// The map that entries give when they are inserted in order, a later entry
/// replacing an earlier one with the same key.
pub open spec fn map_of_entries(entries: Seq<(u128, Seq<u8>)>) -> Map<u128, Seq<u8>>
    decreases entries.len(),
{
    if entries.len() == 0 {
        Map::empty()
    } else {
        map_of_entries(entries.drop_last()).insert(entries.last().0, entries.last().1)
    }
}

/// The map of entries inserted in order holds exactly their keys, and a key
/// that no later entry repeats holds that entry's bytes.
proof fn lemma_map_of_entries_last_wins(entries: Seq<(u128, Seq<u8>)>)
    ensures
        forall|k: u128|
            #[trigger] map_of_entries(entries).dom().contains(k) <==> exists|i: int|
                0 <= i < entries.len() && entries[i].0 == k,
        forall|i: int|
            #![trigger entries[i]]
            0 <= i < entries.len() && (forall|j: int|
                i < j < entries.len() ==> #[trigger] entries[j].0 != entries[i].0)
                ==> map_of_entries(entries)[entries[i].0] == entries[i].1,
    decreases entries.len(),
{
    if entries.len() > 0 {
        let pre = entries.drop_last();
        let n = entries.len() - 1;
        lemma_map_of_entries_last_wins(pre);
        assert forall|k: u128|
            #[trigger] map_of_entries(entries).dom().contains(k) <==> exists|i: int|
                0 <= i < entries.len() && entries[i].0 == k by {
            assert(map_of_entries(entries) == map_of_entries(pre).insert(entries[n].0, entries[n].1));
            if map_of_entries(entries).dom().contains(k) {
                if k == entries[n].0 {
                    assert(0 <= n < entries.len() && entries[n].0 == k);
                } else {
                    assert(map_of_entries(pre).dom().contains(k));
                    let i = choose|i: int| 0 <= i < pre.len() && pre[i].0 == k;
                    assert(pre[i] == entries[i]);
                    assert(entries[i].0 == k);
                }
            }
            if exists|i: int| 0 <= i < entries.len() && entries[i].0 == k {
                let i = choose|i: int| 0 <= i < entries.len() && entries[i].0 == k;
                if i < n {
                    assert(pre[i] == entries[i]);
                    assert(pre[i].0 == k);
                    assert(map_of_entries(pre).dom().contains(k));
                }
            }
        }
        assert forall|i: int|
            #![trigger entries[i]]
            0 <= i < entries.len() && (forall|j: int|
                i < j < entries.len() ==> #[trigger] entries[j].0 != entries[i].0)
                implies map_of_entries(entries)[entries[i].0] == entries[i].1 by {
            if i < n {
                assert(entries[n].0 != entries[i].0);
                assert forall|j: int| i < j < pre.len() implies #[trigger] pre[j].0 != pre[i].0 by {
                    assert(entries[j].0 != entries[i].0);
                }
                assert(pre[i] == entries[i]);
            }
        }
    }
}

/// Law: the service data map holds exactly the UUIDs of the dictionary's
/// service data entries, and the UUID of an entry that no later entry
/// repeats holds that entry's bytes, unchanged.
pub proof fn lemma_service_data_entries(list: Vec<(CBUUID, Vec<u8>)>, m: Map<u128, Vec<u8>>)
    requires
        same_byte_map(m, map_of_entries(service_data_entries(Some(list)))),
    ensures
        forall|k: u128|
            #[trigger] m.dom().contains(k) <==> exists|i: int|
                0 <= i < list@.len() && uuid_of_bluetooth_bytes(list@[i].0@) == k,
        forall|i: int|
            #![trigger list@[i]]
            0 <= i < list@.len() && (forall|j: int|
                i < j < list@.len() ==> uuid_of_bluetooth_bytes(#[trigger] list@[j].0@)
                    != uuid_of_bluetooth_bytes(list@[i].0@)) ==> m.dom().contains(
                uuid_of_bluetooth_bytes(list@[i].0@),
            ) && m[uuid_of_bluetooth_bytes(list@[i].0@)]@ == list@[i].1@,
{
    let entries = service_data_entries(Some(list));
    lemma_map_of_entries_last_wins(entries);
    assert forall|k: u128|
        #[trigger] m.dom().contains(k) <==> exists|i: int|
            0 <= i < list@.len() && uuid_of_bluetooth_bytes(list@[i].0@) == k by {
        if m.dom().contains(k) {
            let i = choose|i: int| 0 <= i < entries.len() && entries[i].0 == k;
            assert(uuid_of_bluetooth_bytes(list@[i].0@) == k);
        }
        if exists|i: int| 0 <= i < list@.len() && uuid_of_bluetooth_bytes(list@[i].0@) == k {
            let i = choose|i: int| 0 <= i < list@.len() && uuid_of_bluetooth_bytes(list@[i].0@) == k;
            assert(entries[i].0 == k);
        }
    }
    assert forall|i: int|
        #![trigger list@[i]]
        0 <= i < list@.len() && (forall|j: int|
            i < j < list@.len() ==> uuid_of_bluetooth_bytes(#[trigger] list@[j].0@)
                != uuid_of_bluetooth_bytes(list@[i].0@)) implies m.dom().contains(
        uuid_of_bluetooth_bytes(list@[i].0@),
    ) && m[uuid_of_bluetooth_bytes(list@[i].0@)]@ == list@[i].1@ by {
        assert(entries[i] == (uuid_of_bluetooth_bytes(list@[i].0@), list@[i].1@));
        assert forall|j: int| i < j < entries.len() implies #[trigger] entries[j].0 != entries[i].0 by {
            assert(entries[j].0 == uuid_of_bluetooth_bytes(list@[j].0@));
        }
        assert(map_of_entries(entries).dom().contains(entries[i].0));
    }
}

/// `m` holds the keys of `n`, each with the bytes that `n` gives it.
pub open spec fn same_byte_map(m: Map<u128, Vec<u8>>, n: Map<u128, Seq<u8>>) -> bool {
    &&& m.dom() == n.dom()
    &&& forall|k: u128| #[trigger] n.dom().contains(k) ==> m[k]@ == n[k]
}

/// Manufacturer data from its bytes: the company identifier, then the data;
/// `None` when there are fewer than two bytes.
fn manufacturer_data_from_bytes(val: &[u8]) -> (md: Option<ManufacturerData>)
    ensures
        md is Some <==> val@.len() >= 2,
        md matches Some(m) ==> m.company_id == company_id_of(val@) && m.data@ == val@.skip(2),
{
    if val.len() >= 2 {
        let company_id: u16 = val[0] as u16 + val[1] as u16 * 256;
        let mut data: Vec<u8> = Vec::new();
        let mut i: usize = 2;
        while i < val.len()
            invariant
                2 <= i <= val@.len(),
                data@ == val@.subrange(2, i as int),
            decreases val@.len() - i,
        {
            data.push(val[i]);
            i = i + 1;
            assert(data@ =~= val@.subrange(2, i as int));
        }
        assert(data@ =~= val@.skip(2));
        Some(ManufacturerData { company_id, data })
    } else {
        None
    }
}

/// Appends the UUIDs of `list`, in order, to `out`.
fn push_uuids(list: &Option<Vec<CBUUID>>, out: &mut Vec<u128>)
    ensures
        final(out)@ == old(out)@ + uuids_of(*list),
{
    match list {
        Some(v) => {
            let ghost start = out@;
            let mut i: usize = 0;
            while i < v.len()
                invariant
                    i <= v@.len(),
                    out@ == start + v@.take(i as int).map_values(
                        |c: CBUUID| uuid_of_bluetooth_bytes(c@),
                    ),
                decreases v@.len() - i,
            {
                let u = v[i].to_uuid();
                out.push(u);
                i = i + 1;
                assert(v@.take(i as int).drop_last() =~= v@.take(i - 1));
                assert(out@ =~= start + v@.take(i as int).map_values(
                    |c: CBUUID| uuid_of_bluetooth_bytes(c@),
                ));
            }
            assert(v@.take(v@.len() as int) =~= v@);
        },
        None => {
            assert(out@ + Seq::<u128>::empty() =~= out@);
        },
    }
}

/// The service data map: each entry's UUID with a copy of its bytes.
fn service_data_map(list: &Option<Vec<(CBUUID, Vec<u8>)>>) -> (res: HashMap<u128, Vec<u8>>)
    ensures
        same_byte_map(res@, map_of_entries(service_data_entries(*list))),
{
    broadcast use vstd::std_specs::hash::group_hash_axioms;

    match list {
        Some(v) => {
            let mut res: HashMap<u128, Vec<u8>> = HashMap::with_capacity(v.len());
            let ghost entries = service_data_entries(*list);
            let mut i: usize = 0;
            while i < v.len()
                invariant
                    i <= v@.len(),
                    entries == v@.map_values(
                        |e: (CBUUID, Vec<u8>)| (uuid_of_bluetooth_bytes(e.0@), e.1@),
                    ),
                    same_byte_map(res@, map_of_entries(entries.take(i as int))),
                decreases v@.len() - i,
            {
                let key = v[i].0.to_uuid();
                let bytes = v[i].1.clone();
                assert(bytes@ =~= v@[i as int].1@);
                res.insert(key, bytes);
                i = i + 1;
                assert(entries.take(i as int).drop_last() =~= entries.take(i - 1));
            }
            assert(entries.take(v@.len() as int) =~= entries);
            res
        },
        None => {
            let res: HashMap<u128, Vec<u8>> = HashMap::new();
            assert(res@.dom() =~= Map::<u128, Seq<u8>>::empty().dom());
            res
        },
    }
}

impl AdvertisementData {
    /// The advertisement data in the entries of an advertisement dictionary.
    /// An absent connectable flag reads as not connectable; manufacturer data
    /// shorter than its two-byte company identifier is dropped; the services
    /// are the service UUIDs followed by the hashed service UUIDs.
    pub fn from_nsdictionary(adv_data: AdvertisementDictionary) -> (adv: AdvertisementData)
        ensures
            adv.is_connectable == match adv_data.is_connectable {
                Some(b) => b,
                None => false,
            },
            adv.local_name == adv_data.local_name,
            adv.tx_power_level == adv_data.tx_power_level,
            match adv_data.manufacturer_data {
                Some(bytes) => if bytes@.len() >= 2 {
                    &&& adv.manufacturer_data matches Some(m)
                    &&& m.company_id == company_id_of(bytes@)
                    &&& m.data@ == bytes@.skip(2)
                } else {
                    adv.manufacturer_data is None
                },
                None => adv.manufacturer_data is None,
            },
            adv.services@ == uuids_of(adv_data.service_uuids) + uuids_of(
                adv_data.hashed_service_uuids,
            ),
            same_byte_map(adv.service_data@, map_of_entries(service_data_entries(adv_data.service_data))),
            adv_data.service_data is None ==> adv.service_data@.dom().is_empty(),
            adv_data.service_data matches Some(list) ==> {
                &&& forall|k: u128|
                    #[trigger] adv.service_data@.dom().contains(k) <==> exists|i: int|
                        0 <= i < list@.len() && uuid_of_bluetooth_bytes(list@[i].0@) == k
                &&& forall|i: int|
                    #![trigger list@[i]]
                    0 <= i < list@.len() && (forall|j: int|
                        i < j < list@.len() ==> uuid_of_bluetooth_bytes(#[trigger] list@[j].0@)
                            != uuid_of_bluetooth_bytes(list@[i].0@)) ==> adv.service_data@.dom().contains(
                        uuid_of_bluetooth_bytes(list@[i].0@),
                    ) && adv.service_data@[uuid_of_bluetooth_bytes(list@[i].0@)]@ == list@[i].1@
            },
    {
        let is_connectable = match adv_data.is_connectable {
            Some(b) => b,
            None => false,
        };
        let manufacturer_data = match &adv_data.manufacturer_data {
            Some(bytes) => manufacturer_data_from_bytes(bytes.as_slice()),
            None => None,
        };
        let service_data = service_data_map(&adv_data.service_data);
        proof {
            match adv_data.service_data {
                Some(list) => lemma_service_data_entries(list, service_data@),
                None => {
                    assert(service_data@.dom() =~= Set::<u128>::empty());
                },
            }
        }
        let mut services: Vec<u128> = Vec::new();
        push_uuids(&adv_data.service_uuids, &mut services);
        push_uuids(&adv_data.hashed_service_uuids, &mut services);
        assert(services@ =~= uuids_of(adv_data.service_uuids) + uuids_of(
            adv_data.hashed_service_uuids,
        ));
        AdvertisementData {
            local_name: adv_data.local_name,
            manufacturer_data,
            services,
            service_data,
            tx_power_level: adv_data.tx_power_level,
            is_connectable,
        }
    }
}

} // verus!
