use bluest::btuuid::{as_bluetooth_bytes, from_bluetooth_bytes, is_u16_uuid, is_u32_uuid, BLUETOOTH_BASE_UUID};
use bluest::corebluetooth::types::{
    id_or_nil, AdvertisementDictionary, CBATTError, CBCentralManagerFeatures, CBCharacteristicProperties,
    CBCharacteristicWriteType, CBError, CBManagerAuthorization, CBManagerState, CBPeripheralState, Nullable,
    NSStreamEvent, NSStreamStatus, CBUUID, NSUUID, QOS_CLASS_DEFAULT, QOS_CLASS_USER_INTERACTIVE,
};
use bluest::{AdvertisementData, CharacteristicProperties};

const HEART_RATE: u128 = 0x0000180d_0000_1000_8000_00805f9b34fb;
const U32_SERVICE: u128 = 0x12345678_0000_1000_8000_00805f9b34fb;
const FULL: u128 = 0xa1a2a3a4_b1b2_c1c2_d1d2_d3d4d5d6d7d8;

fn cbuuid(bytes: &[u8]) -> CBUUID {
    CBUUID::from_data(bytes.to_vec()).unwrap()
}

#[test]
fn manager_state_values() {
    assert_eq!(CBManagerState::UNKNOWN().0, 0);
    assert_eq!(CBManagerState::RESETTING().0, 1);
    assert_eq!(CBManagerState::UNSUPPORTED().0, 2);
    assert_eq!(CBManagerState::UNAUTHORIZED().0, 3);
    assert_eq!(CBManagerState::POWERED_OFF().0, 4);
    assert_eq!(CBManagerState::POWERED_ON().0, 5);
    assert_eq!(CBManagerState::default(), CBManagerState::UNKNOWN());
    assert!(CBManagerState::POWERED_OFF() < CBManagerState::POWERED_ON());
}

#[test]
fn other_state_values() {
    assert_eq!(CBManagerAuthorization::ALLOWED_ALWAYS().0, 3);
    assert_eq!(CBManagerAuthorization::default(), CBManagerAuthorization::NOT_DETERMINED());
    assert_eq!(CBCentralManagerFeatures::EXTENDED_SCAN_AND_CONNECT().0, 1);
    assert_eq!(CBPeripheralState::CONNECTED().0, 2);
    assert_eq!(CBPeripheralState::DISCONNECTING().0, 3);
    assert_eq!(NSStreamStatus::ERROR().0, 7);
    assert_eq!(NSStreamStatus::AT_END().0, 5);
    assert_eq!(QOS_CLASS_USER_INTERACTIVE, 0x21);
    assert_eq!(QOS_CLASS_DEFAULT, 0x15);
}

#[test]
fn error_code_values() {
    assert_eq!(CBError::UNKNOWN().0, 0);
    assert_eq!(CBError::PEER_REMOVED_PAIRING_INFORMATION().0, 14);
    assert_eq!(CBError::TOO_MANY_LE_PAIRED_DEVICES().0, 16);
    assert_eq!(CBATTError::SUCCESS().0, 0);
    assert_eq!(CBATTError::INSUFFICIENT_RESOURCES().0, 17);
    assert_eq!(CBATTError::UNLIKELY_ERROR().0, 14);
}

#[test]
fn stream_events_are_bits() {
    assert_eq!(NSStreamEvent::NONE().0, 0);
    assert_eq!(NSStreamEvent::OPEN_COMPLETED().0, 1);
    assert_eq!(NSStreamEvent::HAS_BYTES_AVAILABLE().0, 2);
    assert_eq!(NSStreamEvent::HAS_SPACE_AVAILABLE().0, 4);
    assert_eq!(NSStreamEvent::ERROR_OCCURRED().0, 8);
    assert_eq!(NSStreamEvent::END_ENCOUNTERED().0, 16);
}

#[test]
fn property_constants_are_distinct_bits() {
    let all = [
        CBCharacteristicProperties::BROADCAST(),
        CBCharacteristicProperties::READ(),
        CBCharacteristicProperties::WRITE_WITHOUT_RESPONSE(),
        CBCharacteristicProperties::WRITE(),
        CBCharacteristicProperties::NOTIFY(),
        CBCharacteristicProperties::INDICATE(),
        CBCharacteristicProperties::AUTHENTICATED_SIGNED_WRITES(),
        CBCharacteristicProperties::EXTENDED_PROPERTIES(),
        CBCharacteristicProperties::NOTIFY_ENCRYPTION_REQUIRED(),
        CBCharacteristicProperties::INDICATE_ENCRYPTION_REQUIRED(),
    ];
    for (i, p) in all.iter().enumerate() {
        assert_eq!(p.0, 1usize << i);
    }
}

#[test]
fn write_type_raw_values() {
    assert_eq!(CBCharacteristicWriteType::WithResponse.as_nsinteger(), 0);
    assert_eq!(CBCharacteristicWriteType::WithoutResponse.as_nsinteger(), 1);
    assert_eq!(CBCharacteristicWriteType::default(), CBCharacteristicWriteType::WithResponse);
}

#[test]
fn id_or_nil_gives_object_or_nil() {
    let x = 7u32;
    match id_or_nil(Some(&x)) {
        Nullable::Object(r) => assert!(std::ptr::eq(r, &x)),
        Nullable::Nil => panic!("expected an object"),
    }
    assert!(matches!(id_or_nil::<u32>(None), Nullable::Nil));
}

#[test]
fn properties_from_bits() {
    let p = CharacteristicProperties::from_bits(0b10_0001_0010);
    assert!(p.read && p.notify && p.writable_auxiliaries);
    assert!(!p.broadcast && !p.write && !p.indicate && !p.reliable_write);
    assert_eq!(CharacteristicProperties::from_bits(0), CharacteristicProperties::default());
    let all = CharacteristicProperties::from_bits(0xffff_ffff);
    assert!(all.broadcast && all.extended_properties && all.reliable_write && all.writable_auxiliaries);
}

#[test]
fn properties_from_cb_properties() {
    let p = CharacteristicProperties::from(CBCharacteristicProperties::READ());
    assert_eq!(p, CharacteristicProperties { read: true, ..Default::default() });
    let p = CharacteristicProperties::from(CBCharacteristicProperties::EXTENDED_PROPERTIES());
    assert_eq!(p, CharacteristicProperties { extended_properties: true, ..Default::default() });
    let bits = CBCharacteristicProperties::WRITE().0 | CBCharacteristicProperties::INDICATE().0;
    let p = CharacteristicProperties::from(CBCharacteristicProperties(bits));
    assert_eq!(p, CharacteristicProperties { write: true, indicate: true, ..Default::default() });
}

#[test]
fn encryption_requirements_are_not_properties() {
    let bits = CBCharacteristicProperties::NOTIFY_ENCRYPTION_REQUIRED().0
        | CBCharacteristicProperties::INDICATE_ENCRYPTION_REQUIRED().0;
    let p = CharacteristicProperties::from(CBCharacteristicProperties(bits));
    assert_eq!(p, CharacteristicProperties::default());
}

#[test]
fn bluetooth_uuid_classes() {
    assert!(is_u16_uuid(HEART_RATE) && is_u32_uuid(HEART_RATE));
    assert!(!is_u16_uuid(U32_SERVICE) && is_u32_uuid(U32_SERVICE));
    assert!(!is_u16_uuid(FULL) && !is_u32_uuid(FULL));
    assert!(is_u16_uuid(BLUETOOTH_BASE_UUID));
}

#[test]
fn bluetooth_bytes_shortest_form() {
    assert_eq!(as_bluetooth_bytes(HEART_RATE), vec![0x18, 0x0d]);
    assert_eq!(as_bluetooth_bytes(U32_SERVICE), vec![0x12, 0x34, 0x56, 0x78]);
    assert_eq!(
        as_bluetooth_bytes(FULL),
        vec![0xa1, 0xa2, 0xa3, 0xa4, 0xb1, 0xb2, 0xc1, 0xc2, 0xd1, 0xd2, 0xd3, 0xd4, 0xd5, 0xd6, 0xd7, 0xd8]
    );
}

#[test]
fn bluetooth_bytes_values() {
    assert_eq!(from_bluetooth_bytes(&[0x18, 0x0d]), HEART_RATE);
    assert_eq!(from_bluetooth_bytes(&[0x00, 0x00, 0x18, 0x0d]), HEART_RATE);
    assert_eq!(from_bluetooth_bytes(&[0x12, 0x34, 0x56, 0x78]), U32_SERVICE);
    let full = FULL.to_be_bytes();
    assert_eq!(from_bluetooth_bytes(&full), FULL);
    assert_eq!(from_bluetooth_bytes(&HEART_RATE.to_be_bytes()), HEART_RATE);
}

#[test]
fn cbuuid_round_trips() {
    for u in [HEART_RATE, U32_SERVICE, FULL, BLUETOOTH_BASE_UUID, 0, u128::MAX] {
        assert_eq!(CBUUID::from_uuid(u).to_uuid(), u);
    }
    for bytes in [&[0x2a, 0x37][..], &[0x12, 0x34, 0x56, 0x78][..], &FULL.to_be_bytes()[..]] {
        let c = cbuuid(bytes);
        assert_eq!(CBUUID::from_uuid(c.to_uuid()).data(), bytes);
    }
}

#[test]
fn cbuuid_long_form_shortens() {
    let c = cbuuid(&HEART_RATE.to_be_bytes());
    assert_eq!(CBUUID::from_uuid(c.to_uuid()).data(), &[0x18, 0x0d]);
    let c = cbuuid(&[0x00, 0x00, 0x18, 0x0d]);
    assert_eq!(CBUUID::from_uuid(c.to_uuid()).data(), &[0x18, 0x0d]);
}

#[test]
fn cbuuid_rejects_other_lengths() {
    for len in [0usize, 1, 3, 5, 8, 15, 17] {
        assert!(CBUUID::from_data(vec![0u8; len]).is_none());
    }
    assert!(CBUUID::from_data(vec![0u8; 2]).is_some());
}

#[test]
fn nsuuid_bytes_are_big_endian() {
    let n = NSUUID::from_uuid(FULL);
    assert_eq!(n.bytes, [0xa1, 0xa2, 0xa3, 0xa4, 0xb1, 0xb2, 0xc1, 0xc2, 0xd1, 0xd2, 0xd3, 0xd4, 0xd5, 0xd6, 0xd7, 0xd8]);
    assert_eq!(n.bytes, *uuid::Uuid::from_u128(FULL).as_bytes());
    let m = NSUUID { bytes: [1, 2, 3, 4, 5, 6, 7, 8, 9, 10, 11, 12, 13, 14, 15, 16] };
    assert_eq!(m.to_uuid(), 0x0102030405060708090a0b0c0d0e0f10);
    assert_eq!(m.to_uuid(), uuid::Uuid::from_bytes(m.bytes).as_u128());
}

#[test]
fn nsuuid_round_trips() {
    for u in [HEART_RATE, FULL, 0, u128::MAX] {
        assert_eq!(NSUUID::from_uuid(u).to_uuid(), u);
    }
    let m = NSUUID { bytes: [9; 16] };
    assert_eq!(NSUUID::from_uuid(m.to_uuid()).bytes, m.bytes);
}

fn empty_dictionary() -> AdvertisementDictionary {
    AdvertisementDictionary {
        is_connectable: None,
        local_name: None,
        manufacturer_data: None,
        tx_power_level: None,
        service_data: None,
        service_uuids: None,
        hashed_service_uuids: None,
    }
}

#[test]
fn advertisement_of_empty_dictionary() {
    let adv = AdvertisementData::from_nsdictionary(empty_dictionary());
    assert!(!adv.is_connectable);
    assert!(adv.local_name.is_none());
    assert!(adv.manufacturer_data.is_none());
    assert!(adv.services.is_empty());
    assert!(adv.service_data.is_empty());
    assert!(adv.tx_power_level.is_none());
}

#[test]
fn advertisement_fields_carry_over() {
    let mut d = empty_dictionary();
    d.is_connectable = Some(true);
    d.local_name = Some("Sensor".to_string());
    d.tx_power_level = Some(-12);
    let adv = AdvertisementData::from_nsdictionary(d);
    assert!(adv.is_connectable);
    assert_eq!(adv.local_name.as_deref(), Some("Sensor"));
    assert_eq!(adv.tx_power_level, Some(-12));

    let mut d = empty_dictionary();
    d.is_connectable = Some(false);
    assert!(!AdvertisementData::from_nsdictionary(d).is_connectable);
}

#[test]
fn advertisement_manufacturer_data() {
    let mut d = empty_dictionary();
    d.manufacturer_data = Some(vec![0x4c, 0x00, 0x02, 0x15, 0xff]);
    let md = AdvertisementData::from_nsdictionary(d).manufacturer_data.unwrap();
    assert_eq!(md.company_id, 0x004c);
    assert_eq!(md.data, vec![0x02, 0x15, 0xff]);

    let mut d = empty_dictionary();
    d.manufacturer_data = Some(vec![0x34, 0x12]);
    let md = AdvertisementData::from_nsdictionary(d).manufacturer_data.unwrap();
    assert_eq!(md.company_id, 0x1234);
    assert!(md.data.is_empty());

    let mut d = empty_dictionary();
    d.manufacturer_data = Some(vec![0x4c]);
    assert!(AdvertisementData::from_nsdictionary(d).manufacturer_data.is_none());
}

#[test]
fn advertisement_services_in_order() {
    let mut d = empty_dictionary();
    d.service_uuids = Some(vec![cbuuid(&[0x18, 0x0d]), cbuuid(&FULL.to_be_bytes())]);
    d.hashed_service_uuids = Some(vec![cbuuid(&[0x12, 0x34, 0x56, 0x78])]);
    let adv = AdvertisementData::from_nsdictionary(d);
    assert_eq!(adv.services, vec![HEART_RATE, FULL, U32_SERVICE]);

    let mut d = empty_dictionary();
    d.hashed_service_uuids = Some(vec![cbuuid(&[0x18, 0x0d])]);
    assert_eq!(AdvertisementData::from_nsdictionary(d).services, vec![HEART_RATE]);
}

#[test]
fn advertisement_service_data() {
    let mut d = empty_dictionary();
    d.service_data = Some(vec![
        (cbuuid(&[0x18, 0x0d]), vec![1, 2]),
        (cbuuid(&[0x12, 0x34, 0x56, 0x78]), vec![]),
        (cbuuid(&HEART_RATE.to_be_bytes()), vec![3]),
    ]);
    let adv = AdvertisementData::from_nsdictionary(d);
    assert_eq!(adv.service_data.len(), 2);
    assert_eq!(adv.service_data.get(&HEART_RATE), Some(&vec![3]));
    assert_eq!(adv.service_data.get(&U32_SERVICE), Some(&vec![]));
    assert!(adv.services.is_empty());
}
