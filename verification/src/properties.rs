//! Properties of a GATT characteristic.
use vstd::prelude::*;

verus! {

/// Whether any bit of `mask` is set in `bits`.
pub open spec fn has_bits(bits: u32, mask: u32) -> bool {
    bits & mask != 0
}

/// The properties of a characteristic, one flag for each property bit of
/// the Bluetooth characteristic declaration (bits 0 to 7) and of its extended
/// properties descriptor (bits 8 and 9).
#[derive(Debug, Default, Clone, Copy, PartialEq, Eq, Hash, Structural)]
pub struct CharacteristicProperties {
    pub broadcast: bool,
    pub read: bool,
    pub write_without_response: bool,
    pub write: bool,
    pub notify: bool,
    pub indicate: bool,
    pub authenticated_signed_writes: bool,
    pub extended_properties: bool,
    pub reliable_write: bool,
    pub writable_auxiliaries: bool,
}

/// The properties whose bits are set in `bits`: bit `i` gives the `i`-th flag.
pub open spec fn properties_of_bits(bits: u32) -> CharacteristicProperties {
    CharacteristicProperties {
        broadcast: has_bits(bits, 0x001),
        read: has_bits(bits, 0x002),
        write_without_response: has_bits(bits, 0x004),
        write: has_bits(bits, 0x008),
        notify: has_bits(bits, 0x010),
        indicate: has_bits(bits, 0x020),
        authenticated_signed_writes: has_bits(bits, 0x040),
        extended_properties: has_bits(bits, 0x080),
        reliable_write: has_bits(bits, 0x100),
        writable_auxiliaries: has_bits(bits, 0x200),
    }
}

impl CharacteristicProperties {
    /// The properties whose bits are set in `bits`; bits above the tenth are ignored.
    pub fn from_bits(bits: u32) -> (props: CharacteristicProperties)
        ensures
            props == properties_of_bits(bits),
    {
        CharacteristicProperties {
            broadcast: bits & 0x001 != 0,
            read: bits & 0x002 != 0,
            write_without_response: bits & 0x004 != 0,
            write: bits & 0x008 != 0,
            notify: bits & 0x010 != 0,
            indicate: bits & 0x020 != 0,
            authenticated_signed_writes: bits & 0x040 != 0,
            extended_properties: bits & 0x080 != 0,
            reliable_write: bits & 0x100 != 0,
            writable_auxiliaries: bits & 0x200 != 0,
        }
    }
}

/// Law: flag `i` of the properties of `bits` is set exactly when bit `i` of
/// `bits` is one, that is when `bits / 2^i` is odd, for each of the ten flags
/// and every `bits`.
pub proof fn lemma_properties_flag_bits(bits: u32)
    ensures
        properties_of_bits(bits).broadcast == (bits % 2 == 1),
        properties_of_bits(bits).read == ((bits / 2) % 2 == 1),
        properties_of_bits(bits).write_without_response == ((bits / 4) % 2 == 1),
        properties_of_bits(bits).write == ((bits / 8) % 2 == 1),
        properties_of_bits(bits).notify == ((bits / 16) % 2 == 1),
        properties_of_bits(bits).indicate == ((bits / 32) % 2 == 1),
        properties_of_bits(bits).authenticated_signed_writes == ((bits / 64) % 2 == 1),
        properties_of_bits(bits).extended_properties == ((bits / 128) % 2 == 1),
        properties_of_bits(bits).reliable_write == ((bits / 256) % 2 == 1),
        properties_of_bits(bits).writable_auxiliaries == ((bits / 512) % 2 == 1),
{
    assert({
        &&& (bits & 0x001 != 0) == (bits % 2 == 1)
        &&& (bits & 0x002 != 0) == ((bits / 2) % 2 == 1)
        &&& (bits & 0x004 != 0) == ((bits / 4) % 2 == 1)
        &&& (bits & 0x008 != 0) == ((bits / 8) % 2 == 1)
        &&& (bits & 0x010 != 0) == ((bits / 16) % 2 == 1)
        &&& (bits & 0x020 != 0) == ((bits / 32) % 2 == 1)
        &&& (bits & 0x040 != 0) == ((bits / 64) % 2 == 1)
        &&& (bits & 0x080 != 0) == ((bits / 128) % 2 == 1)
        &&& (bits & 0x100 != 0) == ((bits / 256) % 2 == 1)
        &&& (bits & 0x200 != 0) == ((bits / 512) % 2 == 1)
    }) by (bit_vector);
}

} // verus!
