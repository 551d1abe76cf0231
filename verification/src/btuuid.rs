//! Bluetooth UUIDs: the 128-bit value of a UUID and its short byte forms.
//!
//! A UUID is held as its 128-bit value (`u128`), the value that
//! `uuid::Uuid::as_u128` gives. Bluetooth abbreviates UUIDs of the form
//! `xxxxxxxx-0000-1000-8000-00805f9b34fb` (the Bluetooth base UUID with a
//! 32-bit number in its top bits) to 4 bytes, and to 2 bytes when that number
//! fits in 16 bits; every other UUID is sent as its 16 big-endian bytes.
use vstd::prelude::*;
use vstd::arithmetic::div_mod::{
    lemma_div_denominator, lemma_fundamental_div_mod_converse, lemma_mod_breakdown,
};

verus! {

/// The Bluetooth base UUID `00000000-0000-1000-8000-00805f9b34fb`.
pub const BLUETOOTH_BASE_UUID: u128 = 0x0000_0000_0000_1000_8000_0080_5f9b_34fb;

/// `2^96`: a short Bluetooth UUID stands in the top 32 bits.
pub const SHORT_UUID_SCALE: u128 = 0x1_0000_0000_0000_0000_0000_0000;

/// `2^112`: a 16-bit Bluetooth UUID has no bits at or above this weight.
pub const U16_UUID_LIMIT: u128 = 0x1_0000_0000_0000_0000_0000_0000_0000;

/// `256^n`.
pub open spec fn pow256(n: nat) -> nat
    decreases n,
{
    if n == 0 {
        1
    } else {
        256 * pow256((n - 1) as nat)
    }
}

/// The `n` low-order bytes of `v`, most significant first.
pub open spec fn be_bytes(v: nat, n: nat) -> Seq<u8>
    decreases n,
{
    if n == 0 {
        Seq::empty()
    } else {
        be_bytes(v / 256, (n - 1) as nat).push((v % 256) as u8)
    }
}

/// The number whose big-endian bytes are `s`.
pub open spec fn be_value(s: Seq<u8>) -> nat
    decreases s.len(),
{
    if s.len() == 0 {
        0
    } else {
        (be_value(s.drop_last()) * 256 + s.last()) as nat
    }
}

/// A UUID in the Bluetooth base range: it has a 32-bit short form.
pub open spec fn spec_is_u32_uuid(uuid: u128) -> bool {
    uuid % SHORT_UUID_SCALE == BLUETOOTH_BASE_UUID
}

/// A UUID in the Bluetooth base range whose number fits in 16 bits.
pub open spec fn spec_is_u16_uuid(uuid: u128) -> bool {
    spec_is_u32_uuid(uuid) && uuid / U16_UUID_LIMIT == 0
}

/// The lengths of a Bluetooth UUID in bytes: 2, 4 or 16.
pub open spec fn is_bluetooth_uuid_len(len: nat) -> bool {
    len == 2 || len == 4 || len == 16
}

/// The shortest Bluetooth byte form of `uuid`.
pub open spec fn bluetooth_bytes(uuid: u128) -> Seq<u8> {
    if spec_is_u16_uuid(uuid) {
        be_bytes((uuid / SHORT_UUID_SCALE) as nat, 2)
    } else if spec_is_u32_uuid(uuid) {
        be_bytes((uuid / SHORT_UUID_SCALE) as nat, 4)
    } else {
        be_bytes(uuid as nat, 16)
    }
}

/// The UUID that Bluetooth bytes of length 2, 4 or 16 stand for: a short
/// number placed in the base UUID, or the 16 bytes themselves.
pub open spec fn uuid_of_bluetooth_bytes(bytes: Seq<u8>) -> u128
    recommends
        is_bluetooth_uuid_len(bytes.len()),
{
    if bytes.len() == 16 {
        be_value(bytes) as u128
    } else {
        (BLUETOOTH_BASE_UUID + be_value(bytes) * SHORT_UUID_SCALE) as u128
    }
}

pub proof fn lemma_pow256_values()
    ensures
        pow256(2) == 0x1_0000,
        pow256(4) == 0x1_0000_0000,
        pow256(12) == SHORT_UUID_SCALE,
        pow256(14) == U16_UUID_LIMIT,
        pow256(16) == 0x1_0000_0000_0000_0000_0000_0000_0000_0000,
{
    reveal_with_fuel(pow256, 17);
}

proof fn lemma_pow256_pos(n: nat)
    ensures
        pow256(n) > 0,
    decreases n,
{
    if n > 0 {
        lemma_pow256_pos((n - 1) as nat);
    }
}

/// `be_bytes(v, n)` has `n` bytes.
pub proof fn lemma_be_bytes_len(v: nat, n: nat)
    ensures
        be_bytes(v, n).len() == n,
    decreases n,
{
    if n > 0 {
        lemma_be_bytes_len(v / 256, (n - 1) as nat);
    }
}

/// Reading back the `n` low-order bytes of `v` gives `v` modulo `256^n`.
pub proof fn lemma_be_value_of_be_bytes(v: nat, n: nat)
    ensures
        be_value(be_bytes(v, n)) == v % pow256(n),
    decreases n,
{
    if n > 0 {
        let p = pow256((n - 1) as nat);
        let s = be_bytes(v, n);
        lemma_be_bytes_len(v / 256, (n - 1) as nat);
        assert(s.drop_last() =~= be_bytes(v / 256, (n - 1) as nat));
        lemma_be_value_of_be_bytes(v / 256, (n - 1) as nat);
        lemma_pow256_pos((n - 1) as nat);
        lemma_mod_breakdown(v as int, 256, p as int);
    }
}

/// A number below `256^len` is determined by its `len` bytes.
pub proof fn lemma_be_value_bound(s: Seq<u8>)
    ensures
        be_value(s) < pow256(s.len()),
    decreases s.len(),
{
    if s.len() > 0 {
        lemma_be_value_bound(s.drop_last());
        let w = be_value(s.drop_last());
        let p = pow256((s.len() - 1) as nat);
        let l = s.last() as int;
        assert(w * 256 + l < 256 * p) by (nonlinear_arith)
            requires
                w < p,
                0 <= l < 256,
        ;
    }
}

/// The bytes of the value of `s`, as many as `s` has, are `s`.
pub proof fn lemma_be_bytes_of_be_value(s: Seq<u8>)
    ensures
        be_bytes(be_value(s), s.len()) =~= s,
    decreases s.len(),
{
    if s.len() > 0 {
        let w = be_value(s.drop_last()) as int;
        let l = s.last() as int;
        assert((w * 256 + l) / 256 == w && (w * 256 + l) % 256 == l) by (nonlinear_arith)
            requires
                0 <= l < 256,
                0 <= w,
        ;
        lemma_be_bytes_of_be_value(s.drop_last());
        assert(s =~= s.drop_last().push(s.last()));
    }
}

/// The `n + m` low-order bytes of `v` are its next `n` bytes above the low
/// `m`, followed by the low `m`.
pub proof fn lemma_be_bytes_split(v: nat, n: nat, m: nat)
    ensures
        be_bytes(v, n + m) =~= be_bytes(v / pow256(m), n) + be_bytes(v, m),
    decreases m,
{
    if m == 0 {
        assert(be_bytes(v, 0) =~= Seq::<u8>::empty());
        assert(pow256(0) == 1);
        assert(v / 1 == v);
        assert(be_bytes(v, n) + Seq::<u8>::empty() =~= be_bytes(v, n));
    } else {
        let m1 = (m - 1) as nat;
        lemma_be_bytes_split(v / 256, n, m1);
        lemma_pow256_pos(m1);
        lemma_div_denominator(v as int, 256, pow256(m1) as int);
        assert(be_bytes(v, n + m) == be_bytes(v / 256, n + m1).push((v % 256) as u8));
        assert(be_bytes(v, m) == be_bytes(v / 256, m1).push((v % 256) as u8));
        let a = be_bytes(v / pow256(m), n);
        let b = be_bytes(v / 256, m1);
        assert((a + b).push((v % 256) as u8) =~= a + b.push((v % 256) as u8));
    }
}

/// Bluetooth bytes in their shortest form: 2 bytes; 4 bytes whose number
/// does not fit in 16 bits; or 16 bytes outside the Bluetooth base range.
pub open spec fn is_shortest_bluetooth_bytes(bytes: Seq<u8>) -> bool {
    ||| bytes.len() == 2
    ||| bytes.len() == 4 && be_value(bytes) >= 0x1_0000
    ||| bytes.len() == 16 && !spec_is_u32_uuid(be_value(bytes) as u128)
}

/// Law: the Bluetooth byte form of a UUID is in shortest form and reads back
/// as the same UUID.
pub proof fn lemma_bluetooth_bytes_round_trip(uuid: u128)
    ensures
        is_bluetooth_uuid_len(bluetooth_bytes(uuid).len()),
        is_shortest_bluetooth_bytes(bluetooth_bytes(uuid)),
        uuid_of_bluetooth_bytes(bluetooth_bytes(uuid)) == uuid,
{
    lemma_pow256_values();
    let hi = (uuid / SHORT_UUID_SCALE) as nat;
    assert(uuid == hi * SHORT_UUID_SCALE + uuid % SHORT_UUID_SCALE);
    if spec_is_u16_uuid(uuid) {
        lemma_be_bytes_len(hi, 2);
        lemma_be_value_of_be_bytes(hi, 2);
        assert(hi < 0x1_0000);
    } else if spec_is_u32_uuid(uuid) {
        lemma_be_bytes_len(hi, 4);
        lemma_be_value_of_be_bytes(hi, 4);
        assert(hi < 0x1_0000_0000);
        lemma_div_denominator(uuid as int, SHORT_UUID_SCALE as int, 0x1_0000);
        assert(hi >= 0x1_0000);
    } else {
        lemma_be_bytes_len(uuid as nat, 16);
        lemma_be_value_of_be_bytes(uuid as nat, 16);
    }
}

/// Law: Bluetooth bytes in their shortest form are the shortest form of the
/// UUID that they stand for.
pub proof fn lemma_shortest_bluetooth_bytes_round_trip(bytes: Seq<u8>)
    requires
        is_shortest_bluetooth_bytes(bytes),
    ensures
        bluetooth_bytes(uuid_of_bluetooth_bytes(bytes)) == bytes,
{
    lemma_pow256_values();
    lemma_be_value_bound(bytes);
    lemma_be_bytes_of_be_value(bytes);
    let v = be_value(bytes) as int;
    if bytes.len() != 16 {
        let u = BLUETOOTH_BASE_UUID + v * SHORT_UUID_SCALE;
        assert(u < U16_UUID_LIMIT * 0x1_0000);
        lemma_fundamental_div_mod_converse(u, SHORT_UUID_SCALE as int, v, BLUETOOTH_BASE_UUID as int);
        let uu = uuid_of_bluetooth_bytes(bytes);
        assert(uu == u);
        assert(uu % SHORT_UUID_SCALE == BLUETOOTH_BASE_UUID);
        assert(uu / SHORT_UUID_SCALE == v);
        lemma_div_denominator(u, SHORT_UUID_SCALE as int, 0x1_0000);
        if bytes.len() == 2 {
            assert(uu / U16_UUID_LIMIT == 0);
        } else {
            assert(uu / U16_UUID_LIMIT != 0);
        }
    }
}

/// The 16 big-endian bytes of a UUID value, by `uuid::Uuid::from_u128`
/// followed by `uuid::Uuid::into_bytes`. uuid stores a UUID as its big-endian
/// bytes (`from_u128` is `from_bytes(v.to_be_bytes())` and `into_bytes` hands
/// the stored bytes back), which is what the contract states.
#[verifier::external_body]
pub(crate) fn uuid_to_bytes(uuid: u128) -> (bytes: [u8; 16])
    ensures
        bytes@ == be_bytes(uuid as nat, 16),
{
    uuid::Uuid::from_u128(uuid).into_bytes()
}

/// The UUID value of 16 big-endian bytes, by `uuid::Uuid::from_bytes`
/// followed by `uuid::Uuid::as_u128`. `from_bytes` stores the bytes as given
/// and `as_u128` is `u128::from_be_bytes` of them, which is what the contract
/// states.
#[verifier::external_body]
pub(crate) fn uuid_from_bytes(bytes: [u8; 16]) -> (uuid: u128)
    ensures
        uuid == be_value(bytes@),
{
    uuid::Uuid::from_bytes(bytes).as_u128()
}

/// Whether `uuid` has a 32-bit Bluetooth short form.
pub fn is_u32_uuid(uuid: u128) -> (r: bool)
    ensures
        r == spec_is_u32_uuid(uuid),
        r == (uuid % SHORT_UUID_SCALE == BLUETOOTH_BASE_UUID),
{
    uuid % SHORT_UUID_SCALE == BLUETOOTH_BASE_UUID
}

/// Whether `uuid` has a 16-bit Bluetooth short form.
pub fn is_u16_uuid(uuid: u128) -> (r: bool)
    ensures
        r == spec_is_u16_uuid(uuid),
        r == (uuid % SHORT_UUID_SCALE == BLUETOOTH_BASE_UUID && uuid < U16_UUID_LIMIT),
{
    is_u32_uuid(uuid) && uuid / U16_UUID_LIMIT == 0
}

/// The shortest Bluetooth byte form of `uuid`: 2 bytes for a 16-bit UUID, 4
/// for a 32-bit one, else its 16 big-endian bytes.
pub fn as_bluetooth_bytes(uuid: u128) -> (bytes: Vec<u8>)
    ensures
        bytes@ == bluetooth_bytes(uuid),
        is_bluetooth_uuid_len(bytes@.len()),
{
    let b = uuid_to_bytes(uuid);
    proof {
        lemma_pow256_values();
        lemma_bluetooth_bytes_round_trip(uuid);
        let hi = (uuid / SHORT_UUID_SCALE) as nat;
        lemma_be_bytes_split(uuid as nat, 4, 12);
        lemma_be_bytes_split(hi, 2, 2);
        lemma_be_bytes_len(hi, 4);
        lemma_be_bytes_len(hi / 0x1_0000, 2);
        lemma_be_bytes_len(hi, 2);
        lemma_be_bytes_len(uuid as nat, 12);
    }
    if is_u16_uuid(uuid) {
        let v = vec![b[2], b[3]];
        assert(v@ =~= bluetooth_bytes(uuid));
        v
    } else if is_u32_uuid(uuid) {
        let v = vec![b[0], b[1], b[2], b[3]];
        assert(v@ =~= bluetooth_bytes(uuid));
        v
    } else {
        let v = vec![
            b[0], b[1], b[2], b[3], b[4], b[5], b[6], b[7],
            b[8], b[9], b[10], b[11], b[12], b[13], b[14], b[15],
        ];
        assert(v@ =~= b@);
        v
    }
}

/// The UUID that Bluetooth bytes stand for. Bytes of any other length than
/// 2, 4 or 16 are no Bluetooth UUID.
pub fn from_bluetooth_bytes(bytes: &[u8]) -> (uuid: u128)
    requires
        is_bluetooth_uuid_len(bytes@.len()),
    ensures
        uuid == uuid_of_bluetooth_bytes(bytes@),
        bytes@.len() == 2 ==> uuid == BLUETOOTH_BASE_UUID + (bytes@[0] * 0x100 + bytes@[1])
            * SHORT_UUID_SCALE,
        bytes@.len() == 4 ==> uuid == BLUETOOTH_BASE_UUID + (((bytes@[0] * 0x100 + bytes@[1]) * 0x100
            + bytes@[2]) * 0x100 + bytes@[3]) * SHORT_UUID_SCALE,
{
    let s = Ghost(bytes@);
    if bytes.len() == 2 {
        let v: u128 = bytes[0] as u128 * 256 + bytes[1] as u128;
        proof {
            reveal_with_fuel(be_value, 3);
            assert(s@.drop_last().drop_last() =~= Seq::<u8>::empty());
        }
        BLUETOOTH_BASE_UUID + v * SHORT_UUID_SCALE
    } else if bytes.len() == 4 {
        let v: u128 = ((bytes[0] as u128 * 256 + bytes[1] as u128) * 256 + bytes[2] as u128) * 256
            + bytes[3] as u128;
        proof {
            reveal_with_fuel(be_value, 5);
            assert(s@.drop_last().drop_last().drop_last().drop_last() =~= Seq::<u8>::empty());
        }
        BLUETOOTH_BASE_UUID + v * SHORT_UUID_SCALE
    } else {
        let a: [u8; 16] = [
            bytes[0], bytes[1], bytes[2], bytes[3], bytes[4], bytes[5], bytes[6], bytes[7],
            bytes[8], bytes[9], bytes[10], bytes[11], bytes[12], bytes[13], bytes[14], bytes[15],
        ];
        assert(a@ =~= bytes@);
        uuid_from_bytes(a)
    }
}

/// Law: the big-endian value of no bytes is 0, and one more byte at the end
/// multiplies the value by 256 and adds that byte.
pub proof fn lemma_be_value_digits(s: Seq<u8>, b: u8)
    ensures
        be_value(Seq::<u8>::empty()) == 0,
        be_value(s.push(b)) == be_value(s) * 256 + b,
{
    assert(s.push(b).drop_last() =~= s);
}

/// Law: `n + 1` big-endian bytes of `v` are the `n` bytes of `v / 256`
/// followed by `v % 256`, and no bytes are empty.
pub proof fn lemma_be_bytes_digits(v: nat, n: nat)
    ensures
        be_bytes(v, 0) == Seq::<u8>::empty(),
        be_bytes(v, n + 1) == be_bytes(v / 256, n).push((v % 256) as u8),
{
}

/// Law: a UUID is in the Bluetooth base range exactly when its low 96 bits
/// are those of the base UUID `00000000-0000-1000-8000-00805f9b34fb`, and it
/// has a 16-bit short form exactly when, besides, it is below `2^112`.
pub proof fn lemma_short_uuid_classes(uuid: u128)
    ensures
        spec_is_u32_uuid(uuid) <==> uuid % 0x1_0000_0000_0000_0000_0000_0000
            == 0x0000_0000_0000_1000_8000_0080_5f9b_34fb,
        spec_is_u16_uuid(uuid) <==> (uuid % 0x1_0000_0000_0000_0000_0000_0000
            == 0x0000_0000_0000_1000_8000_0080_5f9b_34fb
            && uuid < 0x1_0000_0000_0000_0000_0000_0000_0000),
{
}

/// Law: the Bluetooth bytes of a UUID. With `n` the number in its top 32 bits
/// (`uuid / 2^96`): a base-range UUID below `2^112` gives the two bytes of
/// `n`, high byte first; another base-range UUID gives the four bytes of `n`,
/// high byte first; any other UUID gives 16 bytes whose big-endian value is
/// the UUID.
pub proof fn lemma_bluetooth_bytes_of_uuid(uuid: u128)
    ensures
        ({
            let n = uuid as int / 0x1_0000_0000_0000_0000_0000_0000;
            let base_range = uuid % 0x1_0000_0000_0000_0000_0000_0000
                == 0x0000_0000_0000_1000_8000_0080_5f9b_34fb;
            &&& base_range && uuid < 0x1_0000_0000_0000_0000_0000_0000_0000 ==> bluetooth_bytes(uuid)
                == seq![((n / 0x100) % 0x100) as u8, (n % 0x100) as u8]
            &&& base_range && uuid >= 0x1_0000_0000_0000_0000_0000_0000_0000 ==> bluetooth_bytes(uuid)
                == seq![
                ((n / 0x100_0000) % 0x100) as u8,
                ((n / 0x1_0000) % 0x100) as u8,
                ((n / 0x100) % 0x100) as u8,
                (n % 0x100) as u8,
            ]
            &&& !base_range ==> bluetooth_bytes(uuid).len() == 16 && be_value(bluetooth_bytes(uuid))
                == uuid
        }),
{
    lemma_pow256_values();
    let n = (uuid / SHORT_UUID_SCALE) as nat;
    reveal_with_fuel(be_bytes, 5);
    lemma_div_denominator(n as int, 256, 256);
    lemma_div_denominator(n as int, 0x1_0000, 256);
    assert(be_bytes(n, 2) =~= seq![((n / 0x100) % 0x100) as u8, (n % 0x100) as u8]);
    assert(be_bytes(n, 4) =~= seq![
        ((n / 0x100_0000) % 0x100) as u8,
        ((n / 0x1_0000) % 0x100) as u8,
        ((n / 0x100) % 0x100) as u8,
        (n % 0x100) as u8,
    ]);
    lemma_be_bytes_len(uuid as nat, 16);
    lemma_be_value_of_be_bytes(uuid as nat, 16);
}

/// Law: the UUID of Bluetooth bytes. Two bytes `[a, b]` and four bytes
/// `[a, b, c, d]` are the number that they spell, high byte first, placed in
/// the top 32 bits of the base UUID `00000000-0000-1000-8000-00805f9b34fb`;
/// sixteen bytes are the UUID whose big-endian value they are.
pub proof fn lemma_uuid_of_bluetooth_bytes_value(a: u8, b: u8, c: u8, d: u8, bytes: Seq<u8>)
    ensures
        uuid_of_bluetooth_bytes(seq![a, b]) == 0x0000_0000_0000_1000_8000_0080_5f9b_34fb + (a * 0x100
            + b) * 0x1_0000_0000_0000_0000_0000_0000,
        uuid_of_bluetooth_bytes(seq![a, b, c, d]) == 0x0000_0000_0000_1000_8000_0080_5f9b_34fb + (((a
            * 0x100 + b) * 0x100 + c) * 0x100 + d) * 0x1_0000_0000_0000_0000_0000_0000,
        bytes.len() == 16 ==> uuid_of_bluetooth_bytes(bytes) == be_value(bytes),
{
    reveal_with_fuel(be_value, 5);
    assert(seq![a, b].drop_last() =~= seq![a]);
    assert(seq![a].drop_last() =~= Seq::<u8>::empty());
    assert(seq![a, b, c, d].drop_last() =~= seq![a, b, c]);
    assert(seq![a, b, c].drop_last() =~= seq![a, b]);
    if bytes.len() == 16 {
        lemma_pow256_values();
        lemma_be_value_bound(bytes);
    }
}

} // verus!
