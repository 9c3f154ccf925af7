//! The license record and its fixed on-ledger byte layout.

use vstd::prelude::*;

verus! {

broadcast use vstd::array::group_array_axioms;

/// Byte length of a serialized record payload:
/// 4 (app_id) + 32 (owner) + 16 (machine_code_hash) + 1 (bump).
pub const RECORD_LEN: usize = 53;

/// Bytes a record occupies on the ledger: an 8-byte record-type
/// discriminator owned by the runtime, then the payload.
pub const RECORD_SPACE: usize = 61;

/// A license record: binds one application id and one machine-fingerprint
/// hash to one owner account, together with the derivation salt (`bump`)
/// that produced the record's storage address.
///
/// A record is written exactly once and never mutated afterwards.
#[derive(Clone, Copy, PartialEq, Eq, Debug)]
pub struct License {
    pub app_id: u32,
    pub owner: [u8; 32],
    pub machine_code_hash: [u8; 16],
    pub bump: u8,
}

/// Little-endian byte encoding of a 32-bit application id.
pub open spec fn u32_le(x: u32) -> Seq<u8> {
    seq![
        (x & 0xff) as u8,
        ((x >> 8) & 0xff) as u8,
        ((x >> 16) & 0xff) as u8,
        ((x >> 24) & 0xff) as u8,
    ]
}

/// The 32-bit value read back from four little-endian bytes.
pub open spec fn u32_from_le(b: Seq<u8>) -> u32
    recommends
        b.len() == 4,
{
    (b[0] as u32) | ((b[1] as u32) << 8) | ((b[2] as u32) << 16) | ((b[3] as u32) << 24)
}

/// The fixed record layout: app_id (bytes 0..4, little endian), owner
/// (bytes 4..36), machine_code_hash (bytes 36..52), bump (byte 52).
pub open spec fn record_bytes(l: License) -> Seq<u8> {
    u32_le(l.app_id) + l.owner@ + l.machine_code_hash@ + seq![l.bump]
}

/// Decoding four little-endian bytes undoes the encoding.
pub proof fn lemma_u32_le_from(x: u32)
    ensures
        u32_from_le(u32_le(x)) == x,
{
    assert(((x & 0xff) as u8 as u32) | ((((x >> 8) & 0xff) as u8 as u32) << 8)
        | ((((x >> 16) & 0xff) as u8 as u32) << 16) | ((((x >> 24) & 0xff) as u8 as u32) << 24)
        == x) by (bit_vector);
}

/// Encoding the value read from four bytes gives back those bytes.
pub proof fn lemma_u32_from_le(b0: u8, b1: u8, b2: u8, b3: u8)
    ensures
        u32_le(u32_from_le(seq![b0, b1, b2, b3])) == seq![b0, b1, b2, b3],
{
    let x = u32_from_le(seq![b0, b1, b2, b3]);
    assert(x == (b0 as u32) | ((b1 as u32) << 8) | ((b2 as u32) << 16) | ((b3 as u32) << 24));
    assert(({
        let y = (b0 as u32) | ((b1 as u32) << 8) | ((b2 as u32) << 16) | ((b3 as u32) << 24);
        (y & 0xff) as u8 == b0 && ((y >> 8) & 0xff) as u8 == b1
            && ((y >> 16) & 0xff) as u8 == b2 && ((y >> 24) & 0xff) as u8 == b3
    })) by (bit_vector);
    assert(u32_le(x) =~= seq![b0, b1, b2, b3]);
}

/// Byte-width law: a record serializes to exactly `RECORD_LEN` bytes, with
/// the app id in bytes 0..4 (4 bytes), the owner in bytes 4..36 (32 bytes),
/// the machine-fingerprint hash in bytes 36..52 (16 bytes), and the bump in
/// byte 52 (1 byte).
pub proof fn lemma_record_layout(l: License)
    ensures
        record_bytes(l).len() == RECORD_LEN,
        record_bytes(l).subrange(0, 4) == u32_le(l.app_id),
        record_bytes(l).subrange(4, 36) == l.owner@,
        record_bytes(l).subrange(36, 52) == l.machine_code_hash@,
        record_bytes(l)[52] == l.bump,
{
    assert(record_bytes(l).subrange(0, 4) =~= u32_le(l.app_id));
    assert(record_bytes(l).subrange(4, 36) =~= l.owner@);
    assert(record_bytes(l).subrange(36, 52) =~= l.machine_code_hash@);
}

/// Round-trip law, reading side: the fixed layout loses nothing, so two
/// records with the same serialized bytes agree on every field. Together
/// with the contracts of [`License::serialize`] and [`deserialize`] this
/// says that a serialized record reads back with identical fields.
pub proof fn lemma_record_bytes_injective(l1: License, l2: License)
    requires
        record_bytes(l1) == record_bytes(l2),
    ensures
        l1 == l2,
{
    lemma_record_layout(l1);
    lemma_record_layout(l2);
    assert(u32_le(l1.app_id) == u32_le(l2.app_id));
    lemma_u32_le_from(l1.app_id);
    lemma_u32_le_from(l2.app_id);
    assert(l1.owner@ == l2.owner@);
    assert(l1.owner =~= l2.owner);
    assert(l1.machine_code_hash@ == l2.machine_code_hash@);
    assert(l1.machine_code_hash =~= l2.machine_code_hash);
    assert(record_bytes(l1)[52] == record_bytes(l2)[52]);
}

impl License {
    /// Serialize this record to the fixed 53-byte payload layout.
    pub fn serialize(&self) -> (r: Vec<u8>)
        ensures
            r@ == record_bytes(*self),
            r@.len() == RECORD_LEN,
    {
        let mut v: Vec<u8> = Vec::new();
        v.push((self.app_id & 0xff) as u8);
        v.push(((self.app_id >> 8) & 0xff) as u8);
        v.push(((self.app_id >> 16) & 0xff) as u8);
        v.push(((self.app_id >> 24) & 0xff) as u8);
        assert(v@ =~= u32_le(self.app_id));
        let mut i: usize = 0;
        while i < 32
            invariant
                0 <= i <= 32,
                v@ == u32_le(self.app_id) + self.owner@.subrange(0, i as int),
            decreases 32 - i,
        {
            v.push(self.owner[i]);
            assert(v@ =~= u32_le(self.app_id) + self.owner@.subrange(0, i + 1));
            i += 1;
        }
        assert(self.owner@.subrange(0, 32) =~= self.owner@);
        let mut j: usize = 0;
        while j < 16
            invariant
                0 <= j <= 16,
                v@ == u32_le(self.app_id) + self.owner@ + self.machine_code_hash@.subrange(0, j as int),
            decreases 16 - j,
        {
            v.push(self.machine_code_hash[j]);
            assert(v@ =~= u32_le(self.app_id) + self.owner@
                + self.machine_code_hash@.subrange(0, j + 1));
            j += 1;
        }
        assert(self.machine_code_hash@.subrange(0, 16) =~= self.machine_code_hash@);
        v.push(self.bump);
        assert(v@ =~= record_bytes(*self));
        v
    }
}

/// Parse a payload back into a record.
///
/// Succeeds exactly when the payload has the fixed length `RECORD_LEN`; the
/// parsed record re-serializes to the very bytes that were read.
pub fn deserialize(data: &Vec<u8>) -> (r: Option<License>)
    ensures
        r is Some <==> data@.len() == RECORD_LEN,
        r matches Some(l) ==> record_bytes(l) == data@,
{
    if data.len() != RECORD_LEN {
        return None;
    }
    let app_id: u32 = (data[0] as u32) | ((data[1] as u32) << 8) | ((data[2] as u32) << 16)
        | ((data[3] as u32) << 24);
    let mut owner = [0u8; 32];
    let mut i: usize = 0;
    while i < 32
        invariant
            0 <= i <= 32,
            data@.len() == RECORD_LEN,
            owner@.subrange(0, i as int) == data@.subrange(4, 4 + i as int),
        decreases 32 - i,
    {
        owner[i] = data[4 + i];
        assert(owner@.subrange(0, i + 1) =~= data@.subrange(4, 4 + (i + 1)));
        i += 1;
    }
    let mut machine_code_hash = [0u8; 16];
    let mut j: usize = 0;
    while j < 16
        invariant
            0 <= j <= 16,
            data@.len() == RECORD_LEN,
            machine_code_hash@.subrange(0, j as int) == data@.subrange(36, 36 + j as int),
        decreases 16 - j,
    {
        machine_code_hash[j] = data[36 + j];
        assert(machine_code_hash@.subrange(0, j + 1) =~= data@.subrange(36, 36 + (j + 1)));
        j += 1;
    }
    let bump: u8 = data[52];
    let l = License { app_id, owner, machine_code_hash, bump };
    proof {
        lemma_u32_from_le(data@[0], data@[1], data@[2], data@[3]);
        assert(seq![data@[0], data@[1], data@[2], data@[3]] =~= data@.subrange(0, 4));
        assert(u32_le(l.app_id) == u32_le(u32_from_le(seq![data@[0], data@[1], data@[2], data@[3]])));
        assert(l.owner@ =~= data@.subrange(4, 36));
        assert(l.machine_code_hash@ =~= data@.subrange(36, 52));
        assert(record_bytes(l) =~= data@);
    }
    Some(l)
}

} // verus!
