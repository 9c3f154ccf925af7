//! Deterministic derivation of a license record's storage address.
//!
//! The address is a pure function of the owning program's namespace
//! (`program_id`), the seed tuple `["license", user, app_id little-endian]`,
//! and a one-byte salt (`bump`). The search tries salts counting down from
//! 255 and keeps the first that yields a valid (off-curve) address, as the
//! underlying derivation routine does.

use vstd::prelude::*;
use crate::record::u32_le;

verus! {

broadcast use vstd::array::group_array_axioms;

/// The fixed namespace tag that starts every license seed tuple: the
/// ASCII bytes of "license".
pub open spec fn license_tag() -> Seq<u8> {
    seq![108u8, 105u8, 99u8, 101u8, 110u8, 115u8, 101u8]
}

/// The seed tuple for a license record: the fixed tag, the user's account
/// identity, and the application id in little-endian bytes.
pub open spec fn license_seeds(user: Seq<u8>, app_id: u32) -> Seq<Seq<u8>> {
    seq![license_tag(), user, u32_le(app_id)]
}

/// What the bounded salt search returns for a seed tuple and a program
/// namespace: `None` when no salt yields a valid address, otherwise the
/// derived address and the salt that produced it. A pure function of its
/// arguments; no shorter statement exists, so the result only carries a name.
pub uninterp spec fn pda_derivation(seeds: Seq<Seq<u8>>, program_id: Seq<u8>) -> Option<(Seq<u8>, u8)>;

/// What single-salt address derivation returns for a full seed tuple (salt
/// included) and a program namespace: `None` when the seeds are rejected or
/// the derived point is on the curve, otherwise the derived address. A pure
/// function of its arguments.
pub uninterp spec fn pda_address(seeds: Seq<Seq<u8>>, program_id: Seq<u8>) -> Option<Seq<u8>>;

/// Relies on `Pubkey::try_find_program_address` (solana-pubkey, re-exported
/// by anchor-lang): a deterministic, bounded search over the one-byte salt
/// domain, counting down from 255. On success the returned pair is the one
/// that `Pubkey::create_program_address` confirms when the salt is appended
/// to the seed tuple as one extra single-byte seed.
#[verifier::external_body]
pub(crate) fn pda_try_find(seeds: &Vec<Vec<u8>>, program_id: &[u8; 32]) -> (r: Option<([u8; 32], u8)>)
    ensures
        match r {
            Some(p) => {
                &&& pda_derivation(seeds.deep_view(), program_id@) == Some((p.0@, p.1))
                &&& pda_address(seeds.deep_view().push(seq![p.1]), program_id@) == Some(p.0@)
            },
            None => pda_derivation(seeds.deep_view(), program_id@) is None,
        },
{
    let pid = anchor_lang::prelude::Pubkey::new_from_array(*program_id);
    let seed_slices: Vec<&[u8]> = seeds.iter().map(|s| s.as_slice()).collect();
    anchor_lang::prelude::Pubkey::try_find_program_address(&seed_slices, &pid)
        .map(|(addr, bump)| (addr.to_bytes(), bump))
}

/// Relies on `Pubkey::create_program_address` (solana-pubkey, re-exported
/// by anchor-lang): deterministic single-salt derivation, used to re-check
/// a claimed address without re-running the salt search.
#[verifier::external_body]
pub(crate) fn pda_create(seeds: &Vec<Vec<u8>>, program_id: &[u8; 32]) -> (r: Option<[u8; 32]>)
    ensures
        match r {
            Some(a) => pda_address(seeds.deep_view(), program_id@) == Some(a@),
            None => pda_address(seeds.deep_view(), program_id@) is None,
        },
{
    let pid = anchor_lang::prelude::Pubkey::new_from_array(*program_id);
    let seed_slices: Vec<&[u8]> = seeds.iter().map(|s| s.as_slice()).collect();
    anchor_lang::prelude::Pubkey::create_program_address(&seed_slices, &pid)
        .ok()
        .map(|a| a.to_bytes())
}

/// The application id as its four little-endian bytes.
pub fn u32_to_le_vec(x: u32) -> (r: Vec<u8>)
    ensures
        r@ == u32_le(x),
{
    let mut v: Vec<u8> = Vec::new();
    v.push((x & 0xff) as u8);
    v.push(((x >> 8) & 0xff) as u8);
    v.push(((x >> 16) & 0xff) as u8);
    v.push(((x >> 24) & 0xff) as u8);
    assert(v@ =~= u32_le(x));
    v
}

/// Build the seed tuple `["license", user, app_id little-endian]`.
pub fn build_license_seeds(user: &[u8; 32], app_id: u32) -> (r: Vec<Vec<u8>>)
    ensures
        r.deep_view() == license_seeds(user@, app_id),
{
    let mut tag: Vec<u8> = Vec::new();
    tag.push(108);
    tag.push(105);
    tag.push(99);
    tag.push(101);
    tag.push(110);
    tag.push(115);
    tag.push(101);
    assert(tag@ =~= license_tag());
    let mut user_bytes: Vec<u8> = Vec::new();
    let mut i: usize = 0;
    while i < 32
        invariant
            0 <= i <= 32,
            user_bytes@ == user@.subrange(0, i as int),
        decreases 32 - i,
    {
        user_bytes.push(user[i]);
        assert(user_bytes@ =~= user@.subrange(0, i + 1));
        i += 1;
    }
    assert(user@.subrange(0, 32) =~= user@);
    let app_bytes = u32_to_le_vec(app_id);
    let mut r: Vec<Vec<u8>> = Vec::new();
    r.push(tag);
    r.push(user_bytes);
    r.push(app_bytes);
    assert(r.deep_view() =~~= license_seeds(user@, app_id));
    r
}

/// Derive the storage address and salt for a `(user, app_id)` pair.
///
/// Determinism law: the result equals `pda_derivation` of the seed tuple
/// and namespace, a pure function of `(program_id, user, app_id)`, so
/// repeated calls with the same inputs return the same `(address, bump)`.
/// On success the address is independently re-derivable from the seed
/// tuple plus the returned salt alone.
pub fn derive_license_address(program_id: &[u8; 32], user: &[u8; 32], app_id: u32) -> (r: Option<
    ([u8; 32], u8),
>)
    ensures
        match r {
            Some(p) => {
                &&& pda_derivation(license_seeds(user@, app_id), program_id@) == Some((p.0@, p.1))
                &&& pda_address(license_seeds(user@, app_id).push(seq![p.1]), program_id@)
                    == Some(p.0@)
            },
            None => pda_derivation(license_seeds(user@, app_id), program_id@) is None,
        },
{
    let seeds = build_license_seeds(user, app_id);
    pda_try_find(&seeds, program_id)
}

/// Byte-wise equality of two account identities or addresses.
pub fn bytes32_eq(a: &[u8; 32], b: &[u8; 32]) -> (r: bool)
    ensures
        r <==> a@ == b@,
{
    let mut i: usize = 0;
    while i < 32
        invariant
            0 <= i <= 32,
            forall|k: int| 0 <= k < i ==> a@[k] == b@[k],
        decreases 32 - i,
    {
        if a[i] != b[i] {
            return false;
        }
        i += 1;
    }
    assert(a@ =~= b@);
    true
}

/// Re-check a claimed license address: confirm that the seed tuple for
/// `(user, app_id)`, extended with the stored salt, derives `expected`.
/// This is the re-derivation any external verifier runs against a record's
/// stored `owner`, `app_id`, and `bump`.
pub fn verify_license_address(
    program_id: &[u8; 32],
    user: &[u8; 32],
    app_id: u32,
    bump: u8,
    expected: &[u8; 32],
) -> (r: bool)
    ensures
        r <==> pda_address(license_seeds(user@, app_id).push(seq![bump]), program_id@)
            == Some(expected@),
{
    let mut seeds = build_license_seeds(user, app_id);
    let mut bump_seed: Vec<u8> = Vec::new();
    bump_seed.push(bump);
    assert(bump_seed@ =~= seq![bump]);
    seeds.push(bump_seed);
    assert(seeds.deep_view() =~~= license_seeds(user@, app_id).push(seq![bump]));
    match pda_create(&seeds, program_id) {
        Some(derived) => bytes32_eq(&derived, expected),
        None => false,
    }
}

/// Determinism law: address derivation is a pure function of the seed
/// tuple and the namespace, so two derivations over the same inputs agree.
pub proof fn lemma_derivation_deterministic(
    seeds: Seq<Seq<u8>>,
    program_id: Seq<u8>,
    r1: Option<(Seq<u8>, u8)>,
    r2: Option<(Seq<u8>, u8)>,
)
    requires
        r1 == pda_derivation(seeds, program_id),
        r2 == pda_derivation(seeds, program_id),
    ensures
        r1 == r2,
{
}

/// Distinct users never share a seed tuple, whatever the application ids:
/// the user identity occupies its own seed slot.
pub proof fn lemma_seed_tuples_distinct(u1: Seq<u8>, u2: Seq<u8>, a1: u32, a2: u32)
    requires
        u1 != u2,
    ensures
        license_seeds(u1, a1) != license_seeds(u2, a2),
{
    assert(license_seeds(u1, a1)[1] == u1);
    assert(license_seeds(u2, a2)[1] == u2);
}

} // verus!
