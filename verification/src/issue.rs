//! The ledger model and the one-time license creation step.
//!
//! The ledger is modelled as the set of occupied storage addresses with the
//! record bytes held at each; the consensus runtime's allocate-exactly-once
//! rule appears here as the well-formedness invariant (no address occupied
//! twice) together with the occupancy check that creation performs before
//! writing.

use vstd::prelude::*;
use crate::derivation::{
    build_license_seeds, bytes32_eq, license_seeds, pda_address, pda_derivation, pda_try_find,
};
use crate::record::{record_bytes, License};

verus! {

broadcast use vstd::array::group_array_axioms;

/// One occupied storage address and the record payload held there.
pub struct LedgerEntry {
    pub address: [u8; 32],
    pub data: Vec<u8>,
}

/// The ledger state this core reads and extends: every occupied storage
/// address with its record payload. Append-only in scope; a failed creation
/// leaves it untouched.
pub struct Ledger {
    pub entries: Vec<LedgerEntry>,
}

/// Why a creation attempt failed.
#[derive(Clone, Copy, PartialEq, Eq, Debug, Structural)]
pub enum LicenseError {
    /// The derived address already holds a record: a second issuance for
    /// the same `(owner, app_id)` pair.
    DuplicateLicense,
    /// The developer account cannot cover the storage cost.
    InsufficientFunds,
    /// No salt in the one-byte domain yields a valid address.
    DerivationExhausted,
}

/// The accounts a creation call runs against: the owning program's
/// namespace, the developer that approves and funds the call, and the user
/// the license is bound to.
pub struct CreateLicense {
    /// The program namespace every derivation is relative to.
    pub program_id: [u8; 32],
    /// The account that approved the call and pays for storage.
    pub developer: [u8; 32],
    /// What the developer can spend on storage.
    pub developer_lamports: u64,
    /// The account the license is bound to. Not a signer: the developer,
    /// not the user, authorizes the binding.
    pub user: [u8; 32],
}

impl Ledger {
    /// No storage address is occupied twice.
    pub open spec fn wf(self) -> bool {
        forall|i: int, j: int|
            0 <= i < j < self.entries@.len() ==> self.entries@[i].address@
                != self.entries@[j].address@
    }

    /// Whether `addr` already holds a record.
    pub open spec fn occupied(self, addr: Seq<u8>) -> bool {
        exists|i: int| 0 <= i < self.entries@.len() && self.entries@[i].address@ == addr
    }

    /// The record payload at an occupied address.
    pub open spec fn record_at(self, addr: Seq<u8>) -> Seq<u8>
        recommends
            self.occupied(addr),
    {
        self.entries@[choose|i: int|
            0 <= i < self.entries@.len() && self.entries@[i].address@ == addr].data@
    }

    /// An empty ledger: nothing occupied.
    pub fn new() -> (r: Ledger)
        ensures
            r.wf(),
            r.entries@.len() == 0,
            forall|a: Seq<u8>| !r.occupied(a),
    {
        Ledger { entries: Vec::new() }
    }

    /// Decide well-formedness at run time: no address occupied twice.
    pub fn is_wf(&self) -> (r: bool)
        ensures
            r == self.wf(),
    {
        let mut i: usize = 0;
        while i < self.entries.len()
            invariant
                0 <= i <= self.entries@.len(),
                forall|p: int, q: int|
                    0 <= p < q < self.entries@.len() && p < i ==> self.entries@[p].address@
                        != self.entries@[q].address@,
            decreases self.entries@.len() - i,
        {
            let mut j: usize = i + 1;
            while j < self.entries.len()
                invariant
                    0 <= i < j <= self.entries@.len(),
                    forall|q: int| i < q < j ==> self.entries@[i as int].address@
                        != self.entries@[q].address@,
                decreases self.entries@.len() - j,
            {
                if bytes32_eq(&self.entries[i].address, &self.entries[j].address) {
                    return false;
                }
                j += 1;
            }
            i += 1;
        }
        true
    }

    /// Whether `addr` already holds a record.
    pub fn contains(&self, addr: &[u8; 32]) -> (r: bool)
        ensures
            r <==> self.occupied(addr@),
    {
        let mut i: usize = 0;
        while i < self.entries.len()
            invariant
                0 <= i <= self.entries@.len(),
                forall|k: int| 0 <= k < i ==> self.entries@[k].address@ != addr@,
            decreases self.entries@.len() - i,
        {
            if bytes32_eq(&self.entries[i].address, addr) {
                return true;
            }
            i += 1;
        }
        false
    }

    /// Read the record payload at an address, if one is there.
    pub fn get_record(&self, addr: &[u8; 32]) -> (r: Option<&Vec<u8>>)
        requires
            self.wf(),
        ensures
            match r {
                Some(d) => self.occupied(addr@) && d@ == self.record_at(addr@),
                None => !self.occupied(addr@),
            },
    {
        let mut i: usize = 0;
        while i < self.entries.len()
            invariant
                0 <= i <= self.entries@.len(),
                self.wf(),
                forall|k: int| 0 <= k < i ==> self.entries@[k].address@ != addr@,
            decreases self.entries@.len() - i,
        {
            if bytes32_eq(&self.entries[i].address, addr) {
                proof {
                    let w = choose|w: int|
                        0 <= w < self.entries@.len() && self.entries@[w].address@ == addr@;
                    assert(w == i);
                }
                return Some(&self.entries[i].data);
            }
            i += 1;
        }
        None
    }
}

/// What a creation attempt decides, as a pure function of the prior ledger
/// state and the call's inputs: the derived `(address, bump)` on success,
/// or the reason it fails. Failures are checked in the order the runtime
/// does: derivation first, then occupancy, then funding.
pub open spec fn issue_decision(
    ledger: Ledger,
    program_id: Seq<u8>,
    developer_lamports: u64,
    user: Seq<u8>,
    app_id: u32,
    storage_cost: u64,
) -> Result<(Seq<u8>, u8), LicenseError> {
    match pda_derivation(license_seeds(user, app_id), program_id) {
        None => Err(LicenseError::DerivationExhausted),
        Some(p) => if ledger.occupied(p.0) {
            Err(LicenseError::DuplicateLicense)
        } else if developer_lamports < storage_cost {
            Err(LicenseError::InsufficientFunds)
        } else {
            Ok(p)
        },
    }
}

/// Create a license record for `(ctx.user, app_id)` exactly once.
///
/// Derives the storage address from the seed tuple
/// `["license", user, app_id little-endian]` under `ctx.program_id`,
/// charges `storage_cost` to the developer, and appends the serialized
/// record at the derived address. The outcome is exactly
/// [`issue_decision`] of the prior state: a duplicate address, a missing
/// salt, or a short balance each fail the call and leave the ledger and
/// the developer balance unchanged. On success the new record holds
/// `app_id`, `owner = ctx.user`, `machine_code_hash`, and the salt that
/// the derivation found, and its address is re-derivable from the seed
/// tuple plus that salt alone.
pub fn create_license(
    ledger: &mut Ledger,
    ctx: &mut CreateLicense,
    app_id: u32,
    machine_code_hash: [u8; 16],
    storage_cost: u64,
) -> (r: Result<[u8; 32], LicenseError>)
    requires
        old(ledger).wf(),
    ensures
        final(ledger).wf(),
        final(ctx).program_id == old(ctx).program_id,
        final(ctx).developer == old(ctx).developer,
        final(ctx).user == old(ctx).user,
        match issue_decision(
            *old(ledger),
            old(ctx).program_id@,
            old(ctx).developer_lamports,
            old(ctx).user@,
            app_id,
            storage_cost,
        ) {
            Ok(p) => {
                &&& r matches Ok(addr) && addr@ == p.0
                &&& final(ctx).developer_lamports == old(ctx).developer_lamports - storage_cost
                &&& final(ledger).entries@.len() == old(ledger).entries@.len() + 1
                &&& final(ledger).entries@.subrange(0, old(ledger).entries@.len() as int)
                    == old(ledger).entries@
                &&& final(ledger).entries@.last().address@ == p.0
                &&& final(ledger).entries@.last().data@ == record_bytes(
                    License { app_id, owner: old(ctx).user, machine_code_hash, bump: p.1 },
                )
                &&& final(ledger).occupied(p.0)
                &&& final(ledger).record_at(p.0) == record_bytes(
                    License { app_id, owner: old(ctx).user, machine_code_hash, bump: p.1 },
                )
                &&& pda_address(
                    license_seeds(old(ctx).user@, app_id).push(seq![p.1]),
                    old(ctx).program_id@,
                ) == Some(p.0)
            },
            Err(e) => {
                &&& r matches Err(e2) && e2 == e
                &&& *final(ledger) == *old(ledger)
                &&& final(ctx).developer_lamports == old(ctx).developer_lamports
            },
        },
{
    let seeds = build_license_seeds(&ctx.user, app_id);
    match pda_try_find(&seeds, &ctx.program_id) {
        None => Err(LicenseError::DerivationExhausted),
        Some((addr, bump)) => {
            if ledger.contains(&addr) {
                Err(LicenseError::DuplicateLicense)
            } else if ctx.developer_lamports < storage_cost {
                Err(LicenseError::InsufficientFunds)
            } else {
                ctx.developer_lamports = ctx.developer_lamports - storage_cost;
                let license = License { app_id, owner: ctx.user, machine_code_hash, bump };
                let data = license.serialize();
                let ghost old_entries = ledger.entries@;
                ledger.entries.push(LedgerEntry { address: addr, data });
                proof {
                    assert(ledger.entries@.subrange(0, old_entries.len() as int)
                        =~= old_entries);
                    assert(ledger.entries@[old_entries.len() as int].address@ == addr@);
                    assert(ledger.wf());
                    let w = choose|w: int|
                        0 <= w < ledger.entries@.len()
                            && ledger.entries@[w].address@ == addr@;
                    assert(w == old_entries.len() as int);
                }
                Ok(addr)
            }
        },
    }
}

/// Read back the license bound to `(user, app_id)`: re-derive the storage
/// address and parse the record found there.
///
/// Returns the address and the parsed record when the derivation finds a
/// salt, the address is occupied, and the payload there has the record
/// layout; the parsed record re-serializes to exactly the stored bytes.
pub fn lookup_license(
    ledger: &Ledger,
    program_id: &[u8; 32],
    user: &[u8; 32],
    app_id: u32,
) -> (r: Option<([u8; 32], License)>)
    requires
        ledger.wf(),
    ensures
        match r {
            Some(p) => {
                &&& pda_derivation(license_seeds(user@, app_id), program_id@) matches Some(q)
                    && q.0 == p.0@
                &&& ledger.occupied(p.0@)
                &&& record_bytes(p.1) == ledger.record_at(p.0@)
            },
            None => {
                ||| pda_derivation(license_seeds(user@, app_id), program_id@) is None
                ||| (pda_derivation(license_seeds(user@, app_id), program_id@) matches Some(q)
                    && (!ledger.occupied(q.0) || ledger.record_at(q.0).len()
                        != crate::record::RECORD_LEN))
            },
        },
{
    match crate::derivation::derive_license_address(program_id, user, app_id) {
        None => None,
        Some((addr, _bump)) => match ledger.get_record(&addr) {
            None => None,
            Some(data) => match crate::record::deserialize(data) {
                None => None,
                Some(license) => Some((addr, license)),
            },
        },
    }
}

/// Round-trip law: after a successful creation for `(user, app_id)`, the
/// record stored at the decided address both re-derives that address —
/// the seed tuple extended with the stored salt alone confirms it — and
/// reads back with the written `app_id`, `owner`, and
/// `machine_code_hash`: any record that serializes to the stored bytes is
/// the written one, field for field.
pub proof fn lemma_license_round_trip(
    prior: Ledger,
    post: Ledger,
    program_id: Seq<u8>,
    lamports: u64,
    user: [u8; 32],
    app_id: u32,
    machine_code_hash: [u8; 16],
    cost: u64,
    addr: Seq<u8>,
    bump: u8,
)
    requires
        issue_decision(prior, program_id, lamports, user@, app_id, cost) == Ok::<
            (Seq<u8>, u8),
            LicenseError,
        >((addr, bump)),
        post.occupied(addr),
        post.record_at(addr) == record_bytes(
            (License { app_id, owner: user, machine_code_hash, bump }),
        ),
        pda_address(license_seeds(user@, app_id).push(seq![bump]), program_id) == Some(addr),
    ensures
        forall|l: License|
            record_bytes(l) == post.record_at(addr) ==> l == (License {
                app_id,
                owner: user,
                machine_code_hash,
                bump,
            }),
{
    let written = License { app_id, owner: user, machine_code_hash, bump };
    assert forall|l: License| record_bytes(l) == post.record_at(addr) implies l == written by {
        crate::record::lemma_record_bytes_injective(l, written);
    }
}

/// Uniqueness law: once a creation for `(user, app_id)` has succeeded and
/// its address is occupied, any later attempt for the same pair under the
/// same namespace decides `DuplicateLicense`, whatever the ledger has
/// gained meanwhile and whatever the balance or cost.
pub proof fn lemma_issue_uniqueness(
    prior: Ledger,
    later: Ledger,
    program_id: Seq<u8>,
    lamports0: u64,
    lamports1: u64,
    user: Seq<u8>,
    app_id: u32,
    cost0: u64,
    cost1: u64,
    addr: Seq<u8>,
    bump: u8,
)
    requires
        issue_decision(prior, program_id, lamports0, user, app_id, cost0) == Ok::<
            (Seq<u8>, u8),
            LicenseError,
        >((addr, bump)),
        later.occupied(addr),
    ensures
        issue_decision(later, program_id, lamports1, user, app_id, cost1) == Err::<
            (Seq<u8>, u8),
            LicenseError,
        >(LicenseError::DuplicateLicense),
{
}

/// Independence law: distinct users derive from distinct seed tuples, and
/// when their derived addresses differ, issuing for one does not block the
/// other — after a success for `(u1, app_id)`, the decision for
/// `(u2, app_id)` is unchanged.
pub proof fn lemma_issue_independence(
    prior: Ledger,
    later: Ledger,
    program_id: Seq<u8>,
    lamports0: u64,
    lamports1: u64,
    u1: Seq<u8>,
    u2: Seq<u8>,
    app_id: u32,
    cost0: u64,
    cost1: u64,
    addr1: Seq<u8>,
    bump1: u8,
)
    requires
        u1 != u2,
        issue_decision(prior, program_id, lamports0, u1, app_id, cost0) == Ok::<
            (Seq<u8>, u8),
            LicenseError,
        >((addr1, bump1)),
        later.entries@.len() == prior.entries@.len() + 1,
        later.entries@.subrange(0, prior.entries@.len() as int) == prior.entries@,
        later.entries@.last().address@ == addr1,
        pda_derivation(license_seeds(u2, app_id), program_id) matches Some(p2) && p2.0 != addr1,
    ensures
        license_seeds(u1, app_id) != license_seeds(u2, app_id),
        issue_decision(later, program_id, lamports1, u2, app_id, cost1) == issue_decision(
            prior,
            program_id,
            lamports1,
            u2,
            app_id,
            cost1,
        ),
{
    crate::derivation::lemma_seed_tuples_distinct(u1, u2, app_id, app_id);
    let p2 = pda_derivation(license_seeds(u2, app_id), program_id)->Some_0;
    assert forall|a: Seq<u8>| a != addr1 implies (later.occupied(a) <==> prior.occupied(a)) by {
        if prior.occupied(a) {
            let i = choose|i: int| 0 <= i < prior.entries@.len() && prior.entries@[i].address@ == a;
            assert(later.entries@[i].address@ == a);
        }
        if later.occupied(a) {
            let i = choose|i: int| 0 <= i < later.entries@.len() && later.entries@[i].address@ == a;
            assert(i < prior.entries@.len());
            assert(prior.entries@[i].address@ == a);
        }
    }
    assert(later.occupied(p2.0) <==> prior.occupied(p2.0));
}

} // verus!
