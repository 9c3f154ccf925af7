use anchor_lang::prelude::Pubkey;
use chain_drm::derivation::{derive_license_address, verify_license_address};
use chain_drm::issue::{create_license, lookup_license, CreateLicense, Ledger, LicenseError};
use chain_drm::record::{deserialize, License, RECORD_LEN, RECORD_SPACE};

fn program_id() -> [u8; 32] {
    let mut id = [0u8; 32];
    for (k, b) in id.iter_mut().enumerate() {
        *b = (7 * k + 3) as u8;
    }
    id
}

fn account(tag: u8) -> [u8; 32] {
    let mut id = [0u8; 32];
    for (k, b) in id.iter_mut().enumerate() {
        *b = tag.wrapping_add(k as u8);
    }
    id
}

fn reference_derivation(pid: &[u8; 32], user: &[u8; 32], app_id: u32) -> Option<([u8; 32], u8)> {
    let pid = Pubkey::new_from_array(*pid);
    let seeds: [&[u8]; 3] = [b"license", user.as_ref(), &app_id.to_le_bytes()];
    Pubkey::try_find_program_address(&seeds, &pid).map(|(a, b)| (a.to_bytes(), b))
}

#[test]
fn record_space_is_61() {
    assert_eq!(RECORD_LEN, 53);
    assert_eq!(RECORD_SPACE, 61);
}

#[test]
fn serialize_byte_widths() {
    let owner = account(10);
    let machine_code_hash = [0xabu8; 16];
    let l = License { app_id: 0x0102_0304, owner, machine_code_hash, bump: 0xfe };
    let bytes = l.serialize();
    assert_eq!(bytes.len(), 53);
    assert_eq!(&bytes[0..4], &[0x04, 0x03, 0x02, 0x01]);
    assert_eq!(&bytes[4..36], owner.as_ref());
    assert_eq!(&bytes[36..52], machine_code_hash.as_ref());
    assert_eq!(bytes[52], 0xfe);
}

#[test]
fn serialize_then_deserialize() {
    let l = License {
        app_id: 4_000_000_007,
        owner: account(99),
        machine_code_hash: [3u8; 16],
        bump: 255,
    };
    let bytes = l.serialize();
    let back = deserialize(&bytes).expect("a 53-byte payload parses");
    assert_eq!(back, l);
}

#[test]
fn deserialize_wrong_length() {
    assert!(deserialize(&vec![0u8; 52]).is_none());
    assert!(deserialize(&vec![0u8; 54]).is_none());
    assert!(deserialize(&Vec::new()).is_none());
    assert!(deserialize(&vec![0u8; 53]).is_some());
}

#[test]
fn derivation_is_deterministic() {
    let pid = program_id();
    let user = account(42);
    let first = derive_license_address(&pid, &user, 7);
    let second = derive_license_address(&pid, &user, 7);
    assert_eq!(first, second);
    let (addr, bump) = first.expect("a bump exists for this pair");
    let (ref_addr, ref_bump) =
        reference_derivation(&pid, &user, 7).expect("the reference search agrees");
    assert_eq!(addr, ref_addr);
    assert_eq!(bump, ref_bump);
    assert_ne!(addr, user);
    assert_ne!(addr, pid);
}

#[test]
fn verify_rederives_the_address() {
    let pid = program_id();
    let user = account(42);
    let (addr, bump) = derive_license_address(&pid, &user, 7).unwrap();
    assert!(verify_license_address(&pid, &user, 7, bump, &addr));
    let other = account(43);
    assert!(!verify_license_address(&pid, &other, 7, bump, &addr));
    assert!(!verify_license_address(&pid, &user, 8, bump, &addr));
    assert!(!verify_license_address(&pid, &user, 7, bump, &other));
    assert!(!verify_license_address(&pid, &user, 7, bump.wrapping_sub(1), &addr));
}

#[test]
fn scenario_create_license() {
    let mut ledger = Ledger::new();
    let user = account(1);
    let developer = account(2);
    let mut ctx = CreateLicense {
        program_id: program_id(),
        developer,
        developer_lamports: 1_000_000,
        user,
    };
    let machine_code_hash = [0u8; 16];
    let addr = create_license(&mut ledger, &mut ctx, 7, machine_code_hash, 900_000)
        .expect("a funded first issuance succeeds");
    let (ref_addr, ref_bump) = reference_derivation(&ctx.program_id, &user, 7).unwrap();
    assert_eq!(addr, ref_addr);
    assert_eq!(ctx.developer_lamports, 100_000);
    let data = ledger.get_record(&addr).expect("the record is at the derived address");
    let record = deserialize(data).expect("the stored payload parses");
    assert_eq!(record.app_id, 7);
    assert_eq!(record.owner, user);
    assert_eq!(record.machine_code_hash, [0u8; 16]);
    assert_eq!(record.bump, ref_bump);
    assert!(verify_license_address(&ctx.program_id, &record.owner, record.app_id, record.bump, &addr));
}

#[test]
fn scenario_duplicate_issuance_fails() {
    let mut ledger = Ledger::new();
    let user = account(1);
    let mut ctx = CreateLicense {
        program_id: program_id(),
        developer: account(2),
        developer_lamports: 1_000_000,
        user,
    };
    let machine_code_hash = [0u8; 16];
    let addr = create_license(&mut ledger, &mut ctx, 7, machine_code_hash, 1_000).unwrap();
    let lamports_after_first: u64 = ctx.developer_lamports;
    let second = create_license(&mut ledger, &mut ctx, 7, machine_code_hash, 1_000);
    assert_eq!(second, Err(LicenseError::DuplicateLicense));
    assert_eq!(ctx.developer_lamports, lamports_after_first);
    assert!(ledger.get_record(&addr).is_some());
    assert_eq!(ledger.entries.len(), 1);
}

#[test]
fn independent_users_get_distinct_records() {
    let mut ledger = Ledger::new();
    let pid = program_id();
    let u1 = account(1);
    let u2 = account(200);
    let mut ctx1 = CreateLicense {
        program_id: pid,
        developer: account(2),
        developer_lamports: 10_000,
        user: u1,
    };
    let mut ctx2 = CreateLicense { user: u2, ..ctx1 };
    let a1 = create_license(&mut ledger, &mut ctx1, 7, [1u8; 16], 1_000).unwrap();
    let a2 = create_license(&mut ledger, &mut ctx2, 7, [2u8; 16], 1_000).unwrap();
    assert_ne!(a1, a2);
    assert_eq!(ledger.entries.len(), 2);
    let r1 = deserialize(ledger.get_record(&a1).unwrap()).unwrap();
    let r2 = deserialize(ledger.get_record(&a2).unwrap()).unwrap();
    assert_eq!(r1.owner, u1);
    assert_eq!(r2.owner, u2);
    assert_eq!(r1.app_id, 7);
    assert_eq!(r2.app_id, 7);
}

#[test]
fn lookup_finds_the_issued_record() {
    let mut ledger = Ledger::new();
    let pid = program_id();
    let user = account(5);
    let mut ctx = CreateLicense {
        program_id: pid,
        developer: account(6),
        developer_lamports: 10_000,
        user,
    };
    assert!(lookup_license(&ledger, &pid, &user, 11).is_none());
    let addr = create_license(&mut ledger, &mut ctx, 11, [9u8; 16], 1_000).unwrap();
    let (found_addr, record) =
        lookup_license(&ledger, &pid, &user, 11).expect("the issued record is found");
    assert_eq!(found_addr, addr);
    assert_eq!(record.app_id, 11);
    assert_eq!(record.owner, user);
    assert_eq!(record.machine_code_hash, [9u8; 16]);
    assert!(lookup_license(&ledger, &pid, &user, 12).is_none());
    assert!(lookup_license(&ledger, &pid, &account(7), 11).is_none());
}

#[test]
fn insufficient_funds_fails_and_changes_nothing() {
    let mut ledger = Ledger::new();
    let mut ctx = CreateLicense {
        program_id: program_id(),
        developer: account(2),
        developer_lamports: 500,
        user: account(1),
    };
    let r = create_license(&mut ledger, &mut ctx, 7, [0u8; 16], 501);
    assert_eq!(r, Err(LicenseError::InsufficientFunds));
    assert_eq!(ctx.developer_lamports, 500);
    assert_eq!(ledger.entries.len(), 0);
    let r = create_license(&mut ledger, &mut ctx, 7, [0u8; 16], 500);
    assert!(r.is_ok());
    assert_eq!(ctx.developer_lamports, 0);
}
