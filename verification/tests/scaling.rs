use dft_basic::natural::Natural;
use dft_basic::principal::PrincipalId;
use dft_basic::scaling::{
    archive_batch, archive_begin, archive_on_reply, archive_on_storage, drop_archived, latest_storage,
    needs_archiving, record_storage, settle_archive, storage_after_create, storage_after_install,
    storage_after_scan, storage_after_status, storage_creation, ArchiveStep, CreateSettings, StorageStep,
    CYCLES_PER_TOKEN, MAX_HEAP_MEMORY_SIZE,
};
use dft_basic::table::Table;

fn pid(b: &[u8]) -> PrincipalId {
    PrincipalId::from_bytes(b.to_vec())
}

fn natural(x: u128) -> Natural {
    Natural::from_le_bytes(x.to_le_bytes().to_vec())
}

fn token() -> PrincipalId {
    pid(&[1, 1])
}

fn creation() -> CreateSettings {
    CreateSettings {
        cycles: 2_000_000_000_000,
        controllers: vec![token()],
        compute_allocation: None,
        memory_allocation: None,
        freezing_threshold: None,
    }
}

#[test]
fn archiving_starts_at_twice_the_batch() {
    assert!(!needs_archiving(1999));
    assert!(needs_archiving(2000));
    assert!(needs_archiving(2500));
    assert_eq!(archive_begin(0), ArchiveStep::Finish(Ok(())));
    assert_eq!(archive_begin(1999), ArchiveStep::Finish(Ok(())));
    assert_eq!(archive_begin(2000), ArchiveStep::FindStorage);
}

#[test]
fn archive_batch_and_drop_keep_every_transaction() {
    let txs: Vec<u32> = (0..2300).collect();
    let batch = archive_batch(&txs);
    assert_eq!(batch, (0..1000).collect::<Vec<u32>>());
    let mut rest = txs.clone();
    drop_archived(&mut rest);
    assert_eq!(rest, (1000..2300).collect::<Vec<u32>>());
    let mut joined = batch.clone();
    joined.extend(rest);
    assert_eq!(joined, txs);
}

#[test]
fn archive_steps_follow_the_replies() {
    assert_eq!(archive_on_storage(Ok(pid(&[3]))), ArchiveStep::Append(pid(&[3])));
    assert_eq!(archive_on_storage(Err("no storage".to_string())), ArchiveStep::Finish(Err("no storage".to_string())));
    assert_eq!(archive_on_reply(&Ok(true)), ArchiveStep::DropBatch);
    assert_eq!(archive_on_reply(&Ok(false)), ArchiveStep::Finish(Ok(())));
    assert_eq!(archive_on_reply(&Err("down".to_string())), ArchiveStep::Finish(Ok(())));
}

#[test]
fn scan_finds_the_newest_storage() {
    assert_eq!(latest_storage(&vec![]), (natural(0), PrincipalId::anonymous()));
    let entries = vec![(natural(3), pid(&[1])), (natural(9), pid(&[2])), (natural(5), pid(&[3]))];
    assert_eq!(latest_storage(&entries), (natural(9), pid(&[2])));
    let big = Natural::from_le_bytes(vec![0; 20].into_iter().chain([1u8]).collect());
    let entries = vec![(natural(u128::MAX), pid(&[1])), (big, pid(&[2]))];
    let (key, canister) = latest_storage(&entries);
    assert_eq!(canister, pid(&[2]));
    assert_eq!(key.to_le_bytes().len(), 21);
}

#[test]
fn scan_skips_a_repeated_canister() {
    // The second entry names the canister held, so the key held stays 3 and
    // the third entry, with key 5, replaces it.
    let entries = vec![(natural(3), pid(&[1])), (natural(9), pid(&[1])), (natural(5), pid(&[2]))];
    assert_eq!(latest_storage(&entries), (natural(5), pid(&[2])));
}

#[test]
fn scan_never_settles_on_an_anonymous_entry_first() {
    let entries = vec![(natural(4), PrincipalId::anonymous())];
    assert_eq!(latest_storage(&entries), (natural(0), PrincipalId::anonymous()));
}

#[test]
fn no_storage_found_means_create() {
    assert_eq!(storage_after_scan(PrincipalId::anonymous(), &token()), StorageStep::Create(creation()));
    assert_eq!(storage_after_scan(pid(&[8]), &token()), StorageStep::QueryStatus(pid(&[8])));
    assert_eq!(storage_creation(&token()).cycles, CYCLES_PER_TOKEN);
}

#[test]
fn storage_room_decides_between_reuse_and_create() {
    // A batch of records of 100 bytes needs 100000 bytes.
    let max = MAX_HEAP_MEMORY_SIZE as u128;
    assert_eq!(storage_after_status(pid(&[8]), Some(max - 100_000), 100, &token()), StorageStep::Found(pid(&[8])));
    assert_eq!(storage_after_status(pid(&[8]), Some(max - 99_999), 100, &token()), StorageStep::Create(creation()));
    assert_eq!(storage_after_status(pid(&[8]), Some(0), 100, &token()), StorageStep::Found(pid(&[8])));
    assert_eq!(storage_after_status(pid(&[8]), None, 100, &token()), StorageStep::Failed);
}

#[test]
fn created_storage_is_installed_with_token_and_start_index() {
    let step = storage_after_create(Some(pid(&[6])), &pid(&[1, 2, 3]), &natural(42));
    match step {
        StorageStep::Install { canister, args } => {
            assert_eq!(canister, pid(&[6]));
            assert_eq!(args, b"DIDL\x00\x02\x68\x7d\x01\x03\x01\x02\x03\x2a".to_vec());
            let (owner, start): (candid::Principal, candid::Nat) = candid::decode_args(&args).unwrap();
            assert_eq!(owner.as_slice(), &[1u8, 2, 3]);
            assert_eq!(start, candid::Nat::from(42u128));
        }
        other => panic!("unexpected step {:?}", other),
    }
    assert_eq!(storage_after_create(None, &pid(&[1]), &natural(0)), StorageStep::Failed);
    match storage_after_create(Some(pid(&[6])), &pid(&[9]), &natural(300)) {
        StorageStep::Install { args, .. } => {
            assert_eq!(args, b"DIDL\x00\x02\x68\x7d\x01\x01\x09\xac\x02".to_vec());
        }
        other => panic!("unexpected step {:?}", other),
    }
}

#[test]
fn installed_storage_is_recorded() {
    assert_eq!(
        storage_after_install(pid(&[6]), true, natural(42)),
        StorageStep::Record { start_index: natural(42), canister: pid(&[6]) }
    );
    assert_eq!(storage_after_install(pid(&[6]), false, natural(42)), StorageStep::Failed);
    let mut ids: Table<Natural, PrincipalId> = Table::new();
    record_storage(&mut ids, natural(0), pid(&[5]));
    record_storage(&mut ids, natural(42), pid(&[6]));
    assert_eq!(ids.get(&natural(42)), Some(&pid(&[6])));
    assert_eq!(ids.get(&natural(0)), Some(&pid(&[5])));
    assert_eq!(ids.len(), 2);
}

#[test]
fn settling_drops_exactly_the_batch_only_when_storage_took_it() {
    let txs: Vec<u32> = (0..2100).collect();
    let mut kept = txs.clone();
    assert_eq!(settle_archive(&mut kept, &Ok(false)), Ok(()));
    assert_eq!(kept, txs);
    assert_eq!(settle_archive(&mut kept, &Err("down".to_string())), Ok(()));
    assert_eq!(kept, txs);
    assert_eq!(settle_archive(&mut kept, &Ok(true)), Ok(()));
    assert_eq!(kept, (1000..2100).collect::<Vec<u32>>());
}

#[test]
fn archiving_run_trims_only_a_long_cache_that_storage_took() {
    // A run that starts below the threshold never appends, so nothing is trimmed.
    let txs: Vec<u32> = (0..1999).collect();
    assert_eq!(archive_begin(txs.len()), ArchiveStep::Finish(Ok(())));
    // A run that starts at the threshold appends; after storage takes the
    // batch, 1000 are trimmed and at least 1000 remain.
    let mut txs: Vec<u32> = (0..2000).collect();
    assert_eq!(archive_begin(txs.len()), ArchiveStep::FindStorage);
    assert_eq!(settle_archive(&mut txs, &Ok(true)), Ok(()));
    assert_eq!(txs.len(), 1000);
    assert_eq!(txs[0], 1000);
}
