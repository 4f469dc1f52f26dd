//! Auto-scaling of transaction storage: when the cache of transactions in the
//! token canister grows too long, its oldest part is appended to a storage
//! canister, which is found among those created before or created anew.
//!
//! The canister runs each step, with its calls to other canisters between
//! them; these functions take what a call gave back and say what comes next.

use vstd::prelude::*;
use crate::codec::{encode_storage_init, storage_init_encoding};
use crate::natural::Natural;
use crate::principal::{PrincipalId, anonymous_bytes};
use crate::table::{Table, TableKey, keys_distinct, lemma_pairs_lookup, pairs_to_map};

verus! {

/// How many transactions are moved to storage at a time.
pub const MAX_TXS_CACHE_IN_DFT: usize = 1000;

/// The heap memory of a storage canister, in bytes.
pub const MAX_HEAP_MEMORY_SIZE: u32 = 4294967295u32;

/// The cycles that a new storage canister is created with.
pub const CYCLES_PER_TOKEN: u64 = 2000_000_000_000;

/// Whether the cache of transactions is long enough to move part of it to storage.
pub fn needs_archiving(cache_len: usize) -> (b: bool)
    ensures
        b == (cache_len >= 2 * MAX_TXS_CACHE_IN_DFT),
{
    cache_len >= MAX_TXS_CACHE_IN_DFT * 2
}

/// Copies of the oldest transactions, those to move to storage.
pub fn archive_batch<T: Clone>(txs: &Vec<T>) -> (batch: Vec<T>)
    requires
        txs.len() >= MAX_TXS_CACHE_IN_DFT,
    ensures
        batch.len() == MAX_TXS_CACHE_IN_DFT,
        forall|i: int| 0 <= i < MAX_TXS_CACHE_IN_DFT ==> cloned(txs@[i], #[trigger] batch@[i]),
{
    let mut batch = txs.clone();
    batch.truncate(MAX_TXS_CACHE_IN_DFT);
    batch
}

/// Removes the oldest transactions once storage holds them.
pub fn drop_archived<T>(txs: &mut Vec<T>)
    requires
        old(txs).len() >= MAX_TXS_CACHE_IN_DFT,
    ensures
        final(txs)@ == old(txs)@.skip(MAX_TXS_CACHE_IN_DFT as int),
{
    let rest = txs.split_off(MAX_TXS_CACHE_IN_DFT);
    *txs = rest;
    proof {
        assert(txs@ =~= old(txs)@.skip(MAX_TXS_CACHE_IN_DFT as int));
    }
}

/// The next step in moving transactions to storage.
#[derive(Debug, PartialEq, Eq)]
pub enum ArchiveStep {
    /// Find or create the storage canister.
    FindStorage,
    /// Append the batch of oldest transactions to this storage canister.
    Append(PrincipalId),
    /// Storage holds the batch: remove it from the cache; then done.
    DropBatch,
    /// Done, with this outcome.
    Finish(Result<(), String>),
}

/// Whether an archiving run that starts with a cache of `cache_len`
/// transactions goes on to find storage and append to it.
pub open spec fn archive_begins(cache_len: nat) -> bool {
    cache_len >= 2 * MAX_TXS_CACHE_IN_DFT
}

/// Archiving is due exactly from twice a batch on: a cache of that length
/// is archived, one a transaction shorter is not, and a cache that is due
/// stays due however long it grows.
pub proof fn lemma_archiving_due_from_threshold(n: nat, m: nat)
    ensures
        archive_begins((2 * MAX_TXS_CACHE_IN_DFT) as nat),
        !archive_begins((2 * MAX_TXS_CACHE_IN_DFT - 1) as nat),
        archive_begins(n) && n <= m ==> archive_begins(m),
        !archive_begins(m) && n <= m ==> !archive_begins(n),
{
}

/// The first step: find storage where the cache holds at least twice a
/// batch of transactions, else done.
pub fn archive_begin(cache_len: usize) -> (s: ArchiveStep)
    ensures
        archive_begins(cache_len as nat) ==> s is FindStorage,
        !archive_begins(cache_len as nat) ==> s == ArchiveStep::Finish(Ok(())),
        cache_len >= 2 * MAX_TXS_CACHE_IN_DFT ==> s is FindStorage,
        cache_len < 2 * MAX_TXS_CACHE_IN_DFT ==> s == ArchiveStep::Finish(Ok(())),
{
    if needs_archiving(cache_len) {
        ArchiveStep::FindStorage
    } else {
        ArchiveStep::Finish(Ok(()))
    }
}

/// After storage was looked for: append to it where found, else fail with its error.
pub fn archive_on_storage(found: Result<PrincipalId, String>) -> (s: ArchiveStep)
    ensures
        match found {
            Ok(id) => s == ArchiveStep::Append(id),
            Err(e) => s == ArchiveStep::Finish(Err(e)),
        },
{
    match found {
        Ok(id) => ArchiveStep::Append(id),
        Err(e) => ArchiveStep::Finish(Err(e)),
    }
}

/// After the append call: drop the batch where storage accepted it; a refusal
/// or a failed call leaves the cache as it is, and the step still succeeds.
pub fn archive_on_reply(reply: &Result<bool, String>) -> (s: ArchiveStep)
    ensures
        *reply == Ok::<bool, String>(true) ==> s is DropBatch,
        *reply != Ok::<bool, String>(true) ==> s == ArchiveStep::Finish(Ok(())),
{
    match reply {
        Ok(true) => ArchiveStep::DropBatch,
        _ => ArchiveStep::Finish(Ok(())),
    }
}

/// Settles the cache after the append call: where storage accepted the
/// batch, exactly the oldest `MAX_TXS_CACHE_IN_DFT` transactions leave the
/// cache; otherwise none does. The cache that remains is what followed them,
/// in order; the step succeeds either way.
pub fn settle_archive<T>(txs: &mut Vec<T>, reply: &Result<bool, String>) -> (r: Result<(), String>)
    requires
        *reply == Ok::<bool, String>(true) ==> old(txs).len() >= MAX_TXS_CACHE_IN_DFT,
    ensures
        r == Ok::<(), String>(()),
        *reply == Ok::<bool, String>(true) ==> final(txs)@ == old(txs)@.skip(
            MAX_TXS_CACHE_IN_DFT as int,
        ),
        *reply != Ok::<bool, String>(true) ==> final(txs)@ == old(txs)@,
        final(txs)@.len() == old(txs)@.len() || final(txs)@.len() == old(txs)@.len()
            - MAX_TXS_CACHE_IN_DFT,
        final(txs)@ == old(txs)@.skip(old(txs)@.len() - final(txs)@.len()),
{
    match archive_on_reply(reply) {
        ArchiveStep::DropBatch => {
            drop_archived(txs);
        },
        _ => {
            proof {
                assert(txs@.skip(0) =~= txs@);
            }
        },
    }
    Ok(())
}

/// The entry that the search for storage settles on, after the entries
/// `s`, scanned first to last: an entry replaces the one held where its key
/// is at least the key held and its canister differs from the one held.
/// Before any entry, the key held is 0 and the canister the anonymous one.
pub open spec fn storage_scan(s: Seq<(Natural, PrincipalId)>) -> (nat, Seq<u8>)
    decreases s.len(),
{
    if s.len() == 0 {
        (0, anonymous_bytes())
    } else {
        let held = storage_scan(s.drop_last());
        let (k, v) = s.last();
        if k@ >= held.0 && held.1 != v@ {
            (k@, v@)
        } else {
            held
        }
    }
}

/// How one more entry changes what the search holds: an entry whose key is
/// below the key held, or that names the canister held, leaves it as it is;
/// any other entry takes its place.
pub proof fn lemma_scan_step(s: Seq<(Natural, PrincipalId)>, e: (Natural, PrincipalId))
    ensures
        e.0@ < storage_scan(s).0 ==> storage_scan(s.push(e)) == storage_scan(s),
        e.1@ == storage_scan(s).1 ==> storage_scan(s.push(e)) == storage_scan(s),
        e.0@ >= storage_scan(s).0 && e.1@ != storage_scan(s).1 ==> storage_scan(s.push(e)) == (
            e.0@,
            e.1@,
        ),
        storage_scan(Seq::<(Natural, PrincipalId)>::empty()) == (0nat, anonymous_bytes()),
{
    assert(s.push(e).drop_last() =~= s);
}

/// The search settles on the anonymous canister with key 0, or on one of
/// the entries.
pub proof fn lemma_scan_result_recorded(s: Seq<(Natural, PrincipalId)>)
    ensures
        storage_scan(s) == (0nat, anonymous_bytes()) || exists|i: int|
            0 <= i < s.len() && storage_scan(s) == (#[trigger] s[i].0@, s[i].1@),
    decreases s.len(),
{
    if s.len() > 0 {
        let t = s.drop_last();
        lemma_scan_result_recorded(t);
        if storage_scan(s) != storage_scan(t) {
            assert(storage_scan(s) == (s[s.len() - 1].0@, s[s.len() - 1].1@));
        } else if storage_scan(t) != (0nat, anonymous_bytes()) {
            let i = choose|i: int| 0 <= i < t.len() && storage_scan(t) == (#[trigger] t[i].0@, t[i].1@);
            assert(storage_scan(s) == (s[i].0@, s[i].1@));
        }
    }
}

/// The storage search settles only on recorded canisters: where the scan of
/// the recorded entries gives a canister other than the anonymous one (the
/// only kind that is then queried and used), that canister is recorded, under
/// the key that the scan gives.
pub proof fn lemma_found_storage_is_recorded(entries: Seq<(Natural, PrincipalId)>)
    requires
        storage_scan(entries).1 != anonymous_bytes(),
    ensures
        exists|i: int|
            0 <= i < entries.len() && #[trigger] entries[i].0@ == storage_scan(entries).0
                && entries[i].1@ == storage_scan(entries).1,
{
    lemma_scan_result_recorded(entries);
    let i = choose|i: int|
        0 <= i < entries.len() && storage_scan(entries) == (#[trigger] entries[i].0@, entries[i].1@);
    assert(entries[i].0@ == storage_scan(entries).0);
}

/// Scans the recorded storage canisters, keyed by the index of their first
/// transaction, for the one to append to. What it settles on is the
/// anonymous canister (none found), or a recorded canister with its key.
pub fn latest_storage(entries: &Vec<(Natural, PrincipalId)>) -> (r: (Natural, PrincipalId))
    ensures
        (r.0@, r.1@) == storage_scan(entries@),
        r.1@ == anonymous_bytes() || exists|i: int|
            0 <= i < entries@.len() && #[trigger] entries@[i].0@ == r.0@ && entries@[i].1@ == r.1@,
{
    let mut max_key = Natural::zero();
    let mut last = PrincipalId::anonymous();
    let n = entries.len();
    let mut i: usize = 0;
    while i < n
        invariant
            n == entries.len(),
            i <= n,
            (max_key@, last@) == storage_scan(entries@.take(i as int)),
        decreases n - i,
    {
        proof {
            assert(entries@.take(i + 1).drop_last() =~= entries@.take(i as int));
        }
        let (k, v) = &entries[i];
        if k.at_least(&max_key) && !last.same_as(v) {
            max_key = k.copy_key();
            last = v.duplicate();
        }
        i = i + 1;
    }
    proof {
        assert(entries@.take(n as int) =~= entries@);
        lemma_scan_result_recorded(entries@);
        if storage_scan(entries@) != (0nat, anonymous_bytes()) {
            let j = choose|j: int|
                0 <= j < entries@.len() && storage_scan(entries@) == (
                #[trigger] entries@[j].0@,
                entries@[j].1@,
            );
            assert(entries@[j].0@ == max_key@);
        }
    }
    (max_key, last)
}

/// Where no two entries name the same canister and none names the anonymous
/// one, the search settles on the entry with the greatest key.
pub proof fn lemma_scan_finds_newest(s: Seq<(Natural, PrincipalId)>)
    requires
        forall|i: int, j: int| 0 <= i < j < s.len() ==> s[i].1@ != s[j].1@,
        forall|i: int| 0 <= i < s.len() ==> (#[trigger] s[i]).1@ != anonymous_bytes(),
        s.len() > 0,
    ensures
        exists|i: int|
            0 <= i < s.len() && storage_scan(s) == (#[trigger] s[i].0@, s[i].1@),
        forall|j: int| 0 <= j < s.len() ==> (#[trigger] s[j]).0@ <= storage_scan(s).0,
    decreases s.len(),
{
    let t = s.drop_last();
    if t.len() == 0 {
        assert(storage_scan(t) == (0nat, anonymous_bytes()));
        assert(storage_scan(s) == (s[0].0@, s[0].1@));
    } else {
        assert forall|i: int, j: int| 0 <= i < j < t.len() implies t[i].1@ != t[j].1@ by {
            assert(s[i].1@ != s[j].1@);
        }
        assert forall|i: int| 0 <= i < t.len() implies (#[trigger] t[i]).1@ != anonymous_bytes() by {
            assert(s[i].1@ != anonymous_bytes());
        }
        lemma_scan_finds_newest(t);
        let i0 = choose|i: int| 0 <= i < t.len() && storage_scan(t) == (#[trigger] t[i].0@, t[i].1@);
        assert(s[i0].1@ != s.last().1@);
        if s.last().0@ >= storage_scan(t).0 {
            assert(storage_scan(s) == (s[s.len() - 1].0@, s[s.len() - 1].1@));
        } else {
            assert(storage_scan(s) == (s[i0].0@, s[i0].1@));
        }
        assert forall|j: int| 0 <= j < s.len() implies (#[trigger] s[j]).0@ <= storage_scan(s).0 by {
            if j < t.len() {
                assert(t[j].0@ <= storage_scan(t).0);
            }
        }
    }
}

/// What a new storage canister is created with: its cycles, its controllers,
/// and the allocations and threshold, which are left unset.
#[derive(Debug, PartialEq, Eq)]
pub struct CreateSettings {
    pub cycles: u64,
    pub controllers: Vec<PrincipalId>,
    pub compute_allocation: Option<Natural>,
    pub memory_allocation: Option<Natural>,
    pub freezing_threshold: Option<Natural>,
}

/// The settings that storage is created with for the token canister
/// `token_id`: `CYCLES_PER_TOKEN` cycles, the token canister as the only
/// controller, nothing else set.
pub open spec fn is_storage_creation(c: CreateSettings, token_id: PrincipalId) -> bool {
    &&& c.cycles == CYCLES_PER_TOKEN
    &&& c.controllers@.len() == 1
    &&& c.controllers@[0]@ == token_id@
    &&& c.compute_allocation is None
    &&& c.memory_allocation is None
    &&& c.freezing_threshold is None
}

/// The settings that storage is created with for the token canister.
pub fn storage_creation(token_id: &PrincipalId) -> (c: CreateSettings)
    ensures
        is_storage_creation(c, *token_id),
{
    let mut controllers: Vec<PrincipalId> = Vec::new();
    controllers.push(token_id.duplicate());
    CreateSettings {
        cycles: CYCLES_PER_TOKEN,
        controllers,
        compute_allocation: None,
        memory_allocation: None,
        freezing_threshold: None,
    }
}

/// The next step in finding the storage canister to append to.
#[derive(Debug, PartialEq, Eq)]
pub enum StorageStep {
    /// Ask how much memory this storage canister uses.
    QueryStatus(PrincipalId),
    /// Create a new storage canister with these settings.
    Create(CreateSettings),
    /// Install the storage code on the new canister, with these arguments.
    Install { canister: PrincipalId, args: Vec<u8> },
    /// Record the canister as storage from this transaction index on, and use it.
    Record { start_index: Natural, canister: PrincipalId },
    /// Use this storage canister.
    Found(PrincipalId),
    /// Scaling storage failed.
    Failed,
}

/// After the scan: create storage for the token canister `token_id` where
/// none was found, else ask the one found.
pub fn storage_after_scan(last: PrincipalId, token_id: &PrincipalId) -> (s: StorageStep)
    ensures
        last@ == anonymous_bytes() ==> (s matches StorageStep::Create(c) && is_storage_creation(
            c,
            *token_id,
        )),
        last@ != anonymous_bytes() ==> s == StorageStep::QueryStatus(last),
{
    if last.is_anonymous() {
        StorageStep::Create(storage_creation(token_id))
    } else {
        StorageStep::QueryStatus(last)
    }
}

/// The memory that storage must still have to take a batch of transactions
/// whose records each take `record_size` bytes.
pub open spec fn batch_memory(record_size: usize) -> int {
    MAX_TXS_CACHE_IN_DFT * record_size
}

/// After the status query, which gave the memory size in use, or failed:
/// create storage for the token canister `token_id` where the one found has
/// less room left than a batch needs, else use it.
pub fn storage_after_status(
    last: PrincipalId,
    memory_size: Option<u128>,
    record_size: usize,
    token_id: &PrincipalId,
) -> (s: StorageStep)
    requires
        MAX_TXS_CACHE_IN_DFT * record_size <= usize::MAX,
        memory_size matches Some(m) ==> m <= MAX_HEAP_MEMORY_SIZE,
    ensures
        match memory_size {
            None => s is Failed,
            Some(m) => if MAX_HEAP_MEMORY_SIZE - m < batch_memory(record_size) {
                s matches StorageStep::Create(c) && is_storage_creation(c, *token_id)
            } else {
                s == StorageStep::Found(last)
            },
        },
        memory_size matches Some(m) && MAX_HEAP_MEMORY_SIZE - m < MAX_TXS_CACHE_IN_DFT * record_size
            ==> s is Create,
        memory_size matches Some(m) && MAX_HEAP_MEMORY_SIZE - m >= MAX_TXS_CACHE_IN_DFT * record_size
            ==> s == StorageStep::Found(last),
{
    match memory_size {
        None => StorageStep::Failed,
        Some(m) => {
            let needed: usize = MAX_TXS_CACHE_IN_DFT * record_size;
            let left: u128 = MAX_HEAP_MEMORY_SIZE as u128 - m;
            if left < needed as u128 {
                StorageStep::Create(storage_creation(token_id))
            } else {
                StorageStep::Found(last)
            }
        },
    }
}

/// After the creation call, which gave the new canister or failed: install
/// the storage code on it, with the token canister and the index of the first
/// transaction to store as arguments.
pub fn storage_after_create(
    created: Option<PrincipalId>,
    token_id: &PrincipalId,
    start_index: &Natural,
) -> (s: StorageStep)
    requires
        token_id.well_formed(),
    ensures
        match created {
            None => s is Failed,
            Some(c) => (s matches StorageStep::Install { canister, args } && canister == c
                && args@ == storage_init_encoding(token_id@, start_index@)),
        },
{
    match created {
        None => StorageStep::Failed,
        Some(canister) => {
            let args = encode_storage_init(token_id, start_index);
            StorageStep::Install { canister, args }
        },
    }
}

/// After the install call: record and use the new canister where it succeeded.
pub fn storage_after_install(canister: PrincipalId, installed: bool, start_index: Natural) -> (s: StorageStep)
    ensures
        installed ==> s == (StorageStep::Record { start_index, canister }),
        !installed ==> s is Failed,
{
    if installed {
        StorageStep::Record { start_index, canister }
    } else {
        StorageStep::Failed
    }
}

/// Records a new storage canister under the index of the first transaction
/// it holds; the other entries stay as they were.
pub fn record_storage(ids: &mut Table<Natural, PrincipalId>, start_index: Natural, canister: PrincipalId)
    ensures
        final(ids)@ == old(ids)@.insert(start_index@, canister),
{
    ids.insert(start_index, canister);
}

/// Archiving loses no transaction: the batch sent to storage holds copies of
/// the oldest ones, the cache keeps the rest in order, and together they
/// count as many as before.
pub proof fn lemma_archive_keeps_all<T: Clone>(before: Seq<T>, batch: Seq<T>, after: Seq<T>)
    requires
        before.len() >= MAX_TXS_CACHE_IN_DFT,
        batch.len() == MAX_TXS_CACHE_IN_DFT,
        forall|i: int| 0 <= i < MAX_TXS_CACHE_IN_DFT ==> cloned(before[i], #[trigger] batch[i]),
        after == before.skip(MAX_TXS_CACHE_IN_DFT as int),
    ensures
        batch.len() + after.len() == before.len(),
        forall|i: int| 0 <= i < before.len() ==> if i < MAX_TXS_CACHE_IN_DFT {
            cloned(before[i], batch[i])
        } else {
            after[i - MAX_TXS_CACHE_IN_DFT] == before[i]
        },
{
}

/// One archiving run, from the cache of `start_len` transactions it began
/// with to the cache after it was settled. `before` is the cache when the
/// append's reply came (the start's, with any transactions added since), and
/// `after` the cache once settled. The cache loses nothing, or exactly its
/// oldest `MAX_TXS_CACHE_IN_DFT` transactions, and the latter only where the
/// run began with at least twice that many (so that the batch was appended)
/// and storage accepted the batch; at least `MAX_TXS_CACHE_IN_DFT` then
/// remain, and what remains is what followed the batch.
pub proof fn lemma_archive_run<T>(
    start_len: nat,
    reply: Result<bool, String>,
    before: Seq<T>,
    after: Seq<T>,
)
    requires
        before.len() >= start_len,
        archive_begins(start_len) && reply == Ok::<bool, String>(true) ==> after == before.skip(
            MAX_TXS_CACHE_IN_DFT as int,
        ),
        !(archive_begins(start_len) && reply == Ok::<bool, String>(true)) ==> after == before,
    ensures
        after == before.skip(before.len() - after.len()),
        before.len() - after.len() == 0 || before.len() - after.len() == MAX_TXS_CACHE_IN_DFT,
        before.len() - after.len() == MAX_TXS_CACHE_IN_DFT ==> start_len >= 2 * MAX_TXS_CACHE_IN_DFT
            && reply == Ok::<bool, String>(true) && after.len() >= MAX_TXS_CACHE_IN_DFT,
{
    if !(archive_begins(start_len) && reply == Ok::<bool, String>(true)) {
        assert(before.skip(0) =~= before);
    }
}

/// One search for storage over the recorded entries `entries`, which hold
/// each key once: it ends using the canister `found`, and leaves the record
/// as `after`. Where it used the canister that the scan found (no `Record`
/// step, `recorded` is none), that canister is not the anonymous one and the
/// record is unchanged; where it recorded a new canister under a key, the
/// record gains exactly that entry and `found` is that canister. Either way
/// the canister used is one that the record holds.
pub proof fn lemma_storage_search(
    entries: Seq<(Natural, PrincipalId)>,
    found: PrincipalId,
    recorded: Option<(Natural, PrincipalId)>,
    after: Map<nat, PrincipalId>,
)
    requires
        keys_distinct(entries),
        recorded is None ==> found@ == storage_scan(entries).1 && found@ != anonymous_bytes()
            && after == pairs_to_map(entries),
        recorded matches Some(r) ==> found == r.1 && after == pairs_to_map(entries).insert(r.0@, r.1),
    ensures
        recorded is None ==> after == pairs_to_map(entries) && found@ != anonymous_bytes(),
        recorded matches Some(r) ==> after == pairs_to_map(entries).insert(r.0@, found),
        exists|k: nat| after.dom().contains(k) && (#[trigger] after[k])@ == found@,
{
    match recorded {
        None => {
            lemma_found_storage_is_recorded(entries);
            let i = choose|i: int|
                0 <= i < entries.len() && #[trigger] entries[i].0@ == storage_scan(entries).0
                    && entries[i].1@ == storage_scan(entries).1;
            lemma_pairs_lookup(Map::empty(), entries, i);
            assert(after.dom().contains(entries[i].0@) && after[entries[i].0@]@ == found@);
        },
        Some(r) => {
            assert(after.dom().contains(r.0@) && after[r.0@]@ == found@);
        },
    }
}

} // verus!
