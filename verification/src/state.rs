//! The token state that the canister keeps, its set-up at installation, and
//! its passage through an upgrade: saved as a payload before, restored after.

use vstd::prelude::*;
use crate::holder::Holder;
use crate::natural::Natural;
use crate::principal::PrincipalId;
use crate::table::{Table, insert_pairs, keys_distinct, pairs_to_map, reversed};

verus! {

/// The metadata of a token, with the fee settings of type `F` and amounts of type `A`.
#[derive(Debug)]
pub struct Metadata<F, A> {
    pub name: String,
    pub symbol: String,
    pub decimals: u8,
    pub total_supply: A,
    pub fee: F,
}

/// The fields of the token state that the canister itself reads and writes.
/// `F` is the fee settings, `T` a transaction record and `A` an amount of
/// tokens, all carried as they are.
pub struct TokenState<F, T, A> {
    pub token_id: PrincipalId,
    pub owner: PrincipalId,
    pub logo: Option<Vec<u8>>,
    pub name: String,
    pub symbol: String,
    pub decimals: u8,
    pub total_supply: A,
    pub fee: F,
    pub fee_to: Holder,
    pub extend_info: Table<String, String>,
    pub balances: Table<Holder, A>,
    pub allowances: Table<Holder, Table<Holder, A>>,
    pub storage_canister_ids: Table<Natural, PrincipalId>,
    pub txs: Vec<T>,
    pub next_tx_index: A,
}

/// What is written to stable memory before an upgrade.
pub struct TokenPayload<F, T, A> {
    pub owner: PrincipalId,
    pub fee_to: Holder,
    pub meta: Metadata<F, A>,
    pub extend: Vec<(String, String)>,
    pub logo: Vec<u8>,
    pub balances: Vec<(Holder, A)>,
    pub allowances: Vec<(Holder, Vec<(Holder, A)>)>,
    pub tx_index_cursor: A,
    pub storage_canister_ids: Vec<(Natural, PrincipalId)>,
    pub txs_inner: Vec<T>,
}

/// The allowances as a map from owner to the map from spender to amount.
pub open spec fn allowances_view<A>(t: Table<Holder, Table<Holder, A>>) -> Map<
    (bool, Seq<u8>),
    Map<(bool, Seq<u8>), A>,
> {
    Map::new(|k: (bool, Seq<u8>)| t@.dom().contains(k), |k: (bool, Seq<u8>)| t@[k]@)
}

/// Inserting, first to last, each owner with the map that its spender pairs describe.
pub open spec fn insert_nested<A>(
    m: Map<(bool, Seq<u8>), Map<(bool, Seq<u8>), A>>,
    s: Seq<(Holder, Vec<(Holder, A)>)>,
) -> Map<(bool, Seq<u8>), Map<(bool, Seq<u8>), A>>
    decreases s.len(),
{
    if s.len() == 0 {
        m
    } else {
        insert_nested(m, s.drop_last()).insert(s.last().0@, pairs_to_map(s.last().1@))
    }
}

/// A logo, or no bytes at all where there is none.
pub open spec fn logo_bytes(logo: Option<Vec<u8>>) -> Seq<u8> {
    match logo {
        Some(l) => l@,
        None => Seq::empty(),
    }
}

/// `p` is the payload that the state `s` is saved as, with metadata `meta`
/// and the transactions `stored` kept apart from the state.
pub open spec fn is_snapshot_of<F, T, A>(
    p: TokenPayload<F, T, A>,
    s: TokenState<F, T, A>,
    meta: Metadata<F, A>,
    stored: Seq<T>,
) -> bool {
    &&& p.owner == s.owner
    &&& p.fee_to == s.fee_to
    &&& p.meta == meta
    &&& p.logo@ == logo_bytes(s.logo)
    &&& p.tx_index_cursor == s.next_tx_index
    &&& p.txs_inner@ == stored
    &&& p.extend@ == s.extend_info.pairs()
    &&& keys_distinct(p.extend@)
    &&& pairs_to_map(p.extend@) == s.extend_info@
    &&& p.balances@ == s.balances.pairs()
    &&& keys_distinct(p.balances@)
    &&& pairs_to_map(p.balances@) == s.balances@
    &&& p.storage_canister_ids@ == s.storage_canister_ids.pairs()
    &&& keys_distinct(p.storage_canister_ids@)
    &&& pairs_to_map(p.storage_canister_ids@) == s.storage_canister_ids@
    &&& p.allowances@.len() == s.allowances.pairs().len()
    &&& (forall|j: int| 0 <= j < p.allowances@.len() ==> (#[trigger] p.allowances@[j]).0
        == s.allowances.pairs()[j].0 && p.allowances@[j].1@ == s.allowances.pairs()[j].1.pairs())
    &&& keys_distinct(p.allowances@)
    &&& (forall|j: int| 0 <= j < p.allowances@.len() ==> keys_distinct(#[trigger] p.allowances@[j].1@))
    &&& insert_nested(Map::empty(), p.allowances@) == allowances_view(s.allowances)
}

/// `after` is `before` with the payload `p` restored into it, the canister
/// being `token_id`.
pub open spec fn is_restored_from<F, T, A>(
    after: TokenState<F, T, A>,
    before: TokenState<F, T, A>,
    token_id: PrincipalId,
    p: TokenPayload<F, T, A>,
) -> bool {
    &&& after.token_id == token_id
    &&& after.owner == p.owner
    &&& after.logo == Some(p.logo)
    &&& after.name == p.meta.name
    &&& after.symbol == p.meta.symbol
    &&& after.decimals == p.meta.decimals
    &&& after.fee == p.meta.fee
    &&& after.fee_to == p.fee_to
    &&& after.extend_info@ == insert_pairs(before.extend_info@, p.extend@)
    &&& after.balances@ == insert_pairs(before.balances@, p.balances@)
    &&& allowances_view(after.allowances) == insert_nested(
        allowances_view(before.allowances),
        p.allowances@,
    )
    &&& after.storage_canister_ids@ == insert_pairs(
        before.storage_canister_ids@,
        p.storage_canister_ids@,
    )
    &&& after.txs@ == before.txs@ + p.txs_inner@
    &&& after.total_supply == before.total_supply
    &&& after.next_tx_index == before.next_tx_index
}

/// A state that holds no entries and no transactions.
pub open spec fn is_blank<F, T, A>(s: TokenState<F, T, A>) -> bool {
    &&& s.extend_info@ == Map::<Seq<char>, String>::empty()
    &&& s.balances@ == Map::<(bool, Seq<u8>), A>::empty()
    &&& s.allowances@ == Map::<(bool, Seq<u8>), Table<Holder, A>>::empty()
    &&& s.storage_canister_ids@ == Map::<nat, PrincipalId>::empty()
    &&& s.txs@ == Seq::<T>::empty()
}

impl<F, T, A> TokenState<F, T, A> {
    /// A state with no entries and no transactions, its supply and its next
    /// transaction index given.
    pub fn blank(
        token_id: PrincipalId,
        owner: PrincipalId,
        fee: F,
        fee_to: Holder,
        total_supply: A,
        next_tx_index: A,
    ) -> (s: Self)
        ensures
            is_blank(s),
            s.token_id == token_id,
            s.owner == owner,
            s.fee == fee,
            s.fee_to == fee_to,
            s.logo is None,
            s.name@ == Seq::<char>::empty(),
            s.symbol@ == Seq::<char>::empty(),
            s.decimals == 0,
            s.total_supply == total_supply,
            s.next_tx_index == next_tx_index,
    {
        TokenState {
            token_id,
            owner,
            logo: None,
            name: String::new(),
            symbol: String::new(),
            decimals: 0,
            total_supply,
            fee,
            fee_to,
            extend_info: Table::new(),
            balances: Table::new(),
            allowances: Table::new(),
            storage_canister_ids: Table::new(),
            txs: Vec::new(),
            next_tx_index,
        }
    }

    /// Sets the token up as the canister is installed: its canister, owner,
    /// logo, name, symbol, decimals, fee and the holder that fees go to.
    pub fn configure(
        &mut self,
        token_id: PrincipalId,
        owner: PrincipalId,
        logo: Option<Vec<u8>>,
        name: String,
        symbol: String,
        decimals: u8,
        fee: F,
        fee_to: Holder,
    )
        ensures
            final(self).token_id == token_id,
            final(self).owner == owner,
            final(self).logo == logo,
            final(self).name == name,
            final(self).symbol == symbol,
            final(self).decimals == decimals,
            final(self).fee == fee,
            final(self).fee_to == fee_to,
            final(self).total_supply == old(self).total_supply,
            final(self).extend_info == old(self).extend_info,
            final(self).balances == old(self).balances,
            final(self).allowances == old(self).allowances,
            final(self).storage_canister_ids == old(self).storage_canister_ids,
            final(self).txs == old(self).txs,
            final(self).next_tx_index == old(self).next_tx_index,
    {
        self.token_id = token_id;
        self.owner = owner;
        self.logo = logo;
        self.name = name;
        self.symbol = symbol;
        self.decimals = decimals;
        self.fee = fee;
        self.fee_to = fee_to;
    }

    /// Saves the state as the payload written before an upgrade. `meta` is the
    /// token's metadata and `stored` the transactions kept apart from the state;
    /// a missing logo is saved as no bytes.
    pub fn into_payload(self, meta: Metadata<F, A>, stored: Vec<T>) -> (p: TokenPayload<F, T, A>)
        ensures
            is_snapshot_of(p, self, meta, stored@),
    {
        let logo = match self.logo {
            Some(l) => l,
            None => Vec::new(),
        };
        let extend = self.extend_info.into_pairs();
        let balances = self.balances.into_pairs();
        let storage_canister_ids = self.storage_canister_ids.into_pairs();
        let outer = self.allowances.into_pairs();
        let allowances = nested_pairs(outer);
        TokenPayload {
            owner: self.owner,
            fee_to: self.fee_to,
            meta,
            extend,
            logo,
            balances,
            allowances,
            tx_index_cursor: self.next_tx_index,
            storage_canister_ids,
            txs_inner: stored,
        }
    }

    /// Restores a saved payload into the state after an upgrade, the canister
    /// being `token_id`. Entries are inserted in the order saved, over what the
    /// state holds; the saved transactions go after those it holds. The saved
    /// transaction cursor is not read.
    pub fn restore(&mut self, token_id: PrincipalId, payload: TokenPayload<F, T, A>)
        ensures
            is_restored_from(*final(self), *old(self), token_id, payload),
    {
        let TokenPayload {
            owner,
            fee_to,
            meta,
            extend,
            logo,
            balances,
            allowances,
            tx_index_cursor: _,
            storage_canister_ids,
            txs_inner,
        } = payload;
        let Metadata { name, symbol, decimals, total_supply: _, fee } = meta;
        self.token_id = token_id;
        self.owner = owner;
        self.logo = Some(logo);
        self.name = name;
        self.symbol = symbol;
        self.decimals = decimals;
        self.fee = fee;
        self.fee_to = fee_to;
        self.extend_info.insert_all(extend);
        self.balances.insert_all(balances);
        insert_nested_all(&mut self.allowances, allowances);
        self.storage_canister_ids.insert_all(storage_canister_ids);
        let mut more = txs_inner;
        self.txs.append(&mut more);
    }
}

/// Gives up each inner table of the allowances as its pairs.
fn nested_pairs<A>(outer: Vec<(Holder, Table<Holder, A>)>) -> (r: Vec<(Holder, Vec<(Holder, A)>)>)
    requires
        keys_distinct(outer@),
    ensures
        r.len() == outer.len(),
        forall|j: int| 0 <= j < r@.len() ==> (#[trigger] r@[j]).0 == outer@[j].0 && r@[j].1@
            == outer@[j].1.pairs(),
        keys_distinct(r@),
        forall|j: int| 0 <= j < r@.len() ==> keys_distinct(#[trigger] r@[j].1@),
        insert_nested(Map::empty(), r@) == Map::new(
            |k: (bool, Seq<u8>)| pairs_to_map(outer@).dom().contains(k),
            |k: (bool, Seq<u8>)| pairs_to_map(outer@)[k]@,
        ),
{
    let ghost all = outer@;
    let n = outer.len();
    let mut rest = reversed(outer);
    let mut r: Vec<(Holder, Vec<(Holder, A)>)> = Vec::new();
    let mut i: usize = 0;
    while i < n
        invariant
            n == all.len(),
            i <= n,
            keys_distinct(all),
            rest.len() == n - i,
            forall|j: int| 0 <= j < n - i ==> #[trigger] rest@[j] == all[n - 1 - j],
            r.len() == i,
            forall|j: int| 0 <= j < i ==> (#[trigger] r@[j]).0 == all[j].0,
            forall|j: int| 0 <= j < i ==> keys_distinct(#[trigger] r@[j].1@),
            forall|j: int| 0 <= j < i ==> (#[trigger] r@[j]).1@ == all[j].1.pairs(),
            forall|j: int| 0 <= j < i ==> pairs_to_map(#[trigger] r@[j].1@) == all[j].1@,
        decreases n - i,
    {
        let p = rest.pop().unwrap();
        proof {
            assert(p == all[i as int]);
        }
        let (k, t) = p;
        let inner = t.into_pairs();
        r.push((k, inner));
        i = i + 1;
    }
    proof {
        assert forall|a: int, b: int| 0 <= a < b < r@.len() implies r@[a].0@ != r@[b].0@ by {
            assert(all[a].0@ != all[b].0@);
        }
        lemma_nested_matches(r@, all);
    }
    r
}

/// The nested map built from the pairs is the map of the tables, their keys
/// and inner maps being alike.
proof fn lemma_nested_matches<A>(
    r: Seq<(Holder, Vec<(Holder, A)>)>,
    all: Seq<(Holder, Table<Holder, A>)>,
)
    requires
        r.len() == all.len(),
        forall|j: int| 0 <= j < r.len() ==> (#[trigger] r[j]).0 == all[j].0,
        forall|j: int| 0 <= j < r.len() ==> pairs_to_map(#[trigger] r[j].1@) == all[j].1@,
    ensures
        insert_nested(Map::empty(), r) == Map::new(
            |k: (bool, Seq<u8>)| pairs_to_map(all).dom().contains(k),
            |k: (bool, Seq<u8>)| pairs_to_map(all)[k]@,
        ),
    decreases r.len(),
{
    if r.len() > 0 {
        let r0 = r.drop_last();
        let a0 = all.drop_last();
        assert forall|j: int| 0 <= j < r0.len() implies (#[trigger] r0[j]).0 == a0[j].0 by {
            assert(r[j].0 == all[j].0);
        }
        assert forall|j: int| 0 <= j < r0.len() implies pairs_to_map(#[trigger] r0[j].1@)
            == a0[j].1@ by {
            assert(pairs_to_map(r[j].1@) == all[j].1@);
        }
        lemma_nested_matches(r0, a0);
        assert(r.last().0 == all.last().0);
        assert(insert_nested(Map::empty(), r) =~= Map::new(
            |k: (bool, Seq<u8>)| pairs_to_map(all).dom().contains(k),
            |k: (bool, Seq<u8>)| pairs_to_map(all)[k]@,
        ));
    } else {
        assert(insert_nested(Map::empty(), r) =~= Map::new(
            |k: (bool, Seq<u8>)| pairs_to_map(all).dom().contains(k),
            |k: (bool, Seq<u8>)| pairs_to_map(all)[k]@,
        ));
    }
}

/// Inserts each owner with a table of its spender pairs, first to last.
fn insert_nested_all<A>(
    table: &mut Table<Holder, Table<Holder, A>>,
    pairs: Vec<(Holder, Vec<(Holder, A)>)>,
)
    ensures
        allowances_view(*final(table)) == insert_nested(allowances_view(*old(table)), pairs@),
{
    let ghost start = allowances_view(*table);
    let ghost all = pairs@;
    let n = pairs.len();
    let mut rest = reversed(pairs);
    let mut i: usize = 0;
    while i < n
        invariant
            n == all.len(),
            i <= n,
            rest.len() == n - i,
            forall|j: int| 0 <= j < n - i ==> #[trigger] rest@[j] == all[n - 1 - j],
            allowances_view(*table) == insert_nested(start, all.take(i as int)),
        decreases n - i,
    {
        let p = rest.pop().unwrap();
        proof {
            assert(p == all[i as int]);
            assert(all.take(i + 1).drop_last() =~= all.take(i as int));
        }
        let ghost before = allowances_view(*table);
        let (k, v) = p;
        let inner = Table::from_pairs(v);
        table.insert(k, inner);
        proof {
            assert(allowances_view(*table) =~= before.insert(p.0@, pairs_to_map(p.1@)));
        }
        i = i + 1;
    }
    proof {
        assert(all.take(n as int) =~= all);
    }
}

/// A saved state, restored into a blank one, gives back its owner, fee
/// holder, entries and allowances; name, symbol, decimals and fee come from
/// the saved metadata, and so are the state's own where the metadata holds
/// them; the logo comes back present (as no bytes where there was none), and
/// the transactions are those saved.
pub proof fn lemma_upgrade_round_trip<F, T, A>(
    s: TokenState<F, T, A>,
    meta: Metadata<F, A>,
    stored: Seq<T>,
    p: TokenPayload<F, T, A>,
    blank: TokenState<F, T, A>,
    token_id: PrincipalId,
    after: TokenState<F, T, A>,
)
    requires
        is_snapshot_of(p, s, meta, stored),
        is_blank(blank),
        is_restored_from(after, blank, token_id, p),
    ensures
        after.token_id == token_id,
        after.owner == s.owner,
        after.fee_to == s.fee_to,
        after.logo is Some,
        after.logo->0@ == logo_bytes(s.logo),
        after.name == meta.name,
        after.symbol == meta.symbol,
        after.decimals == meta.decimals,
        after.fee == meta.fee,
        after.extend_info@ == s.extend_info@,
        after.balances@ == s.balances@,
        allowances_view(after.allowances) == allowances_view(s.allowances),
        after.storage_canister_ids@ == s.storage_canister_ids@,
        after.txs@ == stored,
        meta.name == s.name ==> after.name == s.name,
        meta.symbol == s.symbol ==> after.symbol == s.symbol,
        meta.decimals == s.decimals ==> after.decimals == s.decimals,
        meta.fee == s.fee ==> after.fee == s.fee,
{
    assert(allowances_view(blank.allowances) =~= Map::empty());
    assert(blank.txs@ + p.txs_inner@ =~= stored);
}

} // verus!
