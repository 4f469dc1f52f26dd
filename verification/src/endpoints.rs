//! The decisions of the canister's endpoints: which requests are refused
//! before the ledger sees them, what a transaction answers, and the defaults
//! that queries fall back on.

use vstd::prelude::*;
use crate::calls::CallData;
use crate::holder::Holder;
use crate::principal::PrincipalId;
use crate::table::{Table, keys_distinct, lemma_insert_pairs_dom, pairs_to_map};

verus! {

/// Why a transaction was refused.
#[derive(Debug, PartialEq, Eq)]
pub enum TxError {
    /// The spender does not parse as a holder.
    InvalidSpender,
    /// The sender, or for a transfer the receiver, does not parse as a holder.
    InvalidFrom,
    /// The receiver of a transfer on behalf of another does not parse as a holder.
    InvalidTo,
    /// The ledger refused the transaction, with this message.
    Ledger(String),
}

/// The answer to a transaction that the ledger took.
#[derive(Debug, PartialEq, Eq)]
pub struct TxResponse {
    /// The transaction's identifier.
    pub txid: String,
    /// What went wrong after the ledger took it, where anything did.
    pub error: Option<Vec<String>>,
}

/// What a transaction endpoint answers.
#[derive(Debug, PartialEq, Eq)]
pub enum TxResult {
    /// The ledger took the transaction.
    Accepted(TxResponse),
    /// The transaction was refused.
    Refused(TxError),
}

/// An approval needs a spender that parses.
pub fn check_approve(spender_parsed: bool) -> (r: Result<(), TxError>)
    ensures
        spender_parsed ==> r is Ok,
        !spender_parsed ==> r == Err::<(), TxError>(TxError::InvalidSpender),
{
    if spender_parsed {
        Ok(())
    } else {
        Err(TxError::InvalidSpender)
    }
}

/// A transfer needs a receiver that parses; one that does not is answered as
/// an invalid sender.
pub fn check_transfer(receiver_parsed: bool) -> (r: Result<(), TxError>)
    ensures
        receiver_parsed ==> r is Ok,
        !receiver_parsed ==> r == Err::<(), TxError>(TxError::InvalidFrom),
{
    if receiver_parsed {
        Ok(())
    } else {
        Err(TxError::InvalidFrom)
    }
}

/// A transfer on behalf of another needs a sender that parses, then a
/// receiver that parses.
pub fn check_transfer_from(from_parsed: bool, to_parsed: bool) -> (r: Result<(), TxError>)
    ensures
        !from_parsed ==> r == Err::<(), TxError>(TxError::InvalidFrom),
        from_parsed && !to_parsed ==> r == Err::<(), TxError>(TxError::InvalidTo),
        from_parsed && to_parsed ==> r is Ok,
{
    if !from_parsed {
        Err(TxError::InvalidFrom)
    } else if !to_parsed {
        Err(TxError::InvalidTo)
    } else {
        Ok(())
    }
}

/// The ledger's answer to a transaction: its index, or its refusal passed on.
pub fn ledger_outcome<I>(r: Result<I, String>) -> (o: Result<I, TxError>)
    ensures
        match r {
            Ok(i) => o == Ok::<I, TxError>(i),
            Err(m) => o == Err::<I, TxError>(TxError::Ledger(m)),
        },
{
    match r {
        Ok(i) => Ok(i),
        Err(m) => Err(TxError::Ledger(m)),
    }
}

/// The failures after a transaction, in order: that of moving transactions to
/// storage, then that of the call the transaction carried.
pub open spec fn failures(scaling: Result<(), String>, call: Option<Result<bool, String>>) -> Seq<String> {
    let a = match scaling {
        Ok(_) => Seq::<String>::empty(),
        Err(e) => seq![e],
    };
    let b = match call {
        Some(Err(e)) => seq![e],
        _ => Seq::<String>::empty(),
    };
    a + b
}

/// How the failures after a transaction are made up: a failure to move
/// transactions to storage always comes first, whatever the carried call gave;
/// a carried call that succeeded adds and removes nothing; a carried call that
/// failed adds its failure last; nothing else is listed.
pub proof fn lemma_failures_compose(
    scaling: Result<(), String>,
    call: Option<Result<bool, String>>,
    e: String,
    b: bool,
)
    ensures
        failures(Err(e), call) == seq![e] + failures(Ok(()), call),
        failures(scaling, Some(Ok(b))) == failures(scaling, None),
        failures(scaling, Some(Err(e))) == failures(scaling, None).push(e),
        failures(Ok(()), None) == Seq::<String>::empty(),
        failures(Err(e), None) == seq![e],
{
    assert(failures(Err(e), call) =~= seq![e] + failures(Ok(()), call));
    assert(failures(scaling, Some(Ok(b))) =~= failures(scaling, None));
    assert(failures(scaling, Some(Err(e))) =~= failures(scaling, None).push(e));
    assert(failures(Ok(()), None) =~= Seq::<String>::empty());
    assert(failures(Err(e), None) =~= seq![e]);
}

/// The answer to a transaction reports a failure to move transactions to
/// storage, first in its list, whatever the carried call gave; and where
/// nothing failed it lists nothing.
pub proof fn lemma_answer_reports_scaling_failure(
    r: TxResult,
    txid: String,
    e: String,
    call: Option<Result<bool, String>>,
)
    ensures
        is_answer(r, txid, Err(e), call) ==> (r matches TxResult::Accepted(resp) && resp.txid == txid
            && (resp.error matches Some(list) && list@.len() >= 1 && list@[0] == e)),
        is_answer(r, txid, Ok(()), None) ==> (r matches TxResult::Accepted(resp) && resp.error is None),
        forall|b: bool|
            is_answer(r, txid, Ok(()), Some(Ok(b))) ==> (r matches TxResult::Accepted(resp)
                && resp.error is None),
{
    lemma_failures_compose(Err(e), call, e, true);
    lemma_failures_compose(Ok(()), None, e, true);
    assert forall|b: bool| is_answer(r, txid, Ok(()), Some(Ok(b))) implies (r matches TxResult::Accepted(
        resp,
    ) && resp.error is None) by {
        lemma_failures_compose(Ok(()), None, e, b);
    }
}

/// Collects the failures after a transaction.
pub fn collect_failures(scaling: Result<(), String>, call: Option<Result<bool, String>>) -> (v: Vec<String>)
    ensures
        v@ == failures(scaling, call),
{
    let ghost sc = scaling;
    let ghost ca = call;
    let mut v: Vec<String> = Vec::new();
    match scaling {
        Ok(_) => {},
        Err(e) => {
            v.push(e);
        },
    }
    match call {
        Some(Err(e)) => {
            v.push(e);
        },
        _ => {},
    }
    proof {
        assert(v@ =~= failures(sc, ca));
    }
    v
}

/// The answer to a transaction that the ledger took: its identifier, and the
/// failures after it where there are any.
pub fn respond(txid: String, errors: Vec<String>) -> (r: TxResponse)
    ensures
        r.txid == txid,
        errors.len() > 0 ==> r.error == Some(errors),
        errors.len() == 0 ==> r.error is None,
{
    let error = if errors.len() > 0 {
        Some(errors)
    } else {
        None
    };
    TxResponse { txid, error }
}

/// `r` answers a transaction that the ledger took: it carries the
/// transaction's identifier, and the list of failures after it where there
/// are any.
pub open spec fn is_answer(
    r: TxResult,
    txid: String,
    scaling: Result<(), String>,
    call: Option<Result<bool, String>>,
) -> bool {
    r matches TxResult::Accepted(resp) && resp.txid == txid && (if failures(scaling, call).len() > 0 {
        resp.error matches Some(e) && e@ == failures(scaling, call)
    } else {
        resp.error is None
    })
}

/// What follows a transaction that the ledger took, once transactions were
/// moved to storage: an approval's carried call goes to the spender, a
/// transfer's to the receiver; a transfer on behalf of another carries none.
pub enum FollowUp {
    Approve { spender: Holder },
    Transfer { receiver: Holder },
    TransferFrom,
}

/// The next step of a transaction after moving transactions to storage.
#[derive(Debug, PartialEq, Eq)]
pub enum TxStep {
    /// Make the carried call on `target`; then answer from the identifier,
    /// the outcome of moving transactions, and the call's outcome.
    Call { target: Holder, data: CallData, txid: String, scaling: Result<(), String> },
    /// Answer the request so.
    Answer(TxResult),
}

/// After moving transactions to storage: make the carried call, where the
/// request carries one and its endpoint makes it, else answer.
pub fn after_scaling(
    follow: FollowUp,
    call_data: Option<CallData>,
    txid: String,
    scaling: Result<(), String>,
) -> (s: TxStep)
    ensures
        match (follow, call_data) {
            (FollowUp::Approve { spender }, Some(d)) => s == (TxStep::Call {
                target: spender,
                data: d,
                txid,
                scaling,
            }),
            (FollowUp::Transfer { receiver }, Some(d)) => s == (TxStep::Call {
                target: receiver,
                data: d,
                txid,
                scaling,
            }),
            _ => s matches TxStep::Answer(r) && is_answer(r, txid, scaling, None),
        },
{
    match (follow, call_data) {
        (FollowUp::Approve { spender }, Some(d)) => TxStep::Call { target: spender, data: d, txid, scaling },
        (FollowUp::Transfer { receiver }, Some(d)) => TxStep::Call {
            target: receiver,
            data: d,
            txid,
            scaling,
        },
        _ => TxStep::Answer(finish_transaction(txid, scaling, None)),
    }
}

/// The answer to a transaction that the ledger took, from its identifier, the
/// outcome of moving transactions to storage, and that of the call it carried
/// where it carried one.
pub fn finish_transaction(
    txid: String,
    scaling: Result<(), String>,
    call: Option<Result<bool, String>>,
) -> (r: TxResult)
    ensures
        is_answer(r, txid, scaling, call),
{
    let errors = collect_failures(scaling, call);
    TxResult::Accepted(respond(txid, errors))
}

/// An amount that a query found, or zero where the holder did not parse.
pub fn amount_or_zero<A>(found: Option<A>, zero: A) -> (a: A)
    ensures
        a == match found {
            Some(x) => x,
            None => zero,
        },
{
    match found {
        Some(x) => x,
        None => zero,
    }
}

/// The allowances that a query found, or none where the holder did not parse.
pub fn allowances_or_none<A>(found: Option<Vec<(Holder, A)>>) -> (v: Vec<(Holder, A)>)
    ensures
        v@ == match found {
            Some(x) => x@,
            None => Seq::empty(),
        },
{
    match found {
        Some(x) => x,
        None => Vec::new(),
    }
}

/// The token's logo, or no bytes where it has none.
pub fn logo_or_empty(logo: &Option<Vec<u8>>) -> (v: Vec<u8>)
    ensures
        v@ == match logo {
            Some(l) => l@,
            None => Seq::empty(),
        },
{
    match logo {
        Some(l) => l.clone(),
        None => Vec::new(),
    }
}

/// The principal that a token is installed for: the one given, else the caller.
pub fn installing_principal(given: Option<PrincipalId>, caller: PrincipalId) -> (p: PrincipalId)
    ensures
        p == match given {
            Some(g) => g,
            None => caller,
        },
{
    match given {
        Some(g) => g,
        None => caller,
    }
}

/// The holder that fees go to from now on; a request whose holder does not
/// parse is refused.
pub fn fee_holder(parsed: Option<Holder>) -> (r: Result<Holder, ()>)
    ensures
        match parsed {
            Some(h) => r == Ok::<Holder, ()>(h),
            None => r is Err,
        },
{
    match parsed {
        Some(h) => Ok(h),
        None => Err(()),
    }
}

/// The extend info that a request sets: its pairs, a later one winning over
/// an earlier one with the same key.
pub fn extend_info_from(pairs: Vec<(String, String)>) -> (t: Table<String, String>)
    ensures
        t@ == pairs_to_map(pairs@),
{
    Table::from_pairs(pairs)
}

/// The extend info as pairs, each key once, in the order first set.
pub fn extend_info_pairs(t: &Table<String, String>) -> (v: Vec<(String, String)>)
    ensures
        v@ == t.pairs(),
        keys_distinct(v@),
        pairs_to_map(v@) == t@,
{
    let e = t.entries();
    let n = e.len();
    let mut v: Vec<(String, String)> = Vec::new();
    let mut i: usize = 0;
    while i < n
        invariant
            n == e@.len(),
            i <= n,
            v@ == e@.take(i as int),
        decreases n - i,
    {
        let (k, x) = &e[i];
        v.push((k.clone(), x.clone()));
        proof {
            assert(v@ =~= e@.take(i + 1));
        }
        i = i + 1;
    }
    proof {
        assert(e@.take(n as int) =~= e@);
    }
    v
}

/// Extend info that is set and then read back describes the pairs that were
/// set, a later pair winning over an earlier one with the same key: each key
/// that was set is read exactly once, with the last value set for it, and no
/// other key is read.
pub proof fn lemma_extend_info_round_trip(
    set: Seq<(String, String)>,
    stored: Table<String, String>,
    read: Seq<(String, String)>,
)
    requires
        stored@ == pairs_to_map(set),
        keys_distinct(read),
        pairs_to_map(read) == stored@,
    ensures
        pairs_to_map(read) == pairs_to_map(set),
        forall|i: int|
            0 <= i < set.len() ==> exists|j: int|
                0 <= j < read.len() && #[trigger] read[j].0@ == (#[trigger] set[i]).0@,
        forall|j: int|
            0 <= j < read.len() ==> exists|i: int|
                0 <= i < set.len() && #[trigger] set[i].0@ == (#[trigger] read[j]).0@,
        forall|i: int, j: int|
            0 <= i < set.len() && 0 <= j < read.len() && #[trigger] set[i].0@ == #[trigger] read[j].0@
                && (forall|l: int| i < l < set.len() ==> set[l].0@ != set[i].0@) ==> read[j].1
                == set[i].1,
{
    assert forall|i: int| 0 <= i < set.len() implies exists|j: int|
        0 <= j < read.len() && #[trigger] read[j].0@ == (#[trigger] set[i]).0@ by {
        lemma_insert_pairs_dom(Map::empty(), set, set[i].0@);
        lemma_insert_pairs_dom(Map::empty(), read, set[i].0@);
    }
    assert forall|j: int| 0 <= j < read.len() implies exists|i: int|
        0 <= i < set.len() && #[trigger] set[i].0@ == (#[trigger] read[j]).0@ by {
        lemma_insert_pairs_dom(Map::empty(), set, read[j].0@);
        lemma_insert_pairs_dom(Map::empty(), read, read[j].0@);
    }
    assert forall|i: int, j: int|
        0 <= i < set.len() && 0 <= j < read.len() && #[trigger] set[i].0@ == #[trigger] read[j].0@
            && (forall|l: int| i < l < set.len() ==> set[l].0@ != set[i].0@) implies read[j].1
        == set[i].1 by {
        lemma_last_wins(Map::empty(), set, i);
        crate::table::lemma_pairs_lookup(Map::empty(), read, j);
    }
}

/// A pair that no later pair overrides gives its key its value.
proof fn lemma_last_wins<K: View, V>(m: Map<K::V, V>, s: Seq<(K, V)>, i: int)
    requires
        0 <= i < s.len(),
        forall|l: int| i < l < s.len() ==> s[l].0@ != s[i].0@,
    ensures
        crate::table::insert_pairs(m, s).dom().contains(s[i].0@),
        crate::table::insert_pairs(m, s)[s[i].0@] == s[i].1,
    decreases s.len(),
{
    if i < s.len() - 1 {
        assert forall|l: int| i < l < s.drop_last().len() implies s.drop_last()[l].0@ != s[i].0@ by {
            assert(s[l].0@ != s[i].0@);
        }
        lemma_last_wins(m, s.drop_last(), i);
    }
}

} // verus!
