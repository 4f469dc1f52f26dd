use dft_basic::calls::CallData;
use dft_basic::endpoints::{
    after_scaling, allowances_or_none, FollowUp, TxStep, amount_or_zero, check_approve, check_transfer, check_transfer_from, collect_failures,
    extend_info_from, extend_info_pairs, fee_holder, finish_transaction, installing_principal, ledger_outcome,
    logo_or_empty, respond, TxError, TxResponse, TxResult,
};
use dft_basic::holder::Holder;
use dft_basic::principal::PrincipalId;

fn pid(b: &[u8]) -> PrincipalId {
    PrincipalId::from_bytes(b.to_vec())
}

#[test]
fn unparsed_holders_are_refused() {
    assert_eq!(check_approve(true), Ok(()));
    assert_eq!(check_approve(false), Err(TxError::InvalidSpender));
    assert_eq!(check_transfer(true), Ok(()));
    assert_eq!(check_transfer(false), Err(TxError::InvalidFrom));
    assert_eq!(check_transfer_from(true, true), Ok(()));
    assert_eq!(check_transfer_from(false, true), Err(TxError::InvalidFrom));
    assert_eq!(check_transfer_from(false, false), Err(TxError::InvalidFrom));
    assert_eq!(check_transfer_from(true, false), Err(TxError::InvalidTo));
}

#[test]
fn ledger_refusal_is_passed_on() {
    assert_eq!(ledger_outcome(Ok(17u128)), Ok(17));
    assert_eq!(ledger_outcome::<u128>(Err("insufficient".to_string())), Err(TxError::Ledger("insufficient".to_string())));
}

#[test]
fn clean_transaction_has_no_error_list() {
    let r = finish_transaction("tx1".to_string(), Ok(()), None);
    assert_eq!(r, TxResult::Accepted(TxResponse { txid: "tx1".to_string(), error: None }));
    let r = finish_transaction("tx2".to_string(), Ok(()), Some(Ok(true)));
    assert_eq!(r, TxResult::Accepted(TxResponse { txid: "tx2".to_string(), error: None }));
}

#[test]
fn failures_are_listed_in_order() {
    let r = finish_transaction("tx".to_string(), Err("scale".to_string()), Some(Err("call".to_string())));
    assert_eq!(
        r,
        TxResult::Accepted(TxResponse {
            txid: "tx".to_string(),
            error: Some(vec!["scale".to_string(), "call".to_string()])
        })
    );
    let r = finish_transaction("tx".to_string(), Ok(()), Some(Err("call".to_string())));
    assert_eq!(r, TxResult::Accepted(TxResponse { txid: "tx".to_string(), error: Some(vec!["call".to_string()]) }));
    assert_eq!(collect_failures(Err("s".to_string()), None), vec!["s".to_string()]);
    assert_eq!(respond("t".to_string(), vec![]).error, None);
}

#[test]
fn query_defaults() {
    assert_eq!(amount_or_zero(Some(5u128), 0), 5);
    assert_eq!(amount_or_zero(None, 0u128), 0);
    assert_eq!(allowances_or_none::<u128>(None), vec![]);
    assert_eq!(allowances_or_none(Some(vec![(Holder::Account(vec![1]), 3)])), vec![(Holder::Account(vec![1]), 3)]);
    assert_eq!(logo_or_empty(&None), Vec::<u8>::new());
    assert_eq!(logo_or_empty(&Some(vec![1, 2])), vec![1, 2]);
}

#[test]
fn installer_defaults_to_the_caller() {
    assert_eq!(installing_principal(Some(pid(&[1])), pid(&[2])), pid(&[1]));
    assert_eq!(installing_principal(None, pid(&[2])), pid(&[2]));
}

#[test]
fn fee_holder_must_parse() {
    assert_eq!(fee_holder(Some(Holder::Account(vec![4]))), Ok(Holder::Account(vec![4])));
    assert_eq!(fee_holder(None), Err(()));
}

#[test]
fn extend_info_set_then_read() {
    let t = extend_info_from(vec![
        ("a".to_string(), "1".to_string()),
        ("b".to_string(), "2".to_string()),
        ("a".to_string(), "3".to_string()),
    ]);
    assert_eq!(
        extend_info_pairs(&t),
        vec![("a".to_string(), "3".to_string()), ("b".to_string(), "2".to_string())]
    );
    assert_eq!(extend_info_pairs(&extend_info_from(vec![])), vec![]);
}

#[test]
fn carried_call_follows_scaling_for_approve_and_transfer_only() {
    let data = || CallData { method: "m".to_string(), args: vec![9] };
    let spender = Holder::Account(vec![2]);
    let receiver = Holder::Principal(pid(&[3]));
    assert_eq!(
        after_scaling(FollowUp::Approve { spender: spender.clone() }, Some(data()), "t".to_string(), Ok(())),
        TxStep::Call { target: spender.clone(), data: data(), txid: "t".to_string(), scaling: Ok(()) }
    );
    assert_eq!(
        after_scaling(FollowUp::Transfer { receiver: receiver.clone() }, Some(data()), "t".to_string(), Err("s".to_string())),
        TxStep::Call { target: receiver.clone(), data: data(), txid: "t".to_string(), scaling: Err("s".to_string()) }
    );
    assert_eq!(
        after_scaling(FollowUp::Approve { spender }, None, "t".to_string(), Ok(())),
        TxStep::Answer(TxResult::Accepted(TxResponse { txid: "t".to_string(), error: None }))
    );
    assert_eq!(
        after_scaling(FollowUp::TransferFrom, Some(data()), "t".to_string(), Err("s".to_string())),
        TxStep::Answer(TxResult::Accepted(TxResponse { txid: "t".to_string(), error: Some(vec!["s".to_string()]) }))
    );
    assert_eq!(
        after_scaling(FollowUp::Transfer { receiver }, None, "t".to_string(), Ok(())),
        TxStep::Answer(TxResult::Accepted(TxResponse { txid: "t".to_string(), error: None }))
    );
}
