use dft_basic::holder::Holder;
use dft_basic::natural::Natural;
use dft_basic::principal::PrincipalId;
use dft_basic::state::{Metadata, TokenState};
use dft_basic::table::Table;

fn pid(b: &[u8]) -> PrincipalId {
    PrincipalId::from_bytes(b.to_vec())
}

fn acc(b: u8) -> Holder {
    Holder::Account(vec![b])
}

fn meta(fee: u32) -> Metadata<u32, u128> {
    Metadata { name: "Token".to_string(), symbol: "TKN".to_string(), decimals: 8, total_supply: 1000, fee }
}

fn sample() -> TokenState<u32, u64, u128> {
    let mut s = TokenState::blank(pid(&[1]), pid(&[2]), 10u32, acc(9), 1000u128, 0u128);
    s.configure(pid(&[1]), pid(&[2]), None, "Token".to_string(), "TKN".to_string(), 8, 10, acc(9));
    s.extend_info.insert("site".to_string(), "a".to_string());
    s.balances.insert(acc(1), 600);
    s.balances.insert(acc(2), 400);
    let mut inner = Table::new();
    inner.insert(acc(2), 50);
    s.allowances.insert(acc(1), inner);
    s.storage_canister_ids.insert(Natural::zero(), pid(&[7]));
    s.txs = vec![11, 12];
    s.next_tx_index = 2;
    s
}

#[test]
fn configure_sets_the_installed_fields() {
    let s = sample();
    assert_eq!(s.token_id, pid(&[1]));
    assert_eq!(s.owner, pid(&[2]));
    assert_eq!(s.name, "Token");
    assert_eq!(s.symbol, "TKN");
    assert_eq!(s.decimals, 8);
    assert_eq!(s.fee, 10);
    assert_eq!(s.fee_to, acc(9));
    assert_eq!(s.logo, None);
    assert_eq!(s.total_supply, 1000);
}

#[test]
fn snapshot_holds_the_state() {
    let p = sample().into_payload(meta(10), vec![99]);
    assert_eq!(p.owner, pid(&[2]));
    assert_eq!(p.fee_to, acc(9));
    assert_eq!(p.logo, Vec::<u8>::new());
    assert_eq!(p.extend, vec![("site".to_string(), "a".to_string())]);
    assert_eq!(p.balances, vec![(acc(1), 600), (acc(2), 400)]);
    assert_eq!(p.allowances, vec![(acc(1), vec![(acc(2), 50)])]);
    assert_eq!(p.storage_canister_ids, vec![(Natural::zero(), pid(&[7]))]);
    assert_eq!(p.tx_index_cursor, 2);
    assert_eq!(p.txs_inner, vec![99]);
    assert_eq!(p.meta.decimals, 8);
}

#[test]
fn upgrade_round_trip_restores_the_state() {
    let p = sample().into_payload(meta(10), vec![11, 12]);
    let mut fresh: TokenState<u32, u64, u128> = TokenState::blank(pid(&[0]), pid(&[0]), 0, acc(0), 0, 0);
    fresh.restore(pid(&[1]), p);
    assert_eq!(fresh.token_id, pid(&[1]));
    assert_eq!(fresh.owner, pid(&[2]));
    assert_eq!(fresh.fee_to, acc(9));
    assert_eq!(fresh.name, "Token");
    assert_eq!(fresh.symbol, "TKN");
    assert_eq!(fresh.decimals, 8);
    assert_eq!(fresh.fee, 10);
    assert_eq!(fresh.logo, Some(Vec::new()));
    assert_eq!(fresh.extend_info.get(&"site".to_string()), Some(&"a".to_string()));
    assert_eq!(fresh.balances.get(&acc(1)), Some(&600));
    assert_eq!(fresh.balances.get(&acc(2)), Some(&400));
    assert_eq!(fresh.allowances.get(&acc(1)).unwrap().get(&acc(2)), Some(&50));
    assert_eq!(fresh.storage_canister_ids.get(&Natural::zero()), Some(&pid(&[7])));
    assert_eq!(fresh.txs, vec![11, 12]);
}

#[test]
fn restore_keeps_the_cursor_and_appends_transactions() {
    let mut s = sample();
    let p = sample().into_payload(meta(10), vec![13]);
    s.next_tx_index = 5;
    s.restore(pid(&[1]), p);
    assert_eq!(s.next_tx_index, 5);
    assert_eq!(s.txs, vec![11, 12, 13]);
    assert_eq!(s.balances.len(), 2);
}

#[test]
fn present_logo_survives_an_upgrade() {
    let mut s = sample();
    s.logo = Some(vec![1, 2, 3]);
    let p = s.into_payload(meta(10), vec![]);
    assert_eq!(p.logo, vec![1, 2, 3]);
    let mut fresh: TokenState<u32, u64, u128> = TokenState::blank(pid(&[0]), pid(&[0]), 0, acc(0), 0, 0);
    fresh.restore(pid(&[1]), p);
    assert_eq!(fresh.logo, Some(vec![1, 2, 3]));
}
