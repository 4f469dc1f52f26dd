use dft_basic::holder::Holder;
use dft_basic::table::{reversed, Table};

fn s(x: &str) -> String {
    x.to_string()
}

#[test]
fn insert_then_get_gives_the_value() {
    let mut t: Table<String, String> = Table::new();
    assert_eq!(t.len(), 0);
    assert_eq!(t.get(&s("a")), None);
    t.insert(s("a"), s("1"));
    t.insert(s("b"), s("2"));
    assert_eq!(t.get(&s("a")), Some(&s("1")));
    assert_eq!(t.get(&s("b")), Some(&s("2")));
    assert_eq!(t.get(&s("c")), None);
}

#[test]
fn insert_of_present_key_replaces_in_place() {
    let mut t: Table<u128, u128> = Table::new();
    t.insert(7, 70);
    t.insert(3, 30);
    t.insert(7, 71);
    assert_eq!(t.len(), 2);
    assert_eq!(t.entries(), &vec![(7u128, 71u128), (3, 30)]);
    assert_eq!(t.into_pairs(), vec![(7u128, 71u128), (3, 30)]);
}

#[test]
fn from_pairs_lets_later_pairs_win() {
    let t = Table::from_pairs(vec![(s("k"), s("old")), (s("j"), s("x")), (s("k"), s("new"))]);
    assert_eq!(t.len(), 2);
    assert_eq!(t.get(&s("k")), Some(&s("new")));
    assert_eq!(t.get(&s("j")), Some(&s("x")));
}

#[test]
fn insert_all_goes_over_existing_entries() {
    let mut t: Table<Holder, u128> = Table::new();
    t.insert(Holder::Account(vec![1]), 5);
    t.insert_all(vec![(Holder::Account(vec![2]), 6), (Holder::Account(vec![1]), 9)]);
    assert_eq!(t.get(&Holder::Account(vec![1])), Some(&9));
    assert_eq!(t.get(&Holder::Account(vec![2])), Some(&6));
    assert_eq!(t.len(), 2);
}

#[test]
fn reversed_reverses() {
    assert_eq!(reversed(vec![1, 2, 3]), vec![3, 2, 1]);
    assert_eq!(reversed(Vec::<u8>::new()), Vec::<u8>::new());
}
