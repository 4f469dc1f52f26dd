use dft_basic::natural::Natural;
use dft_basic::table::{Table, TableKey};

fn natural(x: u128) -> Natural {
    Natural::from_le_bytes(x.to_le_bytes().to_vec())
}

#[test]
fn digits_are_kept_without_leading_zeros() {
    assert_eq!(natural(0).to_le_bytes(), Vec::<u8>::new());
    assert_eq!(Natural::zero(), natural(0));
    assert_eq!(natural(300).to_le_bytes(), vec![0x2c, 0x01]);
    assert_eq!(Natural::from_le_bytes(vec![5, 0, 0, 0]).to_le_bytes(), vec![5]);
    assert_eq!(Natural::from_le_bytes(vec![0, 0]), Natural::zero());
}

#[test]
fn numbers_compare_by_value() {
    assert_eq!(natural(5).compare(&natural(5)), 0);
    assert!(natural(256).compare(&natural(255)) > 0);
    assert!(natural(255).compare(&natural(256)) < 0);
    assert!(natural(0x0102).compare(&natural(0x0201)) < 0);
    assert!(natural(7).at_least(&natural(7)));
    assert!(!natural(6).at_least(&natural(7)));
    let beyond = Natural::from_le_bytes(vec![0xff; 17]);
    assert!(beyond.at_least(&natural(u128::MAX)));
    assert!(!natural(u128::MAX).at_least(&beyond));
}

#[test]
fn numbers_key_tables_by_value() {
    assert!(natural(9).same_key(&Natural::from_le_bytes(vec![9, 0])));
    assert!(!natural(9).same_key(&natural(10)));
    assert_eq!(natural(77).copy_key(), natural(77));
    let mut t: Table<Natural, u8> = Table::new();
    t.insert(natural(1), 1);
    t.insert(Natural::from_le_bytes(vec![1, 0, 0]), 2);
    assert_eq!(t.len(), 1);
    assert_eq!(t.get(&natural(1)), Some(&2));
}
