use dft_basic::holder::Holder;
use dft_basic::principal::{bytes_equal, copy_bytes, PrincipalId};

fn pid(b: &[u8]) -> PrincipalId {
    PrincipalId::from_bytes(b.to_vec())
}

#[test]
fn anonymous_principal_is_its_tag() {
    let a = PrincipalId::anonymous();
    assert_eq!(a.bytes, vec![4u8]);
    assert!(a.is_anonymous());
    assert!(!pid(&[4, 0]).is_anonymous());
    assert!(!pid(&[]).is_anonymous());
}

#[test]
fn principals_compare_by_bytes() {
    assert!(pid(&[1, 2, 3]).same_as(&pid(&[1, 2, 3])));
    assert!(!pid(&[1, 2, 3]).same_as(&pid(&[1, 2])));
    assert!(!pid(&[1, 2, 3]).same_as(&pid(&[1, 2, 4])));
    assert!(bytes_equal(&vec![], &vec![]));
    assert_eq!(copy_bytes(&vec![9, 8, 7]), vec![9, 8, 7]);
    assert_eq!(pid(&[5, 6]).duplicate(), pid(&[5, 6]));
}

#[test]
fn holders_of_different_kinds_differ() {
    let acc = Holder::Account(vec![1, 2]);
    let pri = Holder::Principal(pid(&[1, 2]));
    assert!(!acc.same_as(&pri));
    assert!(acc.same_as(&Holder::Account(vec![1, 2])));
    assert!(pri.same_as(&Holder::Principal(pid(&[1, 2]))));
    assert!(!pri.same_as(&Holder::Principal(pid(&[1, 3]))));
    assert_eq!(acc.as_principal(), None);
    assert_eq!(pri.as_principal(), Some(pid(&[1, 2])));
    assert_eq!(pri.duplicate(), pri);
}
