use benefice::ports::{validate_range, PortRegistry};

#[test]
fn port_80_is_outside_allowed_range() {
    assert_eq!(validate_range(&vec![80], 2000, 30000), Err(vec![80]));
}

#[test]
fn range_bounds_are_inclusive() {
    assert_eq!(validate_range(&vec![2000, 30000, 5000], 2000, 30000), Ok(()));
}

#[test]
fn every_illegal_port_is_named() {
    assert_eq!(
        validate_range(&vec![80, 5000, 1999, 30001, 443], 2000, 30000),
        Err(vec![80, 1999, 30001, 443])
    );
}

#[test]
fn empty_port_list_is_in_range() {
    assert_eq!(validate_range(&vec![], 2000, 30000), Ok(()));
}

#[test]
fn reserve_then_conflict() {
    let mut reg = PortRegistry::new();
    assert_eq!(reg.try_reserve(&vec![5000, 5001], 1), Ok(()));
    assert_eq!(reg.holder(5000), Some(1));
    assert_eq!(reg.holder(5001), Some(1));
    assert_eq!(reg.try_reserve(&vec![5000], 2), Err(vec![5000]));
    assert_eq!(reg.holder(5000), Some(1));
}

#[test]
fn partial_conflict_reserves_nothing_and_names_all() {
    let mut reg = PortRegistry::new();
    assert_eq!(reg.try_reserve(&vec![5000, 6000], 1), Ok(()));
    assert_eq!(reg.try_reserve(&vec![4000, 5000, 7000, 6000], 2), Err(vec![5000, 6000]));
    assert_eq!(reg.holder(4000), None);
    assert_eq!(reg.holder(7000), None);
    assert_eq!(reg.holder(5000), Some(1));
}

#[test]
fn release_is_idempotent() {
    let mut reg = PortRegistry::new();
    assert_eq!(reg.try_reserve(&vec![5000], 1), Ok(()));
    reg.release(&vec![5000, 5001]);
    reg.release(&vec![5000]);
    assert_eq!(reg.holder(5000), None);
    assert_eq!(reg.try_reserve(&vec![5000], 2), Ok(()));
    assert_eq!(reg.holder(5000), Some(2));
}

#[test]
fn release_owned_keeps_other_holders() {
    let mut reg = PortRegistry::new();
    assert_eq!(reg.try_reserve(&vec![5000], 1), Ok(()));
    assert_eq!(reg.try_reserve(&vec![6000], 2), Ok(()));
    reg.release_owned(&vec![5000, 6000], 2);
    assert_eq!(reg.holder(5000), Some(1));
    assert_eq!(reg.holder(6000), None);
}

#[test]
fn conflicts_lists_held_ports_in_order() {
    let mut reg = PortRegistry::new();
    assert_eq!(reg.try_reserve(&vec![3000, 4000], 9), Ok(()));
    assert_eq!(reg.conflicts(&vec![4000, 1, 3000]), vec![4000, 3000]);
}
