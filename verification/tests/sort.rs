use const_identify::ConstId;
use const_identify::OrderedIdArray;
use const_identify::UniqueIdArray;
use const_identify::const_cmp;
use const_identify::const_sort;

fn id(v: u64) -> ConstId {
    ConstId::from_raw(v)
}

#[test]
fn ordered() {
    let ordered = OrderedIdArray::new([id(1), id(0), id(2)]);
    let slice = ordered.as_raw_slice();
    assert!(slice[0] < slice[1]);
    assert!(slice[1] < slice[2]);
}

#[test]
fn unique() {
    assert!(UniqueIdArray::new([id(1), id(0), id(2), id(1)]).is_none());
    let unique = UniqueIdArray::new([id(2), id(0), id(1)]).unwrap();
    let slice = unique.as_raw_slice();
    assert!(slice[0] < slice[1]);
    assert!(slice[1] < slice[2]);
}

#[test]
fn compare() {
    let ordered = OrderedIdArray::new([id(1), id(0)]);
    let unique = UniqueIdArray::new([id(2), id(0)]).unwrap();
    let ordered_eq = OrderedIdArray::new([id(0), id(1)]);
    assert!(ordered.const_cmp_unique(&unique).is_lt());
    assert!(unique.const_cmp_ordered(&ordered).is_gt());
    assert!(ordered.const_cmp_ordered(&ordered_eq).is_eq());
}

#[test]
fn convert() {
    let ordered = OrderedIdArray::new([id(2), id(0), id(1)]);
    assert!(ordered.into_unique().is_ok());

    let ordered_duplicate = OrderedIdArray::new([id(0), id(1), id(0)]);
    assert!(ordered_duplicate.into_unique().is_err());
}

#[test]
fn sort_scenario() {
    let ordered = OrderedIdArray::new([id(3), id(1), id(2)]);
    let raw = ordered.into_raw();
    assert_eq!(raw[0].raw_value(), 1);
    assert_eq!(raw[1].raw_value(), 2);
    assert_eq!(raw[2].raw_value(), 3);
}

#[test]
fn into_unique_failure_keeps_order() {
    let ordered = OrderedIdArray::new([id(2), id(1), id(3), id(2)]);
    match ordered.into_unique() {
        Ok(_) => panic!("duplicates must be rejected"),
        Err(back) => {
            let raw = back.into_raw();
            assert_eq!(raw[0].raw_value(), 1);
            assert_eq!(raw[1].raw_value(), 2);
            assert_eq!(raw[2].raw_value(), 2);
            assert_eq!(raw[3].raw_value(), 3);
        }
    }
}

#[test]
fn unique_new_agrees_with_into_unique() {
    let direct = UniqueIdArray::new([id(3), id(1), id(2)]).unwrap();
    let upgraded = OrderedIdArray::new([id(3), id(1), id(2)]).into_unique().unwrap();
    assert_eq!(direct, upgraded);
    assert_eq!(direct.as_raw_slice(), upgraded.as_raw_slice());
}

#[test]
fn unique_downgrade() {
    let unique = UniqueIdArray::new([id(3), id(1), id(2)]).unwrap();
    let ordered = unique.into_ordered();
    assert_eq!(ordered.as_raw_slice(), unique.as_raw_slice());
    assert_eq!(unique.into_raw(), ordered.into_raw());
}

#[test]
fn compare_sequences_scenarios() {
    assert!(const_cmp(&[id(1), id(2)], &[id(1), id(2), id(3)]).is_lt());
    assert!(const_cmp(&[id(1), id(3)], &[id(1), id(2), id(9)]).is_gt());
    assert!(const_cmp(&[id(1), id(2)], &[id(1), id(2)]).is_eq());
    assert!(const_cmp(&[id(1), id(2), id(3)], &[id(1), id(2)]).is_gt());
    assert!(const_cmp(&[], &[id(0)]).is_lt());
    assert!(const_cmp(&[], &[]).is_eq());
}

#[test]
fn compare_all_pairings() {
    let ordered_small = OrderedIdArray::new([id(1), id(2)]);
    let unique_big = UniqueIdArray::new([id(1), id(3)]).unwrap();
    let ordered_slice = ordered_small.as_slice();
    let unique_slice = unique_big.as_slice();

    assert!(ordered_small.const_cmp_unique(&unique_big).is_lt());
    assert!(ordered_small.const_cmp_unique_slice(&unique_slice).is_lt());
    assert!(unique_big.const_cmp_ordered(&ordered_small).is_gt());
    assert!(unique_big.const_cmp_ordered_slice(&ordered_slice).is_gt());
    assert!(ordered_slice.const_cmp_ordered(&ordered_small).is_eq());
    assert!(ordered_slice.const_cmp_unique(&unique_big).is_lt());
    assert!(ordered_slice.const_cmp_unique_slice(&unique_slice).is_lt());
    assert!(ordered_slice.const_cmp_ordered_slice(&ordered_slice).is_eq());
    assert!(unique_slice.const_cmp_unique(&unique_big).is_eq());
    assert!(unique_slice.const_cmp_ordered(&ordered_small).is_gt());
    assert!(unique_slice.const_cmp_ordered_slice(&ordered_slice).is_gt());
    assert!(unique_slice.const_cmp_unique_slice(&unique_slice).is_eq());
}

#[test]
fn sorting_is_idempotent() {
    let once = const_sort([id(5), id(3), id(5), id(1)]);
    let twice = const_sort(once);
    assert_eq!(once, twice);
}

#[test]
fn sorting_is_a_permutation() {
    let sorted = const_sort([id(5), id(3), id(5), id(1)]);
    assert_eq!(sorted[0].raw_value(), 1);
    assert_eq!(sorted[1].raw_value(), 3);
    assert_eq!(sorted[2].raw_value(), 5);
    assert_eq!(sorted[3].raw_value(), 5);
}

#[test]
fn sort_empty_and_singleton() {
    let empty: [ConstId; 0] = [];
    assert_eq!(const_sort(empty), []);
    assert_eq!(const_sort([id(7)]), [id(7)]);
    assert!(UniqueIdArray::new(empty).is_some());
    assert!(UniqueIdArray::new([id(7)]).is_some());
}
