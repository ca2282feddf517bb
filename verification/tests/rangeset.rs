use contratos::rangeset::RangeSet;

#[test]
fn test_insert() {
    let mut set = RangeSet::new();
    set.insert(1);
    assert!(set.contains(&1));
    assert!(!set.contains(&2));
}

#[test]
fn test_get_first_missing() {
    let mut set = RangeSet::new();
    assert_eq!(set.get_first_missing(0), 0);
    set.insert(1);
    set.insert(3);
    assert_eq!(set.get_first_missing(0), 0);
    assert_eq!(set.get_first_missing(1), 2);
    assert_eq!(set.get_first_missing(2), 2);
    assert_eq!(set.get_first_missing(3), 4);
    assert_eq!(set.get_first_missing(4), 4);
}

#[test]
fn test_internal_struct() {
    let mut set = RangeSet::new();
    set.insert(1);
    assert_eq!(set.ranges, vec![(1, 1)]);
    set.insert(5);
    assert_eq!(set.ranges, vec![(1, 1), (5, 5)]);
    set.insert(3);
    assert_eq!(set.ranges, vec![(1, 1), (3, 3), (5, 5)]);
    set.insert(2);
    assert_eq!(set.ranges, vec![(1, 3), (5, 5)]);
    set.insert(4);
    assert_eq!(set.ranges, vec![(1, 5)]);
    set.insert(6);
    assert_eq!(set.ranges, vec![(1, 6)]);
    set.insert(8);
    assert_eq!(set.ranges, vec![(1, 6), (8, 8)]);
    set.insert(9);
    assert_eq!(set.ranges, vec![(1, 6), (8, 9)]);
    set.insert(0);
    assert_eq!(set.ranges, vec![(0, 6), (8, 9)]);
}

#[test]
fn test_insert_duplicate_is_noop() {
    let mut set = RangeSet::new();
    set.insert(4);
    set.insert(4);
    assert_eq!(set.ranges, vec![(4, 4)]);
}

#[test]
fn test_from_ranges_accepts_well_formed() {
    let set = RangeSet::from_ranges(vec![(0, 3), (6, 9)]).unwrap();
    assert!(set.contains(&0));
    assert!(set.contains(&3));
    assert!(!set.contains(&4));
    assert!(set.contains(&9));
}

#[test]
fn test_from_ranges_rejects_malformed() {
    // start beyond end
    assert!(RangeSet::from_ranges(vec![(3, 1)]).is_none());
    // overlapping ranges
    assert!(RangeSet::from_ranges(vec![(0, 5), (4, 9)]).is_none());
    // adjacent ranges that should have been merged
    assert!(RangeSet::from_ranges(vec![(0, 3), (4, 9)]).is_none());
    // unsorted ranges
    assert!(RangeSet::from_ranges(vec![(6, 9), (0, 3)]).is_none());
}
