use interest_management::pair_set::Key;
use interest_management::pair_set::PairSet;
use interest_management::rooms::RoomId;

#[test]
fn a_new_set_is_empty() {
    let set: PairSet<u64, u64> = PairSet::new();
    assert_eq!(set.len(), 0);
    assert!(!set.contains(0, 0));
}

#[test]
fn insert_says_whether_the_pair_was_new() {
    let mut set: PairSet<u64, u64> = PairSet::new();
    assert!(set.insert(1, 2));
    assert!(!set.insert(1, 2));
    assert!(set.insert(2, 1));
    assert_eq!(set.len(), 2);
    assert!(set.contains(1, 2));
    assert!(set.contains(2, 1));
    assert!(!set.contains(1, 1));
}

#[test]
fn remove_says_whether_the_pair_was_held() {
    let mut set: PairSet<u64, RoomId> = PairSet::new();
    set.insert(1, RoomId(-1));
    set.insert(1, RoomId(0));
    assert!(!set.remove(1, RoomId(1)));
    assert!(set.remove(1, RoomId(-1)));
    assert!(!set.remove(1, RoomId(-1)));
    assert_eq!(set.len(), 1);
    assert!(set.contains(1, RoomId(0)));
}

#[test]
fn remove_left_takes_every_pair_of_one_first_part() {
    let mut set: PairSet<u64, u64> = PairSet::new();
    set.insert(1, 10);
    set.insert(2, 10);
    set.insert(1, 11);
    set.insert(3, 1);
    set.remove_left(1);
    assert_eq!(set.len(), 2);
    assert!(set.contains(2, 10));
    assert!(set.contains(3, 1));
    assert!(!set.contains(1, 10));
    assert!(!set.contains(1, 11));
    set.remove_left(9);
    assert_eq!(set.len(), 2);
}

#[test]
fn lefts_of_lists_the_first_parts_of_one_second_part() {
    let mut set: PairSet<u64, u64> = PairSet::new();
    set.insert(1, 10);
    set.insert(2, 11);
    set.insert(3, 10);
    assert_eq!(set.lefts_of(10), vec![1, 3]);
    assert_eq!(set.lefts_of(11), vec![2]);
    assert!(set.lefts_of(12).is_empty());
}

#[test]
fn keys_compare_by_value() {
    assert!(5u64.same(&5));
    assert!(!5u64.same(&6));
    assert!(RoomId(-3).same(&RoomId(-3)));
    assert!(!RoomId(-3).same(&RoomId(3)));
}
