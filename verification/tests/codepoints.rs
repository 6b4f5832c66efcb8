use overlay::codepoints::{CodepointRange, CodepointSet};

fn range(first: u32, last: u32) -> CodepointRange {
    CodepointRange { first, last }
}

#[test]
fn empty_set_holds_nothing() {
    let set = CodepointSet::new();
    assert!(set.is_empty());
    assert!(!set.contains(0));
    assert!(!set.contains(u32::MAX));
    assert!(set.ranges().is_empty());
}

#[test]
fn single_range_holds_its_ends() {
    let mut set = CodepointSet::new();
    set.insert_range(1, 254);
    assert!(!set.is_empty());
    assert!(!set.contains(0));
    assert!(set.contains(1));
    assert!(set.contains(128));
    assert!(set.contains(254));
    assert!(!set.contains(255));
    assert_eq!(set.ranges(), &vec![range(1, 254)]);
}

#[test]
fn inverted_range_adds_nothing() {
    let mut set = CodepointSet::new();
    set.insert_range(10, 9);
    assert!(set.is_empty());
    set.insert_range(5, 6);
    set.insert_range(100, 3);
    assert_eq!(set.ranges(), &vec![range(5, 6)]);
}

#[test]
fn separate_ranges_are_kept_in_ascending_order() {
    let mut set = CodepointSet::new();
    set.insert_range(100, 200);
    set.insert_range(10, 20);
    set.insert_range(1000, 1000);
    assert_eq!(set.ranges(), &vec![range(10, 20), range(100, 200), range(1000, 1000)]);
    assert!(set.contains(1000));
    assert!(!set.contains(999));
    assert!(!set.contains(21));
}

#[test]
fn overlapping_ranges_are_fused() {
    let mut set = CodepointSet::new();
    set.insert_range(10, 20);
    set.insert_range(15, 30);
    assert_eq!(set.ranges(), &vec![range(10, 30)]);
    set.insert_range(5, 12);
    assert_eq!(set.ranges(), &vec![range(5, 30)]);
    set.insert_range(7, 8);
    assert_eq!(set.ranges(), &vec![range(5, 30)]);
}

#[test]
fn touching_ranges_are_fused() {
    let mut set = CodepointSet::new();
    set.insert_range(10, 20);
    set.insert_range(21, 30);
    assert_eq!(set.ranges(), &vec![range(10, 30)]);
    set.insert_range(5, 9);
    assert_eq!(set.ranges(), &vec![range(5, 30)]);
}

#[test]
fn ranges_one_apart_stay_apart() {
    let mut set = CodepointSet::new();
    set.insert_range(10, 20);
    set.insert_range(22, 30);
    assert_eq!(set.ranges(), &vec![range(10, 20), range(22, 30)]);
    assert!(!set.contains(21));
    set.insert_range(21, 21);
    assert_eq!(set.ranges(), &vec![range(10, 30)]);
}

#[test]
fn wide_range_swallows_many() {
    let mut set = CodepointSet::new();
    set.insert_range(10, 20);
    set.insert_range(30, 40);
    set.insert_range(50, 60);
    set.insert_range(70, 80);
    set.insert_range(25, 65);
    assert_eq!(set.ranges(), &vec![range(10, 20), range(25, 65), range(70, 80)]);
    set.insert_range(0, u32::MAX);
    assert_eq!(set.ranges(), &vec![range(0, u32::MAX)]);
    assert!(set.contains(u32::MAX));
}

#[test]
fn largest_codepoint_is_handled() {
    let mut set = CodepointSet::new();
    set.insert_range(u32::MAX, u32::MAX);
    assert!(set.contains(u32::MAX));
    assert!(!set.contains(u32::MAX - 1));
    set.insert_range(u32::MAX - 1, u32::MAX - 1);
    assert_eq!(set.ranges(), &vec![range(u32::MAX - 1, u32::MAX)]);
}

#[test]
fn from_ranges_normalizes_any_list() {
    let set = CodepointSet::from_ranges(&vec![
        range(50, 60),
        range(9, 3),
        range(10, 20),
        range(61, 70),
        range(15, 18),
    ]);
    assert_eq!(set.ranges(), &vec![range(10, 20), range(50, 70)]);
    let same = CodepointSet::from_ranges(&vec![range(50, 70), range(10, 20)]);
    assert_eq!(set, same);
}

#[test]
fn binary_search_agrees_with_the_ranges() {
    let mut set = CodepointSet::new();
    let mut k: u32 = 0;
    while k < 50 {
        set.insert_range(k * 10, k * 10 + 4);
        k += 1;
    }
    assert_eq!(set.ranges().len(), 50);
    let mut c: u32 = 0;
    while c < 520 {
        assert_eq!(set.contains(c), c < 500 && c % 10 <= 4, "codepoint {}", c);
        c += 1;
    }
}

#[test]
fn range_contains_its_ends_only_when_not_inverted() {
    assert!(range(3, 5).contains(3));
    assert!(range(3, 5).contains(5));
    assert!(!range(3, 5).contains(6));
    assert!(!range(3, 5).contains(2));
    assert!(!range(5, 3).contains(4));
}
