use wordcount::FileInfo;

fn record(lines: usize, words: usize, chars: usize) -> FileInfo {
    FileInfo { lines, words, chars }
}

fn sum(records: &[FileInfo]) -> FileInfo {
    let mut total = FileInfo::default();
    for r in records {
        assert!(total.can_add(r));
        total.add_assign(*r);
    }
    total
}

#[test]
fn fresh_record_is_all_zero() {
    assert_eq!(FileInfo::default(), record(0, 0, 0));
}

#[test]
fn add_assign_adds_field_by_field() {
    let mut a = record(1, 2, 3);
    a.add_assign(record(10, 20, 30));
    assert_eq!(a, record(11, 22, 33));
}

#[test]
fn zero_record_is_identity_on_both_sides() {
    let r = record(7, 11, 13);
    let mut left = FileInfo::default();
    left.add_assign(r);
    assert_eq!(left, r);
    let mut right = r;
    right.add_assign(FileInfo::default());
    assert_eq!(right, r);
}

#[test]
fn sum_of_two_does_not_depend_on_order() {
    let a = record(1, 5, 9);
    let b = record(2, 4, 40);
    assert_eq!(sum(&[a, b]), sum(&[b, a]));
    assert_eq!(sum(&[a, b]), record(3, 9, 49));
}

#[test]
fn sum_is_the_same_in_every_order() {
    let a = record(1, 2, 3);
    let b = record(40, 50, 60);
    let c = record(700, 800, 900);
    let expected = record(741, 852, 963);
    let orders = [[a, b, c], [a, c, b], [b, a, c], [b, c, a], [c, a, b], [c, b, a]];
    for order in orders.iter() {
        assert_eq!(sum(order), expected);
    }
}

#[test]
fn sum_does_not_depend_on_grouping() {
    let a = record(1, 2, 3);
    let b = record(4, 5, 6);
    let c = record(7, 8, 9);
    let mut left = a;
    left.add_assign(b);
    left.add_assign(c);
    let mut bc = b;
    bc.add_assign(c);
    let mut right = a;
    right.add_assign(bc);
    assert_eq!(left, right);
    assert_eq!(left, record(12, 15, 18));
}

#[test]
fn can_add_tells_when_a_sum_is_out_of_range() {
    let big = record(usize::MAX, 0, 0);
    assert!(big.can_add(&record(0, 5, 5)));
    assert!(!big.can_add(&record(1, 0, 0)));
    assert!(!record(0, usize::MAX, 0).can_add(&record(0, 1, 0)));
    assert!(!record(0, 0, usize::MAX - 1).can_add(&record(0, 0, 2)));
    assert!(record(0, 0, usize::MAX - 1).can_add(&record(0, 0, 1)));
}
