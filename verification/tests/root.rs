use beni::RootTable;

#[test]
fn a_released_slot_is_reused_by_the_next_root() {
    let mut table: RootTable<&str> = RootTable::new();
    let first = "first";
    let second = "second";

    let slot = table.claim(first);
    table.release(slot);

    let reused = table.claim(second);
    assert_eq!(
        reused, slot,
        "a released slot must be reused rather than left to grow the table"
    );
    assert_eq!(table.get(reused), Some("second"), "the reused slot holds the second value");
}

#[test]
fn a_fresh_table_roots_nothing_and_grows_from_slot_one() {
    let mut table: RootTable<u32> = RootTable::new();
    assert_eq!(table.free_head(), 0);
    assert_eq!(table.get(0), None);
    assert_eq!(table.get(1), None);
    assert_eq!(table.claim(10), 1);
    assert_eq!(table.claim(20), 2);
    assert_eq!(table.claim(30), 3);
    assert_eq!(table.get(2), Some(20));
    assert_eq!(table.free_head(), 0);
}

#[test]
fn roots_over_the_same_value_are_independent() {
    let mut table: RootTable<u32> = RootTable::new();
    let a = table.claim(7);
    let b = table.claim(7);
    assert_ne!(a, b);
    table.release(a);
    assert_eq!(table.get(a), None);
    assert_eq!(table.get(b), Some(7));
}

#[test]
fn released_slots_are_reused_most_recent_first() {
    let mut table: RootTable<u32> = RootTable::new();
    let s1 = table.claim(1);
    let s2 = table.claim(2);
    let s3 = table.claim(3);
    table.release(s1);
    table.release(s3);
    assert_eq!(table.free_head(), s3);
    assert_eq!(table.claim(30), s3);
    assert_eq!(table.claim(10), s1);
    assert_eq!(table.claim(4), 4);
    assert_eq!(table.get(s2), Some(2));
    assert_eq!(table.get(s1), Some(10));
    assert_eq!(table.get(s3), Some(30));
}
