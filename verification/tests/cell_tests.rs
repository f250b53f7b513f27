use ant_colony::cell::Cell;

#[test]
fn key_puts_column_high_and_row_low() {
    assert_eq!(Cell::new(0, 0).key(), 0);
    assert_eq!(Cell::new(0, 7).key(), 7);
    assert_eq!(Cell::new(1, 2).key(), 4_294_967_298);
    assert_eq!(Cell::new(10, 10).key(), 42_949_672_970);
    assert_eq!(Cell::new(u32::MAX, u32::MAX).key(), u64::MAX);
}

#[test]
fn from_key_undoes_key() {
    for &(x, y) in &[(0u32, 0u32), (1, 2), (10, 10), (u32::MAX, 0), (0, u32::MAX), (949, 649)] {
        let c = Cell::new(x, y);
        assert_eq!(Cell::from_key(c.key()), c);
    }
    assert_eq!(Cell::from_key(4_294_967_298), Cell::new(1, 2));
    assert_eq!(Cell::from_key(u64::MAX), Cell::new(u32::MAX, u32::MAX));
}

#[test]
fn equal_pairs_are_the_same_cell() {
    let a = Cell::new(12, 34);
    let b = Cell { x: 12, y: 34 };
    assert_eq!(a, b);
    assert_eq!(a.key(), b.key());
    assert_ne!(Cell::new(12, 34), Cell::new(34, 12));
    assert_ne!(Cell::new(12, 34).key(), Cell::new(34, 12).key());
}

#[test]
fn keys_grow_in_scan_order() {
    assert!(Cell::new(1, 9).key() < Cell::new(2, 0).key());
    assert!(Cell::new(2, 0).key() < Cell::new(2, 1).key());
}
