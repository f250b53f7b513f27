use ant_colony::cell::Cell;
use ant_colony::neighborhood::GridPoint;
use ant_colony::trail::{Mark, TrailField, TrailKind};

fn sum(a: f32, b: f32) -> f32 {
    a + b
}

#[test]
fn other_kind_swaps_home_and_food() {
    assert_eq!(TrailKind::Home.other(), TrailKind::Food);
    assert_eq!(TrailKind::Food.other(), TrailKind::Home);
}

#[test]
fn new_field_has_no_entries() {
    let field: TrailField<f32> = TrailField::new();
    assert_eq!(field.len(TrailKind::Home), 0);
    assert_eq!(field.len(TrailKind::Food), 0);
    assert_eq!(field.lookup(TrailKind::Home, Cell::new(1, 1)), None);
    assert_eq!(field.lookup(TrailKind::Food, Cell::new(1, 1)), None);
    assert!(field.entries(TrailKind::Home).is_empty());
    assert!(field.entries(TrailKind::Food).is_empty());
}

#[test]
fn deposit_then_lookup_is_exact() {
    let mut field: TrailField<f32> = TrailField::new();
    let cell = Cell::new(10, 10);
    field.deposit(TrailKind::Food, cell, 500.0, sum);
    field.decay_all(|v: f32| v * 1.0);
    assert_eq!(field.lookup(TrailKind::Food, cell), Some(500.0));
    field.deposit(TrailKind::Food, cell, 300.0, sum);
    field.decay_all(|v: f32| v * 1.0);
    assert_eq!(field.lookup(TrailKind::Food, cell), Some(800.0));
    assert_eq!(field.lookup(TrailKind::Home, cell), None);
    assert_eq!(field.len(TrailKind::Food), 1);
    assert_eq!(field.len(TrailKind::Home), 0);
}

#[test]
fn deposit_creates_then_sums() {
    let mut field: TrailField<f32> = TrailField::new();
    let cell = Cell::new(4, 9);
    field.deposit(TrailKind::Home, cell, 1.5, sum);
    assert_eq!(field.lookup(TrailKind::Home, cell), Some(1.5));
    field.deposit(TrailKind::Home, cell, 2.25, sum);
    assert_eq!(field.lookup(TrailKind::Home, cell), Some(3.75));
    field.deposit(TrailKind::Home, cell, 0.0, sum);
    assert_eq!(field.lookup(TrailKind::Home, cell), Some(3.75));
}

#[test]
fn deposit_hands_the_stored_value_first() {
    let mut field: TrailField<i64> = TrailField::new();
    let cell = Cell::new(1, 1);
    field.deposit(TrailKind::Food, cell, 7, |stored, amount| stored * 10 + amount);
    assert_eq!(field.lookup(TrailKind::Food, cell), Some(7));
    field.deposit(TrailKind::Food, cell, 3, |stored, amount| stored * 10 + amount);
    assert_eq!(field.lookup(TrailKind::Food, cell), Some(73));
}

#[test]
fn deposit_leaves_other_cells_and_the_other_field_alone() {
    let mut field: TrailField<f32> = TrailField::new();
    field.deposit(TrailKind::Home, Cell::new(1, 1), 10.0, sum);
    field.deposit(TrailKind::Food, Cell::new(1, 1), 20.0, sum);
    field.deposit(TrailKind::Home, Cell::new(1, 2), 30.0, sum);
    field.deposit(TrailKind::Home, Cell::new(1, 1), 5.0, sum);
    assert_eq!(field.lookup(TrailKind::Home, Cell::new(1, 1)), Some(15.0));
    assert_eq!(field.lookup(TrailKind::Food, Cell::new(1, 1)), Some(20.0));
    assert_eq!(field.lookup(TrailKind::Home, Cell::new(1, 2)), Some(30.0));
    assert_eq!(field.lookup(TrailKind::Food, Cell::new(1, 2)), None);
    assert_eq!(field.lookup(TrailKind::Home, Cell::new(2, 1)), None);
}

#[test]
fn decay_scales_every_entry_of_both_fields() {
    let mut field: TrailField<f32> = TrailField::new();
    field.deposit(TrailKind::Home, Cell::new(1, 1), 1000.0, sum);
    field.deposit(TrailKind::Home, Cell::new(2, 2), 500.0, sum);
    field.deposit(TrailKind::Food, Cell::new(3, 3), 250.0, sum);
    field.decay_all(|v: f32| v * 0.5);
    assert_eq!(field.lookup(TrailKind::Home, Cell::new(1, 1)), Some(500.0));
    assert_eq!(field.lookup(TrailKind::Home, Cell::new(2, 2)), Some(250.0));
    assert_eq!(field.lookup(TrailKind::Food, Cell::new(3, 3)), Some(125.0));
    assert_eq!(field.len(TrailKind::Home), 2);
    assert_eq!(field.len(TrailKind::Food), 1);
}

#[test]
fn decay_with_the_usual_factor() {
    let mut field: TrailField<f32> = TrailField::new();
    field.deposit(TrailKind::Food, Cell::new(3, 3), 1000.0, sum);
    field.decay_all(|v: f32| v * 0.006);
    assert_eq!(field.lookup(TrailKind::Food, Cell::new(3, 3)), Some(1000.0f32 * 0.006));
}

#[test]
fn decay_lowers_an_untouched_entry_and_never_removes_it() {
    let mut field: TrailField<f32> = TrailField::new();
    let cell = Cell::new(8, 8);
    field.deposit(TrailKind::Home, cell, 1000.0, sum);
    let mut last = 1000.0f32;
    for _ in 0..10 {
        field.decay_all(|v: f32| v * 0.006);
        let now = field.lookup(TrailKind::Home, cell).unwrap();
        assert!(now < last);
        assert!(now > 0.0);
        last = now;
    }
    assert_eq!(field.len(TrailKind::Home), 1);
}

#[test]
fn stored_intensities_stay_non_negative() {
    let mut field: TrailField<f32> = TrailField::new();
    for n in 1..50u32 {
        let cell = Cell::new(n % 5 + 1, n % 3 + 1);
        field.deposit(TrailKind::Home, cell, 1000.0 / n as f32, sum);
        field.deposit(TrailKind::Food, cell, 1000.0 / n as f32, sum);
        field.decay_all(|v: f32| v * 0.006);
        for kind in [TrailKind::Home, TrailKind::Food] {
            for mark in field.entries(kind) {
                assert!(mark.intensity >= 0.0);
            }
        }
    }
}

#[test]
fn decay_of_an_empty_field_changes_nothing() {
    let mut field: TrailField<f32> = TrailField::new();
    field.decay_all(|v: f32| v * 0.006);
    assert_eq!(field.len(TrailKind::Home), 0);
    assert_eq!(field.len(TrailKind::Food), 0);
}

#[test]
fn entries_lists_every_entry_once() {
    let mut field: TrailField<f32> = TrailField::new();
    field.deposit(TrailKind::Home, Cell::new(5, 1), 1.0, sum);
    field.deposit(TrailKind::Home, Cell::new(1, 5), 2.0, sum);
    field.deposit(TrailKind::Home, Cell::new(5, 1), 4.0, sum);
    field.deposit(TrailKind::Food, Cell::new(9, 9), 8.0, sum);
    let mut home = field.entries(TrailKind::Home);
    home.sort_by_key(|m| m.cell.key());
    assert_eq!(
        home,
        vec![
            Mark { cell: Cell::new(1, 5), intensity: 2.0 },
            Mark { cell: Cell::new(5, 1), intensity: 5.0 },
        ]
    );
    assert_eq!(
        field.entries(TrailKind::Food),
        vec![Mark { cell: Cell::new(9, 9), intensity: 8.0 }]
    );
}

#[test]
fn nearby_lists_the_neighborhood_in_scan_order() {
    let mut field: TrailField<f32> = TrailField::new();
    field.deposit(TrailKind::Food, Cell::new(12, 8), 3.0, sum);
    field.deposit(TrailKind::Food, Cell::new(9, 13), 2.0, sum);
    field.deposit(TrailKind::Food, Cell::new(9, 7), 1.0, sum);
    field.deposit(TrailKind::Food, Cell::new(10, 10), 4.0, sum);
    field.deposit(TrailKind::Food, Cell::new(14, 10), 5.0, sum);
    field.deposit(TrailKind::Food, Cell::new(10, 6), 6.0, sum);
    field.deposit(TrailKind::Home, Cell::new(10, 11), 7.0, sum);
    let center = GridPoint::new(10, 10);
    assert_eq!(
        field.nearby(TrailKind::Food, center, 3),
        vec![
            Mark { cell: Cell::new(9, 7), intensity: 1.0 },
            Mark { cell: Cell::new(9, 13), intensity: 2.0 },
            Mark { cell: Cell::new(12, 8), intensity: 3.0 },
        ]
    );
    assert_eq!(
        field.nearby(TrailKind::Home, center, 3),
        vec![Mark { cell: Cell::new(10, 11), intensity: 7.0 }]
    );
    assert_eq!(field.nearby(TrailKind::Food, center, 1), Vec::new());
    assert_eq!(field.nearby(TrailKind::Home, GridPoint::new(100, 100), 3), Vec::new());
}

#[test]
fn nearby_keeps_entries_that_have_faded_to_zero() {
    let mut field: TrailField<f32> = TrailField::new();
    field.deposit(TrailKind::Food, Cell::new(5, 6), 1000.0, sum);
    field.decay_all(|_v: f32| 0.0);
    assert_eq!(
        field.nearby(TrailKind::Food, GridPoint::new(5, 5), 3),
        vec![Mark { cell: Cell::new(5, 6), intensity: 0.0 }]
    );
}

#[test]
fn mark_copies_keep_the_fields() {
    let m = Mark { cell: Cell::new(2, 3), intensity: 1.25f32 };
    let n = m.clone();
    assert_eq!(n, m);
    assert_eq!(n.cell, Cell::new(2, 3));
    assert_eq!(n.intensity, 1.25);
}
