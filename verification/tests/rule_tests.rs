use conway::rule::Cell;

fn neighborhood(live: usize, dead: usize) -> Vec<bool> {
    let mut v = vec![true; live];
    v.extend(vec![false; dead]);
    v
}

#[test]
fn live_cell_survives_with_two_or_three() {
    assert!(Cell::new_state(true, neighborhood(2, 0)));
    assert!(Cell::new_state(true, neighborhood(2, 6)));
    assert!(Cell::new_state(true, neighborhood(3, 0)));
    assert!(Cell::new_state(true, neighborhood(3, 5)));
}

#[test]
fn live_cell_dies_otherwise() {
    assert!(!Cell::new_state(true, neighborhood(0, 0)));
    assert!(!Cell::new_state(true, neighborhood(0, 8)));
    assert!(!Cell::new_state(true, neighborhood(1, 7)));
    assert!(!Cell::new_state(true, neighborhood(4, 4)));
    assert!(!Cell::new_state(true, neighborhood(5, 3)));
    assert!(!Cell::new_state(true, neighborhood(8, 0)));
}

#[test]
fn dead_cell_is_born_only_with_three() {
    assert!(Cell::new_state(false, neighborhood(3, 0)));
    assert!(Cell::new_state(false, neighborhood(3, 5)));
    for live in [0, 1, 2, 4, 5, 6, 7, 8] {
        assert!(!Cell::new_state(false, neighborhood(live, 8 - live)));
    }
}

#[test]
fn rule_counts_only_live_values_whatever_the_order() {
    assert!(Cell::new_state(true, vec![false, true, false, true, false]));
    assert!(Cell::new_state(false, vec![true, false, true, false, true]));
    assert!(!Cell::new_state(false, vec![false, false, false]));
}

#[test]
fn rule_is_total_beyond_eight_neighbors() {
    // Counts above 8 cannot come from a grid, but the rule must still
    // answer: not 2 and not 3 means death or no birth.
    assert!(!Cell::new_state(true, neighborhood(9, 0)));
    assert!(!Cell::new_state(false, neighborhood(12, 0)));
}
