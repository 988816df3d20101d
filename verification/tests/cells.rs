use forest_sim::cell::{
    BoardCell, TreeState, MAX_BURNED_AGE, MAX_BURNING_AGE, MAX_FAST_AGE, MAX_SLOW_AGE, SQUARES,
};

#[test]
fn constants_have_their_values() {
    assert_eq!(SQUARES, 64);
    assert_eq!(MAX_SLOW_AGE, 11);
    assert_eq!(MAX_FAST_AGE, 3);
    assert_eq!(MAX_BURNING_AGE, 7);
    assert_eq!(MAX_BURNED_AGE, 1);
}

#[test]
fn new_cell_keeps_age_and_kind() {
    let cell = BoardCell::new(5, TreeState::Burning);
    assert_eq!(cell.age, 5);
    assert_eq!(cell.tree_state, TreeState::Burning);
}

#[test]
fn fresh_cell_starts_at_the_maximum_of_its_kind() {
    assert_eq!(BoardCell::fresh(TreeState::SlowGrowing), BoardCell::new(11, TreeState::SlowGrowing));
    assert_eq!(BoardCell::fresh(TreeState::FastGrowing), BoardCell::new(3, TreeState::FastGrowing));
    assert_eq!(BoardCell::fresh(TreeState::Burning), BoardCell::new(7, TreeState::Burning));
    assert_eq!(BoardCell::fresh(TreeState::Burned), BoardCell::new(1, TreeState::Burned));
}

#[test]
fn max_age_by_kind() {
    assert_eq!(TreeState::SlowGrowing.max_age(), 11);
    assert_eq!(TreeState::FastGrowing.max_age(), 3);
    assert_eq!(TreeState::Burning.max_age(), 7);
    assert_eq!(TreeState::Burned.max_age(), 1);
}

#[test]
fn only_the_two_growing_kinds_are_trees() {
    assert!(TreeState::SlowGrowing.is_tree());
    assert!(TreeState::FastGrowing.is_tree());
    assert!(!TreeState::Burning.is_tree());
    assert!(!TreeState::Burned.is_tree());
}

#[test]
fn ageing_takes_one_tick_off() {
    let cell = BoardCell::new(3, TreeState::FastGrowing);
    assert_eq!(cell.aged(), BoardCell::new(2, TreeState::FastGrowing));
    assert_eq!(cell.aged().aged(), BoardCell::new(1, TreeState::FastGrowing));
    assert_eq!(cell.aged().aged().aged(), BoardCell::new(0, TreeState::FastGrowing));
}

#[test]
fn ageing_stops_at_zero() {
    let cell = BoardCell::new(0, TreeState::SlowGrowing);
    assert_eq!(cell.aged(), BoardCell::new(0, TreeState::SlowGrowing));
    let top = BoardCell::new(u32::MAX, TreeState::Burning);
    assert_eq!(top.aged().age, u32::MAX - 1);
}

#[test]
fn attempts_and_reach_by_kind() {
    assert_eq!(TreeState::SlowGrowing.attempts(), 1);
    assert_eq!(TreeState::FastGrowing.attempts(), 3);
    assert_eq!(TreeState::Burning.attempts(), 6);
    assert_eq!(TreeState::Burned.attempts(), 0);
    assert_eq!(TreeState::SlowGrowing.reach(), 6);
    assert_eq!(TreeState::FastGrowing.reach(), 10);
    assert_eq!(TreeState::Burning.reach(), 2);
    assert_eq!(TreeState::Burned.reach(), 0);
}

#[test]
fn offspring_by_kind() {
    assert_eq!(
        BoardCell::new(4, TreeState::SlowGrowing).offspring(),
        BoardCell::new(11, TreeState::SlowGrowing)
    );
    assert_eq!(
        BoardCell::new(1, TreeState::FastGrowing).offspring(),
        BoardCell::new(3, TreeState::FastGrowing)
    );
    assert_eq!(BoardCell::new(6, TreeState::Burning).offspring(), BoardCell::new(5, TreeState::Burning));
    assert_eq!(BoardCell::new(1, TreeState::Burning).offspring(), BoardCell::new(0, TreeState::Burning));
    assert_eq!(BoardCell::new(0, TreeState::Burning).offspring(), BoardCell::new(0, TreeState::Burning));
}
