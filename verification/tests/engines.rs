use forest_sim::cell::{BoardCell, TreeState};
use forest_sim::engine::{Engine, Phase, SETUP_COUNT};
use forest_sim::grid::Grid;
use forest_sim::pending::Pending;
use forest_sim::resolve::Board;

fn running_with(cells: &[((i32, i32), BoardCell)]) -> Engine {
    let mut board: Board = Grid::new();
    for (p, cell) in cells {
        board.set(*p, *cell);
    }
    Engine::resume(board, Pending::new(), 1000, 0)
}

#[test]
fn new_engine_is_in_setup_and_empty() {
    let engine = Engine::new(1000, 50);
    assert_eq!(engine.phase(), Phase::Setup);
    assert_eq!(engine.occupant_count(), 0);
    assert!(engine.snapshot().is_empty());
    assert_eq!(SETUP_COUNT, 8);
}

#[test]
fn setup_plants_at_once_and_starts_at_eight_trees() {
    let mut engine = Engine::new(1000, 0);
    for i in 0..7 {
        engine.mutate_plant((i, 2 * i), TreeState::SlowGrowing);
        assert_eq!(engine.phase(), Phase::Setup);
        assert_eq!(engine.cell_at((i, 2 * i)), Some(BoardCell::new(11, TreeState::SlowGrowing)));
    }
    assert_eq!(engine.occupant_count(), 7);
    // A second tree on an occupied square does not add to the count.
    engine.mutate_plant((0, 0), TreeState::FastGrowing);
    assert_eq!(engine.cell_at((0, 0)), Some(BoardCell::new(3, TreeState::FastGrowing)));
    assert_eq!(engine.occupant_count(), 7);
    assert_eq!(engine.phase(), Phase::Setup);
    engine.mutate_plant((40, 40), TreeState::FastGrowing);
    assert_eq!(engine.occupant_count(), 8);
    assert_eq!(engine.phase(), Phase::Running);
}

#[test]
fn setup_ignores_bad_plantings_and_fire() {
    let mut engine = Engine::new(1000, 0);
    engine.mutate_plant((64, 0), TreeState::SlowGrowing);
    engine.mutate_plant((0, -1), TreeState::SlowGrowing);
    engine.mutate_plant((3, 3), TreeState::Burning);
    engine.mutate_plant((3, 3), TreeState::Burned);
    engine.mutate_ignite((3, 3));
    assert!(engine.snapshot().is_empty());
    assert_eq!(engine.pending().to_burning.get((3, 3)), None);
    assert_eq!(engine.pending().to_planted.get((3, 3)), None);
    assert_eq!(engine.phase(), Phase::Setup);
}

#[test]
fn setup_does_not_tick() {
    let mut engine = Engine::new(1000, 0);
    engine.mutate_plant((3, 3), TreeState::FastGrowing);
    engine.tick(5000);
    engine.tick(50000);
    assert_eq!(engine.snapshot(), vec![((3, 3), BoardCell::new(3, TreeState::FastGrowing))]);
}

#[test]
fn tick_waits_for_the_interval() {
    let mut engine = running_with(&[((30, 30), BoardCell::new(0, TreeState::FastGrowing))]);
    engine.tick(0);
    assert!(engine.cell_at((30, 30)).is_some());
    engine.tick(999);
    assert!(engine.cell_at((30, 30)).is_some());
    engine.tick(1000);
    assert!(engine.cell_at((30, 30)).is_some());
    engine.tick(1001);
    assert_eq!(engine.cell_at((30, 30)), None);
}

#[test]
fn tick_counts_the_interval_from_the_last_tick() {
    let mut engine = running_with(&[((30, 30), BoardCell::new(7, TreeState::Burning))]);
    engine.tick(1500);
    assert_eq!(engine.cell_at((30, 30)), Some(BoardCell::new(6, TreeState::Burning)));
    engine.tick(2400);
    assert_eq!(engine.cell_at((30, 30)), Some(BoardCell::new(6, TreeState::Burning)));
    engine.tick(2500);
    assert_eq!(engine.cell_at((30, 30)), Some(BoardCell::new(6, TreeState::Burning)));
    engine.tick(2501);
    assert_eq!(engine.cell_at((30, 30)), Some(BoardCell::new(5, TreeState::Burning)));
    // A clock that runs backwards makes no tick due.
    engine.tick(10);
    assert_eq!(engine.cell_at((30, 30)), Some(BoardCell::new(5, TreeState::Burning)));
}

#[test]
fn ignition_waits_for_the_next_tick() {
    let mut engine = running_with(&[((5, 5), BoardCell::new(3, TreeState::FastGrowing))]);
    engine.mutate_ignite((5, 5));
    assert_eq!(engine.cell_at((5, 5)), Some(BoardCell::new(3, TreeState::FastGrowing)));
    assert_eq!(engine.pending().to_burning.get((5, 5)), Some(BoardCell::new(7, TreeState::Burning)));
    engine.tick(1001);
    assert_eq!(engine.cell_at((5, 5)), Some(BoardCell::new(7, TreeState::Burning)));
    assert_eq!(engine.pending().to_burning.get((5, 5)), None);
    engine.tick(2002);
    assert_eq!(engine.cell_at((5, 5)), Some(BoardCell::new(6, TreeState::Burning)));
    for (p, cell) in engine.snapshot() {
        if cell.tree_state == TreeState::Burning && p != (5, 5) {
            assert_eq!(cell.age, 5);
            assert!((p.0 - 5) >= -2 && (p.0 - 5) < 2 && (p.1 - 5) >= -2 && (p.1 - 5) < 2);
        }
    }
}

#[test]
fn ignition_of_empty_ground_fire_or_ash_does_nothing() {
    let mut engine = running_with(&[
        ((5, 5), BoardCell::new(4, TreeState::Burning)),
        ((50, 50), BoardCell::new(1, TreeState::Burned)),
    ]);
    engine.mutate_ignite((5, 5));
    engine.mutate_ignite((50, 50));
    engine.mutate_ignite((20, 20));
    engine.mutate_ignite((-5, 20));
    engine.tick(1001);
    assert_eq!(engine.cell_at((5, 5)), Some(BoardCell::new(3, TreeState::Burning)));
    assert_eq!(engine.cell_at((20, 20)), None);
    let ash = engine.cell_at((50, 50));
    assert!(ash.is_none() || ash == Some(BoardCell::new(3, TreeState::FastGrowing)));
}

#[test]
fn planting_on_fire_is_queued_and_rejected() {
    let mut engine = running_with(&[((5, 5), BoardCell::new(5, TreeState::Burning))]);
    engine.mutate_plant((5, 5), TreeState::SlowGrowing);
    assert_eq!(engine.pending().to_planted.get((5, 5)), Some(BoardCell::new(11, TreeState::SlowGrowing)));
    assert_eq!(engine.cell_at((5, 5)), Some(BoardCell::new(5, TreeState::Burning)));
    engine.tick(1001);
    assert_eq!(engine.cell_at((5, 5)), Some(BoardCell::new(4, TreeState::Burning)));
    assert_eq!(engine.pending().to_planted.get((5, 5)), None);
}

#[test]
fn planting_while_running_waits_for_the_next_tick() {
    let mut engine = running_with(&[]);
    engine.mutate_plant((7, 8), TreeState::FastGrowing);
    assert_eq!(engine.cell_at((7, 8)), None);
    engine.tick(1001);
    assert_eq!(engine.cell_at((7, 8)), Some(BoardCell::new(3, TreeState::FastGrowing)));
}

#[test]
fn quit_ends_a_running_simulation_only() {
    let mut setup = Engine::new(1000, 0);
    setup.quit();
    assert_eq!(setup.phase(), Phase::Setup);
    let mut engine = running_with(&[((5, 5), BoardCell::new(5, TreeState::Burning))]);
    engine.quit();
    assert_eq!(engine.phase(), Phase::Ended);
    engine.quit();
    assert_eq!(engine.phase(), Phase::Ended);
    engine.tick(5000);
    engine.mutate_plant((1, 1), TreeState::SlowGrowing);
    engine.mutate_ignite((5, 5));
    assert_eq!(engine.snapshot(), vec![((5, 5), BoardCell::new(5, TreeState::Burning))]);
    assert_eq!(engine.pending().to_planted.get((1, 1)), None);
    assert_eq!(engine.pending().to_burning.get((5, 5)), None);
}

#[test]
fn reset_clears_the_board_and_returns_to_setup() {
    let mut engine = running_with(&[
        ((5, 5), BoardCell::new(5, TreeState::Burning)),
        ((6, 6), BoardCell::new(5, TreeState::SlowGrowing)),
    ]);
    engine.mutate_plant((9, 9), TreeState::SlowGrowing);
    engine.quit();
    engine.reset();
    assert_eq!(engine.phase(), Phase::Setup);
    assert!(engine.snapshot().is_empty());
    assert_eq!(engine.occupant_count(), 0);
    assert_eq!(engine.pending().to_planted.get((9, 9)), Some(BoardCell::new(11, TreeState::SlowGrowing)));
    engine.mutate_plant((1, 1), TreeState::SlowGrowing);
    assert_eq!(engine.cell_at((1, 1)), Some(BoardCell::new(11, TreeState::SlowGrowing)));
}

#[test]
fn count_and_snapshot_follow_the_board() {
    let engine = running_with(&[
        ((5, 5), BoardCell::new(5, TreeState::Burning)),
        ((6, 6), BoardCell::new(5, TreeState::SlowGrowing)),
        ((6, 5), BoardCell::new(2, TreeState::FastGrowing)),
    ]);
    assert_eq!(engine.occupant_count(), 2);
    assert_eq!(
        engine.snapshot(),
        vec![
            ((5, 5), BoardCell::new(5, TreeState::Burning)),
            ((6, 5), BoardCell::new(2, TreeState::FastGrowing)),
            ((6, 6), BoardCell::new(5, TreeState::SlowGrowing)),
        ]
    );
    assert_eq!(engine.board().get((6, 6)), Some(BoardCell::new(5, TreeState::SlowGrowing)));
    assert_eq!(engine.cell_at((64, 64)), None);
}

#[test]
fn a_forest_stays_within_the_rules_over_many_ticks() {
    let mut engine = Engine::new(10, 0);
    for i in 0..8 {
        engine.mutate_plant((8 * i, 8 * i), if i % 2 == 0 { TreeState::SlowGrowing } else { TreeState::FastGrowing });
    }
    assert_eq!(engine.phase(), Phase::Running);
    let mut now: u64 = 0;
    for round in 0..40 {
        now += 11;
        if round == 10 {
            for (p, cell) in engine.snapshot() {
                if cell.tree_state.is_tree() {
                    engine.mutate_ignite(p);
                    break;
                }
            }
        }
        engine.tick(now);
        let mut trees = 0;
        for (p, cell) in engine.snapshot() {
            assert!(0 <= p.0 && p.0 < 64 && 0 <= p.1 && p.1 < 64);
            match cell.tree_state {
                TreeState::SlowGrowing => assert!(cell.age >= 1 && cell.age <= 11),
                TreeState::FastGrowing => assert!(cell.age >= 1 && cell.age <= 3),
                TreeState::Burning => assert!(cell.age <= 7),
                TreeState::Burned => assert_eq!(cell.age, 1),
            }
            if cell.tree_state.is_tree() {
                trees += 1;
            }
        }
        assert_eq!(engine.occupant_count(), trees);
    }
}
