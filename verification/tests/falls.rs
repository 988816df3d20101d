use forest_sim::cell::{BoardCell, TreeState};
use forest_sim::pending::Pending;
use forest_sim::scan::is_pioneer;
use forest_sim::treefall::{
    fall_target, queue_fallen, regrowth_for, tree_fall, Direction, Regrowth, FALL_LENGTH,
};

#[test]
fn a_fall_covers_six_squares() {
    assert_eq!(FALL_LENGTH, 6);
}

#[test]
fn rolls_one_to_four_give_the_four_directions() {
    assert_eq!(Direction::from_roll(1), Some(Direction::South));
    assert_eq!(Direction::from_roll(2), Some(Direction::East));
    assert_eq!(Direction::from_roll(3), Some(Direction::North));
    assert_eq!(Direction::from_roll(4), Some(Direction::West));
    assert_eq!(Direction::from_roll(0), None);
    assert_eq!(Direction::from_roll(5), None);
    assert_eq!(Direction::from_roll(-1), None);
}

#[test]
fn regrowth_bands() {
    for roll in 0..5 {
        assert_eq!(regrowth_for(roll), Regrowth::Slow);
    }
    for roll in 5..9 {
        assert_eq!(regrowth_for(roll), Regrowth::Bare);
    }
    assert_eq!(regrowth_for(9), Regrowth::Fast);
    assert_eq!(regrowth_for(10), Regrowth::Fast);
    assert_eq!(regrowth_for(-3), Regrowth::Slow);
}

#[test]
fn pioneer_comes_one_time_in_ten() {
    assert!(is_pioneer(0));
    for roll in 1..10 {
        assert!(!is_pioneer(roll));
    }
}

#[test]
fn fall_targets_run_away_from_the_tree() {
    assert_eq!(fall_target((10, 10), Direction::South, 1), Some((10, 11)));
    assert_eq!(fall_target((10, 10), Direction::South, 6), Some((10, 16)));
    assert_eq!(fall_target((10, 10), Direction::East, 3), Some((13, 10)));
    assert_eq!(fall_target((10, 10), Direction::North, 6), Some((10, 4)));
    assert_eq!(fall_target((10, 10), Direction::West, 2), Some((8, 10)));
}

#[test]
fn fall_targets_off_the_board_are_none() {
    assert_eq!(fall_target((2, 2), Direction::North, 3), None);
    assert_eq!(fall_target((2, 2), Direction::North, 2), Some((2, 0)));
    assert_eq!(fall_target((2, 2), Direction::West, 3), None);
    assert_eq!(fall_target((60, 60), Direction::South, 4), None);
    assert_eq!(fall_target((60, 60), Direction::South, 3), Some((60, 63)));
    assert_eq!(fall_target((60, 60), Direction::East, 4), None);
    assert_eq!(fall_target((i32::MAX, 0), Direction::East, 6), None);
    assert_eq!(fall_target((0, i32::MIN), Direction::North, 6), None);
}

#[test]
fn fallen_square_is_planted_or_cleared_by_the_roll() {
    let mut pending = Pending::new();
    queue_fallen(&mut pending, (1, 1), 0);
    queue_fallen(&mut pending, (2, 2), 4);
    queue_fallen(&mut pending, (3, 3), 5);
    queue_fallen(&mut pending, (4, 4), 8);
    queue_fallen(&mut pending, (5, 5), 9);
    queue_fallen(&mut pending, (64, 5), 9);
    queue_fallen(&mut pending, (-1, 5), 6);
    assert_eq!(pending.to_planted.get((1, 1)), Some(BoardCell::new(11, TreeState::SlowGrowing)));
    assert_eq!(pending.to_planted.get((2, 2)), Some(BoardCell::new(11, TreeState::SlowGrowing)));
    assert_eq!(pending.to_planted.get((3, 3)), None);
    assert_eq!(pending.to_cleared.get((3, 3)), Some(()));
    assert_eq!(pending.to_planted.get((4, 4)), None);
    assert_eq!(pending.to_cleared.get((4, 4)), Some(()));
    assert_eq!(pending.to_planted.get((5, 5)), Some(BoardCell::new(3, TreeState::FastGrowing)));
    assert_eq!(pending.to_cleared.get((5, 5)), None);
    assert_eq!(pending.to_cleared.get((1, 1)), None);
}

#[test]
fn a_fall_touches_one_line_of_six() {
    for _ in 0..200 {
        let mut pending = Pending::new();
        tree_fall(&mut pending, (30, 30));
        let mut touched: Vec<(i32, i32)> = Vec::new();
        for x in 0..64 {
            for y in 0..64 {
                assert!(pending.to_burning.get((x, y)).is_none());
                assert!(pending.to_burned.get((x, y)).is_none());
                let planted = pending.to_planted.get((x, y));
                let cleared = pending.to_cleared.get((x, y));
                assert!(planted.is_none() || cleared.is_none());
                if let Some(tree) = planted {
                    assert!(
                        tree == BoardCell::new(11, TreeState::SlowGrowing)
                            || tree == BoardCell::new(3, TreeState::FastGrowing)
                    );
                }
                if planted.is_some() || cleared.is_some() {
                    touched.push((x, y));
                }
            }
        }
        let south: Vec<(i32, i32)> = (1..7).map(|k| (30, 30 + k)).collect();
        let east: Vec<(i32, i32)> = (1..7).map(|k| (30 + k, 30)).collect();
        let mut north: Vec<(i32, i32)> = (1..7).map(|k| (30, 30 - k)).collect();
        let mut west: Vec<(i32, i32)> = (1..7).map(|k| (30 - k, 30)).collect();
        north.sort();
        west.sort();
        touched.sort();
        assert!(touched == south || touched == east || touched == north || touched == west);
    }
}

#[test]
fn falls_take_more_than_one_direction() {
    let mut south = false;
    let mut other = false;
    for _ in 0..400 {
        let mut pending = Pending::new();
        tree_fall(&mut pending, (30, 30));
        if pending.to_planted.get((30, 31)).is_some() || pending.to_cleared.get((30, 31)).is_some() {
            south = true;
        } else {
            other = true;
        }
    }
    assert!(south && other);
}

#[test]
fn a_fall_near_the_edge_drops_what_is_off_the_board() {
    for _ in 0..100 {
        let mut pending = Pending::new();
        tree_fall(&mut pending, (0, 0));
        let mut count = 0;
        for x in 0..64 {
            for y in 0..64 {
                if pending.to_planted.get((x, y)).is_some() || pending.to_cleared.get((x, y)).is_some() {
                    assert!((x == 0 && 1 <= y && y <= 6) || (y == 0 && 1 <= x && x <= 6));
                    count += 1;
                }
            }
        }
        assert!(count == 0 || count == 6);
    }
}
