use metaball::ball::{Coord, MetaBall};
use metaball::field::{blob, occupied, saturates, scan_grid};
use metaball::sampling::{sample_balls, BlobError, Parameter};

/// The field of the balls at a cell, summed in single precision and held
/// against the threshold.
fn exceeds_threshold(balls: &Vec<MetaBall>, cell: Coord) -> bool {
    let mut val: f32 = 0.0;
    for ball in balls {
        let distance_squared = ball.center.dist_sqr(&cell) as f32;
        let radius = ball.radius as f32;
        val += if distance_squared == 0.0 { 20.0 } else { radius * radius / distance_squared / 1.6 };
    }
    val > 1.2
}

fn always(_balls: &Vec<MetaBall>, _cell: Coord) -> bool {
    true
}

fn never(_balls: &Vec<MetaBall>, _cell: Coord) -> bool {
    false
}

fn unreachable_evaluator(_balls: &Vec<MetaBall>, _cell: Coord) -> bool {
    panic!("the evaluator must not be asked")
}

/// The scan written out cell by cell, with the field summed for every cell.
fn scan_by_hand(size: i32, balls: &Vec<MetaBall>) -> Vec<(i32, i32)> {
    let mut cells = Vec::new();
    for y in 0..size {
        for x in 0..size {
            if exceeds_threshold(balls, Coord { x, y }) {
                cells.push((x, y));
            }
        }
    }
    cells
}

#[test]
fn squared_distances_are_exact() {
    let origin = Coord { x: 0, y: 0 };
    assert_eq!(origin.dist_sqr(&Coord { x: 3, y: 4 }), 25);
    assert_eq!(Coord { x: 3, y: 4 }.dist_sqr(&origin), 25);
    assert_eq!(Coord { x: -2, y: 5 }.dist_sqr(&Coord { x: -2, y: 5 }), 0);
    assert_eq!(Coord { x: -1, y: -1 }.dist_sqr(&Coord { x: 1, y: 1 }), 8);
    assert_eq!(Coord { x: 7, y: 0 }.dist_sqr(&Coord { x: 7, y: 1 }), 1);
}

#[test]
fn squared_distances_span_the_whole_lattice() {
    let low = Coord { x: i32::MIN, y: i32::MIN };
    let high = Coord { x: i32::MAX, y: i32::MAX };
    let side: u128 = (1u128 << 32) - 1;
    assert_eq!(low.dist_sqr(&high), 2 * side * side);
    assert_eq!(high.dist_sqr(&low), 2 * side * side);
    assert_eq!(low.dist_sqr(&Coord { x: i32::MAX, y: i32::MIN }), side * side);
}

#[test]
fn a_new_ball_keeps_what_it_was_given() {
    let ball = MetaBall::new(4, -9, 3);
    assert_eq!(ball.center, Coord { x: 4, y: -9 });
    assert_eq!(ball.radius, 3);
    assert_eq!(ball, MetaBall { center: Coord { x: 4, y: -9 }, radius: 3 });
}

#[test]
fn a_ball_saturates_its_centre_only() {
    let balls = vec![MetaBall::new(2, 3, 1), MetaBall::new(5, 5, 4)];
    assert!(saturates(&balls, Coord { x: 2, y: 3 }));
    assert!(saturates(&balls, Coord { x: 5, y: 5 }));
    assert!(!saturates(&balls, Coord { x: 3, y: 2 }));
    assert!(!saturates(&balls, Coord { x: 2, y: 4 }));
    assert!(!saturates(&Vec::new(), Coord { x: 0, y: 0 }));
}

#[test]
fn a_centre_is_occupied_whatever_the_evaluator_says() {
    let balls = vec![MetaBall::new(2, 3, 0)];
    assert!(occupied(&balls, Coord { x: 2, y: 3 }, &never));
    assert!(occupied(&balls, Coord { x: 2, y: 3 }, &unreachable_evaluator));
}

#[test]
fn no_cell_is_occupied_without_balls() {
    let balls: Vec<MetaBall> = Vec::new();
    assert!(!occupied(&balls, Coord { x: 0, y: 0 }, &always));
    assert!(!occupied(&balls, Coord { x: 0, y: 0 }, &unreachable_evaluator));
}

#[test]
fn other_cells_go_by_the_evaluator() {
    let balls = vec![MetaBall::new(2, 3, 1)];
    assert!(occupied(&balls, Coord { x: 0, y: 0 }, &always));
    assert!(!occupied(&balls, Coord { x: 0, y: 0 }, &never));
    assert!(occupied(&balls, Coord { x: 2, y: 2 }, &exceeds_threshold) == false);
    assert!(occupied(&vec![MetaBall::new(2, 3, 2)], Coord { x: 2, y: 2 }, &exceeds_threshold));
}

#[test]
fn a_full_grid_is_scanned_row_by_row() {
    let balls = vec![MetaBall::new(100, 100, 1)];
    assert_eq!(
        scan_grid(3, &balls, always),
        vec![(0, 0), (1, 0), (2, 0), (0, 1), (1, 1), (2, 1), (0, 2), (1, 2), (2, 2)]
    );
}

#[test]
fn an_empty_grid_has_no_cells() {
    let balls = vec![MetaBall::new(0, 0, 1)];
    assert_eq!(scan_grid(0, &balls, always), Vec::new());
    assert_eq!(scan_grid(-4, &balls, always), Vec::new());
    assert_eq!(scan_grid(i32::MIN, &balls, always), Vec::new());
}

#[test]
fn centres_on_the_grid_are_named_once_and_in_order() {
    let balls = vec![
        MetaBall::new(3, 2, 1),
        MetaBall::new(0, 2, 1),
        MetaBall::new(1, 0, 1),
        MetaBall::new(3, 2, 5),
        MetaBall::new(4, 1, 1),
        MetaBall::new(-1, 2, 1),
        MetaBall::new(2, 9, 1),
    ];
    assert_eq!(scan_grid(4, &balls, never), vec![(1, 0), (0, 2), (3, 2)]);
    assert_eq!(scan_grid(5, &balls, never), vec![(1, 0), (4, 1), (0, 2), (3, 2)]);
}

#[test]
fn a_scan_without_balls_is_empty() {
    let balls: Vec<MetaBall> = Vec::new();
    assert_eq!(scan_grid(6, &balls, always), Vec::new());
    assert_eq!(scan_grid(6, &balls, unreachable_evaluator), Vec::new());
}

#[test]
fn a_single_ball_makes_a_disc() {
    let balls = vec![MetaBall::new(2, 2, 2)];
    // radius squared over distance squared over 1.6 exceeds 1.2 up to
    // distance squared 2
    assert_eq!(
        scan_grid(5, &balls, exceeds_threshold),
        vec![(1, 1), (2, 1), (3, 1), (1, 2), (2, 2), (3, 2), (1, 3), (2, 3), (3, 3)]
    );
}

#[test]
fn a_ball_of_radius_zero_holds_its_centre() {
    let balls = vec![MetaBall::new(1, 1, 0)];
    assert_eq!(scan_grid(3, &balls, exceeds_threshold), vec![(1, 1)]);
}

#[test]
fn two_weak_balls_add_up() {
    // each ball alone gives 1 / 1 / 1.6 = 0.625 at distance one
    let one = vec![MetaBall::new(0, 1, 1)];
    let two = vec![MetaBall::new(0, 1, 1), MetaBall::new(2, 1, 1)];
    assert_eq!(scan_grid(3, &one, exceeds_threshold), vec![(0, 1)]);
    assert_eq!(scan_grid(3, &two, exceeds_threshold), vec![(0, 1), (1, 1), (2, 1)]);
}

#[test]
fn a_scan_agrees_with_the_sum_over_every_cell() {
    for seed in -10i64..10 {
        let balls = sample_balls(seed, (1, 6), (-3, 20), (0, 5)).unwrap();
        assert_eq!(scan_grid(18, &balls, exceeds_threshold), scan_by_hand(18, &balls), "seed {}", seed);
    }
}

#[test]
fn blob_refuses_an_inverted_count_range() {
    assert_eq!(
        blob(0, 16, (5, 2), (4, 11), (2, 4), unreachable_evaluator),
        Err(BlobError::InvalidRange(Parameter::NumBalls))
    );
}

#[test]
fn blob_refuses_the_other_inverted_ranges() {
    assert_eq!(
        blob(0, 16, (3, 4), (11, 4), (2, 4), unreachable_evaluator),
        Err(BlobError::InvalidRange(Parameter::InnerRange))
    );
    assert_eq!(
        blob(0, 16, (3, 4), (4, 11), (4, 2), unreachable_evaluator),
        Err(BlobError::InvalidRange(Parameter::BallSize))
    );
}

#[test]
fn blob_without_balls_is_empty_for_every_seed() {
    for seed in -40i64..40 {
        assert_eq!(blob(seed, 16, (0, 0), (4, 11), (2, 4), exceeds_threshold), Ok(Vec::new()));
        assert_eq!(blob(seed, 16, (0, 0), (4, 11), (2, 4), always), Ok(Vec::new()));
    }
    assert_eq!(blob(i64::MIN, 16, (0, 0), (4, 11), (2, 4), unreachable_evaluator), Ok(Vec::new()));
}

#[test]
fn blob_scans_the_balls_that_sampling_gives() {
    for seed in [0i64, 1, -1, 42, -42, i64::MAX, i64::MIN] {
        let balls = sample_balls(seed, (3, 4), (4, 11), (2, 4)).unwrap();
        assert_eq!(
            blob(seed, 16, (3, 4), (4, 11), (2, 4), exceeds_threshold),
            Ok(scan_by_hand(16, &balls)),
            "seed {}",
            seed
        );
    }
}

#[test]
fn blob_twice_gives_the_same_cells() {
    for seed in [0i64, 5, -5, 1 << 50] {
        let first = blob(seed, 24, (2, 7), (0, 23), (1, 6), exceeds_threshold);
        let second = blob(seed, 24, (2, 7), (0, 23), (1, 6), exceeds_threshold);
        assert!(first.is_ok());
        assert_eq!(first, second);
    }
}

#[test]
fn blob_stays_on_the_grid_and_in_reading_order() {
    for seed in -25i64..25 {
        let cells = blob(seed, 16, (3, 4), (-4, 19), (2, 4), exceeds_threshold).unwrap();
        for cell in &cells {
            assert!(0 <= cell.0 && cell.0 < 16 && 0 <= cell.1 && cell.1 < 16);
        }
        for pair in cells.windows(2) {
            assert!(pair[0].1 <= pair[1].1);
            if pair[0].1 == pair[1].1 {
                assert!(pair[0].0 < pair[1].0);
            }
        }
    }
}

#[test]
fn blob_names_every_centre_on_the_grid() {
    for seed in -25i64..25 {
        let balls = sample_balls(seed, (3, 4), (-4, 19), (0, 1)).unwrap();
        let cells = blob(seed, 16, (3, 4), (-4, 19), (0, 1), exceeds_threshold).unwrap();
        for ball in &balls {
            let (x, y) = (ball.center.x, ball.center.y);
            if 0 <= x && x < 16 && 0 <= y && y < 16 {
                assert!(cells.contains(&(x, y)), "seed {}: centre ({}, {}) is missing", seed, x, y);
            }
        }
    }
}

#[test]
fn blob_of_seed_zero_is_the_known_shape() {
    let balls = sample_balls(0, (3, 4), (4, 11), (2, 4)).unwrap();
    assert_eq!(
        balls,
        vec![MetaBall::new(8, 8, 2), MetaBall::new(11, 8, 3), MetaBall::new(11, 10, 4), MetaBall::new(5, 11, 4)]
    );
    let rows: [(i32, i32, i32); 10] = [
        (5, 9, 11),
        (6, 7, 13),
        (7, 5, 14),
        (8, 4, 14),
        (9, 3, 14),
        (10, 2, 14),
        (11, 2, 14),
        (12, 2, 13),
        (13, 3, 12),
        (14, 4, 7),
    ];
    let mut expected: Vec<(i32, i32)> = Vec::new();
    for (y, first, last) in rows {
        for x in first..=last {
            expected.push((x, y));
        }
    }
    assert_eq!(expected.len(), 95);
    assert_eq!(expected[0], (9, 5));
    assert_eq!(expected[94], (7, 14));
    assert_eq!(blob(0, 16, (3, 4), (4, 11), (2, 4), exceeds_threshold), Ok(expected));
}
