use maunakea::geometry::{Collider, Direction, Point, Rect};
use maunakea::precompute::{FrameResult, MovementPrecomputer, PrecomputeError};
use maunakea::spatial::SpatialIndex;
use maunakea::level::{Level, LevelError};

fn rect(x: i32, y: i32, w: i32, h: i32) -> Collider {
    Collider::Rectangular(Rect::new_xywh(x, y, w, h))
}

fn dir_of(d: u32) -> Direction {
    match d {
        0 => Direction::Left,
        1 => Direction::Up,
        2 => Direction::Right,
        3 => Direction::Down,
        _ => unreachable!(),
    }
}

fn solids_world() -> MovementPrecomputer {
    let death = SpatialIndex::bulk_load(vec![]);
    let solids = SpatialIndex::bulk_load(vec![
        rect(-8, 0, 8, 8),
        rect(0, -9, 8, 8),
        rect(10, 0, 8, 8),
        rect(0, 15, 8, 8),
    ]);
    let bounds = Rect::new_xywh(-8, -9, 27, 33);
    MovementPrecomputer::new(&solids, &death, bounds).unwrap()
}

#[test]
fn precompute_test_death() {
    let solids = SpatialIndex::bulk_load(vec![]);
    let death = SpatialIndex::bulk_load(vec![rect(8, 0, 8, 8), rect(0, 8, 8, 8)]);
    let bounds = Rect::new_xywh(0, 0, 16, 16);
    let precomputer = MovementPrecomputer::new(&solids, &death, bounds).unwrap();
    for y in 0..=15 {
        for x in 0..=15 {
            let expected = !(x >= 8 && y >= 8);
            assert_eq!(precomputer.get_death(&Point::new(x, y), Direction::Left), expected);
            assert_eq!(precomputer.get_death(&Point::new(x, y), Direction::Up), expected);
            assert_eq!(precomputer.get_death(&Point::new(x, y), Direction::Right), expected);
            assert_eq!(precomputer.get_death(&Point::new(x, y), Direction::Down), expected);
        }
    }
}

#[test]
fn precompute_test_solids() {
    let precomputer = solids_world();
    for d in 0..=3 {
        let dir = dir_of(d);
        assert_eq!(
            precomputer.get_solid(&Point::new(0, 0), dir),
            if d == 0 { 0 } else { 2u8.pow(d - 1) }
        );
    }
}

#[test]
fn prerounded_lookups_agree() {
    let precomputer = solids_world();
    for d in 0..=3 {
        let p = Point::new(3, 2);
        assert_eq!(
            precomputer.get_solid(&p, dir_of(d)),
            precomputer.get_solid_prerounded(&p, dir_of(d))
        );
        assert_eq!(
            precomputer.get_death(&p, dir_of(d)),
            precomputer.get_death_prerounded(&p, dir_of(d))
        );
    }
}

#[test]
fn rebuild_gives_identical_tables() {
    let a = solids_world();
    let b = solids_world();
    for y in -9..=23 {
        for x in -8..=18 {
            for d in 0..=3 {
                let p = Point::new(x, y);
                assert_eq!(a.get_solid(&p, dir_of(d)), b.get_solid(&p, dir_of(d)));
                assert_eq!(a.get_death(&p, dir_of(d)), b.get_death(&p, dir_of(d)));
            }
        }
    }
}

#[test]
fn blocking_distance_below_cap_next_to_a_shape() {
    let precomputer = solids_world();
    // Directly left of the shape that starts at x = 10: no gap.
    assert_eq!(precomputer.get_solid(&Point::new(2, 0), Direction::Right), 0);
    assert!(precomputer.get_solid(&Point::new(1, 0), Direction::Right) < 255);
    // Directly below the shape that ends at y = -2.
    assert_eq!(precomputer.get_solid(&Point::new(0, -1), Direction::Up), 0);
}

#[test]
fn blocking_distance_is_cap_when_nothing_in_reach() {
    let death = SpatialIndex::bulk_load(vec![]);
    let solids = SpatialIndex::bulk_load(vec![rect(0, 0, 8, 8)]);
    let bounds = Rect::new_xywh(-300, -10, 700, 40);
    let precomputer = MovementPrecomputer::new(&solids, &death, bounds).unwrap();
    // The shape is 300 cells to the right: beyond the cap.
    assert_eq!(precomputer.get_solid(&Point::new(-300, 0), Direction::Right), 255);
    // 254 free cells is the largest distance below the cap.
    assert_eq!(precomputer.get_solid(&Point::new(-262, 0), Direction::Right), 254);
    assert_eq!(precomputer.get_solid(&Point::new(-263, 0), Direction::Right), 255);
    assert_eq!(precomputer.get_solid(&Point::new(-300, 0), Direction::Left), 255);
    // Below the shape, looking up: the shape ends at y = 7.
    assert_eq!(precomputer.get_solid(&Point::new(0, 20), Direction::Up), 12);
}

#[test]
fn nearest_shape_wins() {
    let death = SpatialIndex::bulk_load(vec![]);
    let solids = SpatialIndex::bulk_load(vec![rect(40, 0, 8, 8), rect(20, 0, 8, 8), rect(30, 0, 8, 8)]);
    let bounds = Rect::new_xywh(0, 0, 64, 16);
    let precomputer = MovementPrecomputer::new(&solids, &death, bounds).unwrap();
    assert_eq!(precomputer.get_solid(&Point::new(0, 0), Direction::Right), 12);
}

#[test]
fn circle_lethal_shape() {
    let solids = SpatialIndex::bulk_load(vec![]);
    let death = SpatialIndex::bulk_load(vec![Collider::Circular(maunakea::geometry::Circle::new(
        6,
        Point::new(30, 30),
    ))]);
    let bounds = Rect::new_xywh(0, 0, 64, 64);
    let precomputer = MovementPrecomputer::new(&solids, &death, bounds).unwrap();
    // Footprint (27..=34, 27..=35) holds the centre.
    assert!(precomputer.get_death(&Point::new(27, 27), Direction::Left));
    // Footprint (36..=43, 30..=38): nearest point (36, 30), six cells away: not inside.
    assert!(!precomputer.get_death(&Point::new(36, 30), Direction::Left));
    // Footprint (35..=42, 30..=38): five cells away.
    assert!(precomputer.get_death(&Point::new(35, 30), Direction::Left));
    // The corner case: nearest point (35, 35) is at squared distance 50 >= 36.
    assert!(!precomputer.get_death(&Point::new(35, 35), Direction::Up));
}

#[test]
fn empty_bounds_are_rejected() {
    let solids = SpatialIndex::bulk_load(vec![]);
    let death = SpatialIndex::bulk_load(vec![]);
    let bounds = Rect::new_xywh(0, 0, 0, 16);
    assert_eq!(
        MovementPrecomputer::new(&solids, &death, bounds).err(),
        Some(PrecomputeError::EmptyBounds)
    );
    let bounds = Rect::new_xywh(0, 0, 16, -3);
    assert_eq!(
        MovementPrecomputer::new(&solids, &death, bounds).err(),
        Some(PrecomputeError::EmptyBounds)
    );
}

#[test]
fn hurtbox_inside_lethal_region_dies_from_every_direction() {
    let solids = SpatialIndex::bulk_load(vec![]);
    let death = SpatialIndex::bulk_load(vec![rect(0, 0, 32, 32)]);
    let bounds = Rect::new_xywh(0, 0, 40, 40);
    let precomputer = MovementPrecomputer::new(&solids, &death, bounds).unwrap();
    let p = Point::new(10, 10);
    for d in 0..=3 {
        assert!(precomputer.get_death(&p, dir_of(d)));
    }
    for vx in -1..=1 {
        for vy in -1..=1 {
            for hit in [false, true] {
                assert_eq!(precomputer.collide(&p, vx, vy, hit), FrameResult::Death);
            }
        }
    }
}

#[test]
fn collide_reports_checkpoint_or_nothing_when_safe() {
    let solids = SpatialIndex::bulk_load(vec![]);
    let death = SpatialIndex::bulk_load(vec![rect(0, 0, 4, 4)]);
    let bounds = Rect::new_xywh(0, 0, 40, 40);
    let precomputer = MovementPrecomputer::new(&solids, &death, bounds).unwrap();
    let p = Point::new(20, 20);
    assert_eq!(precomputer.collide(&p, 1, -1, true), FrameResult::CheckpointHit);
    assert_eq!(precomputer.collide(&p, 0, 0, false), FrameResult::Nothing);
}

#[test]
fn blocked_downward_movement_above_an_obstacle() {
    // One blocking rectangle a few cells below the character's start.
    let death = SpatialIndex::bulk_load(vec![]);
    let solids = SpatialIndex::bulk_load(vec![rect(0, 30, 40, 8)]);
    let bounds = Rect::new_xywh(0, 0, 64, 64);
    let precomputer = MovementPrecomputer::new(&solids, &death, bounds).unwrap();
    let start = Point::new(10, 15);
    let requested = 6u8;
    let available = precomputer.get_solid(&start, Direction::Down);
    assert_eq!(available, 4);
    assert!(available < requested);
    assert_eq!(precomputer.get_solid(&start, Direction::Right), 255);
}

#[test]
fn index_returns_shapes_whose_boxes_meet_the_query() {
    let index = SpatialIndex::bulk_load(vec![
        rect(0, 0, 8, 8),
        Collider::Circular(maunakea::geometry::Circle::new(3, Point::new(20, 20))),
        rect(40, 40, 4, 4),
    ]);
    assert_eq!(index.len(), 3);
    assert_eq!(*index.get(2), rect(40, 40, 4, 4));
    let mut hits = index.candidates((7, 7, 17, 17));
    hits.sort();
    assert_eq!(hits, vec![0, 1]);
    assert_eq!(index.candidates((43, 43, 50, 50)), vec![2]);
    assert!(index.candidates((44, 44, 50, 50)).is_empty());
    assert!(index.candidates((24, 0, 30, 10)).is_empty());
}

#[test]
fn level_builds_its_table() {
    let level = Level::new(
        Rect::new_xywh(0, 0, 32, 32),
        vec![rect(0, 20, 32, 4)],
        vec![rect(24, 0, 4, 4)],
    )
    .unwrap();
    assert_eq!(level.solids.len(), 1);
    assert_eq!(level.death.len(), 1);
    assert_eq!(level.precomputed.get_solid(&Point::new(3, 2), Direction::Down), 7);
    assert!(level.precomputed.get_death(&Point::new(20, 0), Direction::Up));
    assert!(!level.precomputed.get_death(&Point::new(10, 10), Direction::Up));
    assert!(Level::new(Rect::new_xywh(0, 0, 0, 0), vec![], vec![]).is_err());
}

#[test]
fn level_rejects_shapes_outside_the_bounds() {
    let bounds = Rect::new_xywh(0, 0, 32, 32);
    assert_eq!(
        Level::new(bounds, vec![rect(0, 0, 4, 4), rect(30, 0, 4, 4), rect(-1, 0, 2, 2)], vec![]).err(),
        Some(LevelError::BlockingOutsideBounds(1))
    );
    assert_eq!(
        Level::new(
            bounds,
            vec![rect(0, 0, 4, 4)],
            vec![Collider::Circular(maunakea::geometry::Circle::new(6, Point::new(3, 10)))],
        )
        .err(),
        Some(LevelError::LethalOutsideBounds(0))
    );
    assert_eq!(Level::new(Rect::new_xywh(0, 0, 0, 5), vec![rect(0, 0, 4, 4)], vec![]).err(), Some(LevelError::EmptyBounds));
    // Borders are within the bounds.
    assert!(Level::new(bounds, vec![rect(0, 0, 32, 32)], vec![]).is_ok());
}

#[test]
fn negative_radius_circle_is_never_lethal() {
    let solids = SpatialIndex::bulk_load(vec![]);
    let death = SpatialIndex::bulk_load(vec![Collider::Circular(maunakea::geometry::Circle::new(
        -5,
        Point::new(20, 20),
    ))]);
    let bounds = Rect::new_xywh(0, 0, 40, 40);
    let precomputer = MovementPrecomputer::new(&solids, &death, bounds).unwrap();
    assert!(!precomputer.get_death(&Point::new(17, 17), Direction::Left));
}
