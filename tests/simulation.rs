use sim::draws::random_draws;
use sim::model::Model;
use sim::road::{create_road, NO_VEHICLE_AHEAD};
use sim::transformers::{Accelerator, Decelerator, LaneMover, Mover, Randomizer, Recycler};
use sim::typedef::{Fraction, Position, Quotient, Road, Vehicle, Velocity, PARTS};
use sim::{step, step_with_draws};

fn fraction(per_million: u32) -> Fraction {
    Fraction { per_million }
}

fn car(x: u8, y: u8, v: u8) -> Vehicle {
    Vehicle::new(Position::new(x, y), Some(Velocity::new(v)), fraction(0), fraction(0))
}

fn eager_car(x: u8, y: u8, v: u8) -> Vehicle {
    Vehicle::new(Position::new(x, y), Some(Velocity::new(v)), fraction(PARTS), fraction(PARTS))
}

fn road(len: u8, p: u32, vehicles: Vec<Vehicle>, limits: &[u8]) -> Road {
    Road::new(len, fraction(p), vehicles, limits.iter().map(|l| Velocity::new(*l)).collect())
}

fn assert_well_formed(r: &Road) {
    let mut cells: Vec<(u8, u8)> = r.vehicles.iter().map(|v| (v.position.x, v.position.y)).collect();
    cells.sort();
    let before = cells.len();
    cells.dedup();
    assert_eq!(before, cells.len(), "two vehicles share a cell");
    for v in &r.vehicles {
        assert!(v.position.x < r.len);
        assert!((v.position.y as usize) < r.speed_per_lane.len());
        assert!(v.velocity.into_inner() <= r.speed_per_lane[v.position.y as usize].into_inner());
    }
}

#[test]
fn two_cars_on_a_ring_of_ten() {
    let r = road(10, 0, vec![car(0, 0, 0), car(5, 0, 0)], &[5]);
    let r = step(r);
    assert_eq!(r.vehicles[0].velocity.into_inner(), 1);
    assert_eq!(r.vehicles[1].velocity.into_inner(), 1);
    assert_eq!(r.vehicles[0].position, Position::new(1, 0));
    assert_eq!(r.vehicles[1].position, Position::new(6, 0));
    let mut r = r;
    for _ in 0..50 {
        r = step(r);
        assert_eq!(r.vehicles.len(), 2);
        assert_well_formed(&r);
        for v in &r.vehicles {
            assert!(v.velocity.into_inner() <= 4);
        }
    }
}

#[test]
fn rear_car_is_capped_by_the_gap() {
    let r = road(10, 0, vec![car(0, 0, 5), car(2, 0, 0)], &[5]);
    let r = step_with_draws(r, vec![PARTS - 1, PARTS - 1], vec![0, 0]);
    assert_eq!(r.vehicles[0].velocity.into_inner(), 1);
    assert_eq!(r.vehicles[0].position.x, 1);
    assert_eq!(r.vehicles[1].velocity.into_inner(), 1);
    assert_eq!(r.vehicles[1].position.x, 3);
}

#[test]
fn random_roads_stay_safe_over_many_ticks() {
    let mut r = create_road(100, fraction(300_000), vec![5, 4, 3], fraction(400_000), fraction(800_000), true, true);
    let n = r.vehicles.len();
    assert_eq!(n, 90);
    assert_well_formed(&r);
    for _ in 0..200 {
        r = step(r);
        assert_eq!(r.vehicles.len(), n);
        assert_well_formed(&r);
    }
}

#[test]
fn update_vehicles_keeps_count_and_safety() {
    let mut r = create_road(50, fraction(600_000), vec![], fraction(300_000), fraction(500_000), true, false);
    let n = r.vehicles.len();
    for _ in 0..100 {
        r.update_vehicles();
        assert_eq!(r.vehicles.len(), n);
        assert_well_formed(&r);
    }
}

#[test]
fn free_car_gains_one_per_tick() {
    let mut r = road(50, 0, vec![car(0, 0, 0)], &[3]);
    for expected in [1u8, 2, 3, 3] {
        r = step(r);
        assert_eq!(r.vehicles[0].velocity.into_inner(), expected);
    }
    assert_eq!(r.vehicles[0].position.x, 9);
}

#[test]
fn braking_draw_undoes_the_gain() {
    let r = road(50, PARTS, vec![car(0, 0, 2)], &[5]);
    let r = step_with_draws(r, vec![0], vec![0]);
    assert_eq!(r.vehicles[0].velocity.into_inner(), 2);
    assert_eq!(r.vehicles[0].position.x, 2);
}

#[test]
fn braking_happens_at_the_configured_rate() {
    let mut r = create_road(255, fraction(PARTS), vec![5, 5, 5], fraction(300_000), fraction(0), false, false);
    let n = r.vehicles.len();
    assert_eq!(n, 765);
    let mut braked = 0usize;
    let mut total = 0usize;
    while total < 100_000 {
        for v in r.vehicles.iter_mut() {
            v.velocity = Velocity::new(1);
        }
        r = Model::new(r).apply(Randomizer::random(n)).finish();
        braked += r.vehicles.iter().filter(|v| v.velocity.into_inner() == 0).count();
        total += n;
    }
    let rate = braked as f64 / total as f64;
    assert!((rate - 0.3).abs() < 0.01, "observed braking rate {rate}");
}

#[test]
fn braking_stops_at_zero() {
    let r = road(10, PARTS, vec![car(0, 0, 0), car(5, 0, 1)], &[5]);
    let r = Model::new(r).apply(Randomizer::new(vec![0, 0])).finish();
    assert_eq!(r.vehicles[0].velocity.into_inner(), 0);
    assert_eq!(r.vehicles[1].velocity.into_inner(), 0);
}

#[test]
fn car_at_the_end_wraps_round() {
    let r = road(10, 0, vec![car(9, 0, 3)], &[5]);
    let v = r.vehicles[0].update_position(&r);
    assert_eq!(v.position, Position::new(2, 0));
    let r = Model::new(r).apply(Mover).finish();
    assert_eq!(r.vehicles[0].position, Position::new(2, 0));
    let r2 = road(10, 0, vec![car(9, 0, 0)], &[5]);
    let r2 = step(r2);
    assert_eq!(r2.vehicles[0].position, Position::new(0, 0));
}

#[test]
fn lane_change_to_a_faster_lane() {
    // Lane 0 is blocked right ahead; lane 1 is empty.
    let r = road(20, 0, vec![eager_car(5, 0, 0), car(6, 0, 0)], &[5, 5]);
    let r = Model::new(r).apply(LaneMover::new(vec![0, 0])).finish();
    assert_eq!(r.vehicles[0].position, Position::new(5, 1));
    assert_eq!(r.vehicles[1].position, Position::new(6, 0));
}

#[test]
fn lane_change_waits_for_the_follower() {
    // A vehicle two cells behind in lane 1 drives at 1: moving in would
    // leave it no free cell to drive into.
    let r = road(20, 0, vec![eager_car(5, 0, 0), car(6, 0, 0), car(3, 1, 1)], &[5, 5]);
    let r = Model::new(r).apply(LaneMover::new(vec![0, 0, 0])).finish();
    assert_eq!(r.vehicles[0].position, Position::new(5, 0));
    // Standing still, the follower leaves room.
    let r = road(20, 0, vec![eager_car(5, 0, 0), car(6, 0, 0), car(3, 1, 0)], &[5, 5]);
    let r = Model::new(r).apply(LaneMover::new(vec![0, 0, 0])).finish();
    assert_eq!(r.vehicles[0].position, Position::new(5, 1));
}

#[test]
fn lane_change_needs_a_strictly_faster_lane() {
    let r = road(20, 0, vec![eager_car(5, 0, 0), car(6, 0, 0), car(6, 1, 0)], &[5, 5]);
    let r = Model::new(r).apply(LaneMover::new(vec![0, 0, 0])).finish();
    assert_eq!(r.vehicles[0].position, Position::new(5, 0));
}

#[test]
fn lane_change_needs_the_draw() {
    let r = road(20, 0, vec![eager_car(5, 0, 0), car(6, 0, 0)], &[5, 5]);
    let r = Model::new(r).apply(LaneMover::new(vec![PARTS, 0])).finish();
    assert_eq!(r.vehicles[0].position, Position::new(5, 0));
}

#[test]
fn two_cars_never_enter_one_cell() {
    // Both outer lanes are blocked; the middle cell beside them is free.
    let r = road(
        20,
        0,
        vec![eager_car(5, 0, 0), car(6, 0, 0), eager_car(5, 2, 0), car(6, 2, 0)],
        &[5, 5, 5],
    );
    let r = Model::new(r).apply(LaneMover::new(vec![0, 0, 0, 0])).finish();
    assert_eq!(r.vehicles[0].position, Position::new(5, 1));
    assert_eq!(r.vehicles[2].position, Position::new(5, 2));
    assert_well_formed(&r);
}

#[test]
fn lane_change_prefers_the_faster_side() {
    // From lane 1: lane 0 allows 2, lane 2 allows 5.
    let r = road(20, 0, vec![eager_car(5, 1, 0), car(6, 1, 0), car(8, 0, 0)], &[5, 5, 5]);
    let r = Model::new(r).apply(LaneMover::new(vec![0, 0, 0])).finish();
    assert_eq!(r.vehicles[0].position, Position::new(5, 2));
    // With equal prospects the lower lane wins.
    let r = road(20, 0, vec![eager_car(5, 1, 0), car(6, 1, 0)], &[5, 5, 5]);
    let r = Model::new(r).apply(LaneMover::new(vec![0, 0])).finish();
    assert_eq!(r.vehicles[0].position, Position::new(5, 0));
}

#[test]
fn empty_lane_reports_zero_speed() {
    let r = road(10, 0, vec![car(0, 0, 2), car(4, 0, 3)], &[5, 5, 5]);
    let per_lane = r.get_average_speed_per_lane();
    assert_eq!(per_lane.len(), 3);
    assert_eq!(per_lane[0], Quotient { numerator: 5, denominator: 2 });
    assert_eq!(per_lane[1], Quotient { numerator: 0, denominator: 1 });
    assert_eq!(per_lane[2], Quotient { numerator: 0, denominator: 1 });
    let empty = road(10, 0, vec![], &[5, 5, 5]);
    assert_eq!(empty.get_average_speed(), Quotient { numerator: 0, denominator: 1 });
}

#[test]
fn metrics_of_a_small_road() {
    let r = road(10, 0, vec![car(0, 0, 2), car(4, 1, 3), car(7, 1, 1)], &[5, 5, 5]);
    assert_eq!(r.get_average_speed(), Quotient { numerator: 6, denominator: 3 });
    assert_eq!(r.get_density(), Quotient { numerator: 3, denominator: 30 });
    assert_eq!(r.get_flow(), Quotient { numerator: 6, denominator: 30 });
}

#[test]
fn gap_formula_across_the_seam() {
    let r = road(10, 0, vec![], &[5]);
    assert_eq!(r.dist_between_vehicles(5, 0), 4);
    assert_eq!(r.dist_between_vehicles(0, 5), 4);
    assert_eq!(r.dist_between_vehicles(0, 9), 0);
    assert_eq!(r.dist_between_vehicles(3, 3), 9);
    assert_eq!(r.dist_between_vehicles(2, 8), 3);
}

#[test]
fn nearest_vehicles_ahead_and_behind() {
    let r = road(10, 0, vec![car(1, 0, 0), car(8, 0, 2), car(4, 1, 0), car(5, 0, 1)], &[5, 5]);
    assert_eq!(r.distance_to_next_vehicle(Position::new(1, 0)), 3);
    assert_eq!(r.distance_to_next_vehicle(Position::new(8, 0)), 2);
    assert_eq!(r.distance_to_next_vehicle(Position::new(4, 1)), NO_VEHICLE_AHEAD);
    assert_eq!(r.find_previous_vehicle(Position::new(1, 0)).map(|v| v.position), Some(Position::new(8, 0)));
    assert_eq!(r.find_previous_vehicle(Position::new(6, 0)).map(|v| v.position), Some(Position::new(5, 0)));
    assert!(r.find_previous_vehicle(Position::new(4, 1)).is_none());
    assert_eq!(r.get_max_velocity_on_position(Position::new(1, 0)).into_inner(), 3);
    assert_eq!(r.get_max_velocity_on_position(Position::new(0, 1)).into_inner(), 3);
    assert_eq!(r.get_max_velocity_on_position(Position::new(6, 1)).into_inner(), 5);
    assert!(r.is_occupied(Position::new(4, 1)));
    assert!(!r.is_occupied(Position::new(4, 0)));
}

#[test]
fn vehicles_in_a_lane_keep_their_order() {
    let r = road(10, 0, vec![car(7, 0, 0), car(1, 1, 0), car(2, 0, 0)], &[5, 5]);
    let lane0: Vec<Position> = r.get_vehicles_in_lane(0).iter().map(|v| v.position).collect();
    assert_eq!(lane0, vec![Position::new(7, 0), Position::new(2, 0)]);
    assert!(r.get_vehicles_in_lane(2).is_empty());
}

#[test]
fn speed_limits_per_lane() {
    let mut r = road(10, 0, vec![], &[5, 4, 3]);
    assert_eq!(r.get_max_velocity_in_lane(1), Some(Velocity::new(4)));
    assert_eq!(r.get_max_velocity_in_lane(3), None);
    r.set_max_velocity_in_lane(1, Velocity::new(2));
    assert_eq!(r.get_max_velocity_in_lane(1), Some(Velocity::new(2)));
    r.set_max_velocity_in_lane(7, Velocity::new(9));
    assert_eq!(r.speed_per_lane.len(), 3);
}

#[test]
fn ordered_road_construction() {
    let r = create_road(10, fraction(350_000), vec![5, 4, 3, 2], fraction(100_000), fraction(200_000), false, false);
    // 10 x 3 x 0.35 = 10.5 vehicles, rounded to 11.
    assert_eq!(r.vehicles.len(), 11);
    assert_eq!(r.speed_per_lane, vec![Velocity::new(5), Velocity::new(4), Velocity::new(3)]);
    assert_eq!(r.len, 10);
    for (i, v) in r.vehicles.iter().enumerate() {
        assert_eq!(v.position, Position::new((i / 3) as u8, (i % 3) as u8));
        assert_eq!(v.velocity.into_inner(), 0);
        assert_eq!(v.original_lane, v.position.y);
        assert_eq!(v.move_left_chance, fraction(200_000));
        assert_eq!(v.move_right_chance, fraction(200_000));
    }
}

#[test]
fn default_speeds_and_random_start() {
    let r = create_road(20, fraction(PARTS), vec![], fraction(0), fraction(0), true, true);
    assert_eq!(r.speed_per_lane, vec![Velocity::new(5); 3]);
    assert_eq!(r.vehicles.len(), 60);
    assert_well_formed(&r);
    for v in &r.vehicles {
        assert!(v.velocity.into_inner() < 5);
    }
}

#[test]
fn random_draws_fall_in_range() {
    let d = random_draws(10_000);
    assert_eq!(d.len(), 10_000);
    assert!(d.iter().all(|x| *x < PARTS));
    assert!(d.iter().any(|x| *x != d[0]));
}

#[test]
fn accelerator_raises_speeds_against_the_old_road() {
    let r = road(10, 0, vec![car(0, 0, 0), car(2, 0, 3), car(5, 1, 4)], &[5, 4]);
    let r = Model::new(r).apply(Accelerator).finish();
    assert_eq!(r.vehicles[0].velocity.into_inner(), 1);
    assert_eq!(r.vehicles[1].velocity.into_inner(), 4);
    assert_eq!(r.vehicles[2].velocity.into_inner(), 4);
}

#[test]
fn decelerator_slows_to_the_gap() {
    let r = road(10, 0, vec![car(0, 0, 4), car(2, 0, 3)], &[5]);
    let r = Model::new(r).apply(Decelerator).finish();
    assert_eq!(r.vehicles[0].velocity.into_inner(), 1);
    assert_eq!(r.vehicles[1].velocity.into_inner(), 3);
}

#[test]
fn recycler_brings_cars_back_on_the_road() {
    let r = road(10, 0, vec![car(13, 0, 0), car(4, 0, 0)], &[5]);
    let r = Model::new(r).apply(Recycler).finish();
    assert_eq!(r.vehicles[0].position.x, 3);
    assert_eq!(r.vehicles[1].position.x, 4);
}

#[test]
fn position_and_velocity_basics() {
    assert_eq!(Position::new(3, 9).distance_1d(&Position::new(7, 0)), 4);
    assert_eq!(Position::new(200, 0).distance_1d(&Position::new(10, 0)), 190);
    assert_eq!(Velocity::new(7).into_inner(), 7);
    let v = Vehicle::new(Position::new(1, 2), None, fraction(1), fraction(2));
    assert_eq!(v.velocity.into_inner(), 0);
    assert_eq!(v.original_lane, 2);
}

#[test]
fn update_x_without_lane_change() {
    let r = road(10, 0, vec![car(8, 0, 2)], &[5]);
    let v = r.vehicles[0].update_x(&r, PARTS);
    assert_eq!(v.velocity.into_inner(), 3);
    assert_eq!(v.position, Position::new(1, 0));
}
