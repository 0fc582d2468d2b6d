use live_tracking::position::{elapsed_seconds, Coordinate, Sample};
use live_tracking::registry::{coordinates_except, Registry};
use live_tracking::reward::{calculate_coins, is_nearby, multiplier_for, speed_eligible, Coins, Multiplier};
use live_tracking::session::{Frame, Phase, Session, Step, Variant};

fn at(lat_e7: i64, lon_e7: i64) -> Coordinate {
    Coordinate { lat_e7, lon_e7 }
}

fn sample(lat_e7: i64, lon_e7: i64, at_ms: i64) -> Sample {
    Sample { coord: at(lat_e7, lon_e7), at_ms }
}

#[test]
fn speed_window_is_inclusive_at_both_ends() {
    assert!(speed_eligible(3_000_000, 3600));
    assert!(speed_eligible(15_000_000, 3600));
    assert!(speed_eligible(9_000_000, 3600));
    assert!(!speed_eligible(2_990_000, 3600));
    assert!(!speed_eligible(15_010_000, 3600));
}

#[test]
fn speed_window_refuses_empty_or_backward_intervals() {
    assert!(!speed_eligible(5_000_000, 0));
    assert!(!speed_eligible(0, 0));
    assert!(!speed_eligible(5_000_000, -3600));
}

#[test]
fn speed_window_at_short_intervals() {
    // 25 m in 10 s is 9 km/h.
    assert!(speed_eligible(25_000, 10));
    // 50 m in 10 s is 18 km/h.
    assert!(!speed_eligible(50_000, 10));
}

fn value(c: Coins) -> f64 {
    c.numerator as f64 / c.denominator as f64
}

fn assert_coins(c: Coins, expected: f64) {
    assert!((value(c) - expected).abs() < 1e-9, "{:?} is not {}", c, expected);
}

#[test]
fn coins_are_ten_per_kmh() {
    assert_coins(calculate_coins(5_000_000, 3600, Multiplier::Base), 50.0);
    assert_coins(calculate_coins(3_000_000, 3600, Multiplier::Base), 30.0);
    assert_coins(calculate_coins(15_000_000, 3600, Multiplier::Base), 150.0);
    let c = calculate_coins(5_000_000, 3600, Multiplier::Base);
    assert_eq!(c, Coins { numerator: 180_000_000_000, denominator: 3_600_000_000 });
    assert_eq!(c.whole(), 50);
}

#[test]
fn coins_with_bonus_are_half_again() {
    assert_coins(calculate_coins(5_000_000, 3600, Multiplier::Boosted), 75.0);
    assert_coins(calculate_coins(10_000_000, 3600, Multiplier::Boosted), 150.0);
}

#[test]
fn coins_keep_fractions() {
    // 3.05 km/h: 30.5 coins; twice the speed, twice the coins.
    let slow = calculate_coins(3_050_000, 3600, Multiplier::Base);
    assert_coins(slow, 30.5);
    assert_eq!(slow.numerator * 2, 61 * slow.denominator);
    assert_coins(calculate_coins(6_100_000, 3600, Multiplier::Base), 61.0);
    // 3.1 km/h with the bonus: 46.5 coins.
    assert_coins(calculate_coins(3_100_000, 3600, Multiplier::Boosted), 46.5);
    // 25 m in 10 s is 9 km/h: 90 coins, 135 with the bonus.
    assert_coins(calculate_coins(25_000, 10, Multiplier::Base), 90.0);
    assert_coins(calculate_coins(25_000, 10, Multiplier::Boosted), 135.0);
}

#[test]
fn whole_coins_round_down() {
    assert_eq!(calculate_coins(3_330_000, 3600, Multiplier::Base).whole(), 33);
    assert_eq!(calculate_coins(3_330_000, 3600, Multiplier::Boosted).whole(), 49);
    assert_eq!(calculate_coins(0, 3600, Multiplier::Boosted).whole(), 0);
}

#[test]
fn long_walks_between_cities() {
    // 3935.75 km in 500 h: 7.8715 km/h, 78.715 coins.
    assert_coins(calculate_coins(3_935_750_000, 1_800_000, Multiplier::Base), 78.715);
    // 343.56 km in 50 h: 6.8712 km/h, 68.712 coins.
    assert_coins(calculate_coins(343_560_000, 180_000, Multiplier::Base), 68.712);
}

#[test]
fn proximity_radius_is_inclusive() {
    assert!(is_nearby(0));
    assert!(is_nearby(50_000));
    assert!(!is_nearby(50_001));
}

#[test]
fn multiplier_needs_one_neighbour_in_radius() {
    assert_eq!(multiplier_for(&vec![]), Multiplier::Base);
    assert_eq!(multiplier_for(&vec![50_001, 1_000_000]), Multiplier::Base);
    assert_eq!(multiplier_for(&vec![1_000_000, 50_000, 10]), Multiplier::Boosted);
}

#[test]
fn elapsed_seconds_truncate_toward_zero() {
    let a = sample(0, 0, 1_000);
    assert_eq!(elapsed_seconds(&a, &sample(0, 0, 2_999)), 1);
    assert_eq!(elapsed_seconds(&a, &sample(0, 0, 3_601_000)), 3600);
    assert_eq!(elapsed_seconds(&a, &sample(0, 0, -500)), -1);
    assert_eq!(elapsed_seconds(&a, &a), 0);
}

#[test]
fn origin_is_zero() {
    assert_eq!(Coordinate::origin(), at(0, 0));
}

#[test]
fn registry_upsert_get_remove() {
    let mut r = Registry::new();
    let alice = "alice".to_string();
    assert_eq!(r.get(&alice), None);
    r.upsert(alice.clone(), at(1, 2));
    assert_eq!(r.get(&alice), Some(at(1, 2)));
    r.upsert(alice.clone(), at(3, 4));
    assert_eq!(r.get(&alice), Some(at(3, 4)));
    assert_eq!(r.snapshot().len(), 1);
    r.remove(&alice);
    assert_eq!(r.get(&alice), None);
    r.remove(&alice);
    assert!(r.snapshot().is_empty());
}

#[test]
fn closed_identity_absent_from_snapshot() {
    let mut r = Registry::new();
    r.upsert("alice".to_string(), at(1, 1));
    r.upsert("bob".to_string(), at(2, 2));
    r.remove(&"alice".to_string());
    let snap = r.snapshot();
    assert_eq!(snap.len(), 1);
    assert!(snap.iter().all(|(id, _)| id != "alice"));
    assert_eq!(snap[0], ("bob".to_string(), at(2, 2)));
}

#[test]
fn distinct_identities_keep_their_updates() {
    let mut r = Registry::new();
    r.upsert("alice".to_string(), at(0, 0));
    r.upsert("bob".to_string(), at(0, 0));
    r.upsert("alice".to_string(), at(10, 11));
    r.upsert("bob".to_string(), at(20, 21));
    let snap = r.snapshot();
    assert_eq!(snap.len(), 2);
    assert!(snap.contains(&("alice".to_string(), at(10, 11))));
    assert!(snap.contains(&("bob".to_string(), at(20, 21))));
}

#[test]
fn snapshot_is_a_copy() {
    let mut r = Registry::new();
    r.upsert("alice".to_string(), at(1, 1));
    let snap = r.snapshot();
    r.upsert("alice".to_string(), at(5, 5));
    r.upsert("bob".to_string(), at(6, 6));
    assert_eq!(snap, vec![("alice".to_string(), at(1, 1))]);
}

#[test]
fn others_leave_out_own_identity() {
    let snap = vec![
        ("alice".to_string(), at(1, 1)),
        ("bob".to_string(), at(2, 2)),
        ("carol".to_string(), at(3, 3)),
    ];
    assert_eq!(coordinates_except(&snap, &"bob".to_string()), vec![at(1, 1), at(3, 3)]);
    assert_eq!(coordinates_except(&snap, &"dave".to_string()).len(), 3);
    assert!(coordinates_except(&vec![], &"bob".to_string()).is_empty());
}

#[test]
fn refused_token_closes_session() {
    let mut s = Session::new(Variant::Relay);
    assert!(matches!(s.on_verified(None), Step::Close));
    assert!(matches!(s.phase, Phase::Closed));
    assert!(matches!(s.on_frame(Frame::Position(sample(1, 1, 0))), Step::Proceed));
    assert!(matches!(s.on_closed(), Step::Proceed));
}

#[test]
fn relay_session_registers_relays_and_releases() {
    let mut s = Session::new(Variant::Relay);
    match s.on_verified(Some("alice".to_string())) {
        Step::Register { coord } => assert_eq!(coord, at(0, 0)),
        _ => panic!("expected registration"),
    }
    assert_eq!(s.identity, "alice");
    for i in 0..3 {
        match s.on_frame(Frame::Position(sample(i, i, 1000 * i))) {
            Step::Settle { coord, award } => {
                assert_eq!(coord, at(i, i));
                assert_eq!(award, None);
            }
            _ => panic!("relay settles every position"),
        }
    }
    assert!(matches!(s.on_closed(), Step::Release));
    assert!(matches!(s.phase, Phase::Closed));
}

#[test]
fn first_position_never_rewarded() {
    let mut s = Session::new(Variant::Reward);
    assert!(matches!(s.on_verified(Some("alice".to_string())), Step::Proceed));
    match s.on_frame(Frame::Position(sample(5, 5, 0))) {
        Step::Baseline { coord } => assert_eq!(coord, at(5, 5)),
        _ => panic!("first position only sets the baseline"),
    }
    assert!(matches!(s.on_measured(5_000_000), Step::Proceed));
    assert!(matches!(s.on_scanned(&vec![0]), Step::Proceed));
}

fn reward_session_with_baseline() -> Session {
    let mut s = Session::new(Variant::Reward);
    s.on_verified(Some("alice".to_string()));
    s.on_frame(Frame::Position(sample(0, 0, 0)));
    s
}

#[test]
fn reward_at_five_kmh_alone() {
    let mut s = reward_session_with_baseline();
    match s.on_frame(Frame::Position(sample(450_000, 0, 3_600_000))) {
        Step::Measure { from, to } => {
            assert_eq!(from, at(0, 0));
            assert_eq!(to, at(450_000, 0));
        }
        _ => panic!("expected a measurement"),
    }
    assert!(matches!(s.on_measured(5_000_000), Step::Scan { around } if around == at(450_000, 0)));
    match s.on_scanned(&vec![2_000_000]) {
        Step::Settle { coord, award } => {
            assert_eq!(coord, at(450_000, 0));
            assert_coins(award.unwrap(), 50.0);
        }
        _ => panic!("expected settling"),
    }
}

#[test]
fn reward_at_five_kmh_with_neighbour() {
    let mut s = reward_session_with_baseline();
    s.on_frame(Frame::Position(sample(450_000, 0, 3_600_000)));
    s.on_measured(5_000_000);
    match s.on_scanned(&vec![2_000_000, 30_000]) {
        Step::Settle { award: Some(c), .. } => assert_coins(c, 75.0),
        _ => panic!("expected a reward"),
    }
}

#[test]
fn too_fast_or_too_slow_settles_without_scan() {
    let mut s = reward_session_with_baseline();
    s.on_frame(Frame::Position(sample(1, 0, 3_600_000)));
    assert!(matches!(s.on_measured(15_010_000), Step::Settle { award: None, .. }));
    s.on_frame(Frame::Position(sample(2, 0, 7_200_000)));
    assert!(matches!(s.on_measured(2_990_000), Step::Settle { award: None, .. }));
    s.on_frame(Frame::Position(sample(3, 0, 7_200_000)));
    assert!(matches!(s.on_measured(10), Step::Settle { award: None, .. }));
}

#[test]
fn malformed_frame_ignored_then_valid_processed() {
    let mut s = reward_session_with_baseline();
    assert!(matches!(s.on_frame(Frame::Malformed), Step::Proceed));
    assert!(matches!(s.on_frame(Frame::Control), Step::Proceed));
    assert!(matches!(s.phase, Phase::Tracking { previous: Some(_) }));
    assert!(matches!(s.on_frame(Frame::Position(sample(9, 9, 60_000))), Step::Measure { .. }));

    let mut r = Session::new(Variant::Relay);
    r.on_verified(Some("bob".to_string()));
    assert!(matches!(r.on_frame(Frame::Malformed), Step::Proceed));
    assert!(matches!(r.on_frame(Frame::Position(sample(1, 2, 0))), Step::Settle { .. }));
}

#[test]
fn reward_session_releases_on_close() {
    let mut s = reward_session_with_baseline();
    assert!(matches!(s.on_closed(), Step::Release));
    let mut waiting = Session::new(Variant::Reward);
    assert!(matches!(waiting.on_closed(), Step::Proceed));
}

#[test]
fn forwards_only_other_identities() {
    let mut s = Session::new(Variant::Relay);
    s.on_verified(Some("alice".to_string()));
    assert!(!s.forwards(&"alice".to_string()));
    assert!(s.forwards(&"bob".to_string()));
}
