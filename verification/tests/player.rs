use lifes_end::combat::{after_wall_hit, nuke_ready, NUKE_COST};
use lifes_end::hud::{swarm_alert, SwarmAlert};
use lifes_end::random::GameRng;
use lifes_end::tail::{grow_tail, sacrifice_tail, PositionHistory, TailChain, DEFAULT_HISTORY_LENGTH};

#[test]
fn history_keeps_newest_first_and_bounded() {
    let mut h: PositionHistory<u32> = PositionHistory::new();
    assert_eq!(h.max_length, DEFAULT_HISTORY_LENGTH);
    h.max_length = 3;
    for p in 0..5u32 {
        h.record(p);
    }
    assert_eq!(h.positions.iter().copied().collect::<Vec<_>>(), vec![4, 3, 2]);
}

#[test]
fn segments_follow_every_eighth_sample() {
    let mut h: PositionHistory<u32> = PositionHistory::new();
    for p in 0..20u32 {
        h.record(p);
    }
    assert_eq!(h.sample_for_segment(0), Some(&11));
    assert_eq!(h.sample_for_segment(1), Some(&3));
    assert_eq!(h.sample_for_segment(2), None);
}

#[test]
fn growing_tail_lengthens_history() {
    let mut chain: TailChain<&str> = TailChain::new();
    let mut h: PositionHistory<u32> = PositionHistory::new();
    assert_eq!(grow_tail(&mut chain, &mut h, "a"), 0);
    assert_eq!(h.max_length, 36);
    assert_eq!(grow_tail(&mut chain, &mut h, "b"), 1);
    assert_eq!(h.max_length, 44);
    assert_eq!(chain.segments, vec!["a", "b"]);
    h.record(7);
    sacrifice_tail(&mut chain, &mut h);
    assert_eq!(chain.len(), 0);
    assert!(h.positions.is_empty());
    assert_eq!(h.max_length, 100);
}

#[test]
fn nuke_costs_ten_segments() {
    assert_eq!(NUKE_COST, 10);
    assert!(!nuke_ready(9));
    assert!(nuke_ready(10));
    assert!(nuke_ready(25));
}

#[test]
fn projectile_bounces_once() {
    assert_eq!(after_wall_hit(1), Some(0));
    assert_eq!(after_wall_hit(0), None);
    assert_eq!(after_wall_hit(5), Some(4));
}

#[test]
fn swarm_alert_thresholds() {
    assert_eq!(swarm_alert(50, 100), SwarmAlert::Safe);
    assert_eq!(swarm_alert(51, 100), SwarmAlert::Warning);
    assert_eq!(swarm_alert(75, 100), SwarmAlert::Warning);
    assert_eq!(swarm_alert(76, 100), SwarmAlert::Danger);
    assert_eq!(swarm_alert(0, 0), SwarmAlert::Safe);
    assert_eq!(swarm_alert(1, 0), SwarmAlert::Danger);
}

#[test]
fn gen_range_stays_in_range() {
    let mut rng = GameRng::default();
    for _ in 0..200 {
        let v = rng.gen_range(-1, 1);
        assert!((-1..=1).contains(&v));
    }
    assert_eq!(rng.gen_range(4, 4), 4);
    let _ = rng.gen();
}

#[test]
fn gen_range_draws_vary() {
    let mut rng = GameRng::default();
    let draws: Vec<i32> = (0..200).map(|_| rng.gen_range(-1, 1)).collect();
    assert!(draws.contains(&-1) && draws.contains(&0) && draws.contains(&1));
}
