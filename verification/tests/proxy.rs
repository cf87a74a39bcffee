use openay_mic::delay::DelayQueue;
use openay_mic::profile::{Action, DecisionEngine, Profile, JITTER_MAX_DELAY_MS};
use openay_mic::proxy::{Proxy, ProxyConfig, ProxyStats, DEFAULT_SEED, NANOS_PER_MS};
use openay_mic::rng::SplitMix64;

fn fingerprint(action: Action) -> u64 {
    (u64::from(action.is_drop()) << 2)
        | (u64::from(action.delay().is_some()) << 1)
        | u64::from(action.duplicates())
}

fn sequence(profile: Profile, seed: u64, n: usize) -> Vec<u64> {
    let mut engine = DecisionEngine::new(profile, seed);
    (0..n).map(|_| fingerprint(engine.decide())).collect()
}

#[test]
fn same_seed_reproduces_sequence_for_every_profile() {
    for profile in Profile::ALL {
        assert_eq!(
            sequence(profile, 42, 2_000),
            sequence(profile, 42, 2_000),
            "profile {profile:?} not reproducible under the same seed"
        );
    }
}

#[test]
fn different_seed_differs_for_every_profile() {
    for profile in [Profile::Loss2, Profile::Burst, Profile::Jitter30] {
        assert_ne!(
            sequence(profile, 1, 2_000),
            sequence(profile, 2, 2_000),
            "profile {profile:?} ignores the seed"
        );
    }
}

#[test]
fn clean_always_forwards() {
    let mut engine = DecisionEngine::new(Profile::Clean, 7);
    for _ in 0..1_000 {
        assert_eq!(engine.decide(), Action::ForwardImmediate);
    }
    assert_eq!(engine.profile(), Profile::Clean);
}

#[test]
fn loss2_rate_is_about_two_percent() {
    let n = 100_000;
    let mut engine = DecisionEngine::new(Profile::Loss2, 1234);
    let drops = (0..n).filter(|_| engine.decide().is_drop()).count();
    let rate = drops as f64 / n as f64;
    assert!(
        (0.015..=0.025).contains(&rate),
        "loss2 drop rate {rate} outside [0.015, 0.025]"
    );
}

#[test]
fn burst_has_stable_band_and_long_runs_for_default_seed() {
    let n = 200_000;
    let mut engine = DecisionEngine::new(Profile::Burst, DEFAULT_SEED);
    let mut drops = 0usize;
    let mut run = 0usize;
    let mut max_run = 0usize;
    let mut prev_drop = false;
    let mut drop_after_drop = 0usize;
    let mut drop_after_ok = 0usize;
    let mut ok_after_drop = 0usize;
    let mut ok_after_ok = 0usize;
    for _ in 0..n {
        let drop = engine.decide().is_drop();
        if drop {
            drops += 1;
            run += 1;
            max_run = max_run.max(run);
            if prev_drop {
                drop_after_drop += 1;
            } else {
                drop_after_ok += 1;
            }
        } else {
            run = 0;
            if prev_drop {
                ok_after_drop += 1;
            } else {
                ok_after_ok += 1;
            }
        }
        prev_drop = drop;
    }

    let loss = drops as f64 / n as f64;
    assert!(
        (0.05..=0.10).contains(&loss),
        "burst mean loss {loss} outside band [0.05, 0.10]"
    );
    assert!(max_run > 15, "expected a consecutive-drop run longer than 15, got {max_run}");

    let p_after_drop = drop_after_drop as f64 / (drop_after_drop + ok_after_drop) as f64;
    let p_after_ok = drop_after_ok as f64 / (drop_after_ok + ok_after_ok) as f64;
    assert!(p_after_drop > 0.35, "P(drop|drop) = {p_after_drop}");
    assert!(p_after_ok < 0.20, "P(drop|delivered) = {p_after_ok}");
}

#[test]
fn jitter30_delays_are_bounded_and_dups_near_one_percent() {
    let n = 100_000;
    let mut engine = DecisionEngine::new(Profile::Jitter30, 7);
    let mut dups = 0usize;
    let mut max_ms = 0u64;
    for _ in 0..n {
        let action = engine.decide();
        if action.duplicates() {
            dups += 1;
        }
        let ms = action.delay().expect("jitter30 never forwards immediately");
        assert!(
            ms <= JITTER_MAX_DELAY_MS,
            "delay {ms} ms exceeds {JITTER_MAX_DELAY_MS} ms"
        );
        max_ms = max_ms.max(ms);
    }
    let dup_rate = dups as f64 / n as f64;
    assert!(
        (0.005..=0.015).contains(&dup_rate),
        "jitter30 dup rate {dup_rate} outside [0.005, 0.015]"
    );
    assert!(max_ms > 30, "no delay above 30 ms in {n} samples");
}

#[test]
fn profile_names_parse_and_roundtrip() {
    for profile in Profile::ALL {
        let name = profile.as_str();
        assert_eq!(name.parse::<Profile>().unwrap(), profile);
    }
    assert!("lossy".parse::<Profile>().is_err());
    assert_eq!(
        Profile::parse("Clean").unwrap_err(),
        "unknown profile `Clean` (expected one of: clean, loss2, burst, jitter30)"
    );
}

/// The decisions agree with drawing fractions as floating-point numbers.
#[test]
fn decisions_agree_with_fractions() {
    for profile in Profile::ALL {
        let mut engine = DecisionEngine::new(profile, 2024);
        let mut rng = SplitMix64::new(2024);
        let mut bad = false;
        let mut draw = || (rng.next_u64() >> 11) as f64 * (1.0 / (1u64 << 53) as f64);
        for _ in 0..20_000 {
            let expected = match profile {
                Profile::Clean => Action::ForwardImmediate,
                Profile::Loss2 => {
                    if draw() < 0.02 {
                        Action::Drop
                    } else {
                        Action::ForwardImmediate
                    }
                }
                Profile::Burst => {
                    if bad {
                        if draw() < 0.05 {
                            bad = false;
                        }
                    } else if draw() < 0.005 {
                        bad = true;
                    }
                    if draw() < if bad { 0.95 } else { 0.01 } {
                        Action::Drop
                    } else {
                        Action::ForwardImmediate
                    }
                }
                Profile::Jitter30 => {
                    let ms = (draw() * 61.0) as u64;
                    if draw() < 0.01 {
                        Action::ForwardImmediatePlusDelayed(ms)
                    } else {
                        Action::ForwardDelayed(ms)
                    }
                }
            };
            assert_eq!(engine.decide(), expected);
        }
    }
}

#[test]
fn same_seed_reproduces_exact_stream() {
    let mut a = SplitMix64::new(0xA7B0_094A_5EED_A11C);
    let mut b = SplitMix64::new(0xA7B0_094A_5EED_A11C);
    for _ in 0..10_000 {
        assert_eq!(a.next_u64(), b.next_u64());
    }
}

#[test]
fn different_seeds_differ() {
    let mut a = SplitMix64::new(1);
    let mut b = SplitMix64::new(2);
    assert_ne!(a.next_u64(), b.next_u64());
}

#[test]
fn next_f64_stays_in_unit_interval() {
    let mut rng = SplitMix64::new(42);
    for _ in 0..10_000 {
        let v = rng.next_f64() as f64 / (1u64 << 53) as f64;
        assert!((0.0..1.0).contains(&v), "value out of range: {v}");
    }
}

#[test]
fn first_numbers_of_seed_zero() {
    let mut rng = SplitMix64::new(0);
    assert_eq!(rng.next_u64(), 0xE220_A839_7B1D_CDAF);
    assert_eq!(rng.next_u64(), 0x6E78_9E6A_A1B9_65F4);
}

#[test]
fn releases_earlier_deadline_first() {
    let mut queue = DelayQueue::new();
    queue.push(30, 30u64);
    queue.push(10, 10u64);
    queue.push(20, 20u64);

    assert_eq!(queue.deadline(), Some(10));
    assert_eq!(queue.len(), 3);

    assert!(queue.pop_expired(0).is_empty());
    assert_eq!(queue.pop_expired(15), vec![10u64]);
    assert_eq!(queue.pop_expired(20), vec![20u64]);
    assert!(queue.pop_expired(29).is_empty());
    assert_eq!(queue.pop_expired(30), vec![30u64]);
    assert!(queue.is_empty());
}

#[test]
fn same_deadline_releases_in_insertion_order() {
    let mut queue = DelayQueue::new();
    let deadline = 50;
    queue.push(deadline, "second");
    queue.push(deadline, "first");
    queue.push(deadline, "third");
    assert_eq!(queue.pop_expired(deadline), vec!["second", "first", "third"]);
}

#[test]
fn interleaved_deadlines_keep_min_accurate() {
    let mut queue = DelayQueue::new();
    queue.push(100, 1u64);
    queue.push(20, 2u64);
    assert_eq!(queue.deadline(), Some(20));
    queue.push(5, 3u64);
    assert_eq!(queue.deadline(), Some(5));
    assert_eq!(queue.pop_expired(5), vec![3u64]);
    assert_eq!(queue.deadline(), Some(20));
}

/// Runs `count` datagrams through a proxy, 1 ms apart, then lets it drain.
fn run(profile: Profile, seed: u64, count: u64) -> (ProxyStats, u64) {
    let mut proxy = Proxy::new(profile, seed);
    let mut sent = 0;
    for i in 0..count {
        let now = i * NANOS_PER_MS;
        for _ in proxy.release(now) {
            proxy.note_sent();
            sent += 1;
        }
        let action = proxy.decide();
        if Proxy::sends_at_once(action) {
            sent += 1;
        }
        proxy.settle(action, i.to_be_bytes().to_vec(), now);
    }
    while let Some(due) = proxy.deadline() {
        for _ in proxy.release(due) {
            proxy.note_sent();
            sent += 1;
        }
    }
    (proxy.stats(), sent)
}

#[test]
fn clean_forwards_every_datagram() {
    let (stats, sent) = run(Profile::Clean, 1, 100);
    assert_eq!(sent, 100, "clean profile must forward the whole batch");
    assert_eq!(stats.forwarded, 100);
    assert_eq!(stats.dropped, 0);
    assert_eq!(stats.duplicated, 0);
}

#[test]
fn loss2_drops_exactly_the_simulated_count() {
    let count = 501;
    let (stats, sent) = run(Profile::Loss2, 99, count);
    let mut engine = DecisionEngine::new(Profile::Loss2, 99);
    let drops = (0..count).filter(|_| engine.decide().is_drop()).count() as u64;
    assert_eq!(stats.dropped, drops);
    assert_eq!(stats.forwarded, count - stats.dropped);
    assert_eq!(sent, count - drops);
    assert!(drops > 0, "loss2 with seed 99 must drop batch datagrams");
    assert!(
        (0.01..=0.05).contains(&(stats.dropped as f64 / count as f64)),
        "loss2 drop rate outside band"
    );
}

#[test]
fn jitter30_loses_nothing_duplicates_sometimes() {
    let count = 301;
    let (stats, sent) = run(Profile::Jitter30, 42, count);
    let mut engine = DecisionEngine::new(Profile::Jitter30, 42);
    let dups = (0..count).filter(|_| engine.decide().duplicates()).count() as u64;
    assert_eq!(stats.dropped, 0, "jitter30 never drops");
    assert_eq!(stats.duplicated, dups);
    assert_eq!(stats.forwarded, count + stats.duplicated);
    assert_eq!(stats.delayed, count);
    assert_eq!(sent, count + dups);
    assert!(dups > 0, "seed 42's window must contain a duplicate");
}

#[test]
fn delayed_payloads_leave_by_deadline() {
    let mut proxy = Proxy::new(Profile::Clean, 0);
    proxy.settle(Action::ForwardDelayed(30), vec![1], 0);
    proxy.settle(Action::ForwardImmediatePlusDelayed(10), vec![2], 5 * NANOS_PER_MS);
    proxy.settle(Action::Drop, vec![3], 6 * NANOS_PER_MS);
    assert_eq!(proxy.deadline(), Some(15 * NANOS_PER_MS));
    assert_eq!(proxy.release(14 * NANOS_PER_MS), Vec::<Vec<u8>>::new());
    assert_eq!(proxy.release(40 * NANOS_PER_MS), vec![vec![2], vec![1]]);
    let stats = proxy.stats();
    assert!(stats.counters_have_room());
    assert_eq!(
        stats.render(17),
        "PROXY t=17 forwarded=1 dropped=1 dup=1 delayed=2"
    );
}

#[test]
fn config_has_the_default_seed() {
    let c = ProxyConfig::new("a", "b", Profile::Burst);
    assert_eq!(c.seed, DEFAULT_SEED);
    assert_eq!(c.with_seed(5).seed, 5);
    assert_eq!((c.listen, c.forward, c.profile), ("a", "b", Profile::Burst));
    assert_eq!(ProxyStats::default().forwarded, 0);
}
