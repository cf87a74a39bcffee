use openay_mic::depth::{Clock, DepthController, DepthParams};
use openay_mic::jitter::{MAX_PREBUFFER_MS, MIN_PREBUFFER_MS};
use openay_mic::millis::Millis;
use openay_mic::run::DepthMonitor;
use std::cell::RefCell;
use std::rc::Rc;

const MS: u64 = 1_000_000;
const SEC: u64 = 1_000_000_000;

#[derive(Clone)]
struct FakeClock(Rc<RefCell<u64>>);

impl FakeClock {
    fn new() -> Self {
        FakeClock(Rc::new(RefCell::new(0)))
    }

    fn advance(&self, d: u64) {
        *self.0.borrow_mut() += d;
    }
}

impl Clock for FakeClock {
    fn now(&self) -> u64 {
        *self.0.borrow()
    }
}

fn ms(n: u32) -> Millis {
    Millis::whole(n)
}

fn controller_60s(base: Millis) -> (FakeClock, DepthController<FakeClock>) {
    let clock = FakeClock::new();
    let c = DepthController::with_params(clock.clone(), base, DepthParams::default());
    (clock, c)
}

fn controller_100ms(base: Millis) -> (FakeClock, DepthController<FakeClock>) {
    let clock = FakeClock::new();
    let c = DepthController::with_params(
        clock.clone(),
        base,
        DepthParams { rise_ms: ms(2), decay_window: 100 * MS, decay_step_ms: ms(1) },
    );
    (clock, c)
}

#[test]
fn starts_at_base_and_underrun_raises_by_rise() {
    let (_clock, mut c) = controller_60s(ms(10));
    assert_eq!(c.target_ms(), ms(10), "initial target is the base");
    c.on_underrun();
    assert_eq!(c.target_ms(), ms(12), "+2 ms per underrun by default");
    c.on_underrun();
    assert_eq!(c.target_ms(), ms(14));
}

#[test]
fn underrun_clamps_at_ceiling() {
    let (_clock, mut c) = controller_60s(ms(19));
    c.on_underrun();
    assert_eq!(c.target_ms(), ms(20), "19 + 2 clamps to the 20 ms ceiling");
    c.on_underrun();
    assert_eq!(c.target_ms(), ms(20), "ceiling holds");
}

#[test]
fn base_is_clamped_into_range() {
    let (_clock, c) = controller_60s(ms(50));
    assert_eq!(c.base_ms(), ms(MAX_PREBUFFER_MS));
    assert_eq!(c.target_ms(), ms(MAX_PREBUFFER_MS));
    let (_clock, c) = controller_60s(Millis::micros(500));
    assert_eq!(c.base_ms(), ms(MIN_PREBUFFER_MS));
    assert_eq!(c.target_ms(), ms(MIN_PREBUFFER_MS));
}

#[test]
fn no_decay_before_window_elapses() {
    let (clock, mut c) = controller_60s(ms(10));
    c.on_underrun();
    assert_eq!(c.on_tick(true), ms(12), "first tick just arms the window");
    clock.advance(59 * SEC);
    assert_eq!(c.on_tick(true), ms(12), "59 s < 60 s window: no decay yet");
    clock.advance(SEC);
    assert_eq!(c.on_tick(true), ms(11), "the 60th second completes the window");
}

#[test]
fn exact_one_step_per_fully_elapsed_window() {
    let (clock, mut c) = controller_60s(ms(10));
    for _ in 0..3 {
        c.on_underrun();
    }
    assert_eq!(c.target_ms(), ms(16));
    clock.advance(60 * SEC);
    assert_eq!(c.on_tick(true), ms(15), "first clean window: -1");
    clock.advance(60 * SEC);
    assert_eq!(c.on_tick(true), ms(14), "second consecutive clean window: -1 again");
    clock.advance(180 * SEC);
    assert_eq!(c.on_tick(true), ms(11), "3 more windows: exact -1 each");
    clock.advance(360 * SEC);
    assert_eq!(c.on_tick(true), ms(10), "floor holds at the base, never below");
}

#[test]
fn decay_never_goes_below_base_floor() {
    let (clock, mut c) = controller_100ms(ms(7));
    c.on_underrun();
    c.on_underrun();
    assert_eq!(c.target_ms(), ms(11), "raised above the base");
    for _ in 0..50 {
        clock.advance(100 * MS);
        c.on_tick(true);
    }
    assert_eq!(c.target_ms(), ms(7), "decay floors at the configured base");
}

#[test]
fn underrun_mid_window_resets_the_streak() {
    let (clock, mut c) = controller_100ms(ms(10));
    c.on_tick(true);
    clock.advance(30 * MS);
    c.on_underrun();
    assert_eq!(c.target_ms(), ms(12));
    clock.advance(30 * MS);
    assert_eq!(c.on_tick(true), ms(12), "streak starts after the underrun, not before");
    clock.advance(70 * MS);
    assert_eq!(c.on_tick(true), ms(11), "decay resumes one window after the underrun");
}

#[test]
fn tick_reports_effective_target() {
    let (_clock, mut c) = controller_60s(ms(10));
    assert_eq!(c.on_tick(true), ms(10));
    c.on_underrun();
    assert_eq!(c.on_tick(true), ms(12), "on_tick returns the live target");
    assert_eq!(c.target_ms(), ms(12), "getter agrees");
}

#[test]
fn inert_while_stopped() {
    let (clock, mut c) = controller_60s(ms(10));
    c.on_underrun();
    assert_eq!(c.target_ms(), ms(12));
    clock.advance(60_000 * SEC);
    assert_eq!(c.on_tick(false), ms(12), "stopped: no decay");
    assert_eq!(c.target_ms(), ms(12));
}

#[test]
fn accrual_restarts_after_restart() {
    let (clock, mut c) = controller_60s(ms(10));
    c.on_underrun();
    c.on_tick(true);
    clock.advance(30 * SEC);
    assert_eq!(c.on_tick(true), ms(12), "30 s < 60 s window: no decay");
    clock.advance(50 * SEC);
    c.on_tick(false);
    clock.advance(61 * SEC);
    assert_eq!(c.on_tick(false), ms(12), "stop time never accrues");
    assert_eq!(c.on_tick(true), ms(12), "restart arms a fresh window at t=141");
    clock.advance(60 * SEC);
    assert_eq!(c.on_tick(true), ms(11), "accrual resumes after the restart");
}

#[test]
fn unsafe_timings_are_made_safe() {
    let clock = FakeClock::new();
    let mut c = DepthController::with_params(
        clock.clone(),
        ms(10),
        DepthParams {
            rise_ms: Millis { ticks: -5 },
            decay_window: 0,
            decay_step_ms: Millis { ticks: -5 },
        },
    );
    c.on_underrun();
    assert_eq!(c.target_ms(), ms(10));
    clock.advance(10 * MS);
    assert_eq!(c.on_tick(true), ms(10));
    let mut c = DepthController::new(clock, ms(10));
    c.on_underrun();
    assert_eq!(c.target_ms(), ms(12));
}

#[test]
fn window_is_at_least_one_millisecond() {
    for window in [0, 1, 500_000, MS - 1, MS] {
        let clock = FakeClock::new();
        let mut c = DepthController::with_params(
            clock.clone(),
            ms(10),
            DepthParams { rise_ms: ms(2), decay_window: window, decay_step_ms: ms(1) },
        );
        c.on_underrun();
        clock.advance(MS - 1);
        assert_eq!(c.on_tick(true), ms(12), "window {window}: no millisecond passed");
        clock.advance(1);
        assert_eq!(c.on_tick(true), ms(11), "window {window}: one millisecond passed");
    }
    let clock = FakeClock::new();
    let mut c = DepthController::with_params(
        clock.clone(),
        ms(10),
        DepthParams { rise_ms: ms(2), decay_window: MS + 1, decay_step_ms: ms(1) },
    );
    c.on_underrun();
    clock.advance(MS);
    assert_eq!(c.on_tick(true), ms(12), "a longer window is kept");
}

#[test]
fn tick_rate_makes_no_difference() {
    let (_, mut often) = controller_100ms(ms(5));
    let (_, mut once) = controller_100ms(ms(5));
    for c in [&mut often, &mut once] {
        for _ in 0..5 {
            c.on_underrun_at(10 * MS);
        }
        assert_eq!(c.target_ms(), ms(15));
    }
    for t in [40, 111, 135, 290, 311] {
        often.on_running_tick_at(t * MS);
    }
    once.on_running_tick_at(311 * MS);
    assert_eq!(often.target_ms(), ms(12));
    assert_eq!(once.target_ms(), ms(12));
}

#[test]
fn monitor_raises_on_new_underruns() {
    let clock = FakeClock::new();
    let mut m = DepthMonitor::new(clock.clone(), ms(10), DepthParams::default(), 3);
    assert_eq!(m.tick(3), 480, "no new underrun");
    assert_eq!(m.tick(5), 576, "new underruns count once per look");
    assert_eq!(m.tick(5), 576);
    clock.advance(60 * SEC);
    assert_eq!(m.tick(5), 528, "a clean minute lowers by 1 ms");
    assert_eq!(m.tick_at(6, 70 * SEC, 70 * SEC), 624);
    assert_eq!(m.tick_at(6, 0, 129 * SEC), 624);
    assert_eq!(m.tick_at(6, 0, 130 * SEC), 576);
}
