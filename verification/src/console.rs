//! The console window: its state, what messages do to it, and what it shows.
//!
//! Times are in microseconds.

use vstd::prelude::*;

use crate::config;
use crate::config::Config;
use crate::display;
use crate::engine;
use crate::engine::CodecMode;
use crate::engine::EngineCommand;
use crate::engine::EngineConfig;
use crate::engine::EngineStatus;
use crate::engine::Ip;
use crate::jitter::MAX_PREBUFFER_MS;
use crate::jitter::MIN_PREBUFFER_MS;
use crate::millis;
use crate::millis::Millis;
use crate::text;
use crate::text::parse_number;
use crate::text::push_decimal;
use crate::tray;
use crate::tray::TrayBus;
use crate::vu;
use crate::vu::Level;
use crate::vu::PacketRate;
use crate::vu::Tone;
use crate::vu::VuBallistics;

verus! {

/// Time between looks at the engine, in milliseconds.
pub const TICK_MS: u64 = 200;

/// The longest time that one tick accounts for.
pub const MAX_TICK_US: u64 = 500_000;

/// How long the stages take to light up one after the other.
pub const STAGGER_US: u64 = 400_000;

/// How long the press of the lamp shows.
pub const PRESS_PULSE_US: u64 = 200_000;

/// What the user did.
#[derive(Debug, PartialEq, Eq)]
pub enum Message {
    /// The lamp was pressed, at that time.
    ToggleAir(u64),
    /// The settings were opened or closed.
    ToggleSettings,
    PortChanged(String),
    BindSelected(String),
    CodecSelected(CodecMode),
    TargetChanged(Millis),
    AutostartToggled(bool),
    MinimizedToggled(bool),
    MotionToggled(bool),
    /// The settings are to be saved. Comes with the address that the chosen bind
    /// setting reads as.
    SaveSettings(Option<Ip>),
    /// The window is to be closed.
    CloseRequested,
    /// A command was sent.
    CmdSent,
    /// The engine was told to stop before the end.
    Exit,
}

/// What a message asks of the owner of the console.
#[derive(Debug, PartialEq, Eq)]
pub enum Effect {
    /// Nothing.
    Nothing,
    /// Send the engine a command.
    Send(EngineCommand),
    /// Save the settings and the autostart choice in them; then, with an engine
    /// configuration, stop the engine and start it with that.
    Save(Config, Option<EngineConfig>),
    /// Remove the tray and tell the engine to stop; then end.
    Quit,
    /// End now.
    End,
}

/// What a tick asks of the owner of the console, in this order.
#[derive(Debug, Clone, Copy, PartialEq, Eq, Structural)]
pub struct TickPlan {
    /// Remove the tray and tell the engine to stop; then end.
    pub quit: bool,
    /// Bring the window to the front.
    pub show: bool,
    /// Start the engine.
    pub start: Option<EngineConfig>,
    /// Stop the engine.
    pub stop: bool,
    /// The state for the tray icon.
    pub tray_state: u8,
}

/// The console.
pub struct Console {
    /// The configuration last chosen for the engine.
    pub engine_cfg: EngineConfig,
    /// The last status of the engine.
    pub status: EngineStatus,
    /// The live depth in the last status.
    pub effective_target_ms: Millis,
    pub vu: VuBallistics,
    pub last_received: u64,
    /// The packet rate at the last tick.
    pub pps: PacketRate,
    /// Whether packets came in since the last tick.
    pub streaming: bool,
    pub last_tick: u64,
    pub settings_open: bool,
    pub port_input: String,
    pub bind_input: String,
    pub codec: CodecMode,
    pub target_ms: Millis,
    pub autostart: bool,
    pub start_minimized: bool,
    pub reduce_motion: bool,
    /// Whether settings were changed and not saved.
    pub dirty: bool,
    /// The settings last saved.
    pub config: Config,
    /// Whether the stages are lighting up, and for how long.
    pub stagger: bool,
    pub stagger_t: u64,
    /// When the lamp was pressed last, while that shows.
    pub air_pulse: Option<u64>,
}

/// The console as the contracts see it.
pub ghost struct ConsoleView {
    pub engine_cfg: EngineConfig,
    pub status: EngineStatus,
    pub effective_target_ms: Millis,
    pub vu: VuBallistics,
    pub last_received: u64,
    pub pps: PacketRate,
    pub streaming: bool,
    pub last_tick: u64,
    pub settings_open: bool,
    pub port_input: Seq<char>,
    pub bind_input: Seq<char>,
    pub codec: CodecMode,
    pub target_ms: Millis,
    pub autostart: bool,
    pub start_minimized: bool,
    pub reduce_motion: bool,
    pub dirty: bool,
    pub config: config::ConfigView,
    pub stagger: bool,
    pub stagger_t: u64,
    pub air_pulse: Option<u64>,
}

impl View for Console {
    type V = ConsoleView;

    open spec fn view(&self) -> ConsoleView {
        ConsoleView {
            engine_cfg: self.engine_cfg,
            status: self.status,
            effective_target_ms: self.effective_target_ms,
            vu: self.vu,
            last_received: self.last_received,
            pps: self.pps,
            streaming: self.streaming,
            last_tick: self.last_tick,
            settings_open: self.settings_open,
            port_input: self.port_input@,
            bind_input: self.bind_input@,
            codec: self.codec,
            target_ms: self.target_ms,
            autostart: self.autostart,
            start_minimized: self.start_minimized,
            reduce_motion: self.reduce_motion,
            dirty: self.dirty,
            config: self.config@,
            stagger: self.stagger,
            stagger_t: self.stagger_t,
            air_pulse: self.air_pulse,
        }
    }
}

/// An effect as the contracts see it.
pub ghost enum EffectView {
    Nothing,
    Send(EngineCommand),
    Save(config::ConfigView, Option<EngineConfig>),
    Quit,
    End,
}

impl View for Effect {
    type V = EffectView;

    open spec fn view(&self) -> EffectView {
        match *self {
            Effect::Nothing => EffectView::Nothing,
            Effect::Send(c) => EffectView::Send(c),
            Effect::Save(c, e) => EffectView::Save(c@, e),
            Effect::Quit => EffectView::Quit,
            Effect::End => EffectView::End,
        }
    }
}

/// The console at the start.
pub open spec fn opened(
    c: config::ConfigView,
    bind: Option<Ip>,
    status: EngineStatus,
    settings_open: bool,
    now: u64,
) -> ConsoleView {
    ConsoleView {
        engine_cfg: config::engine_config_of(c, bind),
        status,
        effective_target_ms: status.effective_target_ms,
        vu: VuBallistics { level: None, peak_hold: None },
        last_received: 0,
        pps: vu::no_rate(),
        streaming: false,
        last_tick: now,
        settings_open,
        port_input: text::decimal(c.port as nat),
        bind_input: c.bind,
        codec: config::mode_named(c.codec),
        target_ms: c.target_ms,
        autostart: c.autostart,
        start_minimized: c.start_minimized,
        reduce_motion: c.reduce_motion,
        dirty: false,
        config: c,
        stagger: false,
        stagger_t: 0,
        air_pulse: None,
    }
}

/// The port in the form, if it is one: a number from 1 to 65535.
pub open spec fn port_in_form(v: ConsoleView) -> Option<u16> {
    match text::number_in(v.port_input, 0xFFFF) {
        Ok(n) => if n == 0 {
            None
        } else {
            Some(n as u16)
        },
        Err(_) => None,
    }
}

/// The settings in the form.
pub open spec fn settings_in_form(v: ConsoleView, port: u16) -> config::ConfigView {
    config::ConfigView {
        port,
        bind: v.bind_input,
        codec: engine::codec_name(v.codec),
        target_ms: engine::target_in_range(v.target_ms),
        autostart: v.autostart,
        start_minimized: v.start_minimized,
        reduce_motion: v.reduce_motion,
    }
}

/// After the lamp was pressed: the engine is stopped or started, and unless
/// motion is reduced the stages light up one after the other on a start.
pub open spec fn after_toggle(v: ConsoleView, now: u64) -> (ConsoleView, EffectView) {
    let pressed = ConsoleView { air_pulse: Some(now), ..v };
    if v.status.running {
        (ConsoleView { stagger: false, ..pressed }, EffectView::Send(EngineCommand::Stop))
    } else {
        (
            if v.reduce_motion {
                pressed
            } else {
                ConsoleView { stagger: true, stagger_t: 0, ..pressed }
            },
            EffectView::Send(EngineCommand::Start(v.engine_cfg)),
        )
    }
}

/// After the settings were saved: they count from then on, and a running engine
/// is restarted with them. Without a port in the form nothing happens.
pub open spec fn after_save(v: ConsoleView, bind: Option<Ip>) -> (ConsoleView, EffectView) {
    match port_in_form(v) {
        None => (v, EffectView::Nothing),
        Some(port) => {
            let c = settings_in_form(v, port);
            let e = config::engine_config_of(c, bind);
            (
                ConsoleView { config: c, engine_cfg: e, dirty: false, ..v },
                EffectView::Save(
                    c,
                    if v.status.running {
                        Some(e)
                    } else {
                        None
                    },
                ),
            )
        },
    }
}

/// After a message.
pub open spec fn after_message(v: ConsoleView, m: Message) -> (ConsoleView, EffectView) {
    match m {
        Message::ToggleAir(now) => after_toggle(v, now),
        Message::ToggleSettings => (
            ConsoleView { settings_open: !v.settings_open, ..v },
            EffectView::Nothing,
        ),
        Message::PortChanged(s) => (
            ConsoleView { port_input: s@, dirty: true, ..v },
            EffectView::Nothing,
        ),
        Message::BindSelected(s) => (
            ConsoleView { bind_input: s@, dirty: true, ..v },
            EffectView::Nothing,
        ),
        Message::CodecSelected(c) => (
            ConsoleView { codec: c, dirty: true, ..v },
            EffectView::Nothing,
        ),
        Message::TargetChanged(t) => (
            ConsoleView { target_ms: t, dirty: true, ..v },
            EffectView::Nothing,
        ),
        Message::AutostartToggled(b) => (
            ConsoleView { autostart: b, dirty: true, ..v },
            EffectView::Nothing,
        ),
        Message::MinimizedToggled(b) => (
            ConsoleView { start_minimized: b, dirty: true, ..v },
            EffectView::Nothing,
        ),
        Message::MotionToggled(b) => (
            ConsoleView { reduce_motion: b, dirty: true, ..v },
            EffectView::Nothing,
        ),
        Message::SaveSettings(bind) => after_save(v, bind),
        Message::CloseRequested => (v, EffectView::Quit),
        Message::CmdSent => (v, EffectView::Nothing),
        Message::Exit => (v, EffectView::End),
    }
}

/// The time that a tick at `now` accounts for.
pub open spec fn tick_time(last: u64, now: u64) -> u64 {
    if now <= last {
        0
    } else if now - last > MAX_TICK_US {
        MAX_TICK_US
    } else {
        (now - last) as u64
    }
}

/// Whether the press of the lamp still shows at `now`.
pub open spec fn pulse_left(pressed: Option<u64>, now: u64) -> Option<u64> {
    match pressed {
        Some(t) => if now - t >= PRESS_PULSE_US {
            None
        } else {
            Some(t)
        },
        None => None,
    }
}

/// The console after a tick at `now` with the engine's status. `peak` is the peak
/// level in it, as the meter takes it.
pub open spec fn after_tick(
    v: ConsoleView,
    now: u64,
    status: EngineStatus,
    peak: Level,
) -> ConsoleView {
    let dt = tick_time(v.last_tick, now);
    let news: int = if status.received > v.last_received {
        status.received - v.last_received
    } else {
        0
    };
    let staggered = v.stagger_t + dt;
    let lights_up = v.stagger && status.running;
    ConsoleView {
        last_tick: now,
        last_received: status.received,
        pps: vu::rate_of(news as u64, dt as i64),
        streaming: status.running && news > 0,
        effective_target_ms: status.effective_target_ms,
        status,
        vu: if status.running {
            VuBallistics {
                level: vu::moved(v.vu.level, vu::capped(peak), vu::DECAY_DB_PER_SEC, dt),
                peak_hold: vu::held(v.vu, vu::capped(peak), dt),
            }
        } else {
            VuBallistics { level: None, peak_hold: None }
        },
        stagger: if lights_up {
            staggered < STAGGER_US
        } else {
            v.stagger
        },
        stagger_t: if lights_up {
            staggered as u64
        } else {
            v.stagger_t
        },
        air_pulse: pulse_left(v.air_pulse, now),
        ..v
    }
}

/// What a tick asks for, after it: the requests of the tray, and its icon.
pub open spec fn plan_after_tick(v: ConsoleView, requests: TrayBus) -> TickPlan {
    TickPlan {
        quit: requests.quit,
        show: requests.show,
        start: if requests.start {
            Some(v.engine_cfg)
        } else {
            None
        },
        stop: requests.stop,
        tray_state: tray::tray_state_of(v.status.running, v.streaming),
    }
}

impl Console {
    /// The invariant: the meter is sound, and the stages do not light
    /// up for longer than that takes.
    pub open spec fn wf(self) -> bool {
        sound(self@)
    }

    /// The console for saved settings. `bind` is the address that the bind
    /// setting reads as.
    pub fn new(
        config: Config,
        bind: Option<Ip>,
        status: EngineStatus,
        settings_open: bool,
        now: u64,
    ) -> (c: Console)
        ensures
            c.wf(),
            c@ == opened(config@, bind, status, settings_open, now),
    {
        let mut port_input = String::new();
        push_decimal(&mut port_input, config.port as u64);
        assert(port_input@ =~= text::decimal(config.port as nat));
        Console {
            engine_cfg: config.to_engine(bind),
            status,
            effective_target_ms: status.effective_target_ms,
            vu: VuBallistics::default(),
            last_received: 0,
            pps: PacketRate::default(),
            streaming: false,
            last_tick: now,
            settings_open,
            port_input,
            bind_input: config.bind.clone(),
            codec: config.codec_mode(),
            target_ms: config.target_ms,
            autostart: config.autostart,
            start_minimized: config.start_minimized,
            reduce_motion: config.reduce_motion,
            dirty: false,
            config,
            stagger: false,
            stagger_t: 0,
            air_pulse: None,
        }
    }

    /// Does what a message asks for, and says what is left to do.
    pub fn update(&mut self, message: Message) -> (effect: Effect)
        requires
            old(self).wf(),
        ensures
            final(self).wf(),
            (final(self)@, effect@) == after_message(old(self)@, message),
    {
        match message {
            Message::ToggleAir(now) => self.toggle_air(now),
            Message::ToggleSettings => {
                self.settings_open = !self.settings_open;
                Effect::Nothing
            },
            Message::PortChanged(s) => {
                self.port_input = s;
                self.dirty = true;
                Effect::Nothing
            },
            Message::BindSelected(s) => {
                self.bind_input = s;
                self.dirty = true;
                Effect::Nothing
            },
            Message::CodecSelected(c) => {
                self.codec = c;
                self.dirty = true;
                Effect::Nothing
            },
            Message::TargetChanged(t) => {
                self.target_ms = t;
                self.dirty = true;
                Effect::Nothing
            },
            Message::AutostartToggled(b) => {
                self.autostart = b;
                self.dirty = true;
                Effect::Nothing
            },
            Message::MinimizedToggled(b) => {
                self.start_minimized = b;
                self.dirty = true;
                Effect::Nothing
            },
            Message::MotionToggled(b) => {
                self.reduce_motion = b;
                self.dirty = true;
                Effect::Nothing
            },
            Message::SaveSettings(bind) => self.save_settings(bind),
            Message::CloseRequested => Effect::Quit,
            Message::CmdSent => Effect::Nothing,
            Message::Exit => Effect::End,
        }
    }

    /// Starts or stops the engine.
    pub fn toggle_air(&mut self, now: u64) -> (effect: Effect)
        requires
            old(self).wf(),
        ensures
            final(self).wf(),
            (final(self)@, effect@) == after_toggle(old(self)@, now),
    {
        self.air_pulse = Some(now);
        if self.status.running {
            self.stagger = false;
            Effect::Send(EngineCommand::Stop)
        } else {
            if !self.reduce_motion {
                self.stagger = true;
                self.stagger_t = 0;
            }
            Effect::Send(EngineCommand::Start(self.engine_cfg))
        }
    }

    /// The port in the form, if it is one.
    pub fn form_port(&self) -> (p: Option<u16>)
        ensures
            p == port_in_form(self@),
    {
        match parse_number(self.port_input.as_str(), 0xFFFF) {
            Ok(n) => if n == 0 {
                None
            } else {
                proof {
                    assert(n <= 0xFFFF) by {
                        lemma_number_fits(self.port_input@, 0xFFFF);
                    }
                }
                Some(n as u16)
            },
            Err(_) => None,
        }
    }

    /// Takes the settings in the form over.
    pub fn save_settings(&mut self, bind: Option<Ip>) -> (effect: Effect)
        requires
            old(self).wf(),
        ensures
            final(self).wf(),
            (final(self)@, effect@) == after_save(old(self)@, bind),
    {
        let port: u16 = match self.form_port() {
            Some(port) => port,
            None => {
                return Effect::Nothing;
            },
        };
        let cfg = Config {
            port,
            bind: self.bind_input.clone(),
            codec: self.codec.as_str().to_owned(),
            target_ms: self.target_ms.clamp(
                Millis::whole(MIN_PREBUFFER_MS),
                Millis::whole(MAX_PREBUFFER_MS),
            ),
            autostart: self.autostart,
            start_minimized: self.start_minimized,
            reduce_motion: self.reduce_motion,
        };
        let engine_cfg = cfg.to_engine(bind);
        let restart = if self.status.running {
            Some(engine_cfg)
        } else {
            None
        };
        self.config = cfg.duplicate();
        self.engine_cfg = engine_cfg;
        self.dirty = false;
        Effect::Save(cfg, restart)
    }

    /// Takes in the engine's status at `now` and the requests of the tray.
    /// `peak` is the peak level in the status, as the meter takes it.
    pub fn tick(
        &mut self,
        now: u64,
        status: EngineStatus,
        peak: Level,
        requests: TrayBus,
    ) -> (plan: TickPlan)
        requires
            old(self).wf(),
        ensures
            final(self).wf(),
            final(self)@ == after_tick(old(self)@, now, status, peak),
            plan == plan_after_tick(final(self)@, requests),
    {
        let dt: u64 = if now <= self.last_tick {
            0
        } else if now - self.last_tick > MAX_TICK_US {
            MAX_TICK_US
        } else {
            now - self.last_tick
        };
        self.last_tick = now;
        let news: u64 = if status.received > self.last_received {
            status.received - self.last_received
        } else {
            0
        };
        self.last_received = status.received;
        self.pps = vu::pps(news, dt as i64);
        self.streaming = status.running && news > 0;
        self.effective_target_ms = status.effective_target_ms;
        self.status = status;
        if status.running {
            self.vu.update(peak, dt);
        } else {
            self.vu = VuBallistics::default();
        }
        if self.stagger && self.status.running {
            self.stagger_t = self.stagger_t + dt;
            if self.stagger_t >= STAGGER_US {
                self.stagger = false;
            }
        }
        self.air_pulse = match self.air_pulse {
            Some(t) => if now >= t && now - t >= PRESS_PULSE_US {
                None
            } else {
                Some(t)
            },
            None => None,
        };
        TickPlan {
            quit: requests.quit,
            show: requests.show,
            start: if requests.start {
                Some(self.engine_cfg)
            } else {
                None
            },
            stop: requests.stop,
            tray_state: tray::tray_state(self.status.running, self.streaming),
        }
    }
}

/// What every console keeps.
pub open spec fn sound(v: ConsoleView) -> bool {
    &&& v.vu.wf()
    &&& v.stagger ==> v.stagger_t < STAGGER_US
}

proof fn lemma_number_fits(s: Seq<char>, max: nat)
    ensures
        text::number_in(s, max) matches Ok(n) ==> n <= max,
{
}

/// The settings of a console that was just opened can be saved as they are, and
/// change nothing: the port reads back, and so does the codec.
pub proof fn fresh_form_saves_the_same(
    c: config::ConfigView,
    bind: Option<Ip>,
    status: EngineStatus,
    settings_open: bool,
    now: u64,
)
    requires
        c.port != 0,
        engine::target_in_range(c.target_ms) == c.target_ms,
        c.codec == engine::codec_name(config::mode_named(c.codec)),
    ensures
        ({
            let v = opened(c, bind, status, settings_open, now);
            let (after, effect) = after_save(v, bind);
            &&& after == v
            &&& effect == EffectView::Save(
                c,
                if status.running {
                    Some(v.engine_cfg)
                } else {
                    None
                },
            )
        }),
{
    text::numeral_reads_back(c.port as nat, 0xFFFF);
}

/// A form without a valid port is not saved: nothing changes.
pub proof fn bad_port_saves_nothing(v: ConsoleView, bind: Option<Ip>)
    requires
        port_in_form(v) is None,
    ensures
        after_save(v, bind) == (v, EffectView::Nothing),
{
}

/// What is saved can be started: the port is not 0, and the prebuffer lies in
/// the range of depths.
pub proof fn saved_settings_pass_the_check(v: ConsoleView, bind: Option<Ip>)
    requires
        port_in_form(v) is Some,
    ensures
        ({
            let (after, effect) = after_save(v, bind);
            &&& !after.dirty
            &&& engine::checked(after.engine_cfg) == Ok::<EngineConfig, engine::ConfigError>(
                after.engine_cfg,
            )
            &&& after.engine_cfg == config::engine_config_of(after.config, bind)
            &&& after.engine_cfg.codec == v.codec
            &&& effect is Save
        }),
{
    config::codec_names_round_trip(v.codec);
    lemma_number_fits(v.port_input, 0xFFFF);
}

/// Every change of a setting marks the form as unsaved, and nothing but a save
/// takes the mark away.
pub proof fn changes_stay_marked(v: ConsoleView, m: Message)
    ensures
        m is PortChanged || m is BindSelected || m is CodecSelected || m is TargetChanged
            || m is AutostartToggled || m is MinimizedToggled || m is MotionToggled
            ==> after_message(v, m).0.dirty,
        v.dirty && !(m is SaveSettings) ==> after_message(v, m).0.dirty,
{
}

/// Only a save changes what the engine is started with.
pub proof fn only_saving_changes_the_engine_config(v: ConsoleView, m: Message)
    requires
        !(m is SaveSettings),
    ensures
        after_message(v, m).0.engine_cfg == v.engine_cfg,
        after_message(v, m).0.config == v.config,
{
}

/// With reduced motion a start never lights the stages one after the other.
pub proof fn reduced_motion_never_staggers(v: ConsoleView, now: u64)
    requires
        v.reduce_motion,
        !v.stagger,
    ensures
        !after_toggle(v, now).0.stagger,
{
}

/// An engine that does not run leaves nothing on the meter, and nothing streams.
pub proof fn idle_console_is_dark(v: ConsoleView, now: u64, status: EngineStatus, peak: Level)
    requires
        !status.running,
    ensures
        ({
            let after = after_tick(v, now, status, peak);
            &&& vu::lit(after.vu.level) == 0
            &&& vu::lit(after.vu.peak_hold) == 0
            &&& !after.streaming
            &&& tray::tray_state_of(after.status.running, after.streaming) == tray::STATE_IDLE
        }),
{
    vu::silence_is_dark(vu::SEGMENTS as nat);
}

/// The lamp starts an engine that does not run, with the chosen configuration, and
/// stops one that does; the press shows from then on.
pub proof fn lamp_starts_and_stops(v: ConsoleView, now: u64)
    ensures
        ({
            let (after, effect) = after_message(v, Message::ToggleAir(now));
            &&& v.status.running ==> effect == EffectView::Send(EngineCommand::Stop)
            &&& !v.status.running ==> effect == EffectView::Send(
                EngineCommand::Start(v.engine_cfg),
            )
            &&& after.air_pulse == Some(now)
            &&& v.status.running ==> !after.stagger
            &&& !v.status.running && !v.reduce_motion ==> after.stagger && after.stagger_t == 0
            &&& after.status == v.status && after.config == v.config && after.dirty == v.dirty
        }),
{
}

/// A change in the form changes that one setting and marks the form; nothing is sent
/// or saved by it.
pub proof fn changes_change_one_setting(v: ConsoleView, m: Message)
    requires
        !(m is ToggleAir || m is SaveSettings),
    ensures
        ({
            let (after, effect) = after_message(v, m);
            &&& m matches Message::PortChanged(s) ==> after == (ConsoleView {
                port_input: s@,
                dirty: true,
                ..v
            })
            &&& m matches Message::BindSelected(s) ==> after == (ConsoleView {
                bind_input: s@,
                dirty: true,
                ..v
            })
            &&& m matches Message::CodecSelected(c) ==> after == (ConsoleView {
                codec: c,
                dirty: true,
                ..v
            })
            &&& m matches Message::TargetChanged(t) ==> after == (ConsoleView {
                target_ms: t,
                dirty: true,
                ..v
            })
            &&& m matches Message::AutostartToggled(b) ==> after == (ConsoleView {
                autostart: b,
                dirty: true,
                ..v
            })
            &&& m matches Message::MinimizedToggled(b) ==> after == (ConsoleView {
                start_minimized: b,
                dirty: true,
                ..v
            })
            &&& m matches Message::MotionToggled(b) ==> after == (ConsoleView {
                reduce_motion: b,
                dirty: true,
                ..v
            })
            &&& m is ToggleSettings ==> after == (ConsoleView {
                settings_open: !v.settings_open,
                ..v
            })
            &&& m is CloseRequested || m is CmdSent || m is Exit ==> after == v
            &&& effect is Quit <==> m is CloseRequested
            &&& effect is End <==> m is Exit
            &&& effect is Nothing <==> !(m is CloseRequested || m is Exit)
        }),
{
}

/// What is saved is what stands in the form, with the prebuffer moved into 5 to 20
/// ms: the settings and the engine's configuration both have it, the form is no
/// longer marked, and an engine that runs is started anew with it.
pub proof fn the_form_is_what_is_saved(v: ConsoleView, port: u16, bind: Option<Ip>)
    requires
        port > 0,
        text::number_in(v.port_input, 0xFFFF) == Ok::<nat, text::NumberError>(port as nat),
    ensures
        ({
            let (after, effect) = after_message(v, Message::SaveSettings(bind));
            let c = after.config;
            let e = after.engine_cfg;
            &&& c.port == port && e.port == port
            &&& c.bind == v.bind_input
            &&& config::mode_named(c.codec) == v.codec && e.codec == v.codec
            &&& 5 * 6000 <= c.target_ms.ticks <= 20 * 6000
            &&& 5 * 6000 <= v.target_ms.ticks <= 20 * 6000 ==> c.target_ms == v.target_ms
            &&& v.target_ms.ticks < 5 * 6000 ==> c.target_ms.ticks == 5 * 6000
            &&& v.target_ms.ticks > 20 * 6000 ==> c.target_ms.ticks == 20 * 6000
            &&& e.target_ms == c.target_ms
            &&& c.autostart == v.autostart && c.start_minimized == v.start_minimized
            &&& c.reduce_motion == v.reduce_motion
            &&& bind matches Some(ip) ==> e.bind == ip
            &&& !after.dirty
            &&& effect == EffectView::Save(
                c,
                if v.status.running {
                    Some(e)
                } else {
                    None
                },
            )
            &&& after.status == v.status && after.vu == v.vu
        }),
{
    config::codec_names_round_trip(v.codec);
}

/// The form is filled from the settings.
pub proof fn form_starts_with_the_settings(
    c: config::ConfigView,
    bind: Option<Ip>,
    status: EngineStatus,
    settings_open: bool,
    now: u64,
)
    ensures
        ({
            let v = opened(c, bind, status, settings_open, now);
            &&& text::number_in(v.port_input, 0xFFFF) == Ok::<nat, text::NumberError>(
                c.port as nat,
            )
            &&& v.bind_input == c.bind
            &&& v.codec == config::mode_named(c.codec)
            &&& v.target_ms == c.target_ms
            &&& v.autostart == c.autostart && v.start_minimized == c.start_minimized
            &&& v.reduce_motion == c.reduce_motion
            &&& v.engine_cfg == config::engine_config_of(c, bind)
            &&& !v.dirty && !v.streaming && !v.stagger && v.air_pulse is None
            &&& v.settings_open == settings_open
            &&& vu::lit(v.vu.level) == 0
            &&& v.status == status
        }),
{
    text::numeral_reads_back(c.port as nat, 0xFFFF);
    vu::silence_is_dark(vu::SEGMENTS as nat);
}

/// A tick shows what came in since the last one: the new packets over the time that
/// passed, half a second at most, and whether there were any. An engine whose count
/// fell was started anew and shows none.
pub proof fn ticks_show_what_came_in(
    v: ConsoleView,
    now: u64,
    status: EngineStatus,
    peak: Level,
)
    ensures
        ({
            let after = after_tick(v, now, status, peak);
            let dt = now - v.last_tick;
            &&& after.status == status && after.last_tick == now
            &&& after.last_received == status.received
            &&& after.effective_target_ms == status.effective_target_ms
            &&& after.streaming <==> status.running && status.received > v.last_received
            &&& status.received > v.last_received && 0 < dt <= 500_000 ==> after.pps.packets
                == status.received - v.last_received && after.pps.micros == dt
            &&& status.received > v.last_received && dt > 500_000 ==> after.pps.packets
                == status.received - v.last_received && after.pps.micros == 500_000
            &&& status.received <= v.last_received || dt <= 0 ==> after.pps.packets == 0
            &&& after.config == v.config && after.engine_cfg == v.engine_cfg
            &&& after.dirty == v.dirty && after.port_input == v.port_input
            &&& after.bind_input == v.bind_input && after.codec == v.codec
            &&& after.settings_open == v.settings_open
        }),
{
}

/// The meter of an engine that runs falls no faster than it may: 12 dB per second
/// for the reading and 4 for the marker, whatever the new peak, and a peak above
/// them is taken over.
pub proof fn meter_moves_with_the_ticks(
    v: ConsoleView,
    now: u64,
    status: EngineStatus,
    peak: Level,
)
    requires
        v.vu.wf(),
        status.running,
        v.last_tick <= now <= v.last_tick + 500_000,
    ensures
        ({
            let after = after_tick(v, now, status, peak);
            let dt = (now - v.last_tick) as u64;
            &&& vu::at_most(vu::fallen(v.vu.level, 12, dt), after.vu.level)
            &&& vu::at_most(vu::fallen(v.vu.peak_hold, 4, dt), after.vu.peak_hold)
            &&& vu::at_most(v.vu.level, peak) && vu::at_most(peak, Some(0)) ==> after.vu.level
                == peak
            &&& vu::at_most(after.vu.level, after.vu.peak_hold)
            &&& vu::at_most(after.vu.peak_hold, Some(0))
        }),
{
    vu::nothing_falls_faster_than_its_rate(
        v.vu,
        vu::capped(peak),
        (now - v.last_tick) as u64,
    );
}

/// Lighting up takes 400 ms of running, and the press of the lamp shows for 200 ms.
pub proof fn motion_ends_in_time(v: ConsoleView, now: u64, status: EngineStatus, peak: Level)
    requires
        v.last_tick <= now <= v.last_tick + 500_000,
        sound(v),
    ensures
        ({
            let after = after_tick(v, now, status, peak);
            let passed = v.stagger_t + (now - v.last_tick);
            &&& v.stagger && status.running ==> (after.stagger <==> passed < 400_000)
            &&& v.stagger && status.running ==> after.stagger_t == passed
            &&& !(v.stagger && status.running) ==> after.stagger == v.stagger && after.stagger_t
                == v.stagger_t
            &&& v.air_pulse matches Some(t) ==> (after.air_pulse is None <==> now - t >= 200_000)
            &&& v.air_pulse matches Some(t) ==> (after.air_pulse matches Some(u) ==> u == t)
            &&& v.air_pulse is None ==> after.air_pulse is None
        }),
{
}

/// What the tray asked for is passed on, each request as itself, and the icon
/// follows the engine.
pub proof fn tray_requests_are_passed_on(v: ConsoleView, requests: TrayBus)
    ensures
        ({
            let plan = plan_after_tick(v, requests);
            &&& plan.quit == requests.quit
            &&& plan.show == requests.show
            &&& plan.stop == requests.stop
            &&& requests.start ==> plan.start == Some(v.engine_cfg)
            &&& !requests.start ==> plan.start is None
            &&& plan.tray_state == tray::STATE_IDLE <==> !v.status.running
            &&& plan.tray_state == tray::STATE_LIVE <==> v.status.running && v.streaming
        }),
{
}

/// A tick shows the engine's status and what came in since the last tick, moves the
/// meter for the time that passed, half a second at most, and passes on what the tray
/// asked for. What the user chose is not touched.
pub proof fn ticks_take_the_status_in(
    c: &mut Console,
    now: u64,
    status: EngineStatus,
    peak: Level,
    requests: TrayBus,
    plan: TickPlan,
    dt: u64,
)
    requires
        old(c).wf(),
        call_ensures(Console::tick, (c, now, status, peak, requests), plan),
        now < old(c).last_tick ==> dt == 0,
        old(c).last_tick <= now <= old(c).last_tick + 500_000 ==> dt == now - old(c).last_tick,
        now > old(c).last_tick + 500_000 ==> dt == 500_000,
    ensures
        final(c).wf(),
        final(c).status == status && final(c).last_tick == now,
        final(c).last_received == status.received,
        final(c).effective_target_ms == status.effective_target_ms,
        final(c).streaming <==> status.running && status.received > old(c).last_received,
        status.received > old(c).last_received && dt > 0 ==> final(c).pps.packets
            == status.received - old(c).last_received && final(c).pps.micros == dt,
        status.received <= old(c).last_received ==> final(c).pps.packets == 0,
        status.running ==> {
            &&& vu::at_most(vu::fallen(old(c).vu.level, 12, dt), final(c).vu.level)
            &&& vu::at_most(vu::fallen(old(c).vu.peak_hold, 4, dt), final(c).vu.peak_hold)
            &&& !vu::at_most(old(c).vu.level, peak) ==> final(c).vu.level == vu::fallen(
                old(c).vu.level,
                12,
                dt,
            ) || final(c).vu.level == peak
            &&& vu::at_most(old(c).vu.level, peak) && vu::at_most(peak, Some(0))
                ==> final(c).vu.level == peak
        },
        !status.running ==> final(c).vu.level is None && final(c).vu.peak_hold is None,
        old(c).stagger && status.running ==> final(c).stagger_t == old(c).stagger_t + dt && (
        final(c).stagger <==> old(c).stagger_t + dt < 400_000),
        !(old(c).stagger && status.running) ==> final(c).stagger == old(c).stagger,
        old(c).air_pulse is None ==> final(c).air_pulse is None,
        old(c).air_pulse matches Some(t) ==> final(c).air_pulse == (if now - t >= 200_000 {
            None
        } else {
            Some(t)
        }),
        plan.quit == requests.quit && plan.show == requests.show && plan.stop == requests.stop,
        requests.start ==> plan.start == Some(old(c).engine_cfg),
        !requests.start ==> plan.start is None,
        plan.tray_state == (if !status.running {
            0int
        } else if status.received > old(c).last_received {
            2
        } else {
            1
        }),
        final(c)@.config == old(c)@.config && final(c).engine_cfg == old(c).engine_cfg,
        final(c).dirty == old(c).dirty && final(c)@.port_input == old(c)@.port_input,
        final(c)@.bind_input == old(c)@.bind_input && final(c).codec == old(c).codec,
        final(c).target_ms == old(c).target_ms && final(c).autostart == old(c).autostart,
        final(c).start_minimized == old(c).start_minimized,
        final(c).reduce_motion == old(c).reduce_motion,
        final(c).settings_open == old(c).settings_open,
{
    vu::nothing_falls_faster_than_its_rate(old(c).vu, vu::capped(peak), dt);
    assert(final(c)@.vu == final(c).vu);
    assert(old(c)@.vu == old(c).vu);
    assert(final(c)@.status == status);
}

/// The lamp starts an engine that does not run with the chosen configuration and stops
/// one that does; a close asks to quit, an exit to end.
pub proof fn messages_ask_for_what_they_say(c: &mut Console, m: Message, effect: Effect)
    requires
        old(c).wf(),
        call_ensures(Console::update, (c, m), effect),
    ensures
        final(c).wf(),
        m is ToggleAir && old(c).status.running ==> effect == Effect::Send(EngineCommand::Stop),
        m is ToggleAir && !old(c).status.running ==> effect == Effect::Send(
            EngineCommand::Start(old(c).engine_cfg),
        ),
        m matches Message::ToggleAir(now) ==> final(c).air_pulse == Some(now),
        !(m is ToggleAir) ==> final(c).air_pulse == old(c).air_pulse && final(c).stagger
            == old(c).stagger,
        effect is Quit <==> m is CloseRequested,
        effect is End <==> m is Exit,
        effect is Send <==> m is ToggleAir,
        effect is Save ==> m is SaveSettings,
        final(c).settings_open == (old(c).settings_open != (m is ToggleSettings)),
        m matches Message::PortChanged(s) ==> final(c).port_input@ == s@,
        !(m is PortChanged) ==> final(c).port_input@ == old(c).port_input@,
        m matches Message::BindSelected(s) ==> final(c).bind_input@ == s@,
        !(m is BindSelected) ==> final(c).bind_input@ == old(c).bind_input@,
        m matches Message::CodecSelected(k) ==> final(c).codec == k,
        !(m is CodecSelected) ==> final(c).codec == old(c).codec,
        m matches Message::TargetChanged(t) ==> final(c).target_ms == t,
        !(m is TargetChanged) ==> final(c).target_ms == old(c).target_ms,
        m matches Message::AutostartToggled(b) ==> final(c).autostart == b,
        !(m is AutostartToggled) ==> final(c).autostart == old(c).autostart,
        m matches Message::MinimizedToggled(b) ==> final(c).start_minimized == b,
        !(m is MinimizedToggled) ==> final(c).start_minimized == old(c).start_minimized,
        m matches Message::MotionToggled(b) ==> final(c).reduce_motion == b,
        !(m is MotionToggled) ==> final(c).reduce_motion == old(c).reduce_motion,
        m is PortChanged || m is BindSelected || m is CodecSelected || m is TargetChanged
            || m is AutostartToggled || m is MinimizedToggled || m is MotionToggled
            ==> final(c).dirty,
        m is ToggleAir || m is ToggleSettings || m is CloseRequested || m is CmdSent || m is Exit
            ==> final(c).dirty == old(c).dirty,
        !(m is SaveSettings) ==> final(c).engine_cfg == old(c).engine_cfg && final(c)@.config
            == old(c)@.config,
        final(c).status == old(c).status && final(c).vu == old(c).vu,
{
    let v = old(c)@;
    let w = final(c)@;
    assert(w == after_message(v, m).0);
    assert(v.status == old(c).status && w.status == final(c).status);
    assert(v.vu == old(c).vu && w.vu == final(c).vu);
    assert(v.air_pulse == old(c).air_pulse && w.air_pulse == final(c).air_pulse);
    assert(v.stagger == old(c).stagger && w.stagger == final(c).stagger);
    assert(v.engine_cfg == old(c).engine_cfg && w.engine_cfg == final(c).engine_cfg);
    assert(effect@ == after_message(v, m).1);
}

/// A form whose port is a number from 1 to 65535 is saved as it stands, with the
/// prebuffer moved into 5 to 20 ms; any other form is not saved and nothing changes.
pub proof fn forms_are_saved_as_they_stand(
    c: &mut Console,
    bind: Option<Ip>,
    effect: Effect,
    n: nat,
)
    requires
        old(c).wf(),
        call_ensures(Console::save_settings, (c, bind), effect),
    ensures
        text::number_in(old(c).port_input@, 0xFFFF) is Err ==> effect is Nothing && final(c)@
            == old(c)@,
        text::number_in(old(c).port_input@, 0xFFFF) == Ok::<nat, text::NumberError>(0)
            ==> effect is Nothing && final(c)@ == old(c)@,
        n > 0 && text::number_in(old(c).port_input@, 0xFFFF) == Ok::<nat, text::NumberError>(n)
            ==> {
            let d = final(c).config@;
            let e = final(c).engine_cfg;
            let t = old(c).target_ms.ticks;
            &&& d.port == n && e.port == n
            &&& d.bind == old(c).bind_input@
            &&& e.codec == old(c).codec && d.codec == engine::codec_name(old(c).codec)
            &&& d.target_ms == e.target_ms
            &&& 5 * 6000 <= t <= 20 * 6000 ==> d.target_ms.ticks == t
            &&& t < 5 * 6000 ==> d.target_ms.ticks == 5 * 6000
            &&& t > 20 * 6000 ==> d.target_ms.ticks == 20 * 6000
            &&& d.autostart == old(c).autostart
            &&& d.start_minimized == old(c).start_minimized
            &&& d.reduce_motion == old(c).reduce_motion
            &&& bind matches Some(ip) ==> e.bind == ip
            &&& !final(c).dirty
            &&& effect matches Effect::Save(saved, restart) && saved@ == d && (
            restart is Some <==> old(c).status.running) && (restart is Some ==> restart == Some(e))
        },
{
    let v = old(c)@;
    let w = final(c)@;
    assert(v.port_input == old(c).port_input@);
    assert((w, effect@) == after_save(v, bind));
    config::codec_names_round_trip(v.codec);
    assert(w.config == final(c).config@ && w.engine_cfg == final(c).engine_cfg);
    assert(v.target_ms == old(c).target_ms && v.codec == old(c).codec);
}

/// The form of a new console shows the settings, and reads back as them.
pub proof fn consoles_open_with_the_settings(
    config: Config,
    bind: Option<Ip>,
    status: EngineStatus,
    open: bool,
    now: u64,
    c: Console,
    port: Option<u16>,
)
    requires
        call_ensures(Console::new, (config, bind, status, open, now), c),
        call_ensures(Console::form_port, (&c,), port),
    ensures
        config@.port != 0 ==> port == Some(config@.port),
        config@.port == 0 ==> port is None,
        c.bind_input@ == config@.bind && c.target_ms == config@.target_ms,
        c.autostart == config@.autostart && c.start_minimized == config@.start_minimized,
        c.reduce_motion == config@.reduce_motion,
        c.settings_open == open && c.status == status && c.last_tick == now,
        !c.dirty && !c.streaming && !c.stagger && c.air_pulse is None && c.last_received == 0,
        c.vu.level is None && c.vu.peak_hold is None,
        c.pps.packets == 0,
        c@.config == config@,
        c.engine_cfg.port == config@.port,
        c.codec == c.engine_cfg.codec,
        c.wf(),
{
    text::numeral_reads_back(config@.port as nat, 0xFFFF);
    let v = c@;
    assert(v.port_input == c.port_input@ && v.bind_input == c.bind_input@);
    assert(v.vu == c.vu && v.pps == c.pps && v.engine_cfg == c.engine_cfg);
    assert(v.codec == c.codec && v.target_ms == c.target_ms && v.status == c.status);
}

/// Looks are 200 ms apart, well within what one of them accounts for.
pub proof fn looks_are_accounted_for()
    ensures
        TICK_MS == 200,
        TICK_MS * 1000 <= MAX_TICK_US,
        STAGGER_US == 400_000 && PRESS_PULSE_US == 200_000 && MAX_TICK_US == 500_000,
{
}

} // verus!
