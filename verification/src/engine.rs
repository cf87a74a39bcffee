//! The receiver engine: its configuration, the state its owner sees, and the
//! rules by which runs start and stop.
//!
//! An engine is cold at first: nothing is received until it is told to start. It
//! can be stopped and started again with another configuration. All counters
//! describe the current run; a run's final numbers survive it only in its
//! statistics line.

use vstd::prelude::*;

use crate::depth;
use crate::depth::DepthParams;
use crate::ingest;
use crate::jitter;
use crate::jitter::MAX_PREBUFFER_MS;
use crate::jitter::MIN_PREBUFFER_MS;
use crate::millis;
use crate::millis::Millis;
use crate::millis::TICKS_PER_MS;
use crate::millis::TICKS_PER_SAMPLE;
use crate::playback;
use crate::protocol::PayloadType;
use crate::run;
use crate::run::Run;
use crate::text;
use crate::text::push_decimal;

verus! {

/// The port in use where none is given.
pub const DEFAULT_PORT: u16 = 41_700;

/// Milliseconds of audio that the jitter buffer holds where nothing else is
/// asked for.
pub const DEFAULT_CAPACITY_MS: u32 = 100;

/// Nanoseconds in a second.
pub const NANOS_PER_SEC: u64 = 1_000_000_000;

/// How packets arrive.
#[derive(Debug, Clone, Copy, PartialEq, Eq, Structural)]
pub enum Transport {
    Udp,
    Tcp,
}

impl Default for Transport {
    fn default() -> (t: Self)
        ensures
            t == Transport::Udp,
    {
        Transport::Udp
    }
}

/// The name of a transport.
pub open spec fn transport_name(t: Transport) -> Seq<char> {
    match t {
        Transport::Udp => "udp"@,
        Transport::Tcp => "tcp"@,
    }
}

impl Transport {
    /// The name of the transport, in lower case.
    pub fn as_str(self) -> (name: &'static str)
        ensures
            name@ == transport_name(self),
    {
        match self {
            Transport::Udp => "udp",
            Transport::Tcp => "tcp",
        }
    }
}

/// Which payload types are wanted.
#[derive(Debug, Clone, Copy, PartialEq, Eq, Structural)]
pub enum CodecMode {
    /// PCM and Opus, packet by packet.
    Auto,
    /// PCM only.
    Pcm,
    /// Opus only.
    Opus,
}

impl Default for CodecMode {
    fn default() -> (m: Self)
        ensures
            m == CodecMode::Auto,
    {
        CodecMode::Auto
    }
}

/// The only payload type that a mode wants, or none for all.
pub open spec fn only_type(m: CodecMode) -> Option<PayloadType> {
    match m {
        CodecMode::Auto => None,
        CodecMode::Pcm => Some(PayloadType::Pcm),
        CodecMode::Opus => Some(PayloadType::Opus),
    }
}

/// The name of a codec mode.
pub open spec fn codec_name(m: CodecMode) -> Seq<char> {
    match m {
        CodecMode::Auto => "auto"@,
        CodecMode::Pcm => "pcm"@,
        CodecMode::Opus => "opus"@,
    }
}

impl CodecMode {
    /// The name of the mode, in lower case.
    pub fn as_str(self) -> (name: &'static str)
        ensures
            name@ == codec_name(self),
    {
        match self {
            CodecMode::Auto => "auto",
            CodecMode::Pcm => "pcm",
            CodecMode::Opus => "opus",
        }
    }

    /// The only payload type that is wanted, or none for all.
    pub fn only(self) -> (kind: Option<PayloadType>)
        ensures
            kind == only_type(self),
    {
        match self {
            CodecMode::Auto => None,
            CodecMode::Pcm => Some(PayloadType::Pcm),
            CodecMode::Opus => Some(PayloadType::Opus),
        }
    }
}

/// An address to bind, as the number its bytes make up. The IPv4 address 0
/// stands for all interfaces.
#[derive(Debug, Clone, Copy, PartialEq, Eq, Structural)]
pub enum Ip {
    V4(u32),
    V6(u128),
}

/// How a run receives.
#[derive(Debug, Clone, Copy, PartialEq, Eq, Structural)]
pub struct EngineConfig {
    pub transport: Transport,
    pub bind: Ip,
    pub port: u16,
    pub codec: CodecMode,
    /// The prebuffer before streaming starts.
    pub target_ms: Millis,
    /// The audio that the jitter buffer holds.
    pub capacity_ms: Millis,
}

/// The configuration in use where nothing is given.
pub open spec fn default_config() -> EngineConfig {
    EngineConfig {
        transport: Transport::Udp,
        bind: Ip::V4(0),
        port: DEFAULT_PORT,
        codec: CodecMode::Auto,
        target_ms: Millis { ticks: (10 * TICKS_PER_MS) as i64 },
        capacity_ms: Millis { ticks: (DEFAULT_CAPACITY_MS * TICKS_PER_MS) as i64 },
    }
}

impl Default for EngineConfig {
    fn default() -> (c: Self)
        ensures
            c == default_config(),
    {
        EngineConfig {
            transport: Transport::Udp,
            bind: Ip::V4(0),
            port: DEFAULT_PORT,
            codec: CodecMode::Auto,
            target_ms: Millis::whole(10),
            capacity_ms: Millis::whole(DEFAULT_CAPACITY_MS),
        }
    }
}

/// Why a configuration was refused.
#[derive(Debug, Clone, Copy, PartialEq, Eq, Structural)]
pub enum ConfigError {
    /// Port 0 cannot be listened on.
    InvalidPort(u16),
}

impl ConfigError {
    /// The text of the error.
    pub open spec fn text(self) -> Seq<char> {
        match self {
            ConfigError::InvalidPort(port) => "invalid port "@ + text::decimal(port as nat)
                + ": must be in 1..=65535"@,
        }
    }

    /// A sentence that says what was wrong.
    pub fn message(&self) -> (m: String)
        ensures
            m@ == self.text(),
    {
        match self {
            ConfigError::InvalidPort(port) => {
                let mut m = String::new();
                m.append("invalid port ");
                push_decimal(&mut m, *port as u64);
                m.append(": must be in 1..=65535");
                assert(m@ =~= self.text());
                m
            },
        }
    }
}

/// A prebuffer moved into the range of depths.
pub open spec fn target_in_range(target: Millis) -> Millis {
    Millis {
        ticks: millis::clamped(
            target.ticks as int,
            depth::lowest_base(),
            depth::ceiling(),
        ) as i64,
    }
}

/// A configuration checked and put in order: port 0 is refused, the prebuffer is
/// moved into the range of depths.
pub open spec fn checked(c: EngineConfig) -> Result<EngineConfig, ConfigError> {
    if c.port == 0 {
        Err(ConfigError::InvalidPort(0))
    } else {
        Ok(EngineConfig { target_ms: target_in_range(c.target_ms), ..c })
    }
}

impl EngineConfig {
    /// Checks the configuration and puts it in order.
    pub fn validated(self) -> (r: Result<EngineConfig, ConfigError>)
        ensures
            r == checked(self),
    {
        if self.port == 0 {
            return Err(ConfigError::InvalidPort(self.port));
        }
        let target_ms = self.target_ms.clamp(
            Millis::whole(MIN_PREBUFFER_MS),
            Millis::whole(MAX_PREBUFFER_MS),
        );
        Ok(
            EngineConfig {
                transport: self.transport,
                bind: self.bind,
                port: self.port,
                codec: self.codec,
                target_ms,
                capacity_ms: self.capacity_ms,
            },
        )
    }
}

/// A checked configuration passes the check unchanged.
pub proof fn checking_twice_changes_nothing(c: EngineConfig)
    ensures
        checked(c) matches Ok(d) ==> checked(d) == Ok::<EngineConfig, ConfigError>(d),
        checked(c) is Err <==> c.port == 0,
{
}

/// What the owner of an engine sees of it. Without a run all counters, the fill,
/// the level and the uptime are zero.
#[derive(Debug, Clone, Copy, PartialEq, Eq, Structural)]
pub struct EngineStatus {
    pub running: bool,
    pub transport: Transport,
    pub bind: Ip,
    pub port: u16,
    pub codec: CodecMode,
    pub received: u64,
    pub lost: u64,
    pub dup: u64,
    pub ooo: u64,
    pub malformed: u64,
    pub overruns: u64,
    pub underruns: u64,
    /// The audio in the jitter buffer.
    pub fill_ms: Millis,
    /// The peak level since the last look, with full scale at 65535.
    pub level_peak: u32,
    /// Seconds since the run started.
    pub uptime_secs: u64,
    /// The depth that playback waits for; without a run, the configured one.
    pub effective_target_ms: Millis,
}

/// A command to an engine.
#[derive(Debug, Clone, Copy, PartialEq, Eq, Structural)]
pub enum EngineCommand {
    /// Start with a configuration; a run in progress is stopped first.
    Start(EngineConfig),
    /// Stop.
    Stop,
}

/// What wakes the command loop.
#[derive(Debug, Clone, Copy, PartialEq, Eq, Structural)]
pub enum EngineEvent {
    /// A command came in.
    Command(EngineCommand),
    /// No more commands will come.
    Closed,
    /// Time passed; the flag says whether the run has ended by itself.
    Tick(bool),
}

/// What the command loop has to do, in this order: stop the run, start another,
/// leave the loop.
#[derive(Debug, Clone, Copy, PartialEq, Eq, Structural)]
pub struct EnginePlan {
    pub stop: bool,
    pub start: Option<EngineConfig>,
    pub leave: bool,
}

/// The plan for an event.
pub open spec fn plan_for(has_run: bool, event: EngineEvent) -> EnginePlan {
    match event {
        EngineEvent::Command(EngineCommand::Start(config)) => EnginePlan {
            stop: has_run,
            start: Some(config),
            leave: false,
        },
        EngineEvent::Command(EngineCommand::Stop) => EnginePlan {
            stop: has_run,
            start: None,
            leave: false,
        },
        EngineEvent::Closed => EnginePlan { stop: has_run, start: None, leave: true },
        EngineEvent::Tick(done) => EnginePlan { stop: has_run && done, start: None, leave: false },
    }
}

/// Decides what an event asks of the command loop.
pub fn plan(has_run: bool, event: EngineEvent) -> (p: EnginePlan)
    ensures
        p == plan_for(has_run, event),
{
    match event {
        EngineEvent::Command(EngineCommand::Start(config)) => EnginePlan {
            stop: has_run,
            start: Some(config),
            leave: false,
        },
        EngineEvent::Command(EngineCommand::Stop) => EnginePlan {
            stop: has_run,
            start: None,
            leave: false,
        },
        EngineEvent::Closed => EnginePlan { stop: has_run, start: None, leave: true },
        EngineEvent::Tick(done) => EnginePlan { stop: has_run && done, start: None, leave: false },
    }
}

/// At most one run at a time: a start comes only after any run in progress was
/// stopped, and no run outlives the loop.
pub proof fn one_run_at_a_time(has_run: bool, event: EngineEvent)
    ensures
        plan_for(has_run, event).start is Some ==> plan_for(has_run, event).stop == has_run,
        plan_for(has_run, event).leave ==> plan_for(has_run, event).stop == has_run,
        plan_for(has_run, event).stop ==> has_run,
{
}

/// Whether a run has ended: its tasks are over after it was told to quit, or the
/// network task ended by itself.
pub fn is_done(quit: bool, net_done: bool, playback_done: bool) -> (r: bool)
    ensures
        r == (net_done && (playback_done || !quit)),
{
    quit && net_done && playback_done || net_done && !quit
}

/// How the network task of a run ended.
pub enum NetOutcome {
    /// In order, with the final statistics line.
    Line(String),
    /// With an error.
    Failed(String),
    /// By a panic.
    Panicked(String),
}

/// What playback reported while it was set up.
pub enum PlaybackReport {
    /// It could not be set up, for that reason.
    Failed(String),
    /// It ended although nothing asked it to.
    Exited,
    /// It went away without a report.
    Lost,
}

/// The error that a report of playback amounts to; none while the run is told to
/// quit, since an end is then expected.
pub open spec fn playback_error_text(quit: bool, report: PlaybackReport) -> Option<Seq<char>> {
    if quit {
        None
    } else {
        Some(
            match report {
                PlaybackReport::Failed(reason) => "PipeWire setup failed: "@ + reason@,
                PlaybackReport::Exited => "PipeWire thread exited unexpectedly"@,
                PlaybackReport::Lost => "PipeWire setup channel closed unexpectedly"@,
            },
        )
    }
}

/// The error that a report of playback amounts to.
pub fn playback_error(quit: bool, report: PlaybackReport) -> (e: Option<String>)
    ensures
        match (e, playback_error_text(quit, report)) {
            (Some(m), Some(t)) => m@ == t,
            (None, None) => true,
            _ => false,
        },
{
    if quit {
        return None;
    }
    let mut m = String::new();
    match report {
        PlaybackReport::Failed(reason) => {
            m.append("PipeWire setup failed: ");
            m.append(reason.as_str());
            assert(m@ =~= "PipeWire setup failed: "@ + reason@);
        },
        PlaybackReport::Exited => {
            m.append("PipeWire thread exited unexpectedly");
            assert(m@ =~= "PipeWire thread exited unexpectedly"@);
        },
        PlaybackReport::Lost => {
            m.append("PipeWire setup channel closed unexpectedly");
            assert(m@ =~= "PipeWire setup channel closed unexpectedly"@);
        },
    }
    Some(m)
}

/// The samples that a run's jitter buffer is asked to hold.
pub open spec fn capacity_samples(c: EngineConfig) -> int {
    if c.capacity_ms.ticks < 0 {
        0
    } else {
        c.capacity_ms.ticks as int / TICKS_PER_SAMPLE as int
    }
}

/// Whether a jitter buffer of that capacity can be indexed, and its fill told in
/// milliseconds.
pub open spec fn capacity_fits(c: EngineConfig) -> bool {
    capacity_samples(c) <= usize::MAX / 2 && capacity_samples(c) <= i64::MAX / 250
}

impl EngineConfig {
    /// Whether a jitter buffer of the configured capacity is possible at all.
    pub fn has_possible_capacity(&self) -> (r: bool)
        ensures
            r == capacity_fits(*self),
    {
        let n: u64 = self.capacity_ms.samples_within();
        n <= (usize::MAX / 2) as u64 && n <= (i64::MAX / 250) as u64
    }
}

/// The shared state of an engine, besides what belongs to a run.
pub struct EngineState {
    running: bool,
    config: Option<EngineConfig>,
    started_at: Option<u64>,
    last_error: Option<String>,
    last_stats_line: Option<String>,
    depth_params: DepthParams,
}

/// The text in an optional string.
pub open spec fn text_of(s: Option<String>) -> Option<Seq<char>> {
    match s {
        Some(t) => Some(t@),
        None => None,
    }
}

/// The engine as the contracts see it.
pub ghost struct EngineView {
    pub running: bool,
    pub config: Option<EngineConfig>,
    pub started_at: Option<u64>,
    pub error: Option<Seq<char>>,
    pub stats_line: Option<Seq<char>>,
    pub depth_params: DepthParams,
}

impl View for EngineState {
    type V = EngineView;

    closed spec fn view(&self) -> EngineView {
        EngineView {
            running: self.running,
            config: self.config,
            started_at: self.started_at,
            error: text_of(self.last_error),
            stats_line: text_of(self.last_stats_line),
            depth_params: self.depth_params,
        }
    }
}

/// The configuration that is shown: the current one, or the default.
pub open spec fn shown_config(v: EngineView) -> EngineConfig {
    match v.config {
        Some(c) => c,
        None => default_config(),
    }
}

/// The engine at the beginning of a start.
pub open spec fn start_begun(v: EngineView) -> EngineView {
    EngineView { error: None, stats_line: None, ..v }
}

/// The engine after a start that succeeded at `now`.
pub open spec fn start_done(v: EngineView, config: EngineConfig, now: u64) -> EngineView {
    EngineView { running: true, config: Some(config), started_at: Some(now), ..v }
}

/// The engine after a start that failed.
pub open spec fn start_failed(v: EngineView, message: Seq<char>) -> EngineView {
    EngineView { error: Some(message), ..v }
}

/// The engine after a run ended.
pub open spec fn run_stopped(v: EngineView, outcome: NetOutcome) -> EngineView {
    EngineView {
        running: false,
        started_at: None,
        stats_line: match outcome {
            NetOutcome::Line(line) => Some(line@),
            _ => v.stats_line,
        },
        error: match outcome {
            NetOutcome::Line(_) => v.error,
            NetOutcome::Failed(e) => Some(e@),
            NetOutcome::Panicked(e) => Some("network task panicked: "@ + e@),
        },
        ..v
    }
}

/// A failed start leaves a fresh error and no statistics line of an earlier run,
/// and the shown configuration as it was.
pub proof fn failed_start_shows_nothing_stale(v: EngineView, message: Seq<char>)
    requires
        !v.running,
    ensures
        ({
            let after = start_failed(start_begun(v), message);
            &&& !after.running
            &&& after.error == Some(message)
            &&& after.stats_line is None
            &&& after.config == v.config
        }),
{
}

/// A run leaves its statistics line behind if it ended in order, and its error
/// otherwise, never both; and the engine is stopped, still showing the
/// configuration of the run.
pub proof fn a_run_leaves_a_line_or_an_error(
    v: EngineView,
    config: EngineConfig,
    now: u64,
    outcome: NetOutcome,
)
    ensures
        ({
            let after = run_stopped(start_done(start_begun(v), config, now), outcome);
            &&& !after.running
            &&& after.started_at is None
            &&& after.config == Some(config)
            &&& after.stats_line is Some <==> outcome is Line
            &&& after.error is Some <==> !(outcome is Line)
        }),
{
}

/// Whole seconds from `start` to `now`.
pub open spec fn seconds_between(start: u64, now: u64) -> u64 {
    if now <= start {
        0
    } else {
        ((now - start) / NANOS_PER_SEC as int) as u64
    }
}

/// The status of an engine without a run.
pub open spec fn idle_status(c: EngineConfig) -> EngineStatus {
    EngineStatus {
        running: false,
        transport: c.transport,
        bind: c.bind,
        port: c.port,
        codec: c.codec,
        received: 0,
        lost: 0,
        dup: 0,
        ooo: 0,
        malformed: 0,
        overruns: 0,
        underruns: 0,
        fill_ms: Millis { ticks: 0 },
        level_peak: 0,
        uptime_secs: 0,
        effective_target_ms: c.target_ms,
    }
}

/// The status of an engine with a run.
pub open spec fn live_status(v: EngineView, r: Run, now: u64) -> EngineStatus {
    EngineStatus {
        running: true,
        received: r.ingest.received,
        lost: r.ingest.lost,
        dup: r.ingest.duplicate,
        ooo: r.ingest.out_of_order,
        malformed: r.ingest.malformed,
        overruns: r.buffer.overrun_count(),
        underruns: r.buffer.underrun_count(),
        fill_ms: Millis { ticks: (r.buffer@.len() * TICKS_PER_SAMPLE) as i64 },
        level_peak: r.playback.peak,
        uptime_secs: match v.started_at {
            Some(start) => seconds_between(start, now),
            None => 0,
        },
        effective_target_ms: Millis { ticks: (r.target_samples * TICKS_PER_SAMPLE) as i64 },
        ..idle_status(shown_config(v))
    }
}

impl EngineState {
    /// The invariant: a running engine has a checked configuration and a start,
    /// and a stopped one has no start.
    pub open spec fn wf(self) -> bool {
        &&& self@.running ==> self@.started_at is Some && (self@.config matches Some(c)
            && checked(c) == Ok::<EngineConfig, ConfigError>(c))
        &&& !self@.running ==> self@.started_at is None
    }

    /// A cold engine. The configuration, if any, is only shown until the first
    /// start.
    pub fn new(initial: Option<EngineConfig>, depth_params: DepthParams) -> (s: Self)
        ensures
            s.wf(),
            s@ == (EngineView {
                running: false,
                config: initial,
                started_at: None,
                error: None,
                stats_line: None,
                depth_params,
            }),
    {
        EngineState {
            running: false,
            config: initial,
            started_at: None,
            last_error: None,
            last_stats_line: None,
            depth_params,
        }
    }

    /// Begins a start: the last error and the last statistics line are
    /// forgotten, and a configuration that passes the check gets a fresh run.
    pub fn prepare(&mut self, config: EngineConfig, has_decoder: bool) -> (r: Result<
        (EngineConfig, Run),
        ConfigError,
    >)
        requires
            old(self).wf(),
            config.port != 0 ==> capacity_fits(config),
        ensures
            final(self).wf(),
            final(self)@ == start_begun(old(self)@),
            match (checked(config), r) {
                (Ok(c), Ok((d, fresh))) => d == c && run::is_fresh(fresh, c, has_decoder),
                (Err(e), Err(f)) => e == f,
                _ => false,
            },
    {
        self.last_error = None;
        self.last_stats_line = None;
        match config.validated() {
            Ok(c) => {
                let fresh = Run::new(&c, has_decoder);
                Ok((c, fresh))
            },
            Err(e) => Err(e),
        }
    }

    /// Ends a start that succeeded, at `now`.
    pub fn publish(&mut self, config: EngineConfig, now: u64)
        requires
            old(self).wf(),
            checked(config) == Ok::<EngineConfig, ConfigError>(config),
        ensures
            final(self).wf(),
            final(self)@ == start_done(old(self)@, config, now),
    {
        self.config = Some(config);
        self.started_at = Some(now);
        self.running = true;
    }

    /// Ends a start that failed.
    pub fn fail(&mut self, message: String)
        requires
            old(self).wf(),
            !old(self)@.running,
        ensures
            final(self).wf(),
            final(self)@ == start_failed(old(self)@, message@),
    {
        self.last_error = Some(message);
        self.running = false;
    }

    /// Records an error that comes up during a run.
    pub fn set_error(&mut self, message: String)
        requires
            old(self).wf(),
        ensures
            final(self).wf(),
            final(self)@ == (EngineView { error: Some(message@), ..old(self)@ }),
    {
        self.last_error = Some(message);
    }

    /// Ends the run. Its final statistics line is kept, or its error.
    pub fn stop(&mut self, outcome: NetOutcome)
        requires
            old(self).wf(),
        ensures
            final(self).wf(),
            final(self)@ == run_stopped(old(self)@, outcome),
    {
        match outcome {
            NetOutcome::Line(line) => {
                self.last_stats_line = Some(line);
            },
            NetOutcome::Failed(e) => {
                self.last_error = Some(e);
            },
            NetOutcome::Panicked(e) => {
                let mut m = String::new();
                m.append("network task panicked: ");
                m.append(e.as_str());
                assert(m@ =~= "network task panicked: "@ + e@);
                self.last_error = Some(m);
            },
        }
        self.started_at = None;
        self.running = false;
    }

    /// The status at `now`. The peak level of the run is taken by this look.
    pub fn status(&self, run: Option<&mut Run>, now: u64) -> (s: EngineStatus)
        requires
            self.wf(),
            run matches Some(r) ==> r.wf(),
        ensures
            match run {
                Some(r) => {
                    &&& *final(r) == run::with_peak_taken(*r)
                    &&& self@.running ==> s == live_status(self@, *r, now)
                },
                None => true,
            },
            self@.running && run is None ==> s == (EngineStatus {
                running: true,
                uptime_secs: seconds_between(self@.started_at->0, now),
                ..idle_status(shown_config(self@))
            }),
            !self@.running ==> s == idle_status(shown_config(self@)),
    {
        let cfg = match self.config {
            Some(c) => c,
            None => EngineConfig::default(),
        };
        let mut s = EngineStatus {
            running: self.running,
            transport: cfg.transport,
            bind: cfg.bind,
            port: cfg.port,
            codec: cfg.codec,
            received: 0,
            lost: 0,
            dup: 0,
            ooo: 0,
            malformed: 0,
            overruns: 0,
            underruns: 0,
            fill_ms: Millis { ticks: 0 },
            level_peak: 0,
            uptime_secs: 0,
            effective_target_ms: cfg.target_ms,
        };
        match run {
            Some(r) => {
                let level: u32 = r.take_peak();
                if self.running {
                    s.level_peak = level;
                    s.effective_target_ms = Millis::of_samples(r.target_samples);
                    s.fill_ms = r.fill_ms();
                    s.overruns = r.buffer.overruns();
                    s.underruns = r.buffer.underruns();
                    s.received = r.ingest.received;
                    s.lost = r.ingest.lost;
                    s.dup = r.ingest.duplicate;
                    s.ooo = r.ingest.out_of_order;
                    s.malformed = r.ingest.malformed;
                }
            },
            None => {},
        }
        if self.running {
            match self.started_at {
                Some(start) => {
                    if now > start {
                        s.uptime_secs = (now - start) / NANOS_PER_SEC;
                    }
                },
                None => {},
            }
        }
        s
    }

    /// Whether a run is in progress.
    pub fn running(&self) -> (r: bool)
        ensures
            r == self@.running,
    {
        self.running
    }

    /// The timings of the depth control.
    pub fn depth_params(&self) -> (p: DepthParams)
        ensures
            p == self@.depth_params,
    {
        self.depth_params
    }

    /// The last error, which the next start forgets.
    pub fn last_error(&self) -> (e: Option<String>)
        ensures
            text_of(e) == self@.error,
    {
        match &self.last_error {
            Some(m) => Some(m.clone()),
            None => None,
        }
    }

    /// The statistics line of the last run, once.
    pub fn take_stats_line(&mut self) -> (line: Option<String>)
        requires
            old(self).wf(),
        ensures
            final(self).wf(),
            text_of(line) == old(self)@.stats_line,
            final(self)@ == (EngineView { stats_line: None, ..old(self)@ }),
    {
        self.last_stats_line.take()
    }
}

/// The status counts what playback does under its name: a callback that finds the
/// buffer empty while it streams raises the underruns by one, no callback raises
/// the overruns or a counter of packets, and the fill falls by what was played.
pub proof fn status_counts_what_playback_does(
    v: EngineView,
    r: Run,
    after: Run,
    out: Seq<i16>,
    after_out: Seq<i16>,
    written: usize,
    now: u64,
)
    requires
        r.wf(),
        after.wf(),
        r.buffer.underrun_count() < u64::MAX,
        r.target_samples > 0,
        after.ingest == r.ingest,
        after.target_samples == r.target_samples,
        playback::was_processed(
            r.playback,
            r.buffer,
            r.target_samples,
            out,
            after.playback,
            after.buffer,
            after_out,
            written,
        ),
    ensures
        ({
            let s = live_status(v, r, now);
            let t = live_status(v, after, now);
            &&& t.underruns - s.underruns == (if r.playback.streaming && r.buffer@.len() == 0
                && out.len() > 0 {
                1int
            } else {
                0
            })
            &&& t.overruns == s.overruns
            &&& t.received == s.received && t.lost == s.lost && t.dup == s.dup && t.ooo == s.ooo
            &&& t.malformed == s.malformed
            &&& t.effective_target_ms == s.effective_target_ms
            &&& s.level_peak <= t.level_peak
            &&& forall|i: int|
                0 <= i < written ==> playback::level(#[trigger] after_out[i]) <= t.level_peak
            &&& (s.fill_ms.ticks - t.fill_ms.ticks) * 48 == (r.buffer@.len() - after.buffer@.len())
                * 6000
        }),
{
    broadcast use jitter::JitterBuffer::contents_fit;

    playback::peak_covers_what_is_played(
        r.playback,
        r.buffer,
        r.target_samples,
        out,
        after.playback,
        after.buffer,
        after_out,
        written,
    );
}

/// The status counts packets under their names: every packet as received, one that
/// gave an error as malformed, one whose samples did not fit as an overrun, and
/// none as an underrun. The fill rises by what was stored.
pub proof fn status_counts_packets(
    v: EngineView,
    r: Run,
    after: Run,
    kind: PayloadType,
    seq: u16,
    payload: Seq<u8>,
    opus: Option<Seq<i16>>,
    result: Result<Option<String>, ingest::IngestError>,
    now: u64,
)
    requires
        r.wf(),
        after.wf(),
        r.buffer.overrun_count() < u64::MAX,
        after.playback == r.playback,
        after.target_samples == r.target_samples,
        ingest::was_ingested(
            r.ingest,
            r.buffer,
            kind,
            seq,
            payload,
            opus,
            after.ingest,
            after.buffer,
            result,
        ),
    ensures
        ({
            let s = live_status(v, r, now);
            let t = live_status(v, after, now);
            let samples = ingest::samples_of(
                r.ingest.only,
                r.ingest.has_decoder,
                kind,
                payload,
                opus,
            );
            let dropped = samples is Ok && r.buffer@.len() + samples->Ok_0.len()
                > r.buffer.size();
            &&& t.received - s.received == 1
            &&& t.malformed - s.malformed == (if result is Err {
                1int
            } else {
                0
            })
            &&& t.overruns - s.overruns == (if dropped {
                1int
            } else {
                0
            })
            &&& t.underruns == s.underruns
            &&& t.level_peak == s.level_peak
            &&& t.effective_target_ms == s.effective_target_ms
            &&& (t.fill_ms.ticks - s.fill_ms.ticks) * 48 == (after.buffer@.len() - r.buffer@.len())
                * 6000
        }),
{
    broadcast use jitter::JitterBuffer::contents_fit;

    ingest::every_packet_is_taken_or_malformed(
        r.ingest,
        r.buffer,
        kind,
        seq,
        payload,
        opus,
        after.ingest,
        after.buffer,
        result,
    );
}

/// The status counts packet numbers under their names: `ahead - 1` packets left out
/// as lost, the last number once more as a duplicate, an earlier one as out of
/// order.
pub proof fn status_counts_packet_numbers(
    v: EngineView,
    r: Run,
    after: Run,
    last: u16,
    ahead: int,
    kind: PayloadType,
    payload: Seq<u8>,
    opus: Option<Seq<i16>>,
    result: Result<Option<String>, ingest::IngestError>,
    now: u64,
)
    requires
        r.ingest.seq.wf(),
        r.ingest.seq.last_seq() == Some(last),
        -32767 <= ahead <= 32768,
        ingest::was_ingested(
            r.ingest,
            r.buffer,
            kind,
            ((last + ahead) % 0x1_0000) as u16,
            payload,
            opus,
            after.ingest,
            after.buffer,
            result,
        ),
    ensures
        ({
            let s = live_status(v, r, now);
            let t = live_status(v, after, now);
            &&& t.lost - s.lost == (if ahead > 1 {
                ahead - 1
            } else {
                0
            })
            &&& t.dup - s.dup == (if ahead == 0 {
                1int
            } else {
                0
            })
            &&& t.ooo - s.ooo == (if ahead < 0 {
                1int
            } else {
                0
            })
        }),
{
    ingest::packet_numbers_are_accounted_for(
        r.ingest,
        r.buffer,
        last,
        ahead,
        kind,
        payload,
        opus,
        after.ingest,
        after.buffer,
        result,
    );
}

/// The uptime is the whole seconds since the start of the run, and a run shows how
/// it was configured, also after it has ended.
pub proof fn status_shows_the_run(
    v: EngineView,
    config: EngineConfig,
    start: u64,
    r: Run,
    now: u64,
    outcome: NetOutcome,
)
    requires
        r.wf(),
        start <= now,
    ensures
        ({
            let running = start_done(start_begun(v), config, start);
            let s = live_status(running, r, now);
            let stopped = run_stopped(running, outcome);
            let t = idle_status(shown_config(stopped));
            &&& s.running && !t.running
            &&& s.uptime_secs * 1_000_000_000 <= now - start < (s.uptime_secs + 1) * 1_000_000_000
            &&& s.transport == config.transport && t.transport == config.transport
            &&& s.bind == config.bind && t.bind == config.bind
            &&& s.port == config.port && t.port == config.port
            &&& s.codec == config.codec && t.codec == config.codec
            &&& s.effective_target_ms.ticks * 48 == r.target_samples * 6000
            &&& s.fill_ms.ticks * 48 == r.buffer@.len() * 6000
            &&& s.level_peak == r.playback.peak
            &&& t.effective_target_ms == config.target_ms
            &&& t.uptime_secs == 0 && t.level_peak == 0 && t.fill_ms.ticks == 0
            &&& t.received == 0 && t.lost == 0 && t.dup == 0 && t.ooo == 0 && t.malformed == 0
            &&& t.overruns == 0 && t.underruns == 0
        }),
{
    broadcast use jitter::JitterBuffer::contents_fit;

}

/// The check changes nothing but the prebuffer, and that only where it lies outside
/// 5 to 20 ms: it is then the nearer end of that range. Nothing but port 0 is
/// refused.
pub proof fn check_moves_only_the_prebuffer(c: EngineConfig)
    ensures
        checked(c) is Err <==> c.port == 0,
        checked(c) matches Ok(d) ==> {
            &&& d.transport == c.transport && d.bind == c.bind && d.port == c.port
            &&& d.codec == c.codec && d.capacity_ms == c.capacity_ms
            &&& 5 * 6000 <= d.target_ms.ticks <= 20 * 6000
            &&& 5 * 6000 <= c.target_ms.ticks <= 20 * 6000 ==> d.target_ms == c.target_ms
            &&& c.target_ms.ticks < 5 * 6000 ==> d.target_ms.ticks == 5 * 6000
            &&& c.target_ms.ticks > 20 * 6000 ==> d.target_ms.ticks == 20 * 6000
        },
{
}

/// A codec mode takes what its name says: the strict modes their own type, the
/// other one all types.
pub proof fn codec_modes_take_their_type(kind: PayloadType)
    ensures
        ingest::wanted(only_type(CodecMode::Auto), kind),
        ingest::wanted(only_type(CodecMode::Pcm), kind) <==> kind is Pcm,
        ingest::wanted(only_type(CodecMode::Opus), kind) <==> kind is Opus,
{
}

/// A start is answered with a start, a stop or the end with none; a run is stopped
/// by every command, by the end, and by a look that finds it over, and by nothing
/// else.
pub proof fn commands_are_carried_out(has_run: bool, config: EngineConfig, done: bool)
    ensures
        ({
            let start = plan_for(has_run, EngineEvent::Command(EngineCommand::Start(config)));
            let stop = plan_for(has_run, EngineEvent::Command(EngineCommand::Stop));
            let end = plan_for(has_run, EngineEvent::Closed);
            let look = plan_for(has_run, EngineEvent::Tick(done));
            &&& start.start == Some(config) && stop.start is None && end.start is None
            &&& look.start is None
            &&& start.stop == has_run && stop.stop == has_run && end.stop == has_run
            &&& look.stop == (has_run && done)
            &&& end.leave && !start.leave && !stop.leave && !look.leave
        }),
{
}

/// The status of a running engine tells what its run has counted, each count under
/// its name, what is buffered and how deep, how loud it was and for how long it
/// runs. The look takes the peak of the run and nothing else.
pub proof fn status_tells_what_the_run_counted(
    s: &EngineState,
    r: &mut Run,
    now: u64,
    t: EngineStatus,
    start: u64,
)
    requires
        s.wf(),
        old(r).wf(),
        s@.running,
        s@.started_at == Some(start),
        call_ensures(EngineState::status, (s, Some(r), now), t),
    ensures
        t.running,
        t.received == old(r).ingest.received,
        t.lost == old(r).ingest.lost,
        t.dup == old(r).ingest.duplicate,
        t.ooo == old(r).ingest.out_of_order,
        t.malformed == old(r).ingest.malformed,
        t.overruns == old(r).buffer.overrun_count(),
        t.underruns == old(r).buffer.underrun_count(),
        t.level_peak == old(r).playback.peak,
        t.fill_ms.ticks * 48 == old(r).buffer@.len() * 6000,
        t.effective_target_ms.ticks * 48 == old(r).target_samples * 6000,
        start <= now ==> t.uptime_secs * 1_000_000_000 <= now - start < (t.uptime_secs + 1)
            * 1_000_000_000,
        now < start ==> t.uptime_secs == 0,
        s@.config matches Some(c) ==> {
            &&& t.transport == c.transport && t.bind == c.bind
            &&& t.port == c.port && t.codec == c.codec
        },
        final(r).playback.peak == 0,
        final(r).playback.streaming == old(r).playback.streaming,
        final(r).buffer == old(r).buffer,
        final(r).ingest == old(r).ingest,
        final(r).target_samples == old(r).target_samples,
{
    broadcast use jitter::JitterBuffer::contents_fit;

}

/// The status of a stopped engine shows its configuration, and zero everywhere else.
pub proof fn status_of_a_stopped_engine_is_zero(
    s: &EngineState,
    run: Option<&mut Run>,
    now: u64,
    t: EngineStatus,
)
    requires
        s.wf(),
        !s@.running,
        call_ensures(EngineState::status, (s, run, now), t),
    ensures
        !t.running,
        t.received == 0 && t.lost == 0 && t.dup == 0 && t.ooo == 0 && t.malformed == 0,
        t.overruns == 0 && t.underruns == 0,
        t.fill_ms.ticks == 0 && t.level_peak == 0 && t.uptime_secs == 0,
        s@.config matches Some(c) ==> {
            &&& t.transport == c.transport && t.bind == c.bind
            &&& t.port == c.port && t.codec == c.codec
            &&& t.effective_target_ms == c.target_ms
        },
        s@.config is None ==> {
            &&& t.transport is Udp && t.bind == Ip::V4(0)
            &&& t.port == 41_700 && t.codec is Auto
            &&& t.effective_target_ms.ticks == 10 * 6000
        },
{
}

/// A start forgets the last error and the last line, leaves all else, refuses port 0
/// and nothing else, and gives a run that has counted nothing, with the configured
/// prebuffer moved into 5 to 20 ms.
pub proof fn starts_begin_anew(
    s: &mut EngineState,
    config: EngineConfig,
    has_decoder: bool,
    r: Result<(EngineConfig, Run), ConfigError>,
)
    requires
        old(s).wf(),
        config.port != 0 ==> capacity_fits(config),
        call_ensures(EngineState::prepare, (s, config, has_decoder), r),
    ensures
        final(s).wf(),
        final(s)@.error is None && final(s)@.stats_line is None,
        final(s)@.running == old(s)@.running && final(s)@.config == old(s)@.config,
        final(s)@.started_at == old(s)@.started_at,
        final(s)@.depth_params == old(s)@.depth_params,
        r is Err <==> config.port == 0,
        r matches Ok((c, fresh)) ==> {
            &&& c.transport == config.transport && c.bind == config.bind
            &&& c.port == config.port && c.codec == config.codec
            &&& c.capacity_ms == config.capacity_ms
            &&& 5 * 6000 <= c.target_ms.ticks <= 20 * 6000
            &&& 5 * 6000 <= config.target_ms.ticks <= 20 * 6000 ==> c.target_ms
                == config.target_ms
            &&& config.target_ms.ticks < 5 * 6000 ==> c.target_ms.ticks == 5 * 6000
            &&& config.target_ms.ticks > 20 * 6000 ==> c.target_ms.ticks == 20 * 6000
            &&& fresh.wf()
            &&& fresh.buffer@.len() == 0
            &&& fresh.ingest.received == 0 && fresh.ingest.malformed == 0
            &&& fresh.ingest.has_decoder == has_decoder
            &&& ingest::wanted(fresh.ingest.only, PayloadType::Pcm) <==> !(config.codec is Opus)
            &&& ingest::wanted(fresh.ingest.only, PayloadType::Opus) <==> !(config.codec is Pcm)
            &&& (fresh.target_samples - 1) * 125 < c.target_ms.ticks <= fresh.target_samples * 125
        },
{
    check_moves_only_the_prebuffer(config);
}

/// A start that succeeded makes the engine run with its configuration from then on;
/// one that failed leaves its message and a stopped engine.
pub proof fn starts_end_in_a_run_or_an_error(
    s: &mut EngineState,
    config: EngineConfig,
    now: u64,
    f: &mut EngineState,
    message: String,
)
    requires
        call_ensures(EngineState::publish, (s, config, now), ()),
        !old(f)@.running,
        call_ensures(EngineState::fail, (f, message), ()),
    ensures
        final(s)@.running && final(s)@.config == Some(config),
        final(s)@.started_at == Some(now),
        final(s)@.error == old(s)@.error && final(s)@.stats_line == old(s)@.stats_line,
        final(s)@.depth_params == old(s)@.depth_params,
        !final(f)@.running && final(f)@.error == Some(message@),
        final(f)@.config == old(f)@.config && final(f)@.stats_line == old(f)@.stats_line,
        final(f)@.depth_params == old(f)@.depth_params,
{
}

/// A run that ended leaves its line or its error, keeps its configuration, and does
/// not run any more.
pub proof fn stops_keep_the_outcome(s: &mut EngineState, outcome: NetOutcome)
    requires
        call_ensures(EngineState::stop, (s, outcome), ()),
    ensures
        final(s).wf(),
        !final(s)@.running && final(s)@.started_at is None,
        final(s)@.config == old(s)@.config,
        final(s)@.depth_params == old(s)@.depth_params,
        outcome matches NetOutcome::Line(l) ==> final(s)@.stats_line == Some(l@)
            && final(s)@.error == old(s)@.error,
        outcome matches NetOutcome::Failed(e) ==> final(s)@.error == Some(e@)
            && final(s)@.stats_line == old(s)@.stats_line,
        outcome matches NetOutcome::Panicked(e) ==> final(s)@.error == Some(
            "network task panicked: "@ + e@,
        ) && final(s)@.stats_line == old(s)@.stats_line,
{
}

/// The line of a run is given once, and an error stays until the next start: asking
/// for it does not take it.
pub proof fn lines_are_given_once(
    s: &mut EngineState,
    line: Option<String>,
    again: &mut EngineState,
    none: Option<String>,
    e: &mut EngineState,
    message: String,
    told: Option<String>,
)
    requires
        call_ensures(EngineState::take_stats_line, (s,), line),
        *old(again) == *final(s),
        call_ensures(EngineState::take_stats_line, (again,), none),
        call_ensures(EngineState::set_error, (e, message), ()),
        call_ensures(EngineState::last_error, (&*final(e),), told),
    ensures
        line is Some <==> old(s)@.stats_line is Some,
        line matches Some(l) ==> old(s)@.stats_line == Some(l@),
        none is None,
        final(s)@.running == old(s)@.running && final(s)@.config == old(s)@.config,
        final(s)@.error == old(s)@.error && final(s)@.started_at == old(s)@.started_at,
        told matches Some(m) && m@ == message@,
        final(e)@.running == old(e)@.running && final(e)@.config == old(e)@.config,
        final(e)@.stats_line == old(e)@.stats_line,
        final(e)@.started_at == old(e)@.started_at,
{
}

/// A run is over once its network task is, unless it was told to quit and playback
/// still goes on.
pub proof fn runs_end_with_their_tasks(quit: bool, net: bool, playback: bool, done: bool)
    requires
        call_ensures(is_done, (quit, net, playback), done),
    ensures
        !net ==> !done,
        net && !quit ==> done,
        net && playback ==> done,
        net && quit && !playback ==> !done,
{
}

/// Whatever playback reports is an error, unless the run was told to quit: then
/// nothing is. A failure tells its reason.
pub proof fn playback_errors_are_told(quit: bool, report: PlaybackReport, e: Option<String>)
    requires
        call_ensures(playback_error, (quit, report), e),
    ensures
        e is None <==> quit,
        !quit && report is Failed ==> e->0@ == "PipeWire setup failed: "@ + report->Failed_0@,
        !quit && report is Exited ==> e->0@ == "PipeWire thread exited unexpectedly"@,
        !quit && report is Lost ==> e->0@ == "PipeWire setup channel closed unexpectedly"@,
{
}

/// The jitter buffer is asked to hold what fits in the capacity, 48 samples to the
/// millisecond, and nothing for a negative one.
pub proof fn capacity_is_counted_in_samples(c: EngineConfig)
    ensures
        c.capacity_ms.ticks >= 0 ==> capacity_samples(c) * 125 <= c.capacity_ms.ticks < (
        capacity_samples(c) + 1) * 125,
        c.capacity_ms.ticks < 0 ==> capacity_samples(c) == 0,
{
}

/// A new engine is stopped, has nothing to tell, and shows what it was given.
pub proof fn engines_start_cold(
    initial: Option<EngineConfig>,
    params: DepthParams,
    s: EngineState,
)
    requires
        call_ensures(EngineState::new, (initial, params), s),
    ensures
        s.wf(),
        !s@.running && s@.started_at is None && s@.error is None && s@.stats_line is None,
        s@.config == initial,
        s@.depth_params == params,
{
}

/// Where nothing is given, an engine listens for datagrams of both codecs on port
/// 41700 of all interfaces, waits for 10 ms and holds 100 ms of audio.
pub proof fn default_engine_configuration(c: EngineConfig)
    requires
        c == default_config(),
    ensures
        c.transport is Udp && c.codec is Auto,
        c.bind == Ip::V4(0) && c.port == 41_700,
        c.target_ms.ticks == 10 * 6000 && c.capacity_ms.ticks == 100 * 6000,
        checked(c) == Ok::<EngineConfig, ConfigError>(c),
{
}

/// The plan for an event is carried out as it came: a start brings its own
/// configuration, and every command, the end and a run that is over stop a run.
pub proof fn events_are_planned_for(has_run: bool, event: EngineEvent, p: EnginePlan)
    requires
        call_ensures(plan, (has_run, event), p),
    ensures
        p.start is Some <==> event matches EngineEvent::Command(EngineCommand::Start(_)),
        event matches EngineEvent::Command(EngineCommand::Start(c)) ==> p.start == Some(c),
        p.leave <==> event is Closed,
        event matches EngineEvent::Tick(done) ==> p.stop == (has_run && done),
        !(event is Tick) ==> p.stop == has_run,
{
}

/// A port that was refused is named in the message.
pub proof fn refused_ports_are_named(e: &ConfigError, port: u16, m: String)
    requires
        *e == ConfigError::InvalidPort(port),
        call_ensures(ConfigError::message, (e,), m),
    ensures
        m@ == "invalid port "@ + text::decimal(port as nat) + ": must be in 1..=65535"@,
{
}

/// A checked configuration is what the check lets pass, and names are those of the
/// transports and modes.
pub proof fn checks_and_names(
    c: EngineConfig,
    r: Result<EngineConfig, ConfigError>,
    t: Transport,
    transport: &'static str,
    m: CodecMode,
    mode: &'static str,
    only: Option<PayloadType>,
)
    requires
        call_ensures(EngineConfig::validated, (c,), r),
        call_ensures(Transport::as_str, (t,), transport),
        call_ensures(CodecMode::as_str, (m,), mode),
        call_ensures(CodecMode::only, (m,), only),
    ensures
        r is Err <==> c.port == 0,
        r matches Ok(d) ==> {
            &&& d.transport == c.transport && d.bind == c.bind && d.port == c.port
            &&& d.codec == c.codec && d.capacity_ms == c.capacity_ms
            &&& 5 * 6000 <= c.target_ms.ticks <= 20 * 6000 ==> d.target_ms == c.target_ms
            &&& c.target_ms.ticks < 5 * 6000 ==> d.target_ms.ticks == 5 * 6000
            &&& c.target_ms.ticks > 20 * 6000 ==> d.target_ms.ticks == 20 * 6000
        },
        t is Udp ==> transport@ == "udp"@,
        t is Tcp ==> transport@ == "tcp"@,
        m is Auto ==> mode@ == "auto"@ && only is None,
        m is Pcm ==> mode@ == "pcm"@ && only == Some(PayloadType::Pcm),
        m is Opus ==> mode@ == "opus"@ && only == Some(PayloadType::Opus),
{
}

/// An engine tells whether it runs and how its depth is timed, and looking changes
/// nothing.
pub proof fn engines_tell_their_state(
    s: &EngineState,
    running: bool,
    params: DepthParams,
    error: Option<String>,
)
    requires
        call_ensures(EngineState::running, (s,), running),
        call_ensures(EngineState::depth_params, (s,), params),
        call_ensures(EngineState::last_error, (s,), error),
    ensures
        running == s@.running,
        params == s@.depth_params,
        error is Some <==> s@.error is Some,
        error matches Some(e) ==> s@.error == Some(e@),
{
}

/// A running engine whose run is not at hand shows that it runs and for how long, its
/// configuration, and zero counts.
pub proof fn status_without_the_run(
    s: &EngineState,
    run: Option<&mut Run>,
    now: u64,
    t: EngineStatus,
    start: u64,
)
    requires
        s.wf(),
        s@.running,
        s@.started_at == Some(start),
        run is None,
        call_ensures(EngineState::status, (s, run, now), t),
    ensures
        t.running,
        start <= now ==> t.uptime_secs * 1_000_000_000 <= now - start < (t.uptime_secs + 1)
            * 1_000_000_000,
        t.received == 0 && t.lost == 0 && t.dup == 0 && t.ooo == 0 && t.malformed == 0,
        t.overruns == 0 && t.underruns == 0 && t.level_peak == 0 && t.fill_ms.ticks == 0,
        s@.config matches Some(c) ==> {
            &&& t.transport == c.transport && t.bind == c.bind
            &&& t.port == c.port && t.codec == c.codec
            &&& t.effective_target_ms == c.target_ms
        },
{
}

/// Every look takes the peak of the run, also while the engine is stopped, and leaves the
/// rest of it.
pub proof fn every_look_takes_the_peak(s: &EngineState, r: &mut Run, now: u64, t: EngineStatus)
    requires
        call_ensures(EngineState::status, (s, Some(r), now), t),
    ensures
        final(r).playback.peak == 0,
        final(r).playback.streaming == old(r).playback.streaming,
        final(r).buffer == old(r).buffer && final(r).ingest == old(r).ingest,
        final(r).target_samples == old(r).target_samples,
{
}

/// What stands for nothing being set: datagrams, all codecs.
pub proof fn defaults_of_the_engine(t: Transport, m: CodecMode, c: EngineConfig)
    requires
        call_ensures(Transport::default, (), t),
        call_ensures(CodecMode::default, (), m),
        call_ensures(EngineConfig::default, (), c),
    ensures
        t is Udp,
        m is Auto,
        c.transport == t && c.codec == m,
        c.bind == Ip::V4(0) && c.port == 41_700,
        c.target_ms.ticks == 10 * 6000 && c.capacity_ms.ticks == 100 * 6000,
{
}

} // verus!
