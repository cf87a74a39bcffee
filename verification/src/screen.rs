//! What the parts of the console window show in each state.

use vstd::prelude::*;

use crate::console;
use crate::console::Console;
use crate::console::PRESS_PULSE_US;
use crate::console::STAGGER_US;
use crate::display;
use crate::engine::CodecMode;
use crate::engine::Ip;
use crate::engine::DEFAULT_CAPACITY_MS;
use crate::millis;
use crate::millis::Millis;
use crate::millis::TICKS_PER_MS;
use crate::text;
use crate::text::push_decimal;
use crate::text::push_large_decimal;
use crate::vu;
use crate::vu::Tone;

verus! {

/// The header: the tone of its lamp, and whether changes are unsaved.
#[derive(Debug, Clone, Copy, PartialEq, Eq, Structural)]
pub struct Header {
    pub lamp: Tone,
    pub unsaved: bool,
}

/// How the cables between the stages look.
#[derive(Debug, Clone, Copy, PartialEq, Eq, Structural)]
pub enum Cable {
    /// The engine does not run.
    Cold,
    /// The engine runs and motion is reduced.
    Steady,
    /// The stages light up: one pulse over that time, in microseconds so far.
    Once(u64),
    /// Audio flows: a pulse every second.
    Beat,
    /// The engine runs and nothing flows.
    Quiet,
}

/// The chain of stages.
#[derive(Debug, PartialEq, Eq)]
pub struct Chain {
    /// Whether audio flows.
    pub hot: bool,
    /// Whether the first stage is lit.
    pub mic_lit: bool,
    pub link_tone: Tone,
    pub console_tone: Tone,
    /// Packets per second.
    pub rate: String,
    /// Packets lost.
    pub lost: String,
    /// The depth.
    pub depth: String,
    /// Whether the depth is marked as raised.
    pub raised: bool,
    /// The fill of the jitter buffer, up to what the bar can show.
    pub fill: Millis,
    pub cable: Cable,
}

/// The meter.
#[derive(Debug, Clone, Copy, PartialEq, Eq, Structural)]
pub struct Ladder {
    pub lit: usize,
    pub hold: usize,
    pub hot: bool,
}

/// The lamp that starts and stops the engine.
#[derive(Debug, Clone, Copy, PartialEq, Eq)]
pub struct AirToggle {
    pub live: bool,
    pub label: &'static str,
    pub label_tone: Tone,
    pub dot_tone: Tone,
    /// What is left of the press, in microseconds.
    pub pulse_us: u64,
}

/// The changing parts of the settings form.
#[derive(Debug, PartialEq, Eq)]
pub struct SettingsForm {
    /// What is wrong with the port, if anything.
    pub port_hint: Option<&'static str>,
    pub target: String,
    /// The note about a raised depth, if it is raised.
    pub depth_hint: Option<String>,
    pub auto_chip: Chip,
    pub pcm_chip: Chip,
    pub opus_chip: Chip,
}

/// A codec to choose.
#[derive(Debug, Clone, Copy, PartialEq, Eq, Structural)]
pub struct Chip {
    pub text_tone: Tone,
    pub border_tone: Tone,
    /// Whether the border is the wide one.
    pub wide: bool,
}

/// Whether audio flows.
pub open spec fn is_hot(v: console::ConsoleView) -> bool {
    v.status.running && v.streaming
}

/// Whether stage `i` is lit: all are, except while they light up one after the
/// other, a third of the time apart.
pub open spec fn stage_lit(v: console::ConsoleView, i: int) -> bool {
    !v.stagger || 3 * v.stagger_t >= i * STAGGER_US
}

/// The tone of a stage's value.
pub open spec fn value_tone(v: console::ConsoleView, i: int) -> Tone {
    if !stage_lit(v, i) {
        Tone::Line
    } else if is_hot(v) {
        Tone::Cream
    } else {
        Tone::Dim
    }
}

/// How the cables look.
pub open spec fn cable_of(v: console::ConsoleView) -> Cable {
    if !v.status.running {
        Cable::Cold
    } else if v.reduce_motion {
        Cable::Steady
    } else if v.stagger {
        Cable::Once(v.stagger_t)
    } else if is_hot(v) {
        Cable::Beat
    } else {
        Cable::Quiet
    }
}

/// The depth that is shown.
pub open spec fn depth_shown(v: console::ConsoleView) -> Millis {
    if v.status.running {
        v.effective_target_ms
    } else {
        v.engine_cfg.target_ms
    }
}

/// Whether the depth is marked as raised.
pub open spec fn depth_marked(v: console::ConsoleView) -> bool {
    v.status.running && display::is_raised(v.effective_target_ms, v.engine_cfg.target_ms)
}

/// The chip of a codec mode.
pub open spec fn chip_of(v: console::ConsoleView, m: CodecMode) -> Chip {
    if v.codec == m {
        Chip { text_tone: Tone::Cream, border_tone: Tone::Amber, wide: true }
    } else {
        Chip { text_tone: Tone::Dim, border_tone: Tone::Line, wide: false }
    }
}

/// What is left of the press of the lamp at `now`.
pub open spec fn pulse_left(v: console::ConsoleView, now: u64) -> u64 {
    match v.air_pulse {
        None => 0,
        Some(t) => if now <= t {
            PRESS_PULSE_US
        } else if now - t >= PRESS_PULSE_US {
            0
        } else {
            (PRESS_PULSE_US - (now - t)) as u64
        },
    }
}

/// The header.
pub fn header(c: &Console) -> (h: Header)
    ensures
        h == (Header {
            lamp: if c@.status.running {
                Tone::Amber
            } else {
                Tone::Line
            },
            unsaved: c@.dirty,
        }),
{
    Header {
        lamp: if c.status.running {
            Tone::Amber
        } else {
            Tone::Line
        },
        unsaved: c.dirty,
    }
}

/// The tone of a stage's value.
fn tone_of_stage(c: &Console, i: u64) -> (t: Tone)
    requires
        i < 3,
        c.wf(),
    ensures
        t == value_tone(c@, i as int),
{
    if c.stagger && 3 * c.stagger_t < i * STAGGER_US {
        Tone::Line
    } else if c.status.running && c.streaming {
        Tone::Cream
    } else {
        Tone::Dim
    }
}

/// The chain of stages.
pub fn hero_chain(c: &Console) -> (h: Chain)
    requires
        c.wf(),
    ensures
        h.hot == is_hot(c@),
        h.mic_lit == stage_lit(c@, 0),
        h.link_tone == value_tone(c@, 1),
        h.console_tone == value_tone(c@, 2),
        h.rate@ == text::decimal(c@.pps.per_second() as nat) + "/s"@,
        h.lost@ == text::decimal(c@.status.lost as nat) + " LOST"@,
        h.depth@ == depth_shown(c@).text() + " ms"@,
        h.raised == depth_marked(c@),
        h.fill.ticks == millis::clamped(
            c@.status.fill_ms.ticks as int,
            0,
            DEFAULT_CAPACITY_MS * TICKS_PER_MS,
        ),
        h.cable == cable_of(c@),
{
    let hot: bool = c.status.running && c.streaming;
    let mut rate = String::new();
    push_large_decimal(&mut rate, c.pps.rounded());
    rate.append("/s");
    assert(rate@ =~= text::decimal(c@.pps.per_second() as nat) + "/s"@);
    let mut lost = String::new();
    push_decimal(&mut lost, c.status.lost);
    lost.append(" LOST");
    assert(lost@ =~= text::decimal(c@.status.lost as nat) + " LOST"@);
    let (shown, raised) = display::console_depth(
        c.effective_target_ms,
        c.engine_cfg.target_ms,
        c.status.running,
    );
    let cable = if !c.status.running {
        Cable::Cold
    } else if c.reduce_motion {
        Cable::Steady
    } else if c.stagger {
        Cable::Once(c.stagger_t)
    } else if hot {
        Cable::Beat
    } else {
        Cable::Quiet
    };
    Chain {
        hot,
        mic_lit: true,
        link_tone: tone_of_stage(c, 1),
        console_tone: tone_of_stage(c, 2),
        rate,
        lost,
        depth: display::millis_text(shown),
        raised,
        fill: c.status.fill_ms.clamp(Millis { ticks: 0 }, Millis::whole(DEFAULT_CAPACITY_MS)),
        cable,
    }
}

/// The meter.
pub fn vu_ladder(c: &Console) -> (l: Ladder)
    requires
        c.wf(),
    ensures
        l.lit == vu::lit(c@.vu.level),
        l.hold == vu::lit(c@.vu.peak_hold),
        l.hot == is_hot(c@),
        l.lit <= l.hold <= vu::SEGMENTS,
{
    proof {
        vu::marker_never_below_reading(c.vu);
    }
    Ladder {
        lit: vu::vu_segments(c.vu.level()),
        hold: c.vu.hold_segments(),
        hot: c.status.running && c.streaming,
    }
}

/// The lamp at `now`.
pub fn air_toggle(c: &Console, now: u64) -> (a: AirToggle)
    ensures
        a.live == c@.status.running,
        a.label@ == (if c@.status.running {
            "ON AIR"@
        } else {
            "STANDBY"@
        }),
        a.label_tone == (if c@.status.running {
            Tone::Cream
        } else {
            Tone::Dim
        }),
        a.dot_tone == (if c@.status.running {
            Tone::Tally
        } else {
            Tone::Line
        }),
        a.pulse_us == pulse_left(c@, now),
{
    let live: bool = c.status.running;
    let pulse_us: u64 = match c.air_pulse {
        None => 0,
        Some(t) => if now <= t {
            PRESS_PULSE_US
        } else if now - t >= PRESS_PULSE_US {
            0
        } else {
            PRESS_PULSE_US - (now - t)
        },
    };
    AirToggle {
        live,
        label: if live {
            "ON AIR"
        } else {
            "STANDBY"
        },
        label_tone: if live {
            Tone::Cream
        } else {
            Tone::Dim
        },
        dot_tone: if live {
            Tone::Tally
        } else {
            Tone::Line
        },
        pulse_us,
    }
}

/// The status line. `bind` is the text of the bound address.
pub fn status_line(c: &Console, bind: &str) -> (s: String)
    ensures
        s@ == display::truncated(
            display::status_text(
                c@.engine_cfg.transport,
                bind@,
                c@.engine_cfg.port,
                c@.engine_cfg.codec,
            ),
            display::STATUS_LINE_MAX_CHARS as nat,
        ),
{
    display::status_line(
        c.engine_cfg.transport,
        bind,
        c.engine_cfg.port,
        c.engine_cfg.codec,
    )
}

/// The chip of a codec mode.
pub fn codec_chip(c: &Console, m: CodecMode) -> (chip: Chip)
    ensures
        chip == chip_of(c@, m),
{
    if c.codec == m {
        Chip { text_tone: Tone::Cream, border_tone: Tone::Amber, wide: true }
    } else {
        Chip { text_tone: Tone::Dim, border_tone: Tone::Line, wide: false }
    }
}

/// The changing parts of the settings form.
pub fn settings_panel(c: &Console) -> (f: SettingsForm)
    requires
        c.wf(),
    ensures
        match f.port_hint {
            Some(hint) => {
                &&& console::port_in_form(c@) is None
                &&& hint@ == "Port must be 1-65535"@
            },
            None => console::port_in_form(c@) is Some,
        },
        f.target@ == c@.target_ms.text() + " ms"@,
        match f.depth_hint {
            Some(hint) => depth_marked(c@) && hint@ == display::depth_hint_text(
                c@.effective_target_ms,
            ),
            None => !depth_marked(c@),
        },
        f.auto_chip == chip_of(c@, CodecMode::Auto),
        f.pcm_chip == chip_of(c@, CodecMode::Pcm),
        f.opus_chip == chip_of(c@, CodecMode::Opus),
{
    let port_hint = match c.form_port() {
        Some(_) => None,
        None => Some("Port must be 1-65535"),
    };
    SettingsForm {
        port_hint,
        target: display::millis_text(c.target_ms),
        depth_hint: display::depth_hint(
            c.effective_target_ms,
            c.engine_cfg.target_ms,
            c.status.running,
        ),
        auto_chip: codec_chip(c, CodecMode::Auto),
        pcm_chip: codec_chip(c, CodecMode::Pcm),
        opus_chip: codec_chip(c, CodecMode::Opus),
    }
}

/// The card and the settings form never disagree about a raised depth, and
/// neither marks it while the engine does not run.
pub proof fn raised_marks_agree(v: console::ConsoleView)
    ensures
        !v.status.running ==> !depth_marked(v) && depth_shown(v) == v.engine_cfg.target_ms,
        depth_marked(v) ==> depth_shown(v).ticks > v.engine_cfg.target_ms.ticks,
{
}

/// Exactly one codec is shown as chosen.
pub proof fn one_codec_is_chosen(v: console::ConsoleView)
    ensures
        chip_of(v, v.codec).wide,
        forall|m: CodecMode| #[trigger] chip_of(v, m).wide ==> m == v.codec,
{
}

/// The stages light up from left to right.
pub proof fn stages_light_in_order(v: console::ConsoleView, i: int, j: int)
    requires
        0 <= i <= j,
        stage_lit(v, j),
    ensures
        stage_lit(v, i),
        stage_lit(v, 0),
{
    assert(i * STAGGER_US <= j * STAGGER_US);
}

/// The window tells whether the engine runs in each of its parts, and never one
/// thing here and another there.
pub proof fn parts_agree_on_the_state(
    c: &Console,
    now: u64,
    top: Header,
    air: AirToggle,
    chain: Chain,
    ladder: Ladder,
)
    requires
        call_ensures(header, (c,), top),
        call_ensures(air_toggle, (c, now), air),
        call_ensures(hero_chain, (c,), chain),
        call_ensures(vu_ladder, (c,), ladder),
    ensures
        ({
            let running = c@.status.running;
            let hot = running && c@.streaming;
            &&& top.lamp == (if running {
                Tone::Amber
            } else {
                Tone::Line
            })
            &&& top.unsaved == c@.dirty
            &&& air.live == running
            &&& air.label@ == (if running {
                "ON AIR"@
            } else {
                "STANDBY"@
            })
            &&& air.dot_tone is Tally <==> running
            &&& air.label_tone is Cream <==> running
            &&& chain.hot == hot && ladder.hot == hot
            &&& chain.cable is Cold <==> !running
            &&& running && c@.reduce_motion ==> chain.cable is Steady
            &&& running && !c@.reduce_motion && !c@.stagger ==> (chain.cable is Beat <==> hot)
            &&& running && !c@.reduce_motion && c@.stagger ==> chain.cable == Cable::Once(
                c@.stagger_t,
            )
            &&& chain.mic_lit
            &&& !c@.stagger ==> (chain.link_tone is Cream <==> hot) && (chain.link_tone is Dim
                <==> !hot) && chain.console_tone == chain.link_tone
        }),
{
}

/// The window shows the numbers of the console: the packets per second and the lost
/// ones as numerals, the fill up to 100 ms, and the lit segments of the reading and
/// its marker.
pub proof fn numbers_are_shown(c: &Console, chain: Chain, ladder: Ladder)
    requires
        call_ensures(hero_chain, (c,), chain),
        call_ensures(vu_ladder, (c,), ladder),
    ensures
        chain.rate@ == text::decimal(c@.pps.per_second() as nat) + "/s"@,
        chain.lost@ == text::decimal(c@.status.lost as nat) + " LOST"@,
        c@.status.running ==> chain.depth@ == c@.effective_target_ms.text() + " ms"@,
        !c@.status.running ==> chain.depth@ == c@.engine_cfg.target_ms.text() + " ms"@,
        chain.raised ==> c@.status.running && c@.effective_target_ms.ticks
            > c@.engine_cfg.target_ms.ticks,
        0 <= chain.fill.ticks <= 100 * 6000,
        0 <= c@.status.fill_ms.ticks <= 100 * 6000 ==> chain.fill == c@.status.fill_ms,
        c@.status.fill_ms.ticks > 100 * 6000 ==> chain.fill.ticks == 100 * 6000,
        ladder.lit == vu::lit(c@.vu.level),
        ladder.hold == vu::lit(c@.vu.peak_hold),
{
}

/// The press of the lamp shows for 200 ms and fades steadily.
pub proof fn press_fades(v: console::ConsoleView, pressed: u64, now: u64)
    requires
        v.air_pulse == Some(pressed),
        pressed <= now,
    ensures
        now - pressed < 200_000 ==> pulse_left(v, now) + (now - pressed) == 200_000,
        now - pressed >= 200_000 ==> pulse_left(v, now) == 0,
        pulse_left(console::ConsoleView { air_pulse: None, ..v }, now) == 0,
{
}

/// The stages light up a third of 400 ms apart: the first at once, the second from
/// 133.3 ms on, the third from 266.7 ms on, and all of them from then on.
pub proof fn stages_light_in_thirds(v: console::ConsoleView)
    ensures
        stage_lit(v, 0),
        v.stagger ==> (stage_lit(v, 1) <==> 3 * v.stagger_t >= 400_000),
        v.stagger ==> (stage_lit(v, 2) <==> 3 * v.stagger_t >= 800_000),
        !v.stagger ==> stage_lit(v, 1) && stage_lit(v, 2),
{
}

/// The form says what is wrong with the port exactly while it cannot be saved, shows
/// the chosen prebuffer, and marks the chosen codec.
pub proof fn form_shows_the_choices(c: &Console, bind: Option<Ip>, form: SettingsForm)
    requires
        call_ensures(settings_panel, (c,), form),
    ensures
        form.port_hint is None <==> console::after_save(c@, bind).1 is Save,
        form.target@ == c@.target_ms.text() + " ms"@,
        form.auto_chip.wide <==> c@.codec is Auto,
        form.pcm_chip.wide <==> c@.codec is Pcm,
        form.opus_chip.wide <==> c@.codec is Opus,
        form.auto_chip.wide <==> form.auto_chip.text_tone is Cream,
        form.pcm_chip.wide <==> form.pcm_chip.text_tone is Cream,
        form.opus_chip.wide <==> form.opus_chip.text_tone is Cream,
        form.auto_chip.wide <==> form.auto_chip.border_tone is Amber,
        form.depth_hint is Some ==> c@.status.running && c@.effective_target_ms.ticks
            > c@.engine_cfg.target_ms.ticks,
{
}

/// The depth is marked as raised in the chain and explained in the form exactly while
/// the engine runs more than 0.05 ms above its configured depth.
pub proof fn raised_depths_are_shown(c: &Console, chain: Chain, form: SettingsForm)
    requires
        call_ensures(hero_chain, (c,), chain),
        call_ensures(settings_panel, (c,), form),
    ensures
        chain.raised <==> c@.status.running && (c@.effective_target_ms.ticks
            - c@.engine_cfg.target_ms.ticks) * 100 > 5 * 6000,
        form.depth_hint is Some <==> chain.raised,
        form.depth_hint matches Some(h) ==> h@ == "effective "@ + c@.effective_target_ms.text()
            + " ms · raised by loss adaptation"@,
        form.port_hint matches Some(h) ==> h@ == "Port must be 1-65535"@,
        form.port_hint is None <==> (text::number_in(c@.port_input, 0xFFFF) matches Ok(n) && n
            > 0),
{
}

/// While the stages light up, those whose third has not come yet are dark.
pub proof fn dark_stages_wait_for_their_third(c: &Console, chain: Chain)
    requires
        c@.stagger,
        call_ensures(hero_chain, (c,), chain),
    ensures
        chain.link_tone is Line <==> 3 * c@.stagger_t < 400_000,
        chain.console_tone is Line <==> 3 * c@.stagger_t < 800_000,
        chain.mic_lit,
        !(chain.link_tone is Line) ==> (chain.link_tone is Cream <==> chain.hot),
        !(chain.console_tone is Line) ==> (chain.console_tone is Cream <==> chain.hot),
        c@.status.fill_ms.ticks < 0 ==> chain.fill.ticks == 0,
{
}

/// The chip of the chosen codec stands out and the others do not; the status line is
/// that of the engine's configuration, and the press of the lamp fades in 200 ms.
pub proof fn chosen_codec_stands_out(
    c: &Console,
    m: CodecMode,
    chip: Chip,
    bind: &str,
    line: String,
    now: u64,
    air: AirToggle,
)
    requires
        call_ensures(codec_chip, (c, m), chip),
        call_ensures(status_line, (c, bind), line),
        call_ensures(air_toggle, (c, now), air),
    ensures
        c@.codec == m <==> chip.wide,
        chip.wide ==> chip.text_tone is Cream && chip.border_tone is Amber,
        !chip.wide ==> chip.text_tone is Dim && chip.border_tone is Line,
        line@.len() <= 56,
        line@ == display::truncated(
            display::status_text(
                c@.engine_cfg.transport,
                bind@,
                c@.engine_cfg.port,
                c@.engine_cfg.codec,
            ),
            56,
        ),
        c@.air_pulse is None ==> air.pulse_us == 0,
        c@.air_pulse matches Some(t) ==> {
            &&& t <= now && now - t < 200_000 ==> air.pulse_us + (now - t) == 200_000
            &&& now - t >= 200_000 ==> air.pulse_us == 0
            &&& now < t ==> air.pulse_us == 200_000
        },
        !c@.status.running ==> air.label_tone is Dim && air.dot_tone is Line,
{
    display::truncation_fits(
        display::status_text(
            c@.engine_cfg.transport,
            bind@,
            c@.engine_cfg.port,
            c@.engine_cfg.codec,
        ),
        56,
    );
}

} // verus!
