//! The user's settings.

use vstd::prelude::*;

use crate::engine;
use crate::engine::CodecMode;
use crate::engine::EngineConfig;
use crate::engine::Ip;
use crate::engine::Transport;
use crate::engine::DEFAULT_CAPACITY_MS;
use crate::engine::DEFAULT_PORT;
use crate::millis::Millis;
use crate::millis::TICKS_PER_MS;
use crate::text;
use crate::text::eq_ignore_case;

verus! {

/// Prebuffer where none is set, in milliseconds.
pub const DEFAULT_TARGET_MS: u32 = 10;

/// The settings that are kept between sessions.
#[derive(Debug, PartialEq, Eq)]
pub struct Config {
    pub port: u16,
    pub bind: String,
    pub codec: String,
    pub target_ms: Millis,
    pub autostart: bool,
    pub start_minimized: bool,
    /// Leave out the moving parts of the display.
    pub reduce_motion: bool,
}

/// Settings as the contracts see them.
pub ghost struct ConfigView {
    pub port: u16,
    pub bind: Seq<char>,
    pub codec: Seq<char>,
    pub target_ms: Millis,
    pub autostart: bool,
    pub start_minimized: bool,
    pub reduce_motion: bool,
}

impl View for Config {
    type V = ConfigView;

    open spec fn view(&self) -> ConfigView {
        ConfigView {
            port: self.port,
            bind: self.bind@,
            codec: self.codec@,
            target_ms: self.target_ms,
            autostart: self.autostart,
            start_minimized: self.start_minimized,
            reduce_motion: self.reduce_motion,
        }
    }
}

/// The settings in use where nothing was set.
pub open spec fn default_settings() -> ConfigView {
    ConfigView {
        port: DEFAULT_PORT,
        bind: "0.0.0.0"@,
        codec: "auto"@,
        target_ms: Millis { ticks: (DEFAULT_TARGET_MS * TICKS_PER_MS) as i64 },
        autostart: false,
        start_minimized: false,
        reduce_motion: false,
    }
}

/// The codec mode of a name, in any case; unknown names stand for all codecs.
pub open spec fn mode_named(name: Seq<char>) -> CodecMode {
    if text::same_ignoring_case(name, "pcm"@) {
        CodecMode::Pcm
    } else if text::same_ignoring_case(name, "opus"@) {
        CodecMode::Opus
    } else {
        CodecMode::Auto
    }
}

/// The engine configuration of settings. `bind` is the address that the bind
/// setting reads as; where it reads as none, all interfaces are bound.
pub open spec fn engine_config_of(c: ConfigView, bind: Option<Ip>) -> EngineConfig {
    EngineConfig {
        transport: Transport::Udp,
        bind: match bind {
            Some(ip) => ip,
            None => Ip::V4(0),
        },
        port: c.port,
        codec: mode_named(c.codec),
        target_ms: c.target_ms,
        capacity_ms: Millis { ticks: (DEFAULT_CAPACITY_MS * TICKS_PER_MS) as i64 },
    }
}

impl Default for Config {
    fn default() -> (c: Self)
        ensures
            c@ == default_settings(),
    {
        Config {
            port: DEFAULT_PORT,
            bind: "0.0.0.0".to_owned(),
            codec: "auto".to_owned(),
            target_ms: Millis::whole(DEFAULT_TARGET_MS),
            autostart: false,
            start_minimized: false,
            reduce_motion: false,
        }
    }
}

impl Config {
    /// A copy of the settings.
    pub fn duplicate(&self) -> (c: Config)
        ensures
            c@ == self@,
    {
        Config {
            port: self.port,
            bind: self.bind.clone(),
            codec: self.codec.clone(),
            target_ms: self.target_ms,
            autostart: self.autostart,
            start_minimized: self.start_minimized,
            reduce_motion: self.reduce_motion,
        }
    }

    /// The codec mode that is set.
    pub fn codec_mode(&self) -> (m: CodecMode)
        ensures
            m == mode_named(self@.codec),
    {
        if eq_ignore_case(self.codec.as_str(), "pcm") {
            CodecMode::Pcm
        } else if eq_ignore_case(self.codec.as_str(), "opus") {
            CodecMode::Opus
        } else {
            CodecMode::Auto
        }
    }

    /// The engine configuration of the settings. `bind` is the address that the
    /// bind setting reads as, if it reads as one.
    pub fn to_engine(&self, bind: Option<Ip>) -> (c: EngineConfig)
        ensures
            c == engine_config_of(self@, bind),
    {
        EngineConfig {
            transport: Transport::Udp,
            bind: match bind {
                Some(ip) => ip,
                None => Ip::V4(0),
            },
            port: self.port,
            codec: self.codec_mode(),
            target_ms: self.target_ms,
            capacity_ms: Millis::whole(DEFAULT_CAPACITY_MS),
        }
    }
}

/// The name of a codec mode stands for that mode again.
pub proof fn codec_names_round_trip(m: CodecMode)
    ensures
        mode_named(engine::codec_name(m)) == m,
{
    reveal_strlit("auto");
    reveal_strlit("pcm");
    reveal_strlit("opus");
    assert(text::ascii_lower("auto"@)[0] == 'a');
    assert(text::ascii_lower("pcm"@)[0] == 'p');
    assert(text::ascii_lower("opus"@)[0] == 'o');
}

/// The default settings are the default engine configuration.
pub proof fn defaults_agree(bind: Option<Ip>)
    requires
        bind matches Some(ip) ==> ip == Ip::V4(0),
    ensures
        engine_config_of(default_settings(), bind) == engine::default_config(),
{
    codec_names_round_trip(CodecMode::Auto);
}

/// The engine is configured by the settings: it listens on UDP on the chosen port
/// and address, or on all interfaces, with the chosen codec and prebuffer, and its
/// buffer holds 100 ms.
pub proof fn settings_reach_the_engine(c: ConfigView, bind: Option<Ip>)
    ensures
        ({
            let e = engine_config_of(c, bind);
            &&& e.transport is Udp
            &&& e.port == c.port
            &&& e.target_ms == c.target_ms
            &&& e.capacity_ms.ticks == 100 * 6000
            &&& bind matches Some(ip) ==> e.bind == ip
            &&& bind is None ==> e.bind == Ip::V4(0)
            &&& e.codec == mode_named(c.codec)
        }),
{
}

/// A codec name counts in any case of its letters, and a name that is neither of
/// the strict ones stands for all codecs.
pub proof fn codec_names_in_any_case(name: Seq<char>, other: Seq<char>)
    ensures
        text::same_ignoring_case(name, other) ==> mode_named(name) == mode_named(other),
        mode_named("pcm"@) is Pcm,
        mode_named("opus"@) is Opus,
        mode_named("auto"@) is Auto,
        mode_named(name) is Pcm <==> text::same_ignoring_case(name, "pcm"@),
        mode_named(name) is Opus <==> text::same_ignoring_case(name, "opus"@),
{
    codec_names_round_trip(CodecMode::Pcm);
    codec_names_round_trip(CodecMode::Opus);
    codec_names_round_trip(CodecMode::Auto);
    reveal_strlit("pcm");
    reveal_strlit("opus");
    assert(text::ascii_lower("pcm"@).len() != text::ascii_lower("opus"@).len());
}

/// Where nothing was set: port 41700 on all interfaces, all codecs, 10 ms, and none
/// of the switches.
pub proof fn default_settings_are_plain()
    ensures
        ({
            let c = default_settings();
            &&& c.port == 41700
            &&& c.bind == "0.0.0.0"@
            &&& mode_named(c.codec) is Auto
            &&& c.target_ms.ticks == 10 * 6000
            &&& !c.autostart && !c.start_minimized && !c.reduce_motion
        }),
{
    codec_names_round_trip(CodecMode::Auto);
}

/// The settings are what the engine gets: their port, prebuffer and codec, the address
/// or all interfaces; a copy is the same.
pub proof fn settings_become_the_configuration(
    c: &Config,
    bind: Option<Ip>,
    e: EngineConfig,
    m: CodecMode,
    copy: Config,
)
    requires
        call_ensures(Config::to_engine, (c, bind), e),
        call_ensures(Config::codec_mode, (c,), m),
        call_ensures(Config::duplicate, (c,), copy),
    ensures
        e.transport is Udp && e.port == c.port && e.target_ms == c.target_ms && e.codec == m,
        e.capacity_ms.ticks == 100 * 6000,
        bind matches Some(ip) ==> e.bind == ip,
        bind is None ==> e.bind == Ip::V4(0),
        m is Pcm <==> text::same_ignoring_case(c.codec@, "pcm"@),
        m is Opus <==> text::same_ignoring_case(c.codec@, "opus"@),
        copy@ == c@,
        copy.port == c.port && copy.bind@ == c.bind@ && copy.codec@ == c.codec@,
        copy.target_ms == c.target_ms && copy.autostart == c.autostart,
        copy.start_minimized == c.start_minimized && copy.reduce_motion == c.reduce_motion,
{
    codec_names_in_any_case(c@.codec, c@.codec);
    assert(copy@.bind == copy.bind@ && copy@.codec == copy.codec@);
}

/// Without settings the defaults are in use: port 41700 of all interfaces, all codecs, 10
/// ms and no switch.
pub proof fn settings_have_defaults(c: Config)
    requires
        call_ensures(Config::default, (), c),
    ensures
        c.port == 41_700 && c.bind@ == "0.0.0.0"@ && c.codec@ == "auto"@,
        c.target_ms.ticks == 10 * 6000,
        !c.autostart && !c.start_minimized && !c.reduce_motion,
{
    let v = c@;
    assert(v.bind == c.bind@ && v.codec == c.codec@ && v.port == c.port);
}

} // verus!
