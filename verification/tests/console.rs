use openay_mic::autostart::{autostart_entry, parse_autostart};
use openay_mic::config::{Config, DEFAULT_TARGET_MS};
use openay_mic::console::{Console, Effect, Message, TickPlan, PRESS_PULSE_US, STAGGER_US};
use openay_mic::depth::DepthParams;
use openay_mic::display::{
    bind_options, console_depth, depth_hint, depth_raised, env_flag, millis_text, starts_hidden,
    truncate_with_ellipsis,
};
use openay_mic::engine::{
    CodecMode, EngineCommand, EngineState, EngineStatus, Ip, Transport, DEFAULT_PORT,
};
use openay_mic::jitter::MAX_PREBUFFER_MS;
use openay_mic::millis::Millis;
use openay_mic::screen::{
    air_toggle, codec_chip, header, hero_chain, settings_panel, status_line, vu_ladder, Cable,
};
use openay_mic::tray::{
    icon_index, menu, pixmap_data, tool_tip, tray_state, TrayBus, TrayRequest, STATE_ARMED,
    STATE_IDLE, STATE_LIVE,
};
use openay_mic::vu::Tone;

const ANY: Option<Ip> = Some(Ip::V4(0));

fn ms(n: u32) -> Millis {
    Millis::whole(n)
}

fn idle(config: &Config) -> EngineStatus {
    EngineState::new(Some(config.to_engine(ANY)), DepthParams::default()).status(None, 0)
}

fn console(config: Config) -> Console {
    let status = idle(&config);
    Console::new(config, ANY, status, false, 0)
}

fn live(c: &Console, received: u64) -> EngineStatus {
    EngineStatus { running: true, received, ..c.status }
}

#[test]
fn codec_mode_mapping() {
    let with_codec = |codec: &str| Config { codec: codec.to_string(), ..Config::default() };
    assert_eq!(with_codec("PCM").codec_mode(), CodecMode::Pcm);
    assert_eq!(with_codec("opus").codec_mode(), CodecMode::Opus);
    assert_eq!(with_codec("weird").codec_mode(), CodecMode::Auto);
    assert_eq!(with_codec("auto").codec_mode(), CodecMode::Auto);
}

#[test]
fn engine_config_translation() {
    let cfg = Config {
        bind: "127.0.0.1".to_string(),
        port: 12_345,
        codec: "pcm".to_string(),
        target_ms: ms(17),
        ..Config::default()
    };
    let e = cfg.to_engine(Some(Ip::V4(0x7F00_0001)));
    assert_eq!(e.bind, Ip::V4(0x7F00_0001));
    assert_eq!(e.port, 12_345);
    assert_eq!(e.codec, CodecMode::Pcm);
    assert_eq!(e.target_ms, ms(17));
    assert_eq!(e.transport, Transport::Udp);
    let cfg = Config { bind: "not-an-ip".to_string(), ..Config::default() };
    assert_eq!(cfg.to_engine(None).bind, Ip::V4(0));
    assert_eq!(Config::default().target_ms, ms(DEFAULT_TARGET_MS));
    assert_eq!(Config::default().bind, "0.0.0.0");
    assert_eq!(cfg.duplicate(), cfg);
}

#[test]
fn autostart_entry_content() {
    let text = autostart_entry("/usr/bin/openay-gui");
    assert!(text.contains("[Desktop Entry]"));
    assert!(text.contains("Type=Application"));
    assert!(text.contains("Exec=/usr/bin/openay-gui --minimized"));
    assert!(text.contains("X-GNOME-Autostart-enabled=true"));
    assert!(text.contains("Name=OpenAY Mic"));
}

#[test]
fn autostart_parse_roundtrip() {
    let text = autostart_entry("/opt/openay/openay-gui");
    let parsed = parse_autostart(&text).expect("parseable");
    assert_eq!(parsed.exec_line, "/opt/openay/openay-gui --minimized");
    assert_eq!(parsed.name, "OpenAY Mic");
    assert!(parsed.enabled);
}

#[test]
fn autostart_parse_rejects_non_application() {
    let text = "[Desktop Entry]\nType=Link\nExec=/bin/true\n";
    assert!(
        parse_autostart(text).is_none(),
        "Link entries are not autostart apps"
    );
}

#[test]
fn autostart_parse_requires_exec() {
    let text = "[Desktop Entry]\nType=Application\nName=OpenAY Mic\n";
    assert!(parse_autostart(text).is_none());
}

#[test]
fn autostart_entries_of_other_shapes() {
    let text = "  Type=application \r\n# note\n\tExec=/bin/run  \nName=\n";
    let parsed = parse_autostart(text).expect("parseable");
    assert_eq!((parsed.exec_line.as_str(), parsed.name.as_str()), ("/bin/run", ""));
    assert!(parsed.enabled, "enabled unless it says otherwise");
    assert!(parse_autostart("Type = Application\nExec=/bin/run").is_none());
    let text = "Type=Application\nExec=/bin/a=b\nX-GNOME-Autostart-enabled=false";
    let parsed = parse_autostart(text).expect("parseable");
    assert_eq!(parsed.exec_line, "/bin/a=b");
    assert!(!parsed.enabled);
    assert!(parse_autostart("").is_none());
}

#[test]
fn status_line_truncates_with_ellipsis() {
    let short = "UDP · 0.0.0.0:41700 · AUTO";
    assert_eq!(truncate_with_ellipsis(short, 56), short, "fits: untouched");

    let long = "UDP · 255.255.255.255:41700 · OPUS";
    let cut = truncate_with_ellipsis(long, 20);
    assert_eq!(cut, "UDP · 255.255.255.2\u{2026}", "cut at 19 chars + ellipsis");
    assert_eq!(cut.chars().count(), 20, "max chars including ellipsis");
    assert!(cut.ends_with('\u{2026}'), "ends with a real ellipsis");

    let empty = truncate_with_ellipsis("", 3);
    assert_eq!(empty, "");
    assert_eq!(truncate_with_ellipsis("abc", 3), "abc");
    assert_eq!(truncate_with_ellipsis("abcd", 3), "ab\u{2026}");
    assert_eq!(truncate_with_ellipsis("abcd", 1), "\u{2026}");
    assert_eq!(truncate_with_ellipsis("abcd", 0), "", "no room for the ellipsis");
    assert_eq!(truncate_with_ellipsis("", 0), "");
}

#[test]
fn settings_form_open_close_and_dirty_tracking() {
    let mut app = console(Config::default());
    assert!(!app.settings_open);

    let _ = app.update(Message::ToggleSettings);
    assert!(app.settings_open);
    let _ = app.update(Message::ToggleSettings);
    assert!(!app.settings_open, "toggle closes the panel");

    assert!(!app.dirty);
    let _ = app.update(Message::PortChanged("43210".into()));
    assert!(app.dirty);
    let _ = app.update(Message::TargetChanged(Millis::micros(12_500)));
    assert!(app.dirty);
    let _ = app.update(Message::MotionToggled(true));
    assert!(app.dirty);
}

#[test]
fn save_applies_config_and_clears_dirty() {
    let mut app = console(Config::default());
    let _ = app.update(Message::PortChanged("43210".into()));
    let _ = app.update(Message::BindSelected("127.0.0.1".into()));
    let _ = app.update(Message::CodecSelected(CodecMode::Opus));
    let _ = app.update(Message::TargetChanged(Millis::micros(12_500)));
    let _ = app.update(Message::AutostartToggled(true));
    let _ = app.update(Message::MotionToggled(true));
    assert!(app.dirty);

    let effect = app.update(Message::SaveSettings(Some(Ip::V4(0x7F00_0001))));
    assert!(!app.dirty, "save must clear dirty");
    assert_eq!(app.config.port, 43210);
    assert_eq!(app.config.bind, "127.0.0.1");
    assert_eq!(app.config.codec, "opus");
    assert_eq!(app.config.target_ms, Millis::micros(12_500));
    assert!(app.config.autostart);
    assert!(app.config.reduce_motion);
    assert_eq!(app.engine_cfg.port, 43210);
    assert_eq!(app.engine_cfg.codec, CodecMode::Opus);
    assert_eq!(effect, Effect::Save(app.config.duplicate(), None));
}

#[test]
fn save_rejects_invalid_port_and_clamps_slider() {
    let mut app = console(Config::default());
    for bad in ["", "0", "abc", "99999"] {
        let _ = app.update(Message::PortChanged(bad.into()));
        assert!(app.dirty);
        let effect = app.update(Message::SaveSettings(ANY));
        assert_eq!(effect, Effect::Nothing);
        assert!(app.dirty, "invalid port {bad:?} must not save");
        assert_eq!(app.config.port, DEFAULT_PORT);
        assert_eq!(settings_panel(&app).port_hint, Some("Port must be 1-65535"));
    }

    let _ = app.update(Message::TargetChanged(ms(100)));
    let _ = app.update(Message::PortChanged("41700".into()));
    let _ = app.update(Message::SaveSettings(ANY));
    assert_eq!(app.config.target_ms, ms(MAX_PREBUFFER_MS));
    assert!(!app.dirty);
}

#[test]
fn settings_apply_to_engine_config() {
    let mut app = console(Config::default());
    let _ = app.update(Message::CodecSelected(CodecMode::Pcm));
    let _ = app.update(Message::TargetChanged(Millis::micros(7_500)));
    let _ = app.update(Message::SaveSettings(ANY));
    assert_eq!(app.engine_cfg.codec, CodecMode::Pcm);
    assert_eq!(app.engine_cfg.target_ms, Millis::micros(7_500));
    assert_eq!(app.engine_cfg.transport, Transport::Udp);
}

#[test]
fn effective_target_ms_tracks_engine_status() {
    let mut app = console(Config::default());
    assert_eq!(app.effective_target_ms, app.engine_cfg.target_ms);
    let status = app.status;
    let _ = app.tick(200_000, status, None, TrayBus::default());
    assert_eq!(app.effective_target_ms, app.engine_cfg.target_ms);
}

#[test]
fn console_depth_shows_configured_value_while_stopped() {
    let (depth_ms, raised) = console_depth(ms(14), ms(10), false);
    assert_eq!(depth_ms, ms(10));
    assert!(!raised);
    assert_eq!(depth_hint(ms(14), ms(10), false), None);
}

#[test]
fn console_depth_equal_to_configured_renders_no_marker() {
    let (depth_ms, raised) = console_depth(ms(10), ms(10), true);
    assert_eq!(depth_ms, ms(10));
    assert!(!raised, "effective == configured must not raise the marker");

    let (_, raised) = console_depth(Millis::micros(10_040), ms(10), true);
    assert!(!raised);
    assert_eq!(depth_hint(Millis::micros(10_040), ms(10), true), None);
    assert!(!depth_raised(Millis::micros(10_050), ms(10)));
    assert!(depth_raised(Millis::micros(10_051), ms(10)));
}

#[test]
fn console_depth_above_configured_renders_marker_and_hint() {
    let (depth_ms, raised) = console_depth(ms(14), ms(10), true);
    assert_eq!(depth_ms, ms(14), "running card shows the live depth");
    assert!(raised, "effective > configured must raise the marker");
    assert_eq!(
        depth_hint(ms(14), ms(10), true).as_deref(),
        Some("effective 14.0 ms · raised by loss adaptation")
    );
}

#[test]
fn reduced_motion_skips_power_on_stagger() {
    let mut app = console(Config::default());
    app.reduce_motion = false;
    let _ = app.toggle_air(0);
    assert!(app.stagger, "default: pressing the lamp starts the stagger");

    app.reduce_motion = true;
    app.stagger = false;
    let _ = app.toggle_air(0);
    assert!(
        !app.stagger,
        "reduced motion must suppress the power-on stagger"
    );
}

#[test]
fn motion_toggle_propagates_and_marks_dirty() {
    let mut app = console(Config::default());
    assert!(!app.reduce_motion);
    let _ = app.update(Message::MotionToggled(true));
    assert!(app.reduce_motion);
    assert!(app.dirty);
}

/// The texts that the console shows, made by the library or fixed.
const USER_FACING_STRINGS: &[&str] = &[
    "OPENAY MIC",
    "MIC",
    "LINK",
    "CONSOLE",
    "VU PEAK",
    "ON AIR",
    "STANDBY",
    "SETTINGS",
    "×",
    "PORT",
    "41700",
    "Port must be 1-65535",
    "BIND ADDRESS",
    "CODEC",
    "AUTO",
    "PCM",
    "OPUS",
    "JITTER TARGET",
    "{:.1} ms",
    "↑",
    "effective {:.1} ms · raised by loss adaptation",
    "AUTOSTART",
    "START MINIMIZED",
    "REDUCED MOTION",
    "Save settings",
    "{:.0}/s",
    "{} LOST",
    "{transport} · {bind}:{port} · {codec}",
];

const EXTRA_ALLOWED: &[char] = &['·', '×', '\u{2026}', '\u{2191}'];

fn is_allowed_glyph(c: char) -> bool {
    c.is_ascii_graphic() || c == ' ' || EXTRA_ALLOWED.contains(&c)
}

#[test]
fn every_user_facing_string_is_glyph_safe() {
    let mut c = console(Config::default());
    let status = EngineStatus {
        effective_target_ms: ms(14),
        lost: 3,
        ..live(&c, 40)
    };
    c.tick(200_000, status, Some(-6_000_000), TrayBus::default());
    c.update(Message::PortChanged(String::new()));
    let chain = hero_chain(&c);
    let form = settings_panel(&c);
    let mut shown: Vec<String> = USER_FACING_STRINGS.iter().map(|s| s.to_string()).collect();
    shown.push(chain.rate);
    shown.push(chain.lost);
    shown.push(chain.depth);
    shown.push(form.target);
    shown.push(form.depth_hint.expect("the depth is raised"));
    shown.push(form.port_hint.expect("there is no port").to_string());
    shown.push(air_toggle(&c, 0).label.to_string());
    shown.push(status_line(&c, "ffff:ffff:ffff:ffff:ffff:ffff:ffff:ffff"));
    for s in &shown {
        for c in s.chars() {
            assert!(
                is_allowed_glyph(c),
                "char U+{:04X} ({c:?}) in string {s:?} is outside the \
                 audited glyph allowlist",
                c as u32
            );
        }
    }
}

#[test]
fn lamp_starts_and_stops_the_engine() {
    let mut c = console(Config::default());
    let cfg = c.engine_cfg;
    assert_eq!(
        c.update(Message::ToggleAir(5)),
        Effect::Send(EngineCommand::Start(cfg))
    );
    assert_eq!(c.air_pulse, Some(5));
    let status = live(&c, 0);
    c.tick(100_000, status, None, TrayBus::default());
    assert!(c.stagger);
    assert_eq!(hero_chain(&c).cable, Cable::Once(100_000));
    assert_eq!(hero_chain(&c).link_tone, Tone::Line);
    assert_eq!(air_toggle(&c, 5).pulse_us, PRESS_PULSE_US);
    assert_eq!(air_toggle(&c, 50_005).pulse_us, 150_000);
    c.tick(STAGGER_US, status, None, TrayBus::default());
    c.tick(STAGGER_US + 100_000, status, None, TrayBus::default());
    assert!(!c.stagger);
    assert_eq!(c.air_pulse, None);
    assert_eq!(hero_chain(&c).cable, Cable::Quiet);
    assert_eq!(c.update(Message::ToggleAir(9)), Effect::Send(EngineCommand::Stop));
    assert_eq!(c.update(Message::CloseRequested), Effect::Quit);
    assert_eq!(c.update(Message::Exit), Effect::End);
    assert_eq!(c.update(Message::CmdSent), Effect::Nothing);
    assert_eq!(c.update(Message::MinimizedToggled(true)), Effect::Nothing);
    assert!(c.start_minimized);
}

#[test]
fn saving_while_live_restarts() {
    let mut c = console(Config::default());
    let status = live(&c, 0);
    c.tick(200_000, status, None, TrayBus::default());
    c.update(Message::PortChanged("5000".into()));
    let effect = c.update(Message::SaveSettings(ANY));
    assert_eq!(effect, Effect::Save(c.config.duplicate(), Some(c.engine_cfg)));
}

#[test]
fn ticks_show_rate_level_and_tray() {
    let mut c = console(Config::default());
    let status = EngineStatus { fill_ms: ms(250), ..live(&c, 20) };
    let mut bus = TrayBus::default();
    bus.request(TrayRequest::Show);
    bus.request(TrayRequest::Start);
    let plan = c.tick(200_000, status, Some(-6_000_000), bus);
    assert_eq!(
        plan,
        TickPlan {
            quit: false,
            show: true,
            start: Some(c.engine_cfg),
            stop: false,
            tray_state: STATE_LIVE,
        }
    );
    assert_eq!(c.pps.rounded(), 100);
    let chain = hero_chain(&c);
    assert!(chain.hot);
    assert_eq!(chain.rate, "100/s");
    assert_eq!(chain.lost, "0 LOST");
    assert_eq!(chain.depth, "10.0 ms");
    assert_eq!(chain.fill, ms(100), "the bar is full at 100 ms");
    assert_eq!(chain.cable, Cable::Beat);
    assert_eq!(chain.link_tone, Tone::Cream);
    let ladder = vu_ladder(&c);
    assert_eq!((ladder.lit, ladder.hold), (20, 20));

    let plan = c.tick(300_000, status, None, TrayBus::default());
    assert_eq!(plan.tray_state, STATE_ARMED, "no packets since the last tick");
    assert_eq!((c.pps.packets, c.pps.rounded()), (0, 0));
    let stopped = EngineStatus { running: false, ..status };
    let plan = c.tick(400_000, stopped, None, TrayBus::default());
    assert_eq!(plan.tray_state, STATE_IDLE);
    assert_eq!(vu_ladder(&c).hold, 0);
    assert_eq!(header(&c).lamp, Tone::Line);
}

#[test]
fn screens_of_an_idle_console() {
    let c = console(Config::default());
    let h = header(&c);
    assert_eq!((h.lamp, h.unsaved), (Tone::Line, false));
    assert_eq!(hero_chain(&c).cable, Cable::Cold);
    let a = air_toggle(&c, 3);
    assert_eq!(
        (a.live, a.label, a.label_tone, a.dot_tone, a.pulse_us),
        (false, "STANDBY", Tone::Dim, Tone::Line, 0)
    );
    assert_eq!(status_line(&c, "0.0.0.0"), "UDP · 0.0.0.0:41700 · AUTO");
    assert!(codec_chip(&c, CodecMode::Auto).wide);
    assert!(!codec_chip(&c, CodecMode::Pcm).wide);
    let form = settings_panel(&c);
    assert_eq!(form.port_hint, None);
    assert_eq!(form.target, "10.0 ms");
    assert_eq!(form.depth_hint, None);
    assert_eq!(form.auto_chip, codec_chip(&c, CodecMode::Auto));
}

#[test]
fn bind_choices_are_sorted_and_unique() {
    let found = ["192.168.1.4", "127.0.0.1", "10.0.0.2", "192.168.1.4"];
    let found: Vec<String> = found.iter().map(|s| s.to_string()).collect();
    let choices = bind_options(&found, "172.16.0.1");
    assert_eq!(
        choices,
        ["10.0.0.2", "127.0.0.1", "192.168.1.4", "0.0.0.0", "172.16.0.1"]
    );
    assert_eq!(bind_options(&Vec::new(), "0.0.0.0"), ["0.0.0.0"]);
}

#[test]
fn flags_and_texts() {
    assert!(env_flag(Some("1")));
    assert!(!env_flag(None));
    assert!(!env_flag(Some("")));
    assert!(!env_flag(Some("0")));
    assert!(!env_flag(Some("False")));
    assert!(env_flag(Some("no")));
    assert_eq!(millis_text(Millis::micros(12_345)), "12.3 ms");
    assert!(starts_hidden(true, false, true));
    assert!(starts_hidden(false, true, true));
    assert!(!starts_hidden(true, true, false), "without a tray the window shows");
    assert!(!starts_hidden(false, false, true));
}

#[test]
fn debug_autostart_hook_flag_parses() {
    assert!(env_flag(Some("1")));
    assert!(!env_flag(None));
}

#[test]
fn debug_settings_hook_opens_the_pane() {
    let config = Config::default();
    let status = idle(&config);
    let app = Console::new(config, ANY, status, env_flag(Some("1")), 0);
    assert!(app.settings_open, "settings pane must be open under the hook");
}

#[test]
fn tray_requests_are_taken_once() {
    let mut bus = TrayBus::default();
    bus.request(TrayRequest::Quit);
    bus.request(TrayRequest::Stop);
    assert!(bus.take_quit());
    assert!(!bus.take_quit());
    assert!(bus.take_stop());
    assert!(!bus.take_start());
    assert!(!bus.take_show());
    assert_eq!(bus, TrayBus::default());
}

#[test]
fn tray_shows_the_state() {
    assert_eq!(tray_state(false, false), STATE_IDLE);
    assert_eq!(tray_state(true, false), STATE_ARMED);
    assert_eq!(tray_state(true, true), STATE_LIVE);
    assert_eq!(tool_tip(STATE_IDLE), "OpenAY Mic — idle");
    assert_eq!(tool_tip(STATE_ARMED), "OpenAY Mic — armed");
    assert_eq!(tool_tip(STATE_LIVE), "OpenAY Mic — live");
    assert!(menu(STATE_IDLE).start_enabled && !menu(STATE_IDLE).stop_enabled);
    assert!(menu(STATE_LIVE).stop_enabled && menu(STATE_LIVE).start_checked);
    assert_eq!(icon_index(2, 3), 2);
    assert_eq!(icon_index(7, 3), 0);
    assert_eq!(pixmap_data(&[1, 2, 3, 4, 5, 6, 7, 8, 9]), vec![4, 1, 2, 3, 8, 5, 6, 7]);
}
