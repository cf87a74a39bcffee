//! The tray icon: its states, its menu, and the requests it passes on.

use vstd::prelude::*;

verus! {

/// The engine does not run.
pub const STATE_IDLE: u8 = 0;

/// The engine runs and nothing comes in.
pub const STATE_ARMED: u8 = 1;

/// The engine runs and audio comes in.
pub const STATE_LIVE: u8 = 2;

/// The state that the tray shows.
pub open spec fn tray_state_of(running: bool, streaming: bool) -> u8 {
    if !running {
        STATE_IDLE
    } else if streaming {
        STATE_LIVE
    } else {
        STATE_ARMED
    }
}

/// The state that the tray shows.
pub fn tray_state(running: bool, streaming: bool) -> (s: u8)
    ensures
        s == tray_state_of(running, streaming),
{
    if !running {
        STATE_IDLE
    } else if streaming {
        STATE_LIVE
    } else {
        STATE_ARMED
    }
}

/// What the user asked for through the tray.
#[derive(Debug, Clone, Copy, PartialEq, Eq, Structural)]
pub struct TrayBus {
    pub show: bool,
    pub start: bool,
    pub stop: bool,
    pub quit: bool,
}

/// An entry of the menu that asks for something.
#[derive(Debug, Clone, Copy, PartialEq, Eq, Structural)]
pub enum TrayRequest {
    Show,
    Start,
    Stop,
    Quit,
}

/// Requests with one more.
pub open spec fn with_request(bus: TrayBus, which: TrayRequest) -> TrayBus {
    match which {
        TrayRequest::Show => TrayBus { show: true, ..bus },
        TrayRequest::Start => TrayBus { start: true, ..bus },
        TrayRequest::Stop => TrayBus { stop: true, ..bus },
        TrayRequest::Quit => TrayBus { quit: true, ..bus },
    }
}

impl Default for TrayBus {
    fn default() -> (b: Self)
        ensures
            b == (TrayBus { show: false, start: false, stop: false, quit: false }),
    {
        TrayBus { show: false, start: false, stop: false, quit: false }
    }
}

impl TrayBus {
    /// Takes note of a request. Asking twice before it is taken is asking once.
    pub fn request(&mut self, which: TrayRequest)
        ensures
            *final(self) == with_request(*old(self), which),
    {
        match which {
            TrayRequest::Show => {
                self.show = true;
            },
            TrayRequest::Start => {
                self.start = true;
            },
            TrayRequest::Stop => {
                self.stop = true;
            },
            TrayRequest::Quit => {
                self.quit = true;
            },
        }
    }

    /// Whether the console was asked for; the request is then done with.
    pub fn take_show(&mut self) -> (r: bool)
        ensures
            r == old(self).show,
            *final(self) == (TrayBus { show: false, ..*old(self) }),
    {
        let r: bool = self.show;
        self.show = false;
        r
    }

    /// Whether a start was asked for; the request is then done with.
    pub fn take_start(&mut self) -> (r: bool)
        ensures
            r == old(self).start,
            *final(self) == (TrayBus { start: false, ..*old(self) }),
    {
        let r: bool = self.start;
        self.start = false;
        r
    }

    /// Whether a stop was asked for; the request is then done with.
    pub fn take_stop(&mut self) -> (r: bool)
        ensures
            r == old(self).stop,
            *final(self) == (TrayBus { stop: false, ..*old(self) }),
    {
        let r: bool = self.stop;
        self.stop = false;
        r
    }

    /// Whether the end was asked for; the request is then done with.
    pub fn take_quit(&mut self) -> (r: bool)
        ensures
            r == old(self).quit,
            *final(self) == (TrayBus { quit: false, ..*old(self) }),
    {
        let r: bool = self.quit;
        self.quit = false;
        r
    }
}

/// The text of the tool tip in a state.
pub open spec fn tool_tip_text(state: u8) -> Seq<char> {
    "OpenAY Mic — "@ + (if state == STATE_IDLE {
        "idle"@
    } else if state == STATE_ARMED {
        "armed"@
    } else {
        "live"@
    })
}

/// The text of the tool tip in a state.
pub fn tool_tip(state: u8) -> (text: String)
    ensures
        text@ == tool_tip_text(state),
{
    let mut text = String::new();
    text.append("OpenAY Mic — ");
    if state == STATE_IDLE {
        text.append("idle");
    } else if state == STATE_ARMED {
        text.append("armed");
    } else {
        text.append("live");
    }
    assert(text@ =~= tool_tip_text(state));
    text
}

/// How the start and stop entries of the menu look.
#[derive(Debug, Clone, Copy, PartialEq, Eq, Structural)]
pub struct TrayMenu {
    pub start_enabled: bool,
    pub start_checked: bool,
    pub stop_enabled: bool,
    pub stop_checked: bool,
}

/// The menu in a state: start is checked while the engine runs and can be chosen
/// while it does not; stop the other way round.
pub fn menu(state: u8) -> (m: TrayMenu)
    ensures
        m == (TrayMenu {
            start_enabled: state == STATE_IDLE,
            start_checked: state != STATE_IDLE,
            stop_enabled: state != STATE_IDLE,
            stop_checked: state == STATE_IDLE,
        }),
{
    let running: bool = state != STATE_IDLE;
    TrayMenu {
        start_enabled: !running,
        start_checked: running,
        stop_enabled: running,
        stop_checked: !running,
    }
}

/// The icon of a state among `icons`; that of an unknown state is the idle one.
pub fn icon_index(state: u8, icons: usize) -> (i: usize)
    ensures
        i == (if state < icons {
            state as int
        } else {
            0
        }),
{
    if (state as usize) < icons {
        state as usize
    } else {
        0
    }
}

/// Pixels of four bytes each with the last byte of each in front: from red,
/// green, blue, alpha to alpha, red, green, blue. Bytes that make up no whole
/// pixel are left out.
pub open spec fn argb(rgba: Seq<u8>) -> Seq<u8> {
    Seq::new(
        rgba.len() / 4 * 4,
        |i: int|
            if i % 4 == 0 {
                rgba[i + 3]
            } else {
                rgba[i - 1]
            },
    )
}

/// Turns pixels from red, green, blue, alpha to alpha, red, green, blue.
pub fn pixmap_data(rgba: &[u8]) -> (out: Vec<u8>)
    ensures
        out@ == argb(rgba@),
{
    let len: usize = rgba.len();
    let n: usize = len / 4;
    let mut out: Vec<u8> = Vec::new();
    let mut i: usize = 0;
    while i < n
        invariant
            i <= n,
            4 * n <= len,
            n == len / 4,
            len == rgba@.len(),
            out@ == argb(rgba@).take(4 * i),
        decreases n - i,
    {
        out.push(rgba[4 * i + 3]);
        out.push(rgba[4 * i]);
        out.push(rgba[4 * i + 1]);
        out.push(rgba[4 * i + 2]);
        i = i + 1;
        assert(out@ =~= argb(rgba@).take(4 * i));
    }
    assert(argb(rgba@).take(4 * n) =~= argb(rgba@));
    out
}

/// Every byte of a pixel keeps its value and changes its place.
pub proof fn pixels_keep_their_bytes(rgba: Seq<u8>, p: int)
    requires
        0 <= p < rgba.len() / 4,
    ensures
        argb(rgba)[4 * p] == rgba[4 * p + 3],
        argb(rgba)[4 * p + 1] == rgba[4 * p],
        argb(rgba)[4 * p + 2] == rgba[4 * p + 1],
        argb(rgba)[4 * p + 3] == rgba[4 * p + 2],
        argb(rgba).len() <= rgba.len(),
{
}

/// A request is noted besides the others, and taking one leaves the others.
pub proof fn requests_do_not_mix(bus: TrayBus, which: TrayRequest)
    ensures
        ({
            let after = with_request(bus, which);
            &&& after.show == (bus.show || which is Show)
            &&& after.start == (bus.start || which is Start)
            &&& after.stop == (bus.stop || which is Stop)
            &&& after.quit == (bus.quit || which is Quit)
        }),
{
}

/// The tray shows whether the engine runs and whether audio comes in: its three
/// states are told apart, and the second needs the first.
pub proof fn states_are_told_apart(running: bool, streaming: bool)
    ensures
        tray_state_of(running, streaming) == STATE_IDLE <==> !running,
        tray_state_of(running, streaming) == STATE_LIVE <==> running && streaming,
        tray_state_of(running, streaming) == STATE_ARMED <==> running && !streaming,
        STATE_IDLE == 0 && STATE_ARMED == 1 && STATE_LIVE == 2,
{
}

/// What the menu offers is what can be done: a start while the engine does not run,
/// a stop while it does; the mark stands at what was done.
pub proof fn menu_offers_what_can_be_done(running: bool, streaming: bool, m: TrayMenu, i: usize)
    requires
        call_ensures(menu, (tray_state_of(running, streaming),), m),
        call_ensures(icon_index, (tray_state_of(running, streaming), 3usize), i),
    ensures
        m.start_enabled == !running,
        m.stop_enabled == running,
        m.start_checked == running,
        m.stop_checked == !running,
        i == tray_state_of(running, streaming),
{
}

/// The tool tip names the state.
pub proof fn tool_tip_names_the_state(running: bool, streaming: bool)
    ensures
        ({
            let tip = tool_tip_text(tray_state_of(running, streaming));
            &&& !running ==> tip == "OpenAY Mic — "@ + "idle"@
            &&& running && !streaming ==> tip == "OpenAY Mic — "@ + "armed"@
            &&& running && streaming ==> tip == "OpenAY Mic — "@ + "live"@
        }),
{
}

/// A request is noted until it is taken, once, and no other request with it.
pub proof fn requests_are_taken_once(
    bus: &mut TrayBus,
    which: TrayRequest,
    show: &mut TrayBus,
    shown: bool,
    start: &mut TrayBus,
    started: bool,
    stop: &mut TrayBus,
    stopped: bool,
    quit: &mut TrayBus,
    ended: bool,
)
    requires
        call_ensures(TrayBus::request, (bus, which), ()),
        *old(show) == *final(bus),
        call_ensures(TrayBus::take_show, (show,), shown),
        *old(start) == *final(show),
        call_ensures(TrayBus::take_start, (start,), started),
        *old(stop) == *final(start),
        call_ensures(TrayBus::take_stop, (stop,), stopped),
        *old(quit) == *final(stop),
        call_ensures(TrayBus::take_quit, (quit,), ended),
    ensures
        shown == (old(bus).show || which is Show),
        started == (old(bus).start || which is Start),
        stopped == (old(bus).stop || which is Stop),
        ended == (old(bus).quit || which is Quit),
        !final(quit).show && !final(quit).start && !final(quit).stop && !final(quit).quit,
{
}

/// The state, the tool tip and the pixels are what they are called.
pub proof fn tray_shows_the_engine(
    running: bool,
    streaming: bool,
    state: u8,
    tip: String,
    rgba: &[u8],
    out: Vec<u8>,
    p: int,
)
    requires
        call_ensures(tray_state, (running, streaming), state),
        call_ensures(tool_tip, (state,), tip),
        call_ensures(pixmap_data, (rgba,), out),
        0 <= p < rgba@.len() / 4,
    ensures
        state == (if !running {
            0int
        } else if streaming {
            2
        } else {
            1
        }),
        !running ==> tip@ == "OpenAY Mic — "@ + "idle"@,
        running && !streaming ==> tip@ == "OpenAY Mic — "@ + "armed"@,
        running && streaming ==> tip@ == "OpenAY Mic — "@ + "live"@,
        out@.len() <= rgba@.len() < out@.len() + 4,
        out@.len() % 4 == 0,
        out@[4 * p] == rgba@[4 * p + 3],
        out@[4 * p + 1] == rgba@[4 * p],
        out@[4 * p + 2] == rgba@[4 * p + 1],
        out@[4 * p + 3] == rgba@[4 * p + 2],
{
    pixels_keep_their_bytes(rgba@, p);
}

/// Every state has its own icon, as far as there are icons; a state without one shows
/// that of the stopped engine. At first nothing is asked for.
pub proof fn states_have_their_icons(state: u8, icons: usize, i: usize, b: TrayBus)
    requires
        call_ensures(icon_index, (state, icons), i),
        call_ensures(TrayBus::default, (), b),
    ensures
        state < icons ==> i == state,
        state >= icons ==> i == 0,
        !b.show && !b.start && !b.stop && !b.quit,
{
}

} // verus!
