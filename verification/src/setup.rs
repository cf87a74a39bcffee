//! Setting up the virtual microphone in the audio graph.
//!
//! The producer stream gets a node, the public source gets a node with ports, and
//! a link joins the two. Each step may take a while or fail without a word, so
//! each has a time limit, and the link is tried again until it is seen to exist.
//!
//! The owner of the graph's loop looks at the graph, asks what to do, does it,
//! and looks again. Times are in microseconds.

use vstd::prelude::*;

verus! {

/// How long a node may take to appear.
pub const NODE_TIMEOUT_US: u64 = 5_000_000;

/// How long a link may take to appear before it is tried again.
pub const LINK_TIMEOUT_US: u64 = 500_000;

/// How often the link is tried.
pub const MAX_LINK_ATTEMPTS: u32 = 10;

/// How long the loop runs between looks during the set-up, in milliseconds.
pub const SETUP_POLL_MS: u64 = 10;

/// How long the loop runs between looks once all is set up, in milliseconds.
pub const SERVE_POLL_MS: u64 = 50;

/// Where the set-up stands. A time limit is set at the first look of a step.
#[derive(Debug, Clone, Copy, PartialEq, Eq, Structural)]
pub enum SetupPhase {
    /// Waiting for the node of the stream.
    StreamNode(Option<u64>),
    /// Waiting for the node of the source and its ports.
    SinkNode(Option<u64>),
    /// Waiting for the link; so many attempts were made before this one.
    Link(u32, Option<u64>),
    /// The link is to be made; so many attempts were made before.
    Unlinked(u32),
    /// All is set up.
    Serving,
    /// The loop is to be left.
    Over,
}

/// What the graph looks like.
#[derive(Debug, Clone, Copy, PartialEq, Eq, Structural)]
pub struct Seen {
    pub now: u64,
    /// Whether the stream has a node.
    pub stream_node: bool,
    /// The number of the source's node, 0 while it has none.
    pub sink_node: u32,
    /// The number of the source's input ports.
    pub sink_ports: u32,
    /// Whether the link was seen to exist.
    pub link_confirmed: bool,
    /// Whether the run is told to quit.
    pub quit: bool,
    /// False if the last order was to run the loop and that failed.
    pub loop_ok: bool,
}

/// Why the set-up failed.
#[derive(Debug, Clone, Copy, PartialEq, Eq, Structural)]
pub enum SetupError {
    NoStreamNode,
    LoopFailedAtStream,
    NoSinkNode,
    LoopFailedAtSink,
    NoLink,
}

/// What to do next.
#[derive(Debug, Clone, Copy, PartialEq, Eq, Structural)]
pub enum Order {
    /// Run the loop for so many milliseconds, and look again.
    Iterate(u64),
    /// Create the public source, and look again.
    CreateSink,
    /// Create the link, and look again.
    CreateLink,
    /// The link exists: report it, and look again.
    LinkDone,
    /// Destroy the link that did not come to exist and report which attempt it
    /// was; then look again.
    DropLink(u32),
    /// Leave the loop: all is well.
    Finish,
    /// Leave the loop with an error.
    Fail(SetupError),
}

/// The text of a set-up error.
pub open spec fn setup_error_text(e: SetupError) -> Seq<char> {
    match e {
        SetupError::NoStreamNode => "stream node id never became valid (AUTOCONNECT failed?)"@,
        SetupError::LoopFailedAtStream =>
            "main loop iterate failed while waiting for the stream node"@,
        SetupError::NoSinkNode => "null-sink node id/ports never became valid"@,
        SetupError::LoopFailedAtSink =>
            "main loop iterate failed while waiting for the null-sink node"@,
        SetupError::NoLink => "could not create engine -> null-sink link after 10 attempts"@,
    }
}

impl SetupError {
    /// A sentence that says what failed.
    pub fn message(self) -> (m: &'static str)
        ensures
            m@ == setup_error_text(self),
    {
        match self {
            SetupError::NoStreamNode => "stream node id never became valid (AUTOCONNECT failed?)",
            SetupError::LoopFailedAtStream =>
                "main loop iterate failed while waiting for the stream node",
            SetupError::NoSinkNode => "null-sink node id/ports never became valid",
            SetupError::LoopFailedAtSink =>
                "main loop iterate failed while waiting for the null-sink node",
            SetupError::NoLink => "could not create engine -> null-sink link after 10 attempts",
        }
    }
}

/// The end of a time limit: the one that was set, or `wait` from `now` on.
pub open spec fn limit_of(set: Option<u64>, now: u64, wait: u64) -> int {
    match set {
        Some(t) => t as int,
        None => now + wait,
    }
}

/// The step that a look leads to: where the set-up stands then, and what to do.
pub open spec fn setup_step(phase: SetupPhase, seen: Seen) -> (SetupPhase, Order) {
    match phase {
        SetupPhase::StreamNode(set) => {
            let limit = limit_of(set, seen.now, NODE_TIMEOUT_US);
            if !seen.loop_ok {
                (SetupPhase::Over, Order::Fail(SetupError::LoopFailedAtStream))
            } else if seen.stream_node {
                (SetupPhase::SinkNode(None), Order::CreateSink)
            } else if seen.now >= limit {
                (SetupPhase::Over, Order::Fail(SetupError::NoStreamNode))
            } else {
                (SetupPhase::StreamNode(Some(limit as u64)), Order::Iterate(SETUP_POLL_MS))
            }
        },
        SetupPhase::SinkNode(set) => {
            let limit = limit_of(set, seen.now, NODE_TIMEOUT_US);
            if !seen.loop_ok {
                (SetupPhase::Over, Order::Fail(SetupError::LoopFailedAtSink))
            } else if seen.sink_node != 0 && seen.sink_ports != 0 {
                (SetupPhase::Link(0, None), Order::CreateLink)
            } else if seen.now >= limit {
                (SetupPhase::Over, Order::Fail(SetupError::NoSinkNode))
            } else {
                (SetupPhase::SinkNode(Some(limit as u64)), Order::Iterate(SETUP_POLL_MS))
            }
        },
        SetupPhase::Link(attempt, set) => {
            let limit = limit_of(set, seen.now, LINK_TIMEOUT_US);
            if seen.link_confirmed {
                (SetupPhase::Serving, Order::LinkDone)
            } else if !seen.loop_ok || seen.now >= limit {
                (
                    SetupPhase::Unlinked((attempt + 1) as u32),
                    Order::DropLink((attempt + 1) as u32),
                )
            } else {
                (SetupPhase::Link(attempt, Some(limit as u64)), Order::Iterate(SETUP_POLL_MS))
            }
        },
        SetupPhase::Unlinked(attempts) => if attempts >= MAX_LINK_ATTEMPTS {
            (SetupPhase::Over, Order::Fail(SetupError::NoLink))
        } else {
            (SetupPhase::Link(attempts, None), Order::CreateLink)
        },
        SetupPhase::Serving => if seen.quit || !seen.loop_ok {
            (SetupPhase::Over, Order::Finish)
        } else {
            (SetupPhase::Serving, Order::Iterate(SERVE_POLL_MS))
        },
        SetupPhase::Over => (SetupPhase::Over, Order::Finish),
    }
}

/// The set-up of a source.
pub struct SourceSetup {
    phase: SetupPhase,
}

impl SourceSetup {
    /// Where the set-up stands.
    pub closed spec fn at(self) -> SetupPhase {
        self.phase
    }

    /// No more attempts at the link were made than there may be.
    pub open spec fn wf(self) -> bool {
        in_bounds(self.at())
    }

    /// The set-up of a source whose stream was just connected.
    pub fn new() -> (s: Self)
        ensures
            s.wf(),
            s.at() == SetupPhase::StreamNode(None),
    {
        SourceSetup { phase: SetupPhase::StreamNode(None) }
    }

    /// Decides what to do about what is seen.
    pub fn step(&mut self, seen: Seen) -> (order: Order)
        requires
            old(self).wf(),
            seen.now <= u64::MAX - NODE_TIMEOUT_US,
        ensures
            final(self).wf(),
            (final(self).at(), order) == setup_step(old(self).at(), seen),
    {
        match self.phase {
            SetupPhase::StreamNode(set) => {
                let limit: u64 = match set {
                    Some(t) => t,
                    None => seen.now + NODE_TIMEOUT_US,
                };
                if !seen.loop_ok {
                    self.phase = SetupPhase::Over;
                    Order::Fail(SetupError::LoopFailedAtStream)
                } else if seen.stream_node {
                    self.phase = SetupPhase::SinkNode(None);
                    Order::CreateSink
                } else if seen.now >= limit {
                    self.phase = SetupPhase::Over;
                    Order::Fail(SetupError::NoStreamNode)
                } else {
                    self.phase = SetupPhase::StreamNode(Some(limit));
                    Order::Iterate(SETUP_POLL_MS)
                }
            },
            SetupPhase::SinkNode(set) => {
                let limit: u64 = match set {
                    Some(t) => t,
                    None => seen.now + NODE_TIMEOUT_US,
                };
                if !seen.loop_ok {
                    self.phase = SetupPhase::Over;
                    Order::Fail(SetupError::LoopFailedAtSink)
                } else if seen.sink_node != 0 && seen.sink_ports != 0 {
                    self.phase = SetupPhase::Link(0, None);
                    Order::CreateLink
                } else if seen.now >= limit {
                    self.phase = SetupPhase::Over;
                    Order::Fail(SetupError::NoSinkNode)
                } else {
                    self.phase = SetupPhase::SinkNode(Some(limit));
                    Order::Iterate(SETUP_POLL_MS)
                }
            },
            SetupPhase::Link(attempt, set) => {
                let limit: u64 = match set {
                    Some(t) => t,
                    None => seen.now + LINK_TIMEOUT_US,
                };
                if seen.link_confirmed {
                    self.phase = SetupPhase::Serving;
                    Order::LinkDone
                } else if !seen.loop_ok || seen.now >= limit {
                    self.phase = SetupPhase::Unlinked(attempt + 1);
                    Order::DropLink(attempt + 1)
                } else {
                    self.phase = SetupPhase::Link(attempt, Some(limit));
                    Order::Iterate(SETUP_POLL_MS)
                }
            },
            SetupPhase::Unlinked(attempts) => {
                if attempts >= MAX_LINK_ATTEMPTS {
                    self.phase = SetupPhase::Over;
                    Order::Fail(SetupError::NoLink)
                } else {
                    self.phase = SetupPhase::Link(attempts, None);
                    Order::CreateLink
                }
            },
            SetupPhase::Serving => {
                if seen.quit || !seen.loop_ok {
                    self.phase = SetupPhase::Over;
                    Order::Finish
                } else {
                    Order::Iterate(SERVE_POLL_MS)
                }
            },
            SetupPhase::Over => Order::Finish,
        }
    }
}

/// No more attempts at the link than there may be.
pub open spec fn in_bounds(phase: SetupPhase) -> bool {
    match phase {
        SetupPhase::Link(attempt, _) => attempt < MAX_LINK_ATTEMPTS,
        SetupPhase::Unlinked(attempts) => 1 <= attempts <= MAX_LINK_ATTEMPTS,
        _ => true,
    }
}

/// The link is made only between two nodes that exist, the source with ports.
pub proof fn link_waits_for_the_nodes(phase: SetupPhase, seen: Seen)
    requires
        setup_step(phase, seen).1 == Order::CreateLink,
    ensures
        phase is Unlinked || (phase is SinkNode && seen.sink_node != 0 && seen.sink_ports != 0),
{
}

/// Serving starts only once the link was seen to exist.
pub proof fn serving_needs_a_confirmed_link(phase: SetupPhase, seen: Seen)
    requires
        setup_step(phase, seen).0 is Serving,
    ensures
        phase is Serving || (phase is Link && seen.link_confirmed),
{
}

/// The set-up gives up on the link after ten attempts, not before.
pub proof fn ten_attempts_at_the_link(phase: SetupPhase, seen: Seen)
    requires
        in_bounds(phase),
    ensures
        in_bounds(setup_step(phase, seen).0),
        setup_step(phase, seen).1 == Order::Fail(SetupError::NoLink) <==> phase
            == SetupPhase::Unlinked(MAX_LINK_ATTEMPTS),
        setup_step(phase, seen).1 matches Order::DropLink(n) ==> n <= MAX_LINK_ATTEMPTS,
{
}

/// Each step of the set-up waits for what it needs and goes on as soon as that is
/// there: the stream's node, the source's node and ports, the link.
pub proof fn set_up_goes_on_when_things_appear(set: Option<u64>, attempt: u32, seen: Seen)
    ensures
        seen.loop_ok && seen.stream_node ==> setup_step(SetupPhase::StreamNode(set), seen) == (
            SetupPhase::SinkNode(None),
            Order::CreateSink,
        ),
        seen.loop_ok && seen.sink_node != 0 && seen.sink_ports != 0 ==> setup_step(
            SetupPhase::SinkNode(set),
            seen,
        ) == (SetupPhase::Link(0, None), Order::CreateLink),
        seen.link_confirmed ==> setup_step(SetupPhase::Link(attempt, set), seen) == (
            SetupPhase::Serving,
            Order::LinkDone,
        ),
        attempt < 10 ==> setup_step(SetupPhase::Unlinked(attempt), seen) == (
            SetupPhase::Link(attempt, None),
            Order::CreateLink,
        ),
{
}

/// A step waits for its time and no longer: five seconds for a node, half a second
/// for a link, from its first look on. Within it the step only runs the loop and
/// keeps its limit; at its end a node is given up and a link is tried anew.
pub proof fn steps_wait_for_their_time(start: u64, attempt: u32, seen: Seen)
    requires
        start <= seen.now <= u64::MAX - 5_000_000,
        start <= u64::MAX - 5_000_000,
        seen.loop_ok,
        attempt < 10,
    ensures
        ({
            let first = Seen { now: start, ..seen };
            let node = (start + 5_000_000) as u64;
            let link = (start + 500_000) as u64;
            &&& !seen.stream_node ==> setup_step(SetupPhase::StreamNode(None), first) == (
                SetupPhase::StreamNode(Some(node)),
                Order::Iterate(10),
            )
            &&& !seen.stream_node && seen.now < node ==> setup_step(
                SetupPhase::StreamNode(Some(node)),
                seen,
            ) == (SetupPhase::StreamNode(Some(node)), Order::Iterate(10))
            &&& !seen.stream_node && seen.now >= node ==> setup_step(
                SetupPhase::StreamNode(Some(node)),
                seen,
            ) == (SetupPhase::Over, Order::Fail(SetupError::NoStreamNode))
            &&& (seen.sink_node == 0 || seen.sink_ports == 0) ==> setup_step(
                SetupPhase::SinkNode(None),
                first,
            ) == (SetupPhase::SinkNode(Some(node)), Order::Iterate(10))
            &&& (seen.sink_node == 0 || seen.sink_ports == 0) && seen.now < node ==> setup_step(
                SetupPhase::SinkNode(Some(node)),
                seen,
            ) == (SetupPhase::SinkNode(Some(node)), Order::Iterate(10))
            &&& (seen.sink_node == 0 || seen.sink_ports == 0) && seen.now >= node ==> setup_step(
                SetupPhase::SinkNode(Some(node)),
                seen,
            ) == (SetupPhase::Over, Order::Fail(SetupError::NoSinkNode))
            &&& !seen.link_confirmed ==> setup_step(SetupPhase::Link(attempt, None), first) == (
                SetupPhase::Link(attempt, Some(link)),
                Order::Iterate(10),
            )
            &&& !seen.link_confirmed && seen.now < link ==> setup_step(
                SetupPhase::Link(attempt, Some(link)),
                seen,
            ) == (SetupPhase::Link(attempt, Some(link)), Order::Iterate(10))
            &&& !seen.link_confirmed && seen.now >= link ==> setup_step(
                SetupPhase::Link(attempt, Some(link)),
                seen,
            ) == (
                SetupPhase::Unlinked((attempt + 1) as u32),
                Order::DropLink((attempt + 1) as u32),
            )
        }),
{
}

/// Once set up, the source serves until it is told to quit or its loop fails, and
/// both end it in order; before that, a loop that fails is an error at a node and a
/// failed attempt at a link.
pub proof fn serving_ends_when_told(set: Option<u64>, attempt: u32, seen: Seen)
    requires
        attempt < 10,
    ensures
        setup_step(SetupPhase::Serving, seen) == (if seen.quit || !seen.loop_ok {
            (SetupPhase::Over, Order::Finish)
        } else {
            (SetupPhase::Serving, Order::Iterate(50))
        }),
        !seen.loop_ok ==> {
            &&& setup_step(SetupPhase::StreamNode(set), seen) == (
                SetupPhase::Over,
                Order::Fail(SetupError::LoopFailedAtStream),
            )
            &&& setup_step(SetupPhase::SinkNode(set), seen) == (
                SetupPhase::Over,
                Order::Fail(SetupError::LoopFailedAtSink),
            )
            &&& !seen.link_confirmed ==> setup_step(SetupPhase::Link(attempt, set), seen) == (
                SetupPhase::Unlinked((attempt + 1) as u32),
                Order::DropLink((attempt + 1) as u32),
            )
        },
        setup_step(SetupPhase::Over, seen) == (SetupPhase::Over, Order::Finish),
{
}

/// The set-up begins with the stream, goes through the source and the link, and serves
/// until it is told to quit; each step is taken when what it needs is there.
pub proof fn set_up_goes_step_by_step(s: &mut SourceSetup, seen: Seen, order: Order)
    requires
        old(s).wf(),
        seen.now <= u64::MAX - 5_000_000,
        seen.loop_ok,
        call_ensures(SourceSetup::step, (s, seen), order),
    ensures
        old(s).at() is StreamNode && seen.stream_node ==> final(s).at() == SetupPhase::SinkNode(
            None,
        ) && order is CreateSink,
        old(s).at() is SinkNode && seen.sink_node != 0 && seen.sink_ports != 0 ==> final(s).at()
            == SetupPhase::Link(0, None) && order is CreateLink,
        old(s).at() is Link && seen.link_confirmed ==> final(s).at() is Serving
            && order is LinkDone,
        old(s).at() is Serving ==> (if seen.quit {
            final(s).at() is Over && order is Finish
        } else {
            final(s).at() is Serving && order == Order::Iterate(50)
        }),
        old(s).at() is Over ==> order is Finish,
        order is CreateSink ==> old(s).at() is StreamNode && seen.stream_node,
        order is LinkDone ==> old(s).at() is Link && seen.link_confirmed,
        order is Finish ==> old(s).at() is Serving && seen.quit || old(s).at() is Over,
        order == Order::Fail(SetupError::NoLink) <==> old(s).at() == SetupPhase::Unlinked(10),
        order matches Order::DropLink(n) ==> (old(s).at() matches SetupPhase::Link(before, _) && n
            == before + 1),
        order == Order::Fail(SetupError::NoStreamNode) ==> old(s).at() is StreamNode
            && !seen.stream_node,
        order == Order::Fail(SetupError::NoSinkNode) ==> old(s).at() is SinkNode && (seen.sink_node
            == 0 || seen.sink_ports == 0),
{
}

/// Each way in which a set-up fails has its own sentence.
pub proof fn failures_say_why(e: SetupError, m: &'static str)
    requires
        call_ensures(SetupError::message, (e,), m),
    ensures
        e is NoStreamNode ==> m@ == "stream node id never became valid (AUTOCONNECT failed?)"@,
        e is LoopFailedAtStream ==> m@
            == "main loop iterate failed while waiting for the stream node"@,
        e is NoSinkNode ==> m@ == "null-sink node id/ports never became valid"@,
        e is LoopFailedAtSink ==> m@
            == "main loop iterate failed while waiting for the null-sink node"@,
        e is NoLink ==> m@ == "could not create engine -> null-sink link after 10 attempts"@,
{
}

/// The set-up of a source begins with its stream.
pub proof fn set_up_begins_with_the_stream(s: SourceSetup)
    requires
        call_ensures(SourceSetup::new, (), s),
    ensures
        s.at() == SetupPhase::StreamNode(None),
        s.wf(),
{
}

} // verus!
