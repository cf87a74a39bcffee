use openay_mic::setup::{Order, Seen, SetupError, SourceSetup};

const NOTHING: Seen = Seen {
    now: 0,
    stream_node: false,
    sink_node: 0,
    sink_ports: 0,
    link_confirmed: false,
    quit: false,
    loop_ok: true,
};

/// A set-up whose nodes are there, at its first attempt at the link.
fn at_the_link() -> SourceSetup {
    let mut s = SourceSetup::new();
    assert_eq!(s.step(Seen { stream_node: true, ..NOTHING }), Order::CreateSink);
    let ready = Seen { sink_node: 40, sink_ports: 1, ..NOTHING };
    assert_eq!(s.step(ready), Order::CreateLink);
    s
}

#[test]
fn set_up_goes_from_nodes_to_link_to_service() {
    let mut s = SourceSetup::new();
    assert_eq!(s.step(NOTHING), Order::Iterate(10));
    assert_eq!(
        s.step(Seen { now: 4_999_999, stream_node: true, ..NOTHING }),
        Order::CreateSink
    );
    assert_eq!(
        s.step(Seen { now: 5_000_000, sink_node: 40, ..NOTHING }),
        Order::Iterate(10),
        "the node alone is not enough"
    );
    assert_eq!(
        s.step(Seen { now: 5_100_000, sink_node: 40, sink_ports: 2, ..NOTHING }),
        Order::CreateLink
    );
    assert_eq!(s.step(Seen { now: 5_100_000, ..NOTHING }), Order::Iterate(10));
    assert_eq!(
        s.step(Seen { now: 5_200_000, link_confirmed: true, ..NOTHING }),
        Order::LinkDone
    );
    assert_eq!(s.step(NOTHING), Order::Iterate(50));
    assert_eq!(s.step(Seen { quit: true, ..NOTHING }), Order::Finish);
    assert_eq!(s.step(NOTHING), Order::Finish);
}

#[test]
fn nodes_that_never_come_are_errors() {
    let mut s = SourceSetup::new();
    assert_eq!(s.step(NOTHING), Order::Iterate(10));
    let e = SetupError::NoStreamNode;
    assert_eq!(s.step(Seen { now: 5_000_000, ..NOTHING }), Order::Fail(e));
    assert_eq!(e.message(), "stream node id never became valid (AUTOCONNECT failed?)");

    let mut s = SourceSetup::new();
    let e = SetupError::LoopFailedAtStream;
    assert_eq!(s.step(Seen { loop_ok: false, ..NOTHING }), Order::Fail(e));
    assert_eq!(
        e.message(),
        "main loop iterate failed while waiting for the stream node"
    );

    let mut s = SourceSetup::new();
    s.step(Seen { stream_node: true, ..NOTHING });
    assert_eq!(s.step(NOTHING), Order::Iterate(10));
    let e = SetupError::NoSinkNode;
    assert_eq!(s.step(Seen { now: 5_000_000, ..NOTHING }), Order::Fail(e));
    assert_eq!(e.message(), "null-sink node id/ports never became valid");

    let mut s = SourceSetup::new();
    s.step(Seen { stream_node: true, ..NOTHING });
    let e = SetupError::LoopFailedAtSink;
    assert_eq!(s.step(Seen { loop_ok: false, ..NOTHING }), Order::Fail(e));
    assert_eq!(
        e.message(),
        "main loop iterate failed while waiting for the null-sink node"
    );
}

#[test]
fn link_is_tried_ten_times() {
    let mut s = at_the_link();
    for attempt in 1..=10u32 {
        let now = u64::from(attempt) * 1_000_000;
        assert_eq!(s.step(Seen { now, ..NOTHING }), Order::Iterate(10));
        assert_eq!(
            s.step(Seen { now: now + 500_000, ..NOTHING }),
            Order::DropLink(attempt)
        );
        let next = s.step(Seen { now: now + 500_000, ..NOTHING });
        if attempt < 10 {
            assert_eq!(next, Order::CreateLink);
        } else {
            assert_eq!(next, Order::Fail(SetupError::NoLink));
        }
    }
    assert_eq!(
        SetupError::NoLink.message(),
        "could not create engine -> null-sink link after 10 attempts"
    );
}

#[test]
fn service_ends_with_the_loop() {
    let mut s = at_the_link();
    assert_eq!(s.step(Seen { link_confirmed: true, ..NOTHING }), Order::LinkDone);
    assert_eq!(s.step(Seen { loop_ok: false, ..NOTHING }), Order::Finish);
}
