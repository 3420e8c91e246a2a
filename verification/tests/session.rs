use dbd::codec::decode;
use dbd::codec::encode;
use dbd::demux::demultiplex;
use dbd::demux::Outcome;
use dbd::frame::is_complete;
use dbd::session::multiplex;
use dbd::session::Action;
use dbd::session::Channel;
use dbd::session::Event;
use dbd::session::Session;
use dbd::Frame;

fn chunk(channel: Channel, bytes: &[u8]) -> Event {
    Event::Chunk(channel, bytes.to_vec())
}

#[test]
fn single_stage_success_end_to_end() {
    let events = vec![
        Event::Spawned,
        chunk(Channel::Stdout, b"SQL..."),
        chunk(Channel::Stderr, b""),
        Event::Closed(Channel::Stdout),
        Event::Closed(Channel::Stderr),
        Event::Exited(Some(0)),
    ];
    let frames = multiplex(1, &events);
    assert_eq!(
        frames,
        vec![
            Frame::Stdout(b"SQL...".to_vec()),
            Frame::Stderr(Vec::new()),
            Frame::Status(Some(0)),
        ]
    );
    let received = decode(&encode(&frames).unwrap()).unwrap();
    let report = demultiplex(&received);
    assert_eq!(report.data, b"SQL...".to_vec());
    assert!(report.lines.is_empty());
    assert_eq!(report.outcome, Outcome::Success { total: 6 });
    assert_eq!(report.outcome.exit_code(), 0);
}

#[test]
fn failed_first_stage_ends_the_run() {
    let mut session = Session::new(2);
    assert_eq!(session.action(), Action::Spawn(0));
    assert_eq!(session.step(Event::Spawned).action, Action::Read);
    let step = session.step(chunk(Channel::Stderr, b"mysqldump: access denied\n"));
    assert_eq!(step.frame, Some(Frame::Stderr(b"mysqldump: access denied\n".to_vec())));
    assert_eq!(step.action, Action::Read);
    assert_eq!(session.step(Event::Closed(Channel::Stdout)).action, Action::Read);
    let step = session.step(Event::Closed(Channel::Stderr));
    assert_eq!(step.frame, None);
    assert_eq!(step.action, Action::Wait);
    let step = session.step(Event::Exited(Some(1)));
    assert_eq!(step.frame, Some(Frame::Status(Some(1))));
    assert_eq!(step.action, Action::Close);
    assert!(session.is_finished());
    for event in [Event::Spawned, chunk(Channel::Stdout, b"late"), Event::Exited(Some(0)), Event::Disconnected] {
        let step = session.step(event);
        assert_eq!(step.frame, None);
        assert_eq!(step.action, Action::Close);
    }
    assert!(session.is_finished());
}

#[test]
fn failed_first_stage_end_to_end() {
    let events = vec![
        Event::Spawned,
        chunk(Channel::Stdout, b"-- schema"),
        Event::Closed(Channel::Stderr),
        Event::Closed(Channel::Stdout),
        Event::Exited(Some(1)),
        Event::Spawned,
        chunk(Channel::Stdout, b"-- data"),
    ];
    let frames = multiplex(2, &events);
    assert_eq!(frames, vec![Frame::Stdout(b"-- schema".to_vec()), Frame::Status(Some(1))]);
    let report = demultiplex(&decode(&encode(&frames).unwrap()).unwrap());
    assert_eq!(report.outcome, Outcome::Failed(1));
    assert_eq!(report.outcome.exit_code(), 1);
}

#[test]
fn second_stage_follows_a_successful_first() {
    let mut session = Session::new(2);
    session.step(Event::Spawned);
    session.step(chunk(Channel::Stdout, b"schema;"));
    session.step(Event::Closed(Channel::Stdout));
    session.step(Event::Closed(Channel::Stderr));
    let step = session.step(Event::Exited(Some(0)));
    assert_eq!(step.frame, None);
    assert_eq!(step.action, Action::Spawn(1));
    assert_eq!(session.step(Event::Spawned).action, Action::Read);
    let step = session.step(chunk(Channel::Stdout, b"data;"));
    assert_eq!(step.frame, Some(Frame::Stdout(b"data;".to_vec())));
    session.step(Event::Closed(Channel::Stderr));
    session.step(Event::Closed(Channel::Stdout));
    let step = session.step(Event::Exited(Some(2)));
    assert_eq!(step.frame, Some(Frame::Status(Some(2))));
    assert_eq!(step.action, Action::Close);
}

#[test]
fn two_stage_stream_keeps_the_order_of_each_channel() {
    let events = vec![
        Event::Spawned,
        chunk(Channel::Stdout, b"a"),
        chunk(Channel::Stderr, b"1"),
        chunk(Channel::Stdout, b"b"),
        Event::Closed(Channel::Stdout),
        chunk(Channel::Stderr, b"2\n"),
        Event::Closed(Channel::Stderr),
        Event::Exited(Some(0)),
        Event::Spawned,
        chunk(Channel::Stderr, b"3"),
        chunk(Channel::Stdout, b"c"),
        chunk(Channel::Stdout, b"d"),
        Event::Closed(Channel::Stderr),
        Event::Closed(Channel::Stdout),
        Event::Exited(Some(0)),
    ];
    let frames = multiplex(2, &events);
    assert!(is_complete(&frames));
    assert_eq!(frames.len(), 8);
    assert_eq!(frames[7], Frame::Status(Some(0)));
    let report = demultiplex(&frames);
    assert_eq!(report.data, b"abcd".to_vec());
    assert_eq!(report.lines, vec![b"12".to_vec(), b"3".to_vec()]);
    assert_eq!(report.outcome, Outcome::Success { total: 4 });
}

#[test]
fn killed_process_end_to_end() {
    let events = vec![
        Event::Spawned,
        chunk(Channel::Stdout, b"partial"),
        Event::Closed(Channel::Stdout),
        Event::Closed(Channel::Stderr),
        Event::Exited(None),
    ];
    let frames = multiplex(1, &events);
    assert_eq!(frames, vec![Frame::Stdout(b"partial".to_vec()), Frame::Status(None)]);
    let report = demultiplex(&decode(&encode(&frames).unwrap()).unwrap());
    assert_eq!(report.outcome, Outcome::Interrupted);
    assert_eq!(report.outcome.message(), "process interrupted");
    assert!(report.outcome.exit_code() != 0);
}

#[test]
fn killed_first_stage_starts_no_second() {
    let events = vec![
        Event::Spawned,
        Event::Closed(Channel::Stdout),
        Event::Closed(Channel::Stderr),
        Event::Exited(None),
        Event::Spawned,
    ];
    assert_eq!(multiplex(2, &events), vec![Frame::Status(None)]);
}

#[test]
fn exit_reported_before_the_channels_end() {
    let mut session = Session::new(1);
    session.step(Event::Spawned);
    let step = session.step(Event::Exited(Some(5)));
    assert_eq!(step.frame, None);
    assert_eq!(step.action, Action::Read);
    let step = session.step(chunk(Channel::Stdout, b"tail"));
    assert_eq!(step.frame, Some(Frame::Stdout(b"tail".to_vec())));
    assert_eq!(session.step(Event::Closed(Channel::Stdout)).action, Action::Read);
    let step = session.step(Event::Closed(Channel::Stderr));
    assert_eq!(step.frame, Some(Frame::Status(Some(5))));
    assert_eq!(step.action, Action::Close);
}

#[test]
fn spawn_failure_aborts_without_a_status() {
    let mut session = Session::new(2);
    let step = session.step(Event::SpawnFailed);
    assert_eq!(step.frame, None);
    assert_eq!(step.action, Action::Abort);
    assert!(session.is_aborted());
    assert!(!session.is_finished());
    assert_eq!(multiplex(2, &vec![Event::SpawnFailed, Event::Spawned, Event::Exited(Some(0))]), Vec::<Frame>::new());
}

#[test]
fn disconnect_stops_the_stream() {
    let mut session = Session::new(1);
    session.step(Event::Spawned);
    session.step(chunk(Channel::Stdout, b"x"));
    let step = session.step(Event::Disconnected);
    assert_eq!(step.frame, None);
    assert_eq!(step.action, Action::Abort);
    for event in [chunk(Channel::Stdout, b"y"), Event::Closed(Channel::Stdout), Event::Closed(Channel::Stderr), Event::Exited(Some(0))] {
        let step = session.step(event);
        assert_eq!(step.frame, None);
        assert_eq!(step.action, Action::Abort);
    }
    assert!(session.is_aborted());
}

#[test]
fn chunk_on_a_closed_channel_is_dropped() {
    let mut session = Session::new(1);
    assert_eq!(session.step(chunk(Channel::Stdout, b"early")).frame, None);
    assert_eq!(session.action(), Action::Spawn(0));
    session.step(Event::Spawned);
    session.step(Event::Closed(Channel::Stdout));
    let step = session.step(chunk(Channel::Stdout, b"late"));
    assert_eq!(step.frame, None);
    assert_eq!(step.action, Action::Read);
    assert_eq!(session.step(chunk(Channel::Stderr, b"ok")).frame, Some(Frame::Stderr(b"ok".to_vec())));
}

#[test]
fn unfinished_run_holds_no_status() {
    let events = vec![Event::Spawned, chunk(Channel::Stdout, b"a"), Event::Closed(Channel::Stdout)];
    let frames = multiplex(1, &events);
    assert_eq!(frames, vec![Frame::Stdout(b"a".to_vec())]);
    assert!(!is_complete(&frames));
    assert_eq!(demultiplex(&frames).outcome, Outcome::Truncated);
}
