use dbd::demux::demultiplex;
use dbd::demux::Demux;
use dbd::demux::Outcome;
use dbd::frame::is_complete;
use dbd::Frame;

#[test]
fn data_is_handed_on_and_counted() {
    let mut demux = Demux::new();
    let routed = demux.accept(Frame::Stdout(b"hello".to_vec()));
    assert_eq!(routed.data, b"hello".to_vec());
    assert!(routed.lines.is_empty());
    assert_eq!(routed.outcome, None);
    assert_eq!(demux.total(), 5);
    demux.accept(Frame::Stdout(vec![0u8; 1000]));
    assert_eq!(demux.total(), 1005);
    assert_eq!(demux.end(), Outcome::Truncated);
}

#[test]
fn diagnostics_are_cut_into_lines() {
    let mut demux = Demux::new();
    let routed = demux.accept(Frame::Stderr(b"first\nsecond\r\nthi".to_vec()));
    assert!(routed.data.is_empty());
    assert_eq!(routed.lines, vec![b"first".to_vec(), b"second".to_vec()]);
    let routed = demux.accept(Frame::Stderr(b"rd".to_vec()));
    assert!(routed.lines.is_empty());
    let routed = demux.accept(Frame::Stderr(b"\n\nlast".to_vec()));
    assert_eq!(routed.lines, vec![b"third".to_vec(), Vec::new()]);
    let routed = demux.accept(Frame::Status(Some(0)));
    assert_eq!(routed.lines, vec![b"last".to_vec()]);
    assert_eq!(routed.outcome, Some(Outcome::Success { total: 0 }));
}

#[test]
fn carriage_return_is_kept_without_a_line_end() {
    let mut demux = Demux::new();
    assert!(demux.accept(Frame::Stderr(b"a\rb\r".to_vec())).lines.is_empty());
    let routed = demux.accept(Frame::Status(None));
    assert_eq!(routed.lines, vec![b"a\rb\r".to_vec()]);
    assert_eq!(routed.outcome, Some(Outcome::Interrupted));
}

#[test]
fn status_without_a_begun_line_shows_nothing() {
    let mut demux = Demux::new();
    demux.accept(Frame::Stderr(b"done\n".to_vec()));
    let routed = demux.accept(Frame::Status(Some(3)));
    assert!(routed.lines.is_empty());
    assert!(routed.data.is_empty());
    assert_eq!(routed.outcome, Some(Outcome::Failed(3)));
    assert_eq!(demux.end(), Outcome::Failed(3));
}

#[test]
fn frames_behind_the_status_are_dropped() {
    let mut demux = Demux::new();
    demux.accept(Frame::Stdout(b"ab".to_vec()));
    demux.accept(Frame::Status(Some(0)));
    let routed = demux.accept(Frame::Stdout(b"cd".to_vec()));
    assert!(routed.data.is_empty());
    assert_eq!(routed.outcome, None);
    let routed = demux.accept(Frame::Status(Some(9)));
    assert_eq!(routed.outcome, None);
    assert_eq!(demux.total(), 2);
    assert_eq!(demux.end(), Outcome::Success { total: 2 });
}

#[test]
fn outcomes_and_exit_codes() {
    assert_eq!(Outcome::from_status(Some(0), 10), Outcome::Success { total: 10 });
    assert_eq!(Outcome::from_status(Some(2), 10), Outcome::Failed(2));
    assert_eq!(Outcome::from_status(Some(-1), 10), Outcome::Failed(-1));
    assert_eq!(Outcome::from_status(None, 10), Outcome::Interrupted);
    assert_eq!(Outcome::Success { total: 1 }.exit_code(), 0);
    assert_eq!(Outcome::Failed(42).exit_code(), 42);
    assert_eq!(Outcome::Interrupted.exit_code(), 1);
    assert_eq!(Outcome::Truncated.exit_code(), 1);
    assert!(Outcome::Success { total: 0 }.is_success());
    assert!(!Outcome::Failed(1).is_success());
    assert_eq!(Outcome::Interrupted.message(), "process interrupted");
    assert_eq!(Outcome::Truncated.message(), "stream ended before the exit status");
    assert_eq!(Outcome::Failed(4).message(), "");
    assert_eq!(Outcome::Success { total: 4 }.message(), "");
}

#[test]
fn whole_stream_report() {
    let frames = vec![
        Frame::Stderr(b"-- table a\n-- ta".to_vec()),
        Frame::Stdout(b"INSERT 1;".to_vec()),
        Frame::Stderr(b"ble b\n".to_vec()),
        Frame::Stdout(b"INSERT 2;".to_vec()),
        Frame::Status(Some(0)),
    ];
    assert!(is_complete(&frames));
    let report = demultiplex(&frames);
    assert_eq!(report.data, b"INSERT 1;INSERT 2;".to_vec());
    assert_eq!(report.lines, vec![b"-- table a".to_vec(), b"-- table b".to_vec()]);
    assert_eq!(report.outcome, Outcome::Success { total: 18 });
}

#[test]
fn stream_without_status_is_truncated() {
    let report = demultiplex(&vec![Frame::Stdout(b"abc".to_vec())]);
    assert_eq!(report.data, b"abc".to_vec());
    assert_eq!(report.outcome, Outcome::Truncated);
    assert_eq!(demultiplex(&Vec::new()).outcome, Outcome::Truncated);
}

#[test]
fn completeness_of_frame_sequences() {
    assert!(is_complete(&vec![Frame::Status(None)]));
    assert!(!is_complete(&vec![Frame::Stdout(Vec::new())]));
    assert!(!is_complete(&vec![Frame::Status(Some(0)), Frame::Status(Some(0))]));
    assert!(!is_complete(&vec![Frame::Status(Some(0)), Frame::Stdout(Vec::new())]));
    assert!(is_complete(&vec![Frame::Stderr(Vec::new()), Frame::Stdout(Vec::new()), Frame::Status(Some(1))]));
    assert!(Frame::Status(None).is_status());
    assert!(!Frame::Stderr(Vec::new()).is_status());
    assert_eq!(Frame::Stdout(vec![1, 2, 3]).payload_len(), 3);
    assert_eq!(Frame::Status(Some(1)).payload_len(), 0);
}
