//! The client's side of the stream: routes each frame to the data output,
//! to the diagnostic display or to the end of the run.

use vstd::prelude::*;
use vstd::string::StringExecFns;
use crate::frame::Frame;
use crate::frame::FrameView;
use crate::frame::frame_views;
use crate::frame::complete;
use crate::frame::no_status;
use crate::frame::stderr_bytes;
use crate::frame::stdout_bytes;

verus! {

/// The byte that ends a diagnostic line.
pub const LINE_FEED: u8 = 10;

/// The byte that is dropped where it stands just before a line's end.
pub const CARRIAGE_RETURN: u8 = 13;

/// How a run ended, as the client sees it.
#[derive(Debug, Clone, Copy, PartialEq, Eq, Structural)]
pub enum Outcome {
    /// The pipeline exited with code zero; `total` data bytes were passed on.
    Success { total: u64 },
    /// The pipeline exited with this code, which is not zero.
    Failed(i32),
    /// The process ended without an exit code.
    Interrupted,
    /// The stream ended before its terminal marker.
    Truncated,
}

/// The outcome that a terminal marker stands for.
pub open spec fn outcome_of(code: Option<i32>, total: u64) -> Outcome {
    match code {
        Some(c) => if c == 0 {
            Outcome::Success { total }
        } else {
            Outcome::Failed(c)
        },
        None => Outcome::Interrupted,
    }
}

/// What the client reports for an outcome that carries no exit code.
pub open spec fn outcome_message(outcome: Outcome) -> Seq<char> {
    match outcome {
        Outcome::Interrupted => "process interrupted"@,
        Outcome::Truncated => "stream ended before the exit status"@,
        _ => ""@,
    }
}

/// A line without the carriage return that may stand at its end.
pub open spec fn strip_cr(line: Seq<u8>) -> Seq<u8> {
    if line.len() > 0 && line.last() == 13 {
        line.drop_last()
    } else {
        line
    }
}

/// The lines that `bytes` complete when `partial` is the line begun before
/// them, and the line left unfinished after them.
pub open spec fn split_lines(partial: Seq<u8>, bytes: Seq<u8>) -> (Seq<Seq<u8>>, Seq<u8>)
    decreases bytes.len(),
{
    if bytes.len() == 0 {
        (Seq::empty(), partial)
    } else {
        let (lines, current) = split_lines(partial, bytes.drop_last());
        if bytes.last() == 10 {
            (lines.push(strip_cr(current)), Seq::empty())
        } else {
            (lines, current.push(bytes.last()))
        }
    }
}

/// A byte count, held at the largest value where it would pass it.
pub open spec fn capped(n: int) -> u64 {
    if n > u64::MAX {
        u64::MAX
    } else {
        n as u64
    }
}

/// The views of a sequence of lines.
pub open spec fn line_views(lines: Seq<Vec<u8>>) -> Seq<Seq<u8>> {
    Seq::new(lines.len(), |i: int| lines[i]@)
}

/// The mathematical value of a [`Demux`].
pub struct DemuxState {
    /// The number of data bytes passed on so far.
    pub total: u64,
    /// The diagnostic line begun and not yet ended.
    pub partial: Seq<u8>,
    /// The outcome, once the terminal marker has arrived.
    pub outcome: Option<Outcome>,
}

impl DemuxState {
    /// The state before any frame.
    pub open spec fn initial() -> DemuxState {
        DemuxState { total: 0, partial: Seq::empty(), outcome: None }
    }

    /// The state after a frame. Frames behind the terminal marker change
    /// nothing.
    pub open spec fn next(self, frame: FrameView) -> DemuxState {
        if self.outcome.is_some() {
            self
        } else {
            match frame {
                FrameView::Stdout(bytes) => DemuxState {
                    total: capped(self.total + bytes.len()),
                    ..self
                },
                FrameView::Stderr(bytes) => DemuxState {
                    partial: split_lines(self.partial, bytes).1,
                    ..self
                },
                FrameView::Status(code) => DemuxState {
                    partial: Seq::empty(),
                    outcome: Some(outcome_of(code, self.total)),
                    ..self
                },
            }
        }
    }

    /// The bytes that a frame sends to the data output.
    pub open spec fn data(self, frame: FrameView) -> Seq<u8> {
        if self.outcome.is_some() {
            Seq::empty()
        } else {
            frame.stdout_part()
        }
    }

    /// The diagnostic lines that a frame completes. The terminal marker
    /// completes the line that was begun, if one was.
    pub open spec fn lines(self, frame: FrameView) -> Seq<Seq<u8>> {
        if self.outcome.is_some() {
            Seq::empty()
        } else {
            match frame {
                FrameView::Stdout(_) => Seq::empty(),
                FrameView::Stderr(bytes) => split_lines(self.partial, bytes).0,
                FrameView::Status(_) => if self.partial.len() > 0 {
                    seq![self.partial]
                } else {
                    Seq::empty()
                },
            }
        }
    }

    /// The state after a sequence of frames.
    pub open spec fn run(self, frames: Seq<FrameView>) -> DemuxState
        decreases frames.len(),
    {
        if frames.len() == 0 {
            self
        } else {
            self.run(frames.drop_last()).next(frames.last())
        }
    }

    /// All bytes that a sequence of frames sends to the data output.
    pub open spec fn written(self, frames: Seq<FrameView>) -> Seq<u8>
        decreases frames.len(),
    {
        if frames.len() == 0 {
            Seq::empty()
        } else {
            self.written(frames.drop_last()) + self.run(frames.drop_last()).data(frames.last())
        }
    }

    /// All diagnostic lines that a sequence of frames completes.
    pub open spec fn shown(self, frames: Seq<FrameView>) -> Seq<Seq<u8>>
        decreases frames.len(),
    {
        if frames.len() == 0 {
            Seq::empty()
        } else {
            self.shown(frames.drop_last()) + self.run(frames.drop_last()).lines(frames.last())
        }
    }

    /// How the run ended if the stream ends in this state.
    pub open spec fn end(self) -> Outcome {
        match self.outcome {
            Some(outcome) => outcome,
            None => Outcome::Truncated,
        }
    }
}

impl Outcome {
    /// The exit code with which the client ends: zero on success, the
    /// pipeline's own code where it has a nonzero one, and one otherwise.
    pub fn exit_code(&self) -> (code: i32)
        ensures
            code == match *self {
                Outcome::Success { .. } => 0i32,
                Outcome::Failed(c) => c,
                Outcome::Interrupted => 1i32,
                Outcome::Truncated => 1i32,
            },
    {
        match self {
            Outcome::Success { .. } => 0,
            Outcome::Failed(c) => *c,
            Outcome::Interrupted => 1,
            Outcome::Truncated => 1,
        }
    }

    /// What the client reports where the run did not end with an exit code
    /// of its own: the empty text for a run that did.
    pub fn message(&self) -> (text: String)
        ensures
            text@ == outcome_message(*self),
    {
        match self {
            Outcome::Interrupted => String::from_str("process interrupted"),
            Outcome::Truncated => String::from_str("stream ended before the exit status"),
            _ => String::from_str(""),
        }
    }

    /// Whether the run succeeded.
    pub fn is_success(&self) -> (r: bool)
        ensures
            r == (*self is Success),
    {
        match self {
            Outcome::Success { .. } => true,
            _ => false,
        }
    }

    /// The outcome that a terminal marker stands for, after `total` data bytes.
    pub fn from_status(code: Option<i32>, total: u64) -> (r: Outcome)
        ensures
            r == outcome_of(code, total),
    {
        match code {
            Some(c) => if c == 0 {
                Outcome::Success { total }
            } else {
                Outcome::Failed(c)
            },
            None => Outcome::Interrupted,
        }
    }
}

/// What one frame asks of the client.
#[derive(Debug, Clone, PartialEq, Eq)]
pub struct Routed {
    /// Bytes to write to the data output.
    pub data: Vec<u8>,
    /// Diagnostic lines to show, each without its line end.
    pub lines: Vec<Vec<u8>>,
    /// The outcome, where this frame was the terminal marker.
    pub outcome: Option<Outcome>,
}

/// The client's demultiplexer.
#[derive(Debug)]
pub struct Demux {
    total: u64,
    partial: Vec<u8>,
    outcome: Option<Outcome>,
}

impl View for Demux {
    type V = DemuxState;

    closed spec fn view(&self) -> DemuxState {
        DemuxState { total: self.total, partial: self.partial@, outcome: self.outcome }
    }
}

impl Demux {
    /// A demultiplexer that has seen no frame.
    pub fn new() -> (d: Demux)
        ensures
            d@ == DemuxState::initial(),
    {
        Demux { total: 0, partial: Vec::new(), outcome: None }
    }

    /// The number of data bytes passed on so far.
    pub fn total(&self) -> (n: u64)
        ensures
            n == self@.total,
    {
        self.total
    }

    /// How the run ended, if the stream ends now: the outcome that the
    /// terminal marker gave, or `Truncated` where none has arrived.
    pub fn end(&self) -> (r: Outcome)
        ensures
            r == self@.end(),
    {
        match self.outcome {
            Some(outcome) => outcome,
            None => Outcome::Truncated,
        }
    }

    /// Takes the diagnostic bytes in and cuts the lines that they complete.
    fn take_diagnostics(&mut self, bytes: &Vec<u8>) -> (lines: Vec<Vec<u8>>)
        ensures
            line_views(lines@) == split_lines(old(self)@.partial, bytes@).0,
            final(self)@ == (DemuxState {
                partial: split_lines(old(self)@.partial, bytes@).1,
                ..old(self)@
            }),
    {
        let mut lines: Vec<Vec<u8>> = Vec::new();
        let mut i: usize = 0;
        assert(line_views(lines@) =~= Seq::<Seq<u8>>::empty());
        while i < bytes.len()
            invariant
                i <= bytes@.len(),
                self.total == old(self).total,
                self.outcome == old(self).outcome,
                line_views(lines@) == split_lines(old(self)@.partial, bytes@.take(i as int)).0,
                self.partial@ == split_lines(old(self)@.partial, bytes@.take(i as int)).1,
            decreases bytes@.len() - i,
        {
            let byte: u8 = bytes[i];
            proof {
                assert(bytes@.take(i + 1).drop_last() =~= bytes@.take(i as int));
                assert(bytes@.take(i + 1).last() == byte);
            }
            if byte == LINE_FEED {
                let mut line: Vec<u8> = self.partial.split_off(0);
                assert(line@ =~= split_lines(old(self)@.partial, bytes@.take(i as int)).1);
                assert(self.partial@ =~= Seq::<u8>::empty());
                let n: usize = line.len();
                if n > 0 && line[n - 1] == CARRIAGE_RETURN {
                    line.pop();
                }
                let ghost before = line_views(lines@);
                lines.push(line);
                assert(line_views(lines@) =~= before.push(line@));
            } else {
                self.partial.push(byte);
            }
            i += 1;
        }
        assert(bytes@.take(i as int) =~= bytes@);
        lines
    }

    /// Routes one frame.
    ///
    /// A data chunk is handed on to be written and counted. A diagnostic
    /// chunk is cut into lines, and the line it leaves unfinished is kept.
    /// The terminal marker hands out the unfinished line, if any, and the
    /// outcome. Frames behind the terminal marker are dropped.
    pub fn accept(&mut self, frame: Frame) -> (r: Routed)
        ensures
            final(self)@ == old(self)@.next(frame@),
            r.data@ == old(self)@.data(frame@),
            line_views(r.lines@) == old(self)@.lines(frame@),
            r.outcome == if old(self)@.outcome.is_none() && frame@.is_status() {
                final(self)@.outcome
            } else {
                None
            },
    {
        let mut routed = Routed { data: Vec::new(), lines: Vec::new(), outcome: None };
        assert(line_views(routed.lines@) =~= Seq::<Seq<u8>>::empty());
        if self.outcome.is_some() {
            return routed;
        }
        match frame {
            Frame::Stdout(bytes) => {
                let len: usize = bytes.len();
                self.total = if len as u64 > u64::MAX - self.total {
                    u64::MAX
                } else {
                    self.total + len as u64
                };
                routed.data = bytes;
            },
            Frame::Stderr(bytes) => {
                routed.lines = self.take_diagnostics(&bytes);
            },
            Frame::Status(code) => {
                if self.partial.len() > 0 {
                    let line: Vec<u8> = self.partial.split_off(0);
                    assert(line@ =~= old(self)@.partial);
                    routed.lines.push(line);
                    assert(line_views(routed.lines@) =~= seq![old(self)@.partial]);
                }
                assert(self.partial@ =~= Seq::<u8>::empty());
                let outcome = Outcome::from_status(code, self.total);
                self.outcome = Some(outcome);
                routed.outcome = Some(outcome);
            },
        }
        routed
    }
}

/// What a whole stream asked of the client.
#[derive(Debug, Clone, PartialEq, Eq)]
pub struct Report {
    /// All bytes for the data output, in order.
    pub data: Vec<u8>,
    /// All diagnostic lines, in order.
    pub lines: Vec<Vec<u8>>,
    /// How the run ended.
    pub outcome: Outcome,
}

/// Routes a whole stream of frames that has ended.
pub fn demultiplex(frames: &Vec<Frame>) -> (r: Report)
    ensures
        r.data@ == DemuxState::initial().written(frame_views(frames@)),
        line_views(r.lines@) == DemuxState::initial().shown(frame_views(frames@)),
        r.outcome == DemuxState::initial().run(frame_views(frames@)).end(),
{
    let ghost views = frame_views(frames@);
    let mut demux = Demux::new();
    let mut data: Vec<u8> = Vec::new();
    let mut lines: Vec<Vec<u8>> = Vec::new();
    let mut i: usize = 0;
    assert(line_views(lines@) =~= Seq::<Seq<u8>>::empty());
    while i < frames.len()
        invariant
            i <= frames@.len(),
            views == frame_views(frames@),
            demux@ == DemuxState::initial().run(views.take(i as int)),
            data@ == DemuxState::initial().written(views.take(i as int)),
            line_views(lines@) == DemuxState::initial().shown(views.take(i as int)),
        decreases frames@.len() - i,
    {
        let frame: Frame = copy_frame(&frames[i]);
        let mut routed = demux.accept(frame);
        proof {
            assert(views.take(i + 1).drop_last() =~= views.take(i as int));
            assert(views.take(i + 1).last() == frames@[i as int]@);
        }
        let ghost shown_before = line_views(lines@);
        let ghost new_lines = line_views(routed.lines@);
        data.append(&mut routed.data);
        lines.append(&mut routed.lines);
        assert(line_views(lines@) =~= shown_before + new_lines);
        i += 1;
    }
    assert(views.take(i as int) =~= views);
    Report { data, lines, outcome: demux.end() }
}

/// A copy of a frame.
pub fn copy_frame(frame: &Frame) -> (r: Frame)
    ensures
        r@ == frame@,
{
    match frame {
        Frame::Stdout(bytes) => Frame::Stdout(vstd::slice::slice_to_vec(bytes.as_slice())),
        Frame::Stderr(bytes) => Frame::Stderr(vstd::slice::slice_to_vec(bytes.as_slice())),
        Frame::Status(code) => Frame::Status(*code),
    }
}

/// While no terminal marker has arrived, every data byte is handed on
/// and counted, and no outcome is fixed.
pub proof fn lemma_data_frames(frames: Seq<FrameView>)
    requires
        no_status(frames),
    ensures
        DemuxState::initial().written(frames) == stdout_bytes(frames),
        DemuxState::initial().run(frames).outcome.is_none(),
        DemuxState::initial().run(frames).total == capped(stdout_bytes(frames).len() as int),
    decreases frames.len(),
{
    if frames.len() > 0 {
        let earlier = frames.drop_last();
        assert forall|i: int| 0 <= i < earlier.len() implies !(#[trigger] earlier[i]).is_status() by {
            assert(earlier[i] == frames[i]);
        }
        lemma_data_frames(earlier);
        assert(!frames[frames.len() - 1].is_status());
    }
}

/// The data output gets exactly the bytes of the stream's data channel, in
/// order, for a complete stream and for one that was cut off before its
/// terminal marker.
pub proof fn lemma_written_is_stdout(frames: Seq<FrameView>)
    requires
        complete(frames) || no_status(frames),
    ensures
        DemuxState::initial().written(frames) == stdout_bytes(frames),
{
    if no_status(frames) {
        lemma_data_frames(frames);
    } else {
        lemma_data_frames(frames.drop_last());
    }
}

/// A complete stream ends with the outcome that its terminal marker stands
/// for, after all data bytes of the stream; a stream without a terminal
/// marker ends as truncated.
pub proof fn lemma_outcome_of_stream(frames: Seq<FrameView>)
    requires
        complete(frames) || no_status(frames),
    ensures
        complete(frames) ==> frames.last() is Status && DemuxState::initial().run(frames).end()
            == outcome_of(
            frames.last()->Status_0,
            capped(stdout_bytes(frames).len() as int),
        ),
        no_status(frames) ==> DemuxState::initial().run(frames).end() == Outcome::Truncated,
{
    if no_status(frames) {
        lemma_data_frames(frames);
        if frames.len() > 0 {
            assert(!frames[frames.len() - 1].is_status());
        }
    } else {
        lemma_data_frames(frames.drop_last());
        assert(frames.last().stdout_part() =~= Seq::<u8>::empty());
        assert(stdout_bytes(frames) =~= stdout_bytes(frames.drop_last()));
    }
}

/// Cutting lines does not depend on where the bytes are cut into chunks:
/// two chunks one after the other give the lines of their concatenation.
pub proof fn lemma_split_lines_concat(partial: Seq<u8>, first: Seq<u8>, second: Seq<u8>)
    ensures
        split_lines(partial, first + second) == (
            split_lines(partial, first).0 + split_lines(
                split_lines(partial, first).1,
                second,
            ).0,
            split_lines(split_lines(partial, first).1, second).1,
        ),
    decreases second.len(),
{
    let (head_lines, head_rest) = split_lines(partial, first);
    if second.len() == 0 {
        assert(first + second =~= first);
        assert(head_lines + Seq::<Seq<u8>>::empty() =~= head_lines);
    } else {
        let shorter = second.drop_last();
        lemma_split_lines_concat(partial, first, shorter);
        assert((first + second).drop_last() =~= first + shorter);
        assert((first + second).last() == second.last());
        let (tail_lines, tail_rest) = split_lines(head_rest, shorter);
        if second.last() == 10 {
            assert((head_lines + tail_lines).push(strip_cr(tail_rest)) =~= head_lines
                + tail_lines.push(strip_cr(tail_rest)));
        }
    }
}

/// While no terminal marker has arrived, the lines shown are the lines of
/// the stream's diagnostic channel as a whole, and the line kept is the one
/// that the channel leaves unfinished.
pub proof fn lemma_shown_is_stderr_lines(frames: Seq<FrameView>)
    requires
        no_status(frames),
    ensures
        DemuxState::initial().shown(frames) == split_lines(Seq::empty(), stderr_bytes(frames)).0,
        DemuxState::initial().run(frames).partial == split_lines(
            Seq::empty(),
            stderr_bytes(frames),
        ).1,
    decreases frames.len(),
{
    if frames.len() > 0 {
        let earlier = frames.drop_last();
        assert forall|i: int| 0 <= i < earlier.len() implies !(#[trigger] earlier[i]).is_status() by {
            assert(earlier[i] == frames[i]);
        }
        lemma_shown_is_stderr_lines(earlier);
        lemma_data_frames(earlier);
        assert(!frames[frames.len() - 1].is_status());
        let shown = DemuxState::initial().shown(earlier);
        match frames.last() {
            FrameView::Stderr(bytes) => {
                lemma_split_lines_concat(Seq::empty(), stderr_bytes(earlier), bytes);
            },
            _ => {
                assert(stderr_bytes(earlier) + Seq::<u8>::empty() =~= stderr_bytes(earlier));
                assert(shown + Seq::<Seq<u8>>::empty() =~= shown);
            },
        }
    }
}

} // verus!
