//! The run of a pipeline as a state machine: what to do next, and which
//! frame to send, for each thing that happens to the running stage.
//!
//! The caller spawns processes, reads their output and awaits their exit;
//! it reports each of these as an [`Event`] and carries out the [`Action`]
//! that comes back.

use vstd::prelude::*;
use vstd::slice::slice_to_vec;
use crate::frame::Frame;
use crate::frame::FrameView;
use crate::frame::frame_views;
use crate::frame::complete;
use crate::frame::no_status;
use crate::frame::stdout_bytes;
use crate::frame::stderr_bytes;

verus! {

/// One of the two output channels of a stage.
#[derive(Debug, Clone, Copy, PartialEq, Eq, Structural)]
pub enum Channel {
    Stdout,
    Stderr,
}

/// Something that happened to the stage that the session is running.
#[derive(Debug, Clone, PartialEq, Eq)]
pub enum Event {
    /// The stage asked for was started.
    Spawned,
    /// The stage asked for could not be started.
    SpawnFailed,
    /// Bytes became available on a channel.
    Chunk(Channel, Vec<u8>),
    /// A channel reached its end.
    Closed(Channel),
    /// The process ended, with its exit code if it has one.
    Exited(Option<i32>),
    /// The consumer of the stream went away.
    Disconnected,
}

/// The mathematical value of an [`Event`].
pub enum EventView {
    Spawned,
    SpawnFailed,
    Chunk(Channel, Seq<u8>),
    Closed(Channel),
    Exited(Option<i32>),
    Disconnected,
}

impl View for Event {
    type V = EventView;

    open spec fn view(&self) -> EventView {
        match self {
            Event::Spawned => EventView::Spawned,
            Event::SpawnFailed => EventView::SpawnFailed,
            Event::Chunk(channel, bytes) => EventView::Chunk(*channel, bytes@),
            Event::Closed(channel) => EventView::Closed(*channel),
            Event::Exited(code) => EventView::Exited(*code),
            Event::Disconnected => EventView::Disconnected,
        }
    }
}

/// What the caller does next.
#[derive(Debug, Clone, Copy, PartialEq, Eq, Structural)]
pub enum Action {
    /// Start the stage with this index and report `Spawned` or `SpawnFailed`.
    Spawn(usize),
    /// Go on reading the channels that are still open.
    Read,
    /// Both channels have ended: await the exit of the process.
    Wait,
    /// The stream is complete: close it.
    Close,
    /// Stop the running process, release it, and send nothing more.
    Abort,
}

/// Where a session stands.
#[derive(Debug, Clone, Copy, PartialEq, Eq, Structural)]
pub enum Phase {
    /// A stage is to be started.
    Starting,
    /// A stage is running.
    Running,
    /// The terminal marker was sent.
    Finished,
    /// The run was given up without a terminal marker.
    Aborted,
}

/// The mathematical value of a [`Session`].
pub struct SessionState {
    /// The number of stages of the pipeline.
    pub stages: nat,
    /// The index of the current stage.
    pub stage: nat,
    pub phase: Phase,
    /// Whether the current stage's data channel can still deliver.
    pub stdout_open: bool,
    /// Whether the current stage's diagnostic channel can still deliver.
    pub stderr_open: bool,
    /// The exit of the current stage, once reported.
    pub exit: Option<Option<i32>>,
}

impl SessionState {
    /// The state in which a pipeline of `stages` stages starts.
    pub open spec fn initial(stages: nat) -> SessionState {
        SessionState {
            stages,
            stage: 0,
            phase: Phase::Starting,
            stdout_open: false,
            stderr_open: false,
            exit: None,
        }
    }

    /// The states that a session can be in.
    pub open spec fn wf(self) -> bool {
        &&& self.stage < self.stages
        &&& (self.phase == Phase::Running && !self.stdout_open && !self.stderr_open
            ==> self.exit.is_none())
    }

    /// Whether the session has ended, one way or the other.
    pub open spec fn ended(self) -> bool {
        self.phase == Phase::Finished || self.phase == Phase::Aborted
    }

    /// Whether the given channel of the running stage can still deliver.
    pub open spec fn open(self, channel: Channel) -> bool {
        self.phase == Phase::Running && match channel {
            Channel::Stdout => self.stdout_open,
            Channel::Stderr => self.stderr_open,
        }
    }

    /// What the caller is to do in this state.
    pub open spec fn action(self) -> Action {
        match self.phase {
            Phase::Starting => Action::Spawn(self.stage as usize),
            Phase::Running => if self.stdout_open || self.stderr_open {
                Action::Read
            } else {
                Action::Wait
            },
            Phase::Finished => Action::Close,
            Phase::Aborted => Action::Abort,
        }
    }

    /// Whether the event is one that this state expects. Any other event
    /// changes nothing and sends nothing.
    pub open spec fn accepts(self, event: EventView) -> bool {
        match event {
            EventView::Spawned => self.phase == Phase::Starting,
            EventView::SpawnFailed => self.phase == Phase::Starting,
            EventView::Chunk(channel, _) => self.open(channel),
            EventView::Closed(channel) => self.open(channel),
            EventView::Exited(_) => self.phase == Phase::Running && self.exit.is_none(),
            EventView::Disconnected => !self.ended(),
        }
    }

    /// The state after the current stage has ended with `code` and both its
    /// channels have been read to their end: the next stage is started only
    /// after an exit code of zero, and any other outcome ends the run.
    pub open spec fn settle(self, code: Option<i32>) -> SessionState {
        if code == Some(0i32) && self.stage + 1 < self.stages {
            SessionState {
                stage: self.stage + 1,
                phase: Phase::Starting,
                stdout_open: false,
                stderr_open: false,
                exit: None,
                ..self
            }
        } else {
            SessionState { phase: Phase::Finished, exit: Some(code), ..self }
        }
    }

    /// The state after an event.
    pub open spec fn next(self, event: EventView) -> SessionState {
        if !self.accepts(event) {
            self
        } else {
            match event {
                EventView::Spawned => SessionState {
                    phase: Phase::Running,
                    stdout_open: true,
                    stderr_open: true,
                    exit: None,
                    ..self
                },
                EventView::SpawnFailed => SessionState { phase: Phase::Aborted, ..self },
                EventView::Disconnected => SessionState { phase: Phase::Aborted, ..self },
                EventView::Chunk(_, _) => self,
                EventView::Closed(channel) => {
                    let closed = match channel {
                        Channel::Stdout => SessionState { stdout_open: false, ..self },
                        Channel::Stderr => SessionState { stderr_open: false, ..self },
                    };
                    if !closed.stdout_open && !closed.stderr_open && closed.exit.is_some() {
                        closed.settle(closed.exit.unwrap())
                    } else {
                        closed
                    }
                },
                EventView::Exited(code) => if !self.stdout_open && !self.stderr_open {
                    self.settle(code)
                } else {
                    SessionState { exit: Some(code), ..self }
                },
            }
        }
    }

    /// The frame that an event makes the session send, if any: a chunk from
    /// an open channel goes out as it came, and the terminal marker goes
    /// out when the run finishes.
    pub open spec fn output(self, event: EventView) -> Option<FrameView> {
        match event {
            EventView::Chunk(channel, bytes) => if self.open(channel) {
                match channel {
                    Channel::Stdout => Some(FrameView::Stdout(bytes)),
                    Channel::Stderr => Some(FrameView::Stderr(bytes)),
                }
            } else {
                None
            },
            _ => if self.phase == Phase::Running && self.next(event).phase == Phase::Finished {
                Some(FrameView::Status(self.next(event).exit.unwrap()))
            } else {
                None
            },
        }
    }

    /// The state after a sequence of events.
    pub open spec fn run(self, events: Seq<EventView>) -> SessionState
        decreases events.len(),
    {
        if events.len() == 0 {
            self
        } else {
            self.run(events.drop_last()).next(events.last())
        }
    }

    /// The frames sent over a sequence of events, in order.
    pub open spec fn emitted(self, events: Seq<EventView>) -> Seq<FrameView>
        decreases events.len(),
    {
        if events.len() == 0 {
            Seq::empty()
        } else {
            let before = self.emitted(events.drop_last());
            match self.run(events.drop_last()).output(events.last()) {
                Some(frame) => before.push(frame),
                None => before,
            }
        }
    }

    /// The events of the sequence that are expected in the state they meet,
    /// in order.
    pub open spec fn accepted(self, events: Seq<EventView>) -> Seq<EventView>
        decreases events.len(),
    {
        if events.len() == 0 {
            Seq::empty()
        } else if self.run(events.drop_last()).accepts(events.last()) {
            self.accepted(events.drop_last()).push(events.last())
        } else {
            self.accepted(events.drop_last())
        }
    }

    /// Every event of the sequence is expected in the state it meets.
    pub open spec fn orderly(self, events: Seq<EventView>) -> bool
        decreases events.len(),
    {
        events.len() == 0 || (self.orderly(events.drop_last()) && self.run(
            events.drop_last(),
        ).accepts(events.last()))
    }
}

/// The views of a sequence of events, in order.
pub open spec fn event_views(events: Seq<Event>) -> Seq<EventView> {
    Seq::new(events.len(), |i: int| events[i]@)
}

/// The bytes that a sequence of events delivers on one channel, in order.
pub open spec fn delivered(events: Seq<EventView>, channel: Channel) -> Seq<u8>
    decreases events.len(),
{
    if events.len() == 0 {
        Seq::empty()
    } else {
        delivered(events.drop_last(), channel) + match events.last() {
            EventView::Chunk(from, bytes) => if from == channel {
                bytes
            } else {
                Seq::empty()
            },
            _ => Seq::empty(),
        }
    }
}

/// What one step of a session asks of the caller.
#[derive(Debug, Clone, PartialEq, Eq)]
pub struct Step {
    /// The frame to send now, if any.
    pub frame: Option<Frame>,
    /// What to do after that.
    pub action: Action,
}

/// The run of one pipeline.
#[derive(Debug)]
pub struct Session {
    stages: usize,
    stage: usize,
    phase: Phase,
    stdout_open: bool,
    stderr_open: bool,
    exit: Option<Option<i32>>,
}

impl View for Session {
    type V = SessionState;

    closed spec fn view(&self) -> SessionState {
        SessionState {
            stages: self.stages as nat,
            stage: self.stage as nat,
            phase: self.phase,
            stdout_open: self.stdout_open,
            stderr_open: self.stderr_open,
            exit: self.exit,
        }
    }
}

impl Session {
    /// A session for a pipeline of `stages` stages, of which none has been
    /// started. Its first action is to spawn the first stage.
    pub fn new(stages: usize) -> (s: Session)
        requires
            stages >= 1,
        ensures
            s@ == SessionState::initial(stages as nat),
            s@.wf(),
    {
        Session {
            stages,
            stage: 0,
            phase: Phase::Starting,
            stdout_open: false,
            stderr_open: false,
            exit: None,
        }
    }

    /// What the caller is to do now.
    pub fn action(&self) -> (a: Action)
        ensures
            a == self@.action(),
    {
        match self.phase {
            Phase::Starting => Action::Spawn(self.stage),
            Phase::Running => if self.stdout_open || self.stderr_open {
                Action::Read
            } else {
                Action::Wait
            },
            Phase::Finished => Action::Close,
            Phase::Aborted => Action::Abort,
        }
    }

    /// Whether the terminal marker has been sent.
    pub fn is_finished(&self) -> (r: bool)
        ensures
            r == (self@.phase == Phase::Finished),
    {
        match self.phase {
            Phase::Finished => true,
            _ => false,
        }
    }

    /// Whether the run was given up.
    pub fn is_aborted(&self) -> (r: bool)
        ensures
            r == (self@.phase == Phase::Aborted),
    {
        match self.phase {
            Phase::Aborted => true,
            _ => false,
        }
    }

    fn is_running(&self) -> (r: bool)
        ensures
            r == (self@.phase == Phase::Running),
    {
        match self.phase {
            Phase::Running => true,
            _ => false,
        }
    }

    fn is_starting(&self) -> (r: bool)
        ensures
            r == (self@.phase == Phase::Starting),
    {
        match self.phase {
            Phase::Starting => true,
            _ => false,
        }
    }

    /// The current stage has ended with `code` and its channels are drained.
    fn settle(&mut self, code: Option<i32>) -> (frame: Option<Frame>)
        requires
            old(self)@.wf(),
            old(self)@.phase == Phase::Running,
        ensures
            final(self)@ == old(self)@.settle(code),
            final(self)@.wf(),
            match frame {
                Some(f) => final(self)@.phase == Phase::Finished && f@ == FrameView::Status(code),
                None => final(self)@.phase != Phase::Finished,
            },
    {
        let succeeded: bool = match code {
            Some(c) => c == 0,
            None => false,
        };
        if succeeded && self.stage + 1 < self.stages {
            self.stage = self.stage + 1;
            self.phase = Phase::Starting;
            self.stdout_open = false;
            self.stderr_open = false;
            self.exit = None;
            None
        } else {
            self.phase = Phase::Finished;
            self.exit = Some(code);
            Some(Frame::Status(code))
        }
    }

    /// Takes in one event: gives the frame to send, if any, and what to do
    /// next.
    pub fn step(&mut self, event: Event) -> (r: Step)
        requires
            old(self)@.wf(),
        ensures
            final(self)@ == old(self)@.next(event@),
            final(self)@.wf(),
            r.action == final(self)@.action(),
            match old(self)@.output(event@) {
                Some(frame) => r.frame.is_some() && r.frame.unwrap()@ == frame,
                None => r.frame.is_none(),
            },
    {
        let mut frame: Option<Frame> = None;
        match event {
            Event::Spawned => {
                if self.is_starting() {
                    self.phase = Phase::Running;
                    self.stdout_open = true;
                    self.stderr_open = true;
                    self.exit = None;
                }
            },
            Event::SpawnFailed => {
                if self.is_starting() {
                    self.phase = Phase::Aborted;
                }
            },
            Event::Disconnected => {
                if !self.is_finished() && !self.is_aborted() {
                    self.phase = Phase::Aborted;
                }
            },
            Event::Chunk(channel, bytes) => {
                if self.is_running() {
                    match channel {
                        Channel::Stdout => {
                            if self.stdout_open {
                                frame = Some(Frame::Stdout(bytes));
                            }
                        },
                        Channel::Stderr => {
                            if self.stderr_open {
                                frame = Some(Frame::Stderr(bytes));
                            }
                        },
                    }
                }
            },
            Event::Closed(channel) => {
                let was_open: bool = self.is_running() && match channel {
                    Channel::Stdout => self.stdout_open,
                    Channel::Stderr => self.stderr_open,
                };
                if was_open {
                    match channel {
                        Channel::Stdout => {
                            self.stdout_open = false;
                        },
                        Channel::Stderr => {
                            self.stderr_open = false;
                        },
                    }
                    if !self.stdout_open && !self.stderr_open {
                        match self.exit {
                            Some(code) => {
                                self.exit = None;
                                frame = self.settle(code);
                            },
                            None => {},
                        }
                    }
                }
            },
            Event::Exited(code) => {
                if self.is_running() && self.exit.is_none() {
                    if !self.stdout_open && !self.stderr_open {
                        frame = self.settle(code);
                    } else {
                        self.exit = Some(code);
                    }
                }
            },
        }
        let action = self.action();
        Step { frame, action }
    }
}

/// A copy of an event.
fn copy_event(event: &Event) -> (r: Event)
    ensures
        r@ == event@,
{
    match event {
        Event::Spawned => Event::Spawned,
        Event::SpawnFailed => Event::SpawnFailed,
        Event::Chunk(channel, bytes) => Event::Chunk(*channel, slice_to_vec(bytes.as_slice())),
        Event::Closed(channel) => Event::Closed(*channel),
        Event::Exited(code) => Event::Exited(*code),
        Event::Disconnected => Event::Disconnected,
    }
}

/// Runs a whole pipeline of `stages` stages over a recorded sequence of
/// events and gives the frames that it sends, in order.
pub fn multiplex(stages: usize, events: &Vec<Event>) -> (frames: Vec<Frame>)
    requires
        stages >= 1,
    ensures
        frame_views(frames@) == SessionState::initial(stages as nat).emitted(
            event_views(events@),
        ),
{
    let ghost start = SessionState::initial(stages as nat);
    let ghost views = event_views(events@);
    let mut session = Session::new(stages);
    let mut frames: Vec<Frame> = Vec::new();
    let mut i: usize = 0;
    while i < events.len()
        invariant
            i <= events@.len(),
            views == event_views(events@),
            start == SessionState::initial(stages as nat),
            session@.wf(),
            session@ == start.run(views.take(i as int)),
            frame_views(frames@) == start.emitted(views.take(i as int)),
        decreases events@.len() - i,
    {
        let ghost before = frame_views(frames@);
        let step = session.step(copy_event(&events[i]));
        match step.frame {
            Some(frame) => {
                frames.push(frame);
                assert(frame_views(frames@) =~= before.push(frame@));
            },
            None => {},
        }
        proof {
            assert(views.take(i + 1).drop_last() =~= views.take(i as int));
            assert(views.take(i + 1).last() == events@[i as int]@);
        }
        i += 1;
    }
    assert(views.take(i as int) =~= views);
    frames
}

} // verus!

verus! {

/// A step keeps a session among the states it can be in.
pub proof fn lemma_next_wf(s: SessionState, event: EventView)
    requires
        s.wf(),
    ensures
        s.next(event).wf(),
        s.next(event).stages == s.stages,
{
}

/// A run keeps a session among the states it can be in.
pub proof fn lemma_run_wf(s: SessionState, events: Seq<EventView>)
    requires
        s.wf(),
    ensures
        s.run(events).wf(),
        s.run(events).stages == s.stages,
    decreases events.len(),
{
    if events.len() > 0 {
        lemma_run_wf(s, events.drop_last());
        lemma_next_wf(s.run(events.drop_last()), events.last());
    }
}

/// The frames of a run end in exactly one terminal marker once the run has
/// finished, and hold none before that: whatever the events and their
/// order, a marker is sent at most once and nothing is sent after it.
pub proof fn lemma_one_status_at_end(stages: nat, events: Seq<EventView>)
    requires
        stages >= 1,
    ensures
        SessionState::initial(stages).run(events).wf(),
        SessionState::initial(stages).run(events).phase == Phase::Finished ==> complete(
            SessionState::initial(stages).emitted(events),
        ),
        SessionState::initial(stages).run(events).phase != Phase::Finished ==> no_status(
            SessionState::initial(stages).emitted(events),
        ),
    decreases events.len(),
{
    let start = SessionState::initial(stages);
    if events.len() > 0 {
        let earlier = events.drop_last();
        let before = start.emitted(earlier);
        let prev = start.run(earlier);
        lemma_one_status_at_end(stages, earlier);
        lemma_next_wf(prev, events.last());
        match prev.output(events.last()) {
            Some(frame) => {
                assert(before.push(frame).drop_last() =~= before);
                assert(before.push(frame).last() == frame);
                if !frame.is_status() {
                    assert forall|i: int| 0 <= i < before.push(frame).len() implies !(
                    #[trigger] before.push(frame)[i]).is_status() by {
                        if i < before.len() {
                            assert(before.push(frame)[i] == before[i]);
                        }
                    }
                }
            },
            None => {},
        }
    }
}

/// Once a session has ended, no event changes it and nothing more is sent.
pub proof fn lemma_ended_is_final(s: SessionState, events: Seq<EventView>)
    requires
        s.ended(),
    ensures
        s.run(events) == s,
        s.emitted(events) == Seq::<FrameView>::empty(),
    decreases events.len(),
{
    if events.len() > 0 {
        lemma_ended_is_final(s, events.drop_last());
    }
}

/// A stage is started after another only when that one has exited with
/// code zero and both its channels have been read to their end, and it is
/// the one that follows it.
pub proof fn lemma_spawn_follows_success(s: SessionState, event: EventView)
    requires
        s.wf(),
        s.phase == Phase::Running,
        s.next(event).phase == Phase::Starting,
    ensures
        s.next(event).stage == s.stage + 1,
        s.output(event).is_none(),
        event == EventView::Exited(Some(0i32)) || s.exit == Some(Some(0i32)),
        !s.stdout_open || event == EventView::Closed(Channel::Stdout),
        !s.stderr_open || event == EventView::Closed(Channel::Stderr),
{
}

/// The index of the current stage never goes back: a stage that was
/// started stays started, and one that a finished run never reached was
/// never started.
pub proof fn lemma_stage_never_decreases(s: SessionState, events: Seq<EventView>, upto: int)
    requires
        s.wf(),
        0 <= upto <= events.len(),
    ensures
        s.run(events.take(upto)).stage <= s.run(events).stage,
    decreases events.len(),
{
    if upto == events.len() {
        assert(events.take(upto) =~= events);
    } else {
        let earlier = events.drop_last();
        assert(events.take(upto) =~= earlier.take(upto));
        lemma_stage_never_decreases(s, earlier, upto);
        lemma_run_wf(s, earlier);
    }
}

/// The terminal marker carries the exit of the stage that ran last, and
/// that stage either was the last of the pipeline or did not exit with
/// code zero.
pub proof fn lemma_finish_reports_exit(s: SessionState, event: EventView)
    requires
        s.wf(),
        s.phase == Phase::Running,
        s.next(event).phase == Phase::Finished,
    ensures
        s.next(event).stage == s.stage,
        s.output(event) == Some(FrameView::Status(s.next(event).exit.unwrap())),
        event == EventView::Exited(s.next(event).exit.unwrap()) || s.exit == Some(
            s.next(event).exit.unwrap(),
        ),
        s.next(event).exit.unwrap() != Some(0i32) || s.stage + 1 == s.stages,
{
}

/// A stage that does not exit with code zero ends the run: its code is
/// sent as the terminal marker, and whatever happens later, no further
/// stage is started and nothing more is sent.
pub proof fn lemma_failure_short_circuits(
    s: SessionState,
    code: Option<i32>,
    later: Seq<EventView>,
)
    requires
        s.wf(),
        s.phase == Phase::Running,
        !s.stdout_open,
        !s.stderr_open,
        code != Some(0i32),
    ensures
        s.output(EventView::Exited(code)) == Some(FrameView::Status(code)),
        s.next(EventView::Exited(code)).phase == Phase::Finished,
        s.next(EventView::Exited(code)).run(later) == s.next(EventView::Exited(code)),
        s.next(EventView::Exited(code)).run(later).action() == Action::Close,
        s.next(EventView::Exited(code)).emitted(later) == Seq::<FrameView>::empty(),
{
    lemma_ended_is_final(s.next(EventView::Exited(code)), later);
}

/// When the consumer goes away the run is given up: the process is to be
/// stopped, and nothing is sent from then on.
pub proof fn lemma_disconnect_aborts(s: SessionState, later: Seq<EventView>)
    requires
        !s.ended(),
    ensures
        s.output(EventView::Disconnected).is_none(),
        s.next(EventView::Disconnected).run(later).action() == Action::Abort,
        s.next(EventView::Disconnected).emitted(later) == Seq::<FrameView>::empty(),
{
    lemma_ended_is_final(s.next(EventView::Disconnected), later);
}

/// The data bytes of a sequence with one more frame at its end.
pub proof fn lemma_channel_bytes_push(frames: Seq<FrameView>, frame: FrameView)
    ensures
        stdout_bytes(frames.push(frame)) == stdout_bytes(frames) + frame.stdout_part(),
        stderr_bytes(frames.push(frame)) == stderr_bytes(frames) + frame.stderr_part(),
{
    assert(frames.push(frame).drop_last() =~= frames);
}

/// Within each channel the bytes sent are the bytes of the chunks that
/// were expected when they came, in the order in which they came: no
/// byte is added, lost or moved, whatever the events and their order.
pub proof fn lemma_channel_order_of_accepted(s: SessionState, events: Seq<EventView>)
    ensures
        stdout_bytes(s.emitted(events)) == delivered(s.accepted(events), Channel::Stdout),
        stderr_bytes(s.emitted(events)) == delivered(s.accepted(events), Channel::Stderr),
    decreases events.len(),
{
    if events.len() > 0 {
        let earlier = events.drop_last();
        let before = s.emitted(earlier);
        let kept = s.accepted(earlier);
        lemma_channel_order_of_accepted(s, earlier);
        assert(kept.push(events.last()).drop_last() =~= kept);
        assert(stdout_bytes(before) + Seq::<u8>::empty() =~= stdout_bytes(before));
        assert(stderr_bytes(before) + Seq::<u8>::empty() =~= stderr_bytes(before));
        match s.run(earlier).output(events.last()) {
            Some(frame) => {
                lemma_channel_bytes_push(before, frame);
            },
            None => {},
        }
    }
}

/// In a run in which every event is expected when it comes, all events
/// count.
pub proof fn lemma_orderly_accepts_all(s: SessionState, events: Seq<EventView>)
    requires
        s.orderly(events),
    ensures
        s.accepted(events) == events,
    decreases events.len(),
{
    if events.len() > 0 {
        lemma_orderly_accepts_all(s, events.drop_last());
        assert(events.drop_last().push(events.last()) =~= events);
    } else {
        assert(events =~= Seq::<EventView>::empty());
    }
}

/// Within each channel the bytes sent are the bytes delivered, in the
/// order of delivery, however the chunks of the two channels interleave
/// and however the bytes are cut into chunks.
pub proof fn lemma_channel_order(s: SessionState, events: Seq<EventView>)
    requires
        s.orderly(events),
    ensures
        stdout_bytes(s.emitted(events)) == delivered(events, Channel::Stdout),
        stderr_bytes(s.emitted(events)) == delivered(events, Channel::Stderr),
{
    lemma_channel_order_of_accepted(s, events);
    lemma_orderly_accepts_all(s, events);
}

} // verus!
