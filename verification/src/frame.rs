//! The typed units of the dump stream and the shape of a complete stream.

use vstd::prelude::*;

verus! {

/// One unit of the stream that an agent sends to a client.
#[derive(Debug, Clone, PartialEq, Eq)]
pub enum Frame {
    /// A chunk of dump data.
    Stdout(Vec<u8>),
    /// A chunk of diagnostic text.
    Stderr(Vec<u8>),
    /// The terminal marker: the exit code of the pipeline, or `None` where
    /// the process ended without one.
    Status(Option<i32>),
}

/// The mathematical value of a [`Frame`].
pub enum FrameView {
    Stdout(Seq<u8>),
    Stderr(Seq<u8>),
    Status(Option<i32>),
}

impl View for Frame {
    type V = FrameView;

    open spec fn view(&self) -> FrameView {
        match self {
            Frame::Stdout(bytes) => FrameView::Stdout(bytes@),
            Frame::Stderr(bytes) => FrameView::Stderr(bytes@),
            Frame::Status(code) => FrameView::Status(*code),
        }
    }
}

impl FrameView {
    /// Whether this is the terminal marker.
    pub open spec fn is_status(self) -> bool {
        self is Status
    }

    /// The bytes this frame adds to the data channel.
    pub open spec fn stdout_part(self) -> Seq<u8> {
        match self {
            FrameView::Stdout(bytes) => bytes,
            _ => Seq::empty(),
        }
    }

    /// The bytes this frame adds to the diagnostic channel.
    pub open spec fn stderr_part(self) -> Seq<u8> {
        match self {
            FrameView::Stderr(bytes) => bytes,
            _ => Seq::empty(),
        }
    }
}

/// The views of a sequence of frames, in order.
pub open spec fn frame_views(frames: Seq<Frame>) -> Seq<FrameView> {
    Seq::new(frames.len(), |i: int| frames[i]@)
}

/// All data bytes of a frame sequence, in order of arrival.
pub open spec fn stdout_bytes(frames: Seq<FrameView>) -> Seq<u8>
    decreases frames.len(),
{
    if frames.len() == 0 {
        Seq::empty()
    } else {
        stdout_bytes(frames.drop_last()) + frames.last().stdout_part()
    }
}

/// All diagnostic bytes of a frame sequence, in order of arrival.
pub open spec fn stderr_bytes(frames: Seq<FrameView>) -> Seq<u8>
    decreases frames.len(),
{
    if frames.len() == 0 {
        Seq::empty()
    } else {
        stderr_bytes(frames.drop_last()) + frames.last().stderr_part()
    }
}

/// No frame of the sequence is a terminal marker.
pub open spec fn no_status(frames: Seq<FrameView>) -> bool {
    forall|i: int| 0 <= i < frames.len() ==> !(#[trigger] frames[i]).is_status()
}

/// A complete stream: data and diagnostic frames in any order, then exactly
/// one terminal marker, and nothing after it.
pub open spec fn complete(frames: Seq<FrameView>) -> bool {
    &&& frames.len() >= 1
    &&& frames.last().is_status()
    &&& no_status(frames.drop_last())
}

impl Frame {
    /// Whether this frame is the terminal marker.
    pub fn is_status(&self) -> (r: bool)
        ensures
            r == self@.is_status(),
    {
        match self {
            Frame::Status(_) => true,
            _ => false,
        }
    }

    /// The number of payload bytes the frame carries (none for a marker).
    pub fn payload_len(&self) -> (n: usize)
        ensures
            n == self@.stdout_part().len() + self@.stderr_part().len(),
    {
        match self {
            Frame::Stdout(bytes) => bytes.len(),
            Frame::Stderr(bytes) => bytes.len(),
            Frame::Status(_) => 0,
        }
    }
}

/// Decides whether a sequence of frames is a complete stream.
pub fn is_complete(frames: &Vec<Frame>) -> (r: bool)
    ensures
        r == complete(frame_views(frames@)),
{
    let n: usize = frames.len();
    if n == 0 {
        return false;
    }
    if !frames[n - 1].is_status() {
        return false;
    }
    let mut i: usize = 0;
    while i < n - 1
        invariant
            n == frames.len(),
            n >= 1,
            i <= n - 1,
            forall|j: int| 0 <= j < i ==> !(#[trigger] frame_views(frames@)[j]).is_status(),
        decreases n - 1 - i,
    {
        if frames[i].is_status() {
            assert(frame_views(frames@).drop_last()[i as int] == frame_views(frames@)[i as int]);
            return false;
        }
        i += 1;
    }
    assert forall|j: int| 0 <= j < frame_views(frames@).drop_last().len() implies !(
    #[trigger] frame_views(frames@).drop_last()[j]).is_status() by {
        assert(frame_views(frames@).drop_last()[j] == frame_views(frames@)[j]);
    }
    true
}

} // verus!
