//! From the agent's processes to the client's outputs: what a whole run
//! delivers.

use vstd::prelude::*;
use crate::codec::all_encodable;
use crate::codec::encoded_all;
use crate::codec::lemma_round_trip;
use crate::codec::parse_all;
use crate::codec::DecodeError;
use crate::demux::capped;
use crate::demux::lemma_outcome_of_stream;
use crate::demux::lemma_written_is_stdout;
use crate::demux::outcome_of;
use crate::demux::DemuxState;
use crate::frame::FrameView;
use crate::session::delivered;
use crate::session::lemma_channel_order;
use crate::session::lemma_one_status_at_end;
use crate::session::Channel;
use crate::session::EventView;
use crate::session::Phase;
use crate::session::SessionState;

verus! {

/// A run that finishes reaches the client whole: the bytes on the wire
/// are read back as the frames sent, the client's data output gets exactly
/// the bytes that the stages delivered on their data channels, in order,
/// and the client ends with the outcome of the exit that ended the run.
pub proof fn lemma_finished_run_is_delivered(stages: nat, events: Seq<EventView>)
    requires
        stages >= 1,
        SessionState::initial(stages).orderly(events),
        SessionState::initial(stages).run(events).phase == Phase::Finished,
        all_encodable(SessionState::initial(stages).emitted(events)),
    ensures
        parse_all(encoded_all(SessionState::initial(stages).emitted(events))) == Ok::<
            Seq<FrameView>,
            DecodeError,
        >(SessionState::initial(stages).emitted(events)),
        DemuxState::initial().written(SessionState::initial(stages).emitted(events)) == delivered(
            events,
            Channel::Stdout,
        ),
        SessionState::initial(stages).emitted(events).last() is Status,
        DemuxState::initial().run(SessionState::initial(stages).emitted(events)).end()
            == outcome_of(
            SessionState::initial(stages).emitted(events).last()->Status_0,
            capped(delivered(events, Channel::Stdout).len() as int),
        ),
{
    let frames = SessionState::initial(stages).emitted(events);
    lemma_one_status_at_end(stages, events);
    lemma_channel_order(SessionState::initial(stages), events);
    lemma_round_trip(frames);
    lemma_written_is_stdout(frames);
    lemma_outcome_of_stream(frames);
}

/// A run that is cut off reaches the client as a truncated stream: with no
/// terminal marker sent, the client never reports an exit of the pipeline.
pub proof fn lemma_unfinished_run_is_truncated(stages: nat, events: Seq<EventView>)
    requires
        stages >= 1,
        SessionState::initial(stages).run(events).phase != Phase::Finished,
    ensures
        DemuxState::initial().run(SessionState::initial(stages).emitted(events)).end()
            == crate::demux::Outcome::Truncated,
{
    lemma_one_status_at_end(stages, events);
    lemma_outcome_of_stream(SessionState::initial(stages).emitted(events));
}

} // verus!
