//! Bringing a controller up, one exchange at a time.
//!
//! This crate talks to no controller itself.  A caller that does asks
//! [`BringUp`] which exchange is due, carries it out, and reports what came of
//! it; the machine then says what is due next.  The order is fixed: resolve the
//! address, open the two channels, fetch the identity, fetch the segments.  The
//! first failure ends the attempt, and nothing is ever tried again.

use crate::error::WledControllerError;
use crate::wled_net::{
    discovery_error, identity_error, is_segment_table, ConfigReport, InfoReport, PhysicalWled,
    StateReport,
};
use vstd::prelude::*;

verus! {

/// The port of the pixel-streaming protocol, on the controller and, by
/// convention, on this side too.
pub const STREAMING_PORT: u16 = 4048;

/// How far a bring-up has come.
#[derive(Debug, Clone, Copy, PartialEq, Eq, Structural)]
pub enum Phase {
    /// An endpoint is to be made of the network address.
    ResolvingAddress,
    /// The two channels to the controller are to be opened.
    OpeningChannels,
    /// The controller is to be asked who it is.
    FetchingIdentity,
    /// The fixture is made; the controller is to be asked for its segments.
    DiscoveringSegments,
    /// The fixture is complete.
    Ready,
    /// The attempt has failed.
    Failed,
}

/// What the caller is to do for the machine.
#[derive(Debug, Clone, Copy, PartialEq, Eq, Structural)]
pub enum BringUpAction {
    /// Make an endpoint of the network address.
    ResolveAddress,
    /// Open the configuration channel, and the streaming channel on
    /// [`STREAMING_PORT`].
    OpenChannels,
    /// Request the controller's report on itself and its configuration.
    FetchIdentity,
    /// Request the controller's report on itself and its live state.
    FetchSegments,
    /// Nothing: the bring-up has ended.
    Finish,
}

/// What came of an action.
#[derive(Debug)]
pub enum BringUpEvent {
    /// An endpoint was made of the address.
    AddressResolved,
    /// No endpoint can be made of the address.
    AddressUnresolvable,
    /// Both channels are open.
    ChannelsOpened,
    /// The controller reported on itself and on its configuration.
    IdentityFetched(InfoReport, ConfigReport),
    /// The controller reported on itself and on its live state.
    SegmentsFetched(InfoReport, StateReport),
    /// A channel failed while the action was carried out.
    ChannelFailed(WledControllerError),
}

enum Stage {
    ResolvingAddress,
    OpeningChannels,
    FetchingIdentity,
    DiscoveringSegments(PhysicalWled),
    Ready(PhysicalWled),
    Failed(WledControllerError),
}

/// One attempt to bring a controller up.
///
/// The fixture that is being made stays inside until it is complete:
/// [`BringUp::into_outcome`] hands out a fixture that is ready, or the error,
/// and nothing in between.
pub struct BringUp {
    stage: Stage,
}

/// The action that is due in a phase.
pub open spec fn action_due(phase: Phase) -> BringUpAction {
    match phase {
        Phase::ResolvingAddress => BringUpAction::ResolveAddress,
        Phase::OpeningChannels => BringUpAction::OpenChannels,
        Phase::FetchingIdentity => BringUpAction::FetchIdentity,
        Phase::DiscoveringSegments => BringUpAction::FetchSegments,
        Phase::Ready => BringUpAction::Finish,
        Phase::Failed => BringUpAction::Finish,
    }
}

impl BringUp {
    /// How far this bring-up has come.
    pub closed spec fn spec_phase(&self) -> Phase {
        match self.stage {
            Stage::ResolvingAddress => Phase::ResolvingAddress,
            Stage::OpeningChannels => Phase::OpeningChannels,
            Stage::FetchingIdentity => Phase::FetchingIdentity,
            Stage::DiscoveringSegments(_) => Phase::DiscoveringSegments,
            Stage::Ready(_) => Phase::Ready,
            Stage::Failed(_) => Phase::Failed,
        }
    }

    /// The fixture that has been made, while segments are being discovered and
    /// when the bring-up is ready.
    pub closed spec fn fixture(self) -> PhysicalWled
        recommends
            self.spec_phase() == Phase::DiscoveringSegments || self.spec_phase() == Phase::Ready,
    {
        match self.stage {
            Stage::DiscoveringSegments(wled) => wled,
            Stage::Ready(wled) => wled,
            _ => arbitrary(),
        }
    }

    /// The error that ended the bring-up, when it has failed.
    pub closed spec fn failure(self) -> WledControllerError
        recommends
            self.spec_phase() == Phase::Failed,
    {
        match self.stage {
            Stage::Failed(e) => e,
            _ => arbitrary(),
        }
    }

    /// Whatever fixture is inside has a buffer of one sample for each pixel.
    /// This holds when a bring-up begins and after every step.
    pub open spec fn buffer_is_sized(self) -> bool {
        self.spec_phase() == Phase::DiscoveringSegments || self.spec_phase() == Phase::Ready
            ==> self.fixture().wf()
    }

    /// The bring-up has failed with the error `e`.
    pub open spec fn failed_with(self, e: WledControllerError) -> bool {
        self.spec_phase() == Phase::Failed && self.failure() == e
    }

    /// What [`BringUp::step`] makes of a bring-up and an event.
    ///
    /// A bring-up that has ended stays as it is.  Before that, a failed channel
    /// ends it with the channel's own error, whatever was due.  Any other event
    /// counts only in the phase whose action it answers, and is passed over
    /// elsewhere: the bring-up stays as it is, and the same action is due.
    pub open spec fn steps_to(self, event: BringUpEvent, after: BringUp) -> bool {
        let phase = self.spec_phase();
        if phase == Phase::Ready || phase == Phase::Failed {
            after == self
        } else {
            match event {
                BringUpEvent::ChannelFailed(e) => after.failed_with(e),
                BringUpEvent::AddressResolved => if phase == Phase::ResolvingAddress {
                    after.spec_phase() == Phase::OpeningChannels
                } else {
                    after == self
                },
                BringUpEvent::AddressUnresolvable => if phase == Phase::ResolvingAddress {
                    after.failed_with(WledControllerError::UrlParseError)
                } else {
                    after == self
                },
                BringUpEvent::ChannelsOpened => if phase == Phase::OpeningChannels {
                    after.spec_phase() == Phase::FetchingIdentity
                } else {
                    after == self
                },
                BringUpEvent::IdentityFetched(info, cfg) => if phase == Phase::FetchingIdentity {
                    match identity_error(info, cfg) {
                        Some(e) => after.failed_with(e),
                        None => {
                            &&& after.spec_phase() == Phase::DiscoveringSegments
                            &&& after.fixture().identifies(info, cfg)
                            &&& after.fixture().wf()
                        },
                    }
                } else {
                    after == self
                },
                BringUpEvent::SegmentsFetched(info, state) => if phase
                    == Phase::DiscoveringSegments {
                    match discovery_error(info, state) {
                        Some(e) => after.failed_with(e),
                        None => {
                            &&& after.spec_phase() == Phase::Ready
                            &&& is_segment_table(
                                after.fixture().segments@,
                                state.seg->0@,
                                info.seglc->0@,
                            )
                            &&& after.fixture().same_but_segments(self.fixture())
                        },
                    }
                } else {
                    after == self
                },
            }
        }
    }

    /// Starts a bring-up.  The first thing due is to resolve the address.
    pub fn begin() -> (r: BringUp)
        ensures
            r.spec_phase() == Phase::ResolvingAddress,
            r.buffer_is_sized(),
    {
        BringUp { stage: Stage::ResolvingAddress }
    }

    /// How far this bring-up has come.
    #[verifier::when_used_as_spec(spec_phase)]
    pub fn phase(&self) -> (r: Phase)
        ensures
            r == self.spec_phase(),
    {
        match &self.stage {
            Stage::ResolvingAddress => Phase::ResolvingAddress,
            Stage::OpeningChannels => Phase::OpeningChannels,
            Stage::FetchingIdentity => Phase::FetchingIdentity,
            Stage::DiscoveringSegments(_) => Phase::DiscoveringSegments,
            Stage::Ready(_) => Phase::Ready,
            Stage::Failed(_) => Phase::Failed,
        }
    }

    /// The action that the caller is to carry out now.
    pub fn pending(&self) -> (r: BringUpAction)
        ensures
            r == action_due(self.spec_phase()),
    {
        match &self.stage {
            Stage::ResolvingAddress => BringUpAction::ResolveAddress,
            Stage::OpeningChannels => BringUpAction::OpenChannels,
            Stage::FetchingIdentity => BringUpAction::FetchIdentity,
            Stage::DiscoveringSegments(_) => BringUpAction::FetchSegments,
            Stage::Ready(_) => BringUpAction::Finish,
            Stage::Failed(_) => BringUpAction::Finish,
        }
    }

    /// Takes in what came of the pending action and moves on.
    pub fn step(self, event: BringUpEvent) -> (after: BringUp)
        ensures
            self.steps_to(event, after),
            self.buffer_is_sized() ==> after.buffer_is_sized(),
    {
        let stage = match (self.stage, event) {
            (Stage::Ready(wled), _) => Stage::Ready(wled),
            (Stage::Failed(e), _) => Stage::Failed(e),
            (_, BringUpEvent::ChannelFailed(e)) => Stage::Failed(e),
            (Stage::ResolvingAddress, BringUpEvent::AddressResolved) => Stage::OpeningChannels,
            (Stage::ResolvingAddress, BringUpEvent::AddressUnresolvable) => Stage::Failed(
                WledControllerError::UrlParseError,
            ),
            (Stage::OpeningChannels, BringUpEvent::ChannelsOpened) => Stage::FetchingIdentity,
            (Stage::FetchingIdentity, BringUpEvent::IdentityFetched(info, cfg)) => {
                match PhysicalWled::try_from_reports(&info, &cfg) {
                    Ok(wled) => Stage::DiscoveringSegments(wled),
                    Err(e) => Stage::Failed(e),
                }
            },
            (Stage::DiscoveringSegments(wled), BringUpEvent::SegmentsFetched(info, state)) => {
                let mut wled = wled;
                match wled.get_self_segment_bounds(&info, &state) {
                    Ok(()) => Stage::Ready(wled),
                    Err(e) => Stage::Failed(e),
                }
            },
            (stage, _) => stage,
        };
        BringUp { stage }
    }

    /// Ends the bring-up and hands out what came of it: the complete fixture,
    /// or the error that ended the attempt.  Before the bring-up has ended
    /// there is nothing to hand out.
    pub fn into_outcome(self) -> (r: Option<Result<PhysicalWled, WledControllerError>>)
        ensures
            match self.spec_phase() {
                Phase::Ready => r == Some(
                    Ok::<PhysicalWled, WledControllerError>(self.fixture()),
                ),
                Phase::Failed => r == Some(
                    Err::<PhysicalWled, WledControllerError>(self.failure()),
                ),
                _ => r is None,
            },
    {
        match self.stage {
            Stage::Ready(wled) => Some(Ok(wled)),
            Stage::Failed(e) => Some(Err(e)),
            _ => None,
        }
    }
}

/// No step resizes the buffer: if the fixture inside a bring-up has one sample
/// for each pixel before a step, it has so after it, and its buffer is the same
/// once it has been made.
pub proof fn lemma_step_keeps_buffer(before: BringUp, event: BringUpEvent, after: BringUp)
    requires
        before.steps_to(event, after),
        before.buffer_is_sized(),
    ensures
        after.buffer_is_sized(),
        before.spec_phase() == Phase::DiscoveringSegments && after.spec_phase() == Phase::Ready
            ==> after.fixture().buffer == before.fixture().buffer,
{
}

/// A bring-up that has ended takes no further step: whatever is reported to
/// it, it stays as it is, and nothing more is due.
pub proof fn lemma_ended_bring_up_stays(before: BringUp, event: BringUpEvent, after: BringUp)
    requires
        before.steps_to(event, after),
        action_due(before.spec_phase()) == BringUpAction::Finish,
    ensures
        after == before,
{
}

/// A step leads to a fixture that is ready only from the discovery of
/// segments, and only if the reports give a segment table: there is no other
/// way to a fixture.
pub proof fn lemma_ready_only_after_discovery(
    before: BringUp,
    event: BringUpEvent,
    after: BringUp,
)
    requires
        before.steps_to(event, after),
        before.spec_phase() != Phase::Ready,
        after.spec_phase() == Phase::Ready,
    ensures
        before.spec_phase() == Phase::DiscoveringSegments,
        event matches BringUpEvent::SegmentsFetched(info, state) && discovery_error(info, state)
            is None,
{
}

} // verus!
