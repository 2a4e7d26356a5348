//! How the connection of a listener is made: which call comes next, and what a failed one
//! means.

use crate::text::joined;
use crate::web::monitor::{MonitorError, MonitorFault};
use vstd::prelude::*;

verus! {

/// What is to be done next for an offer.
#[derive(Clone, Copy, Debug, PartialEq, Eq, Structural)]
pub enum OfferStep {
    /// Make the connection.
    Connect,
    /// Make the track that carries the output.
    MakeTrack,
    /// Put the track on the connection.
    AddTrack,
    /// Read the offer.
    ReadOffer,
    /// Set the offer as what the other side wants.
    SetRemote,
    /// Make the answer.
    CreateAnswer,
    /// Set the answer as what this side wants.
    SetLocal,
    /// Wait for the candidates of this side, for a while.
    Gather,
    /// Ask the connection for the answer with its candidates.
    Describe,
}

/// How the call of a step went.
#[derive(Debug, PartialEq, Eq)]
pub enum OfferEvent {
    Done,
    Failed { reason: String },
    /// What the connection says of this side.
    Described { sdp: Option<String> },
}

/// What an `OfferEvent` says.
#[verifier::ext_equal]
pub enum OfferEventModel {
    Done,
    Failed { reason: Seq<char> },
    Described { sdp: Option<Seq<char>> },
}

impl View for OfferEvent {
    type V = OfferEventModel;

    open spec fn view(&self) -> OfferEventModel {
        match *self {
            OfferEvent::Done => OfferEventModel::Done,
            OfferEvent::Failed { reason } => OfferEventModel::Failed { reason: reason@ },
            OfferEvent::Described { sdp } => OfferEventModel::Described {
                sdp: match sdp {
                    Some(sdp) => Some(sdp@),
                    None => None,
                },
            },
        }
    }
}

/// What an offer has come to.
#[derive(Debug, PartialEq, Eq)]
pub enum OfferProgress {
    /// There is more to do.
    Continue(OfferStep),
    /// The listener gets this answer.
    Answered { sdp: String },
}

/// What an `OfferProgress` says.
#[verifier::ext_equal]
pub enum OfferProgressModel {
    Continue(OfferStep),
    Answered { sdp: Seq<char> },
}

impl View for OfferProgress {
    type V = OfferProgressModel;

    open spec fn view(&self) -> OfferProgressModel {
        match *self {
            OfferProgress::Continue(step) => OfferProgressModel::Continue(step),
            OfferProgress::Answered { sdp } => OfferProgressModel::Answered { sdp: sdp@ },
        }
    }
}

/// The step behind a step.
pub open spec fn step_behind(step: OfferStep) -> OfferStep {
    match step {
        OfferStep::Connect => OfferStep::MakeTrack,
        OfferStep::MakeTrack => OfferStep::AddTrack,
        OfferStep::AddTrack => OfferStep::ReadOffer,
        OfferStep::ReadOffer => OfferStep::SetRemote,
        OfferStep::SetRemote => OfferStep::CreateAnswer,
        OfferStep::CreateAnswer => OfferStep::SetLocal,
        OfferStep::SetLocal => OfferStep::Gather,
        OfferStep::Gather => OfferStep::Describe,
        OfferStep::Describe => OfferStep::Describe,
    }
}

/// How many steps are left after a step.
pub open spec fn steps_left(step: OfferStep) -> nat {
    match step {
        OfferStep::Connect => 8,
        OfferStep::MakeTrack => 7,
        OfferStep::AddTrack => 6,
        OfferStep::ReadOffer => 5,
        OfferStep::SetRemote => 4,
        OfferStep::CreateAnswer => 3,
        OfferStep::SetLocal => 2,
        OfferStep::Gather => 1,
        OfferStep::Describe => 0,
    }
}

/// What is said when the call of a step fails, before the reason.
pub open spec fn failure_text(step: OfferStep) -> Seq<char> {
    match step {
        OfferStep::Connect => "创建 PeerConnection 失败: "@,
        OfferStep::MakeTrack => "创建音轨失败: "@,
        OfferStep::AddTrack => "add_track 失败: "@,
        OfferStep::ReadOffer => "offer SDP 无效: "@,
        OfferStep::SetRemote => "set_remote_description 失败: "@,
        OfferStep::CreateAnswer => "create_answer 失败: "@,
        OfferStep::SetLocal => "set_local_description 失败: "@,
        OfferStep::Gather => ""@,
        OfferStep::Describe => ""@,
    }
}

/// What becomes of an offer when the call of a step went so. Candidates that do not come in
/// time are done without; an event that does not answer the step leaves the step to be done.
pub open spec fn offer_next(step: OfferStep, event: OfferEventModel) -> Result<
    OfferProgressModel,
    MonitorFault,
> {
    match (step, event) {
        (OfferStep::Gather, _) => Ok(OfferProgressModel::Continue(OfferStep::Describe)),
        (OfferStep::Describe, OfferEventModel::Described { sdp: Some(sdp) }) => Ok(
            OfferProgressModel::Answered { sdp },
        ),
        (OfferStep::Describe, OfferEventModel::Described { sdp: None }) => Err(
            MonitorFault::Internal("local description 缺失"@),
        ),
        (OfferStep::Describe, _) => Ok(OfferProgressModel::Continue(OfferStep::Describe)),
        (_, OfferEventModel::Done) => Ok(OfferProgressModel::Continue(step_behind(step))),
        (_, OfferEventModel::Failed { reason }) => Err(
            MonitorFault::Internal(failure_text(step) + reason),
        ),
        (_, OfferEventModel::Described { .. }) => Ok(OfferProgressModel::Continue(step)),
    }
}

/// What is said when the call of a step fails, before the reason.
fn told_of(step: OfferStep) -> (text: &'static str)
    ensures
        text@ == failure_text(step),
{
    match step {
        OfferStep::Connect => "创建 PeerConnection 失败: ",
        OfferStep::MakeTrack => "创建音轨失败: ",
        OfferStep::AddTrack => "add_track 失败: ",
        OfferStep::ReadOffer => "offer SDP 无效: ",
        OfferStep::SetRemote => "set_remote_description 失败: ",
        OfferStep::CreateAnswer => "create_answer 失败: ",
        OfferStep::SetLocal => "set_local_description 失败: ",
        OfferStep::Gather => "",
        OfferStep::Describe => "",
    }
}

/// The step behind a step.
fn behind(step: OfferStep) -> (next: OfferStep)
    ensures
        next == step_behind(step),
{
    match step {
        OfferStep::Connect => OfferStep::MakeTrack,
        OfferStep::MakeTrack => OfferStep::AddTrack,
        OfferStep::AddTrack => OfferStep::ReadOffer,
        OfferStep::ReadOffer => OfferStep::SetRemote,
        OfferStep::SetRemote => OfferStep::CreateAnswer,
        OfferStep::CreateAnswer => OfferStep::SetLocal,
        OfferStep::SetLocal => OfferStep::Gather,
        OfferStep::Gather => OfferStep::Describe,
        OfferStep::Describe => OfferStep::Describe,
    }
}

/// Goes on after the call of a step, or says why the listener gets no answer.
pub fn advance_offer(step: OfferStep, event: OfferEvent) -> (result: Result<
    OfferProgress,
    MonitorError,
>)
    ensures
        match result {
            Ok(progress) => offer_next(step, event@) == Ok::<OfferProgressModel, MonitorFault>(
                progress@,
            ),
            Err(error) => offer_next(step, event@) == Err::<OfferProgressModel, MonitorFault>(
                error@,
            ),
        },
{
    match (step, event) {
        (OfferStep::Gather, _) => Ok(OfferProgress::Continue(OfferStep::Describe)),
        (OfferStep::Describe, OfferEvent::Described { sdp: Some(sdp) }) => Ok(
            OfferProgress::Answered { sdp },
        ),
        (OfferStep::Describe, OfferEvent::Described { sdp: None }) => Err(
            MonitorError::Internal("local description 缺失".to_owned()),
        ),
        (OfferStep::Describe, _) => Ok(OfferProgress::Continue(OfferStep::Describe)),
        (step, OfferEvent::Done) => Ok(OfferProgress::Continue(behind(step))),
        (step, OfferEvent::Failed { reason }) => Err(
            MonitorError::Internal(joined(told_of(step), reason.as_str())),
        ),
        (step, OfferEvent::Described { .. }) => Ok(OfferProgress::Continue(step)),
    }
}

/// The error for a candidate that the connection does not take.
pub fn candidate_refused(reason: &str) -> (error: MonitorError)
    ensures
        error@ == MonitorFault::Internal("add_ice_candidate 失败: "@ + reason@),
{
    MonitorError::Internal(joined("add_ice_candidate 失败: ", reason))
}

/// An offer whose calls are all done comes one step nearer to its answer with each.
pub proof fn law_offer_progresses(step: OfferStep)
    requires
        step != OfferStep::Describe,
    ensures
        offer_next(step, OfferEventModel::Done) == Ok::<OfferProgressModel, MonitorFault>(
            OfferProgressModel::Continue(step_behind(step)),
        ),
        steps_left(step_behind(step)) + 1 == steps_left(step),
{
}

/// An answer is what the connection says of this side, and nothing else is.
pub proof fn law_answer_is_the_description(step: OfferStep, event: OfferEventModel, sdp: Seq<char>)
    ensures
        offer_next(step, event) == Ok::<OfferProgressModel, MonitorFault>(
            OfferProgressModel::Answered { sdp },
        ) <==> step == OfferStep::Describe && event == (OfferEventModel::Described {
            sdp: Some(sdp),
        }),
{
}

} // verus!
