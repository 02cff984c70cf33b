//! The authentication loop as a state machine: from its state and what
//! happened last, it decides what the loop does next. The loop that reads,
//! sends and calls the entitlement service runs this machine, one request at
//! a time.

use vstd::prelude::*;
use crate::engine::{
    AuthConfig, Pending, PendingView, Step, StepView, conclude, decide, handle_message, verdict,
};
use crate::frames::{
    Frame, frame_views, response_frames, response_layout, has_request_id, envelope_of, body_start,
};
use crate::policy::{ServiceReply, reply_grants};

verus! {

/// Where the loop stands.
pub enum LoopState {
    /// Waiting for the next request.
    AwaitRequest,
    /// Waiting for the entitlement service's answer about this request.
    AwaitService(Pending),
}

/// What happened since the last decision.
pub enum LoopEvent {
    /// A whole message was read off the channel.
    Received(Vec<Frame>),
    /// Reading off the channel failed.
    ReadFailed,
    /// The entitlement service answered.
    ServiceAnswered(ServiceReply),
    /// The entitlement service could not be reached, timed out, or gave an
    /// answer that is not a JSON object.
    ServiceFailed,
}

/// Why the loop ends.
#[derive(PartialEq, Eq, Structural, Clone, Copy, Debug)]
pub enum Fault {
    /// The channel failed: its framing can no longer be trusted.
    Transport,
    /// The entitlement service failed. This is not a verdict, and the
    /// request is not answered "Unknown Key": the loop ends (fail closed).
    ServiceUnavailable,
    /// An event came that the state does not wait for.
    OutOfTurn,
}

/// What the loop does next.
pub enum LoopAction {
    /// Read the next message.
    ReadNext,
    /// Send these frames, then read the next message.
    Send(Vec<Frame>),
    /// Ask the entitlement service about this encoded key.
    AskService(Vec<u8>),
    /// End the loop.
    Stop(Fault),
}

pub enum StateView {
    AwaitRequest,
    AwaitService(PendingView),
}

pub enum ActionView {
    ReadNext,
    Send(Seq<(Seq<u8>, bool)>),
    AskService(Seq<u8>),
    Stop(Fault),
}

impl View for LoopState {
    type V = StateView;

    open spec fn view(&self) -> StateView {
        match self {
            LoopState::AwaitRequest => StateView::AwaitRequest,
            LoopState::AwaitService(p) => StateView::AwaitService(p@),
        }
    }
}

impl View for LoopAction {
    type V = ActionView;

    open spec fn view(&self) -> ActionView {
        match self {
            LoopAction::ReadNext => ActionView::ReadNext,
            LoopAction::Send(f) => ActionView::Send(frame_views(f@)),
            LoopAction::AskService(k) => ActionView::AskService(k@),
            LoopAction::Stop(e) => ActionView::Stop(*e),
        }
    }
}

/// The next state and action of the loop, given the configuration, the
/// state, and the event.
pub open spec fn transition(
    allow_list: Seq<u8>,
    required: Seq<char>,
    s: StateView,
    e: LoopEvent,
) -> (StateView, ActionView) {
    match e {
        LoopEvent::ReadFailed => (StateView::AwaitRequest, ActionView::Stop(Fault::Transport)),
        LoopEvent::Received(frames) => match s {
            StateView::AwaitRequest => match decide(allow_list, frames@) {
                StepView::Ignore => (StateView::AwaitRequest, ActionView::ReadNext),
                StepView::Respond(r) => (
                    StateView::AwaitRequest,
                    ActionView::Send(response_layout(r)),
                ),
                StepView::Consult(p) => (
                    StateView::AwaitService(p),
                    ActionView::AskService(p.key_text),
                ),
            },
            StateView::AwaitService(_) => (
                StateView::AwaitRequest,
                ActionView::Stop(Fault::OutOfTurn),
            ),
        },
        LoopEvent::ServiceAnswered(reply) => match s {
            StateView::AwaitService(p) => (
                StateView::AwaitRequest,
                ActionView::Send(
                    response_layout(
                        verdict(p.envelope, p.request_id, p.key_text, reply_grants(reply, required)),
                    ),
                ),
            ),
            StateView::AwaitRequest => (
                StateView::AwaitRequest,
                ActionView::Stop(Fault::OutOfTurn),
            ),
        },
        LoopEvent::ServiceFailed => match s {
            StateView::AwaitService(_) => (
                StateView::AwaitRequest,
                ActionView::Stop(Fault::ServiceUnavailable),
            ),
            StateView::AwaitRequest => (
                StateView::AwaitRequest,
                ActionView::Stop(Fault::OutOfTurn),
            ),
        },
    }
}

/// Takes the loop one step: from its state and the event, the next state and
/// what to do.
pub fn advance(config: &AuthConfig, state: LoopState, event: LoopEvent) -> (r: (
    LoopState,
    LoopAction,
))
    ensures
        (r.0@, r.1@) == transition(
            config.allow_list@,
            config.required_service_name@,
            state@,
            event,
        ),
{
    match event {
        LoopEvent::ReadFailed => (LoopState::AwaitRequest, LoopAction::Stop(Fault::Transport)),
        LoopEvent::Received(frames) => match state {
            LoopState::AwaitRequest => match handle_message(config, &frames) {
                Step::Ignore => (LoopState::AwaitRequest, LoopAction::ReadNext),
                Step::Respond(resp) => (
                    LoopState::AwaitRequest,
                    LoopAction::Send(response_frames(resp)),
                ),
                Step::Consult(p) => {
                    let key = crate::frames::copy_bytes(&p.key_text);
                    (LoopState::AwaitService(p), LoopAction::AskService(key))
                },
            },
            LoopState::AwaitService(_) => (
                LoopState::AwaitRequest,
                LoopAction::Stop(Fault::OutOfTurn),
            ),
        },
        LoopEvent::ServiceAnswered(reply) => match state {
            LoopState::AwaitService(p) => {
                let resp = conclude(p, config, &reply);
                (LoopState::AwaitRequest, LoopAction::Send(response_frames(resp)))
            },
            LoopState::AwaitRequest => (
                LoopState::AwaitRequest,
                LoopAction::Stop(Fault::OutOfTurn),
            ),
        },
        LoopEvent::ServiceFailed => match state {
            LoopState::AwaitService(_) => (
                LoopState::AwaitRequest,
                LoopAction::Stop(Fault::ServiceUnavailable),
            ),
            LoopState::AwaitRequest => (
                LoopState::AwaitRequest,
                LoopAction::Stop(Fault::OutOfTurn),
            ),
        },
    }
}


/// A failed read ends the loop, in every state, and nothing is sent for the
/// request in flight.
pub proof fn lemma_read_failure_stops(allow_list: Seq<u8>, required: Seq<char>, s: StateView)
    ensures
        transition(allow_list, required, s, LoopEvent::ReadFailed).1 == ActionView::Stop(
            Fault::Transport,
        ),
{
}

/// The loop serves one request at a time: after it sends an answer or drops
/// a message it waits for the next request, and a message that arrives while
/// a request waits for the entitlement service is not taken up.
pub proof fn lemma_one_request_at_a_time(
    allow_list: Seq<u8>,
    required: Seq<char>,
    s: StateView,
    e: LoopEvent,
)
    ensures
        ({
            let (next, action) = transition(allow_list, required, s, e);
            (action is ReadNext || action is Send) ==> (next is AwaitRequest)
        }),
        (s is AwaitService && e is Received) ==> (transition(allow_list, required, s, e).1 is Stop),
{
}

/// Each request is answered before the next is read, and its answer echoes
/// its own envelope and request id: answered at once, or after the
/// entitlement service's reply.
pub proof fn lemma_answer_echoes_request(
    allow_list: Seq<u8>,
    required: Seq<char>,
    frames: Vec<Frame>,
    reply: ServiceReply,
)
    requires
        has_request_id(frames@),
    ensures
        ({
            let f = frames@;
            let (s1, a1) = transition(
                allow_list,
                required,
                StateView::AwaitRequest,
                LoopEvent::Received(frames),
            );
            let (s2, a2) = transition(allow_list, required, s1, LoopEvent::ServiceAnswered(reply));
            match decide(allow_list, f) {
                StepView::Respond(r) => {
                    &&& r.envelope == envelope_of(f)
                    &&& r.request_id == f[body_start(f) + 1].data@
                    &&& a1 == ActionView::Send(response_layout(r))
                    &&& s1 is AwaitRequest
                },
                StepView::Consult(p) => {
                    &&& p.envelope == envelope_of(f)
                    &&& p.request_id == f[body_start(f) + 1].data@
                    &&& a1 == ActionView::AskService(p.key_text)
                    &&& a2 == ActionView::Send(
                        response_layout(
                            verdict(
                                envelope_of(f),
                                f[body_start(f) + 1].data@,
                                p.key_text,
                                reply_grants(reply, required),
                            ),
                        ),
                    )
                    &&& s2 is AwaitRequest
                },
                StepView::Ignore => false,
            }
        }),
{
}

} // verus!
