//! The control API: who may use it, what each request does, and what it is
//! answered.

use vstd::prelude::*;

use crate::control::ControlSignals;
use crate::fields::TextMap;
use crate::harbor::LiveState;
use crate::queue::TrackQueues;
use crate::text::same_text;

verus! {

broadcast use vstd::string::group_string_axioms;

/// What the control API shares with the playback loop and the harbor.
#[derive(Debug)]
pub struct AppState {
    /// The key that every request but the liveness probe has to bring.
    pub control_api_key: String,
    pub queues: TrackQueues,
    pub control: ControlSignals,
    pub live: LiveState,
}

/// A request that has been routed.
#[derive(Debug)]
pub enum ControlRequest {
    /// `GET /health`
    Health,
    /// `POST /skip`
    Skip,
    /// `POST /queue/{queue}/push`
    QueuePush { queue: String, uri: String },
    /// `GET /queue/{queue}/empty`
    QueueEmpty { queue: String },
    /// `POST /metadata`
    Metadata(TextMap),
    /// `POST /streamer/disconnect`
    StreamerDisconnect,
}

/// The body of an answer.
#[derive(Debug)]
pub enum ControlBody {
    /// `{"status": "ok"}`
    Healthy,
    /// `{"ok": true}`
    Done,
    /// `{"ok": false, "error": ...}`
    Refused(String),
    /// `{"empty": ...}`
    Empty(bool),
    /// `{"error": "unauthorized"}`
    Unauthorized,
}

/// An answer.
#[derive(Debug)]
pub struct ControlResponse {
    pub status: u16,
    pub body: ControlBody,
    /// Whether the live connection is to be closed.
    pub disconnect_live: bool,
}

/// Whether a request may be carried out: the liveness probe always, anything
/// else with the right key only.
pub open spec fn is_authorized(
    key: Seq<char>,
    request: ControlRequest,
    provided: Option<Seq<char>>,
) -> bool {
    request is Health || provided == Some(key)
}

/// The answer to a request that may not be carried out.
pub open spec fn is_refusal(response: ControlResponse) -> bool {
    response.status == 401 && response.body is Unauthorized && !response.disconnect_live
}

/// What an authorized request does to the shared state, and its answer.
pub open spec fn carried_out(
    before: AppState,
    request: ControlRequest,
    after: AppState,
    response: ControlResponse,
) -> bool {
    &&& after.control_api_key@ == before.control_api_key@
    &&& after.live@ == before.live@
    &&& match request {
        ControlRequest::Health => {
            &&& response.status == 200 && response.body is Healthy && !response.disconnect_live
            &&& after.queues@ == before.queues@ && after.control@ == before.control@
        },
        ControlRequest::Skip => {
            &&& response.status == 200 && response.body is Done && !response.disconnect_live
            &&& after.control@.skip
            &&& after.control@.overrides == before.control@.overrides
            &&& after.queues@ == before.queues@
        },
        ControlRequest::QueuePush { queue, uri } => {
            &&& !response.disconnect_live
            &&& after.queues@ == crate::queue::pushed(before.queues@, queue@, uri@)
            &&& after.control@ == before.control@
            &&& if crate::queue::is_queue(queue@) {
                response.status == 200 && response.body is Done
            } else {
                &&& response.status == 400
                &&& response.body matches ControlBody::Refused(e)
                &&& e@ == "unknown queue '"@ + queue@ + "'"@
            }
        },
        ControlRequest::QueueEmpty { queue } => {
            &&& response.status == 200 && !response.disconnect_live
            &&& response.body matches ControlBody::Empty(empty)
            &&& empty == if queue@ == crate::queue::QUEUE_REQUESTS@ {
                before.queues@.requests.len() == 0
            } else if queue@ == crate::queue::QUEUE_INTERRUPTING@ {
                before.queues@.interrupting.len() == 0
            } else {
                true
            }
            &&& after.queues@ == before.queues@ && after.control@ == before.control@
        },
        ControlRequest::Metadata(meta) => {
            &&& response.status == 200 && response.body is Done && !response.disconnect_live
            &&& after.control@.overrides == before.control@.overrides.union_prefer_right(meta@)
            &&& after.control@.skip == before.control@.skip
            &&& after.queues@ == before.queues@
        },
        ControlRequest::StreamerDisconnect => {
            &&& response.status == 200 && response.body is Done
            &&& response.disconnect_live == before.live@.session is Some
            &&& after.queues@ == before.queues@ && after.control@ == before.control@
        },
    }
}

/// What a request does to the shared state, and its answer: without the right
/// key, nothing.
pub open spec fn handled(
    before: AppState,
    request: ControlRequest,
    provided: Option<Seq<char>>,
    after: AppState,
    response: ControlResponse,
) -> bool {
    if is_authorized(before.control_api_key@, request, provided) {
        carried_out(before, request, after, response)
    } else {
        &&& is_refusal(response)
        &&& after == before
    }
}

impl AppState {
    /// Nothing is queued, nothing is pending, and nobody is live.
    pub fn new(control_api_key: &str) -> (state: AppState)
        ensures
            state.control_api_key@ == control_api_key@,
            state.queues@.requests == Seq::<Seq<char>>::empty(),
            state.queues@.interrupting == Seq::<Seq<char>>::empty(),
            !state.control@.skip,
            state.control@.overrides == Map::<Seq<char>, Seq<char>>::empty(),
            state.live@ == crate::harbor::nobody_live(),
    {
        AppState {
            control_api_key: control_api_key.to_owned(),
            queues: TrackQueues::new(),
            control: ControlSignals::new(),
            live: LiveState::new(),
        }
    }

    /// Turns a request away that came without the right key.
    pub fn require_api_key(&self, provided: &Option<String>) -> (r: Result<(), ControlResponse>)
        ensures
            match r {
                Ok(_) => crate::text::opt_view(*provided) == Some(self.control_api_key@),
                Err(response) => {
                    &&& crate::text::opt_view(*provided) != Some(self.control_api_key@)
                    &&& is_refusal(response)
                },
            },
    {
        let right = match provided {
            Some(key) => same_text(key.as_str(), self.control_api_key.as_str()),
            None => false,
        };
        if right {
            Ok(())
        } else {
            Err(
                ControlResponse {
                    status: 401,
                    body: ControlBody::Unauthorized,
                    disconnect_live: false,
                },
            )
        }
    }

    /// Handles a request that came with this key, or with none.
    pub fn handle(&mut self, request: ControlRequest, provided: &Option<String>) -> (response:
        ControlResponse)
        ensures
            handled(
                *old(self),
                request,
                crate::text::opt_view(*provided),
                *final(self),
                response,
            ),
    {
        if !matches!(request, ControlRequest::Health) {
            if let Err(response) = self.require_api_key(provided) {
                return response;
            }
        }
        match request {
            ControlRequest::Health => ControlResponse {
                status: 200,
                body: ControlBody::Healthy,
                disconnect_live: false,
            },
            ControlRequest::Skip => {
                self.control.request_skip();
                ControlResponse { status: 200, body: ControlBody::Done, disconnect_live: false }
            },
            ControlRequest::QueuePush { queue, uri } => match self.queues.push(
                queue.as_str(),
                uri,
            ) {
                Ok(_) => ControlResponse {
                    status: 200,
                    body: ControlBody::Done,
                    disconnect_live: false,
                },
                Err(e) => ControlResponse {
                    status: 400,
                    body: ControlBody::Refused(e),
                    disconnect_live: false,
                },
            },
            ControlRequest::QueueEmpty { queue } => ControlResponse {
                status: 200,
                body: ControlBody::Empty(self.queues.is_empty(queue.as_str())),
                disconnect_live: false,
            },
            ControlRequest::Metadata(meta) => {
                self.control.set_metadata_override(meta);
                ControlResponse { status: 200, body: ControlBody::Done, disconnect_live: false }
            },
            ControlRequest::StreamerDisconnect => ControlResponse {
                status: 200,
                body: ControlBody::Done,
                disconnect_live: self.live.force_disconnect(),
            },
        }
    }
}

/// A request without the right key is answered 401 and changes nothing; only
/// the liveness probe needs no key.
pub proof fn law_requests_without_the_key_change_nothing(
    before: AppState,
    request: ControlRequest,
    provided: Option<Seq<char>>,
    after: AppState,
    response: ControlResponse,
)
    requires
        handled(before, request, provided, after, response),
        provided != Some(before.control_api_key@),
    ensures
        request is Health ==> response.status == 200,
        request !is Health ==> response.status == 401 && !response.disconnect_live,
        after.queues@ == before.queues@,
        after.control@ == before.control@,
        after.live@ == before.live@,
{
}

} // verus!
