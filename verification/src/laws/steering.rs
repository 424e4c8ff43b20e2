//! The control API and the signals that it sends.

use vstd::prelude::*;

use crate::control::ControlSignals;
use crate::fields::TextMap;
use crate::server::{AppState, ControlRequest, ControlResponse};

verus! {

broadcast use vstd::string::group_string_axioms;

/// A skip that was asked for is found once, and only where it was asked for.
pub proof fn law_a_skip_is_found_once(
    asking: &mut ControlSignals,
    first: &mut ControlSignals,
    skip: bool,
    second: &mut ControlSignals,
    again: bool,
)
    requires
        call_ensures(ControlSignals::request_skip, (asking,), ()),
        *old(first) == *final(asking),
        call_ensures(ControlSignals::take_skip, (first,), skip),
        *old(second) == *final(first),
        call_ensures(ControlSignals::take_skip, (second,), again),
    ensures
        skip,
        !again,
        final(second)@.overrides == old(asking)@.overrides,
{
}

/// Nothing is pending at the start.
pub proof fn law_nothing_is_pending_at_the_start(
    signals: &mut ControlSignals,
    skip: bool,
    meta: Option<TextMap>,
)
    requires
        call_ensures(ControlSignals::new, (), *old(signals)),
    ensures
        call_ensures(ControlSignals::take_skip, (signals,), skip) ==> !skip,
        call_ensures(ControlSignals::take_metadata_override, (signals,), meta) ==> meta is None,
{
}

/// What was set is what is taken, name by name, with anything that was pending
/// before under other names; and it is taken once.
pub proof fn law_an_override_is_taken_as_it_was_set(
    setting: &mut ControlSignals,
    meta: TextMap,
    name: Seq<char>,
    first: &mut ControlSignals,
    taken: Option<TextMap>,
    second: &mut ControlSignals,
    again: Option<TextMap>,
)
    requires
        call_ensures(ControlSignals::set_metadata_override, (setting, meta), ()),
        *old(first) == *final(setting),
        call_ensures(ControlSignals::take_metadata_override, (first,), taken),
        *old(second) == *final(first),
        call_ensures(ControlSignals::take_metadata_override, (second,), again),
    ensures
        meta@.dom().contains(name) ==> taken is Some && taken->Some_0@.dom().contains(name)
            && taken->Some_0@[name] == meta@[name],
        !meta@.dom().contains(name) && old(setting)@.overrides.dom().contains(name) ==> taken
            is Some && taken->Some_0@.dom().contains(name) && taken->Some_0@[name] == old(setting)@.overrides[name],
        !meta@.dom().contains(name) && !old(setting)@.overrides.dom().contains(name) ==> taken
            is None || !taken->Some_0@.dom().contains(name),
        again is None,
        final(second)@.skip == old(setting)@.skip,
{
    let pending = old(setting)@.overrides.union_prefer_right(meta@);
    assert(final(setting)@.overrides == pending);
    assert(pending.dom().contains(name) <==> meta@.dom().contains(name) || old(setting)@.overrides.dom().contains(name));
    if taken is None {
        assert(!Map::<Seq<char>, Seq<char>>::empty().dom().contains(name));
        assert(old(first)@.overrides == pending);
    }
}

/// The key opens the API and nothing else does: a request with the right key is
/// never turned away, one without it always is, and the liveness probe needs
/// none.
pub proof fn law_the_key_opens_the_api(
    state: &mut AppState,
    request: ControlRequest,
    key: Option<String>,
    response: ControlResponse,
)
    requires
        call_ensures(AppState::handle, (state, request, &key), response),
    ensures
        key is Some && key->Some_0@ == old(state).control_api_key@ ==> response.status != 401,
        request !is Health && (key is None || key->Some_0@ != old(state).control_api_key@) ==> {
            &&& response.status == 401
            &&& response.body is Unauthorized
            &&& !response.disconnect_live
            &&& *final(state) == *old(state)
        },
        request is Health ==> response.status == 200 && response.body is Healthy && final(state).queues@ == old(state).queues@ && final(state).control@ == old(state).control@,
        final(state).control_api_key@ == old(state).control_api_key@,
        final(state).live@ == old(state).live@,
{
}

/// Only the right key passes.
pub proof fn law_only_the_right_key_passes(
    state: AppState,
    key: Option<String>,
    r: Result<(), ControlResponse>,
)
    requires
        call_ensures(AppState::require_api_key, (&state, &key), r),
    ensures
        r is Ok <==> key is Some && key->Some_0@ == state.control_api_key@,
        r is Err ==> r->Err_0.status == 401 && r->Err_0.body is Unauthorized
            && !r->Err_0.disconnect_live,
{
}

/// The request came with the right key.
pub open spec fn has_key(state: AppState, key: Option<String>) -> bool {
    key is Some && key->Some_0@ == state.control_api_key@
}

/// A skip over the API is pending afterwards, and nothing else changes.
pub proof fn law_the_api_skips(
    state: &mut AppState,
    key: Option<String>,
    response: ControlResponse,
)
    requires
        has_key(*old(state), key),
        call_ensures(AppState::handle, (state, ControlRequest::Skip, &key), response),
    ensures
        response.status == 200 && response.body is Done && !response.disconnect_live,
        final(state).control@.skip,
        final(state).control@.overrides == old(state).control@.overrides,
        final(state).queues@ == old(state).queues@,
{
}

/// A track that is pushed over the API is the last of its queue, and the queue
/// is not empty afterwards; an unknown queue is refused, and nothing changes.
pub proof fn law_the_api_queues(
    state: &mut AppState,
    key: Option<String>,
    queue: String,
    uri: String,
    response: ControlResponse,
    then: &mut AppState,
    asked: String,
    answer: ControlResponse,
)
    requires
        has_key(*old(state), key),
        call_ensures(
            AppState::handle,
            (state, ControlRequest::QueuePush { queue, uri }, &key),
            response,
        ),
        *old(then) == *final(state),
        asked@ == queue@,
        call_ensures(
            AppState::handle,
            (then, ControlRequest::QueueEmpty { queue: asked }, &key),
            answer,
        ),
    ensures
        queue@ == "requests"@ || queue@ == "interrupting_requests"@ ==> {
            &&& response.status == 200 && response.body is Done
            &&& answer.body is Empty && !answer.body->Empty_0
        },
        queue@ != "requests"@ && queue@ != "interrupting_requests"@ ==> {
            &&& response.status == 400 && response.body is Refused
            &&& final(state).queues@ == old(state).queues@
            &&& answer.body is Empty && answer.body->Empty_0
        },
        queue@ == "requests"@ ==> final(state).queues@.requests == old(state).queues@.requests.push(uri@) && final(state).queues@.interrupting == old(state).queues@.interrupting,
        queue@ == "interrupting_requests"@ ==> final(state).queues@.interrupting == old(state).queues@.interrupting.push(uri@) && final(state).queues@.requests == old(state).queues@.requests,
        answer.status == 200,
        final(state).control@ == old(state).control@,
        final(then).queues@ == old(then).queues@,
        !response.disconnect_live,
        !answer.disconnect_live,
{
    reveal_strlit("requests");
    reveal_strlit("interrupting_requests");
    assert("requests"@.len() == 8);
    assert("interrupting_requests"@.len() == 21);
}

/// Asking whether a queue is empty tells exactly that.
pub proof fn law_the_api_tells_whether_a_queue_is_empty(
    state: &mut AppState,
    key: Option<String>,
    queue: String,
    answer: ControlResponse,
)
    requires
        has_key(*old(state), key),
        call_ensures(
            AppState::handle,
            (state, ControlRequest::QueueEmpty { queue }, &key),
            answer,
        ),
    ensures
        answer.body is Empty,
        queue@ == "requests"@ ==> (answer.body->Empty_0 <==> old(state).queues@.requests.len()
            == 0),
        queue@ == "interrupting_requests"@ ==> (answer.body->Empty_0 <==> old(state).queues@.interrupting.len() == 0),
{
    reveal_strlit("requests");
    reveal_strlit("interrupting_requests");
    assert("requests"@.len() == 8);
    assert("interrupting_requests"@.len() == 21);
}

/// Metadata over the API is pending afterwards under its names, and what was
/// pending under other names still is.
pub proof fn law_the_api_overrides(
    state: &mut AppState,
    key: Option<String>,
    meta: TextMap,
    response: ControlResponse,
    name: Seq<char>,
)
    requires
        has_key(*old(state), key),
        call_ensures(AppState::handle, (state, ControlRequest::Metadata(meta), &key), response),
    ensures
        response.status == 200 && response.body is Done && !response.disconnect_live,
        meta@.dom().contains(name) ==> final(state).control@.overrides.dom().contains(name)
            && final(state).control@.overrides[name] == meta@[name],
        !meta@.dom().contains(name) ==> (final(state).control@.overrides.dom().contains(name)
            <==> old(state).control@.overrides.dom().contains(name)),
        !meta@.dom().contains(name) && old(state).control@.overrides.dom().contains(name)
            ==> final(state).control@.overrides[name] == old(state).control@.overrides[name],
        final(state).control@.skip == old(state).control@.skip,
        final(state).queues@ == old(state).queues@,
{
}

/// A streamer is disconnected exactly where there is one.
pub proof fn law_the_api_disconnects(
    state: &mut AppState,
    key: Option<String>,
    response: ControlResponse,
)
    requires
        has_key(*old(state), key),
        call_ensures(AppState::handle, (state, ControlRequest::StreamerDisconnect, &key), response),
    ensures
        response.status == 200 && response.body is Done,
        response.disconnect_live <==> old(state).live@.session is Some,
        final(state).queues@ == old(state).queues@,
        final(state).control@ == old(state).control@,
{
}

/// The live connection is closed for that request alone.
pub proof fn law_nothing_else_disconnects(
    state: &mut AppState,
    request: ControlRequest,
    key: Option<String>,
    response: ControlResponse,
)
    requires
        call_ensures(AppState::handle, (state, request, &key), response),
    ensures
        response.disconnect_live ==> request is StreamerDisconnect,
{
}

/// An engine starts with its key, and with nothing queued, pending or live.
pub proof fn law_an_engine_starts_idle(key: &str, state: AppState)
    requires
        call_ensures(AppState::new, (key,), state),
    ensures
        state.control_api_key@ == key@,
        state.queues@.requests.len() == 0,
        state.queues@.interrupting.len() == 0,
        !state.control@.skip,
        state.control@.overrides.dom() =~= Set::<Seq<char>>::empty(),
        !state.live@.ready,
        state.live@.session is None,
{
}

} // verus!
