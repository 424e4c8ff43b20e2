use azuracast_engine::control::ControlSignals;
use azuracast_engine::fields::TextMap;
use azuracast_engine::queue::{TrackQueues, QUEUE_INTERRUPTING, QUEUE_REQUESTS};
use azuracast_engine::server::{AppState, ControlBody, ControlRequest};

#[test]
fn skip_round_trips_once() {
    let mut signals = ControlSignals::new();
    assert!(!signals.take_skip());
    signals.request_skip();
    assert!(signals.take_skip());
    // One-shot: a second check without a new request sees nothing.
    assert!(!signals.take_skip());
}

#[test]
fn metadata_override_merges_and_is_consumed_once() {
    let mut signals = ControlSignals::new();
    assert!(signals.take_metadata_override().is_none());

    let mut first = TextMap::new();
    first.insert("title".to_string(), "A".to_string());
    signals.set_metadata_override(first);

    let mut second = TextMap::new();
    second.insert("artist".to_string(), "B".to_string());
    second.insert("title".to_string(), "C".to_string()); // overwrites "A"
    signals.set_metadata_override(second);

    let pending = signals.take_metadata_override().unwrap();
    assert_eq!(pending.get("title"), Some("C"));
    assert_eq!(pending.get("artist"), Some("B"));
    assert_eq!(pending.len(), 2);

    // Consumed: nothing left pending.
    assert!(signals.take_metadata_override().is_none());
}

#[test]
fn skip_and_override_do_not_disturb_each_other() {
    let mut signals = ControlSignals::new();
    signals.request_skip();
    let mut meta = TextMap::new();
    meta.insert("title".to_string(), "T".to_string());
    signals.set_metadata_override(meta);
    assert!(signals.take_skip());
    assert_eq!(signals.take_metadata_override().unwrap().get("title"), Some("T"));
}

#[test]
fn interrupting_beats_requests() {
    let mut q = TrackQueues::new();
    q.push(QUEUE_REQUESTS, "a.mp3".to_string()).unwrap();
    q.push(QUEUE_INTERRUPTING, "b.mp3".to_string()).unwrap();
    assert_eq!(q.pop_next(), Some("b.mp3".to_string()));
    assert_eq!(q.pop_next(), Some("a.mp3".to_string()));
    assert_eq!(q.pop_next(), None);
}

#[test]
fn unknown_queue_rejected() {
    let mut q = TrackQueues::new();
    assert!(q.push("bogus", "x".to_string()).is_err());
}

#[test]
fn queues_are_first_in_first_out() {
    let mut q = TrackQueues::new();
    for uri in ["a", "b", "c"] {
        q.push(QUEUE_REQUESTS, uri.to_string()).unwrap();
    }
    assert_eq!(q.pop_requests().as_deref(), Some("a"));
    q.push(QUEUE_REQUESTS, "d".to_string()).unwrap();
    assert_eq!(q.pop_requests().as_deref(), Some("b"));
    assert_eq!(q.pop_requests().as_deref(), Some("c"));
    assert_eq!(q.pop_interrupting(), None);
    assert_eq!(q.pop_requests().as_deref(), Some("d"));
    assert_eq!(q.pop_requests(), None);
}

#[test]
fn queue_names_and_emptiness() {
    assert_eq!(QUEUE_REQUESTS, "requests");
    assert_eq!(QUEUE_INTERRUPTING, "interrupting_requests");
    let mut q = TrackQueues::new();
    assert!(q.is_empty(QUEUE_REQUESTS));
    assert!(q.is_empty(QUEUE_INTERRUPTING));
    assert_eq!(q.push("bogus", "x".to_string()), Err("unknown queue 'bogus'".to_string()));
    assert!(q.is_empty("bogus"));
    q.push(QUEUE_INTERRUPTING, "x".to_string()).unwrap();
    assert!(q.is_empty(QUEUE_REQUESTS));
    assert!(!q.is_empty(QUEUE_INTERRUPTING));
}

fn key(k: &str) -> Option<String> {
    Some(k.to_string())
}

#[test]
fn requests_without_the_key_are_refused_and_change_nothing() {
    let mut state = AppState::new("secret");
    for provided in [None, key("wrong"), key("")] {
        let r = state.handle(ControlRequest::Skip, &provided);
        assert_eq!(r.status, 401);
        assert!(matches!(r.body, ControlBody::Unauthorized));
        assert!(!r.disconnect_live);
        let r = state.handle(
            ControlRequest::QueuePush { queue: "requests".to_string(), uri: "u".to_string() },
            &provided,
        );
        assert_eq!(r.status, 401);
    }
    assert!(!state.control.take_skip());
    assert!(state.queues.is_empty(QUEUE_REQUESTS));
}

#[test]
fn the_liveness_probe_needs_no_key() {
    let mut state = AppState::new("secret");
    let r = state.handle(ControlRequest::Health, &None);
    assert_eq!(r.status, 200);
    assert!(matches!(r.body, ControlBody::Healthy));
}

#[test]
fn control_requests_do_what_they_say() {
    let mut state = AppState::new("secret");
    let k = key("secret");

    assert_eq!(state.handle(ControlRequest::Skip, &k).status, 200);
    assert!(state.control.take_skip());

    let r = state.handle(
        ControlRequest::QueuePush { queue: "requests".to_string(), uri: "u".to_string() },
        &k,
    );
    assert_eq!(r.status, 200);
    let r = state.handle(ControlRequest::QueueEmpty { queue: "requests".to_string() }, &k);
    assert!(matches!(r.body, ControlBody::Empty(false)));
    let r = state.handle(ControlRequest::QueueEmpty { queue: "bogus".to_string() }, &k);
    assert!(matches!(r.body, ControlBody::Empty(true)));
    assert_eq!(state.queues.pop_next().as_deref(), Some("u"));

    let r = state.handle(
        ControlRequest::QueuePush { queue: "bogus".to_string(), uri: "u".to_string() },
        &k,
    );
    assert_eq!(r.status, 400);
    match r.body {
        ControlBody::Refused(e) => assert_eq!(e, "unknown queue 'bogus'"),
        other => panic!("unexpected body {other:?}"),
    }

    let mut meta = TextMap::new();
    meta.insert("title".to_string(), "T".to_string());
    assert_eq!(state.handle(ControlRequest::Metadata(meta), &k).status, 200);
    assert_eq!(state.control.take_metadata_override().unwrap().get("title"), Some("T"));
}

#[test]
fn disconnect_is_always_answered_200() {
    let mut state = AppState::new("secret");
    let k = key("secret");
    let r = state.handle(ControlRequest::StreamerDisconnect, &k);
    assert_eq!(r.status, 200);
    assert!(!r.disconnect_live);
    state.live.set_session("dj".to_string(), "DJ".to_string());
    let r = state.handle(ControlRequest::StreamerDisconnect, &k);
    assert_eq!(r.status, 200);
    assert!(r.disconnect_live);
}

#[test]
fn text_maps_keep_one_value_per_name() {
    let mut map = TextMap::new();
    assert!(map.is_empty());
    map.insert("a".to_string(), "1".to_string());
    map.insert("b".to_string(), "2".to_string());
    map.insert("a".to_string(), "3".to_string());
    assert_eq!(map.len(), 2);
    assert_eq!(map.get("a"), Some("3"));
    assert_eq!(map.get_owned("b"), Some("2".to_string()));
    assert_eq!(map.get("c"), None);
    let copy = map.clone();
    assert_eq!(copy.len(), 2);
    assert_eq!(copy.get("a"), Some("3"));
    let mut other = TextMap::new();
    other.insert("b".to_string(), "4".to_string());
    other.insert("c".to_string(), "5".to_string());
    map.merge(other);
    assert_eq!(map.len(), 3);
    assert_eq!(map.get("b"), Some("4"));
}
