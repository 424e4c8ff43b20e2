use azuracast_engine::annotate::parse_annotated_uri;
use azuracast_engine::autodj::{next_fetch_action, silence_track, FetchAction, FetchEvent};
use azuracast_engine::control::ControlSignals;
use azuracast_engine::decode::DecodedTrack;
use azuracast_engine::feedback::{now_playing_for, FeedbackDedup};
use azuracast_engine::fields::TextMap;
use azuracast_engine::harbor::LiveState;
use azuracast_engine::pipeline::{
    check_live, drops_prefetched, end_round, frames_of, is_processed, pacing_sleep_duration,
    plan_body, plan_transition_to, start_round, take_overrides, take_skip_for, StreamClock,
};
use azuracast_engine::prepare::{
    given_numbers, number_texts, prepare_annotated, prepare_fallback_track, prepare_live_chunk,
    prepare_track, track_numbers, GivenNumbers,
    PreparedTrack, TrackMetadata, TrackNumbers,
};
use azuracast_engine::queue::{TrackQueues, QUEUE_INTERRUPTING, QUEUE_REQUESTS};

const SECOND: u128 = 1_000_000_000;

// --- Pacing ---------------------------------------------------------------------

#[test]
fn no_frames_emitted_yet_sleeps_for_the_chunks_own_duration() {
    // Right at stream start (elapsed = 0), a 44100-frame (1 second)
    // chunk at 44100Hz should ask for a full 1-second sleep.
    let d = pacing_sleep_duration(0, 0, 44_100, 44_100);
    assert_eq!(d, SECOND);
}

#[test]
fn caught_up_exactly_sleeps_for_only_the_new_chunk() {
    let d = pacing_sleep_duration(SECOND, 44_100, 22_050, 44_100);
    assert_eq!(d, SECOND / 2);
}

#[test]
fn falling_behind_wall_clock_returns_zero_not_negative() {
    let d = pacing_sleep_duration(5 * SECOND, 44_100, 44_100, 44_100);
    assert_eq!(d, 0);
}

#[test]
fn exactly_on_target_sleeps_zero() {
    let d = pacing_sleep_duration(2 * SECOND, 44_100, 44_100, 44_100);
    assert_eq!(d, 0);
}

#[test]
fn zero_length_chunk_sleeps_zero() {
    let d = pacing_sleep_duration(0, 0, 0, 44_100);
    assert_eq!(d, 0);
}

#[test]
fn due_times_are_rounded_to_the_nearest_nanosecond() {
    // 1/44100 s is 22675.74 ns, 2/44100 s is 45351.47 ns.
    assert_eq!(pacing_sleep_duration(0, 0, 1, 44_100), 22_676);
    assert_eq!(pacing_sleep_duration(0, 1, 1, 44_100), 45_351);
    for frames in [1u64, 2, 4410, 44_099, 1_000_003] {
        let float = std::time::Duration::from_secs_f64(frames as f64 / 44_100.0);
        assert_eq!(pacing_sleep_duration(0, 0, frames, 44_100), float.as_nanos());
    }
    // Halves go to the even side: 976562.5 ns and 2929687.5 ns.
    assert_eq!(pacing_sleep_duration(0, 0, 1, 1024), 976_562);
    assert_eq!(pacing_sleep_duration(0, 0, 3, 1024), 2_929_688);
    for frames in 1u64..64 {
        let float = std::time::Duration::from_secs_f64(frames as f64 / 1024.0);
        assert_eq!(pacing_sleep_duration(0, 0, frames, 1024), float.as_nanos());
    }
}

#[test]
fn stream_clock_advance_accumulates_frames_emitted() {
    let mut clock = StreamClock::new(7);
    assert_eq!(clock.frames_emitted, 0);
    clock.advance(44_100);
    assert_eq!(clock.frames_emitted, 44_100);
    clock.advance(22_050);
    assert_eq!(clock.frames_emitted, 66_150);
}

#[test]
fn stream_clock_sleep_before_chunk_matches_pure_function() {
    let start = 5 * SECOND;
    let mut clock = StreamClock::new(start);
    clock.advance(44_100); // pretend 1 second already emitted

    let d = clock.sleep_before_chunk(start, 44_100, 44_100);
    assert_eq!(d, 2 * SECOND);
    // A time before the start counts as the start.
    assert_eq!(clock.sleep_before_chunk(0, 44_100, 44_100), 2 * SECOND);
}

#[test]
fn stream_clock_now_after_start_reduces_required_sleep() {
    let start = 5 * SECOND;
    let mut clock = StreamClock::new(start);
    clock.advance(44_100); // 1 second of audio already emitted

    let now = start + SECOND / 2;
    let d = clock.sleep_before_chunk(now, 44_100, 44_100);
    assert_eq!(d, 3 * SECOND / 2);
}

// --- Metadata -------------------------------------------------------------------

#[test]
fn apply_overrides_wins_over_existing_values() {
    let mut meta = TrackMetadata {
        title: Some("Old Title".to_string()),
        artist: Some("Old Artist".to_string()),
        media_id: Some("media-1".to_string()),
        ..Default::default()
    };

    let mut overrides = TextMap::new();
    overrides.insert("title".to_string(), "New Title".to_string());
    overrides.insert("song_id".to_string(), "song-42".to_string());
    overrides.insert("unknown_key".to_string(), "ignored".to_string());

    meta.apply_overrides(&overrides);

    assert_eq!(meta.title, Some("New Title".to_string()));
    assert_eq!(meta.artist, Some("Old Artist".to_string()));
    assert_eq!(meta.song_id, Some("song-42".to_string()));
    assert_eq!(meta.media_id, Some("media-1".to_string()));
}

#[test]
fn apply_overrides_empty_map_is_noop() {
    let mut meta = TrackMetadata { title: Some("Title".to_string()), ..Default::default() };
    meta.apply_overrides(&TextMap::new());
    assert_eq!(meta.title, Some("Title".to_string()));
}

#[test]
fn the_unique_id_is_not_overridden() {
    let a = parse_annotated_uri(r#"annotate:media_unique_id="u",sq_id="q",playlist_id="p":x"#);
    let mut meta = TrackMetadata::from_annotations(&a);
    assert!(meta.is_empty());
    let mut overrides = TextMap::new();
    for key in ["media_unique_id", "sq_id", "playlist_id", "media_id", "artist"] {
        overrides.insert(key.to_string(), "new".to_string());
    }
    meta.apply_overrides(&overrides);
    assert_eq!(meta.media_unique_id.as_deref(), Some("u"));
    for field in [&meta.sq_id, &meta.playlist_id, &meta.media_id, &meta.artist] {
        assert_eq!(field.as_deref(), Some("new"));
    }
    assert_eq!(meta.title, None);
    assert!(!meta.is_empty());
}

#[test]
fn overrides_apply_in_order_and_only_once() {
    let overrides = |pairs: &[(&str, &str)]| {
        let mut map = TextMap::new();
        for (name, value) in pairs {
            map.insert(name.to_string(), value.to_string());
        }
        map
    };
    let first = overrides(&[("title", "A"), ("artist", "X")]);
    let second = overrides(&[("title", "B")]);

    let mut one_by_one = TrackMetadata::default();
    one_by_one.apply_overrides(&first);
    one_by_one.apply_overrides(&second);
    one_by_one.apply_overrides(&second);

    let mut merged = first.clone();
    merged.merge(second);
    let mut at_once = TrackMetadata::default();
    at_once.apply_overrides(&merged);

    for meta in [&one_by_one, &at_once] {
        assert_eq!(meta.title.as_deref(), Some("B"));
        assert_eq!(meta.artist.as_deref(), Some("X"));
        assert_eq!(meta.song_id, None);
    }
}

// --- Preparing ------------------------------------------------------------------

fn decoded(samples: Vec<f32>) -> DecodedTrack<f32, f64> {
    DecodedTrack { samples, sample_rate: 44100, channels: 2, replaygain_track_gain_db: None }
}

fn no_numbers() -> TrackNumbers<f64> {
    TrackNumbers {
        start_frame: 0,
        end_frame: 0,
        fade_in: None,
        fade_out: None,
        start_next: None,
        amplify: None,
        replaygain: None,
    }
}

fn prepare(
    track: DecodedTrack<f32, f64>,
    uri: &str,
    replaygain: bool,
    numbers: TrackNumbers<f64>,
) -> PreparedTrack<f32, f64> {
    let annotations = parse_annotated_uri(uri);
    prepare_track(
        track,
        &annotations,
        replaygain,
        numbers,
        &|db: f64| 10f64.powf(db / 20.0) as f32,
        &|s: f32, gain: f32| s * gain,
    )
}

fn track_with(title: &str, artist: &str) -> PreparedTrack<f32, f64> {
    let uri = format!(r#"annotate:title="{title}",artist="{artist}":media:x.mp3"#);
    prepare(decoded(vec![0.0; 4]), &uri, false, no_numbers())
}

#[test]
fn dedup_state_defaults_empty() {
    let dedup = FeedbackDedup::new();
    assert_eq!(dedup.last_title, None);
    assert_eq!(dedup.last_artist, None);
}

#[test]
fn jingle_and_error_tracks_are_identified_for_suppression() {
    let mut t = track_with("Jingle", "Station");
    t.jingle_mode = true;
    assert!(t.jingle_mode);

    let mut e = track_with("Error", "File");
    e.is_error_file = true;
    assert!(e.is_error_file);

    let dedup = FeedbackDedup::new();
    assert!(dedup.report_for(&t).is_none());
    assert!(dedup.report_for(&e).is_none());
    assert!(now_playing_for(&t).is_none());
    assert!(now_playing_for(&e).is_none());
}

#[test]
fn cue_points_cut_the_track() {
    let samples: Vec<f32> = (0..12).map(|i| i as f32).collect();
    let numbers = TrackNumbers {
        start_frame: 1,
        end_frame: 4,
        fade_in: Some(2.0),
        fade_out: Some(3.0),
        start_next: Some(1.0),
        ..no_numbers()
    };
    let cued = r#"annotate:azuracast_autocue="true":x"#;
    let t = prepare(decoded(samples.clone()), cued, false, numbers);
    assert_eq!(t.decoded.samples, vec![2.0, 3.0, 4.0, 5.0, 6.0, 7.0]);
    assert_eq!((t.fade_in_override, t.fade_out_override), (Some(2.0), Some(3.0)));
    assert_eq!(t.start_next, Some(1.0));

    // Beyond the end is the end; nothing left means nothing cut.
    let far = TrackNumbers { start_frame: 4, end_frame: 99, ..no_numbers() };
    let t = prepare(decoded(samples.clone()), cued, false, far);
    assert_eq!(t.decoded.samples, vec![8.0, 9.0, 10.0, 11.0]);
    let empty = TrackNumbers { start_frame: 3, end_frame: 3, ..no_numbers() };
    let t = prepare(decoded(samples.clone()), cued, false, empty);
    assert_eq!(t.decoded.samples, samples);

    // Without cue points none of it counts.
    let t = prepare(decoded(samples.clone()), "x", false, numbers);
    assert_eq!(t.decoded.samples, samples);
    assert_eq!((t.fade_in_override, t.fade_out_override, t.start_next), (None, None, None));
    assert_eq!(t.decoded.frames(), 6);
}

fn to_frames(secs: f64, rate: u32) -> usize {
    (secs * rate as f64).round() as usize
}

fn numbers_at(rate: u32, duration: f64, given: GivenNumbers<f64>) -> TrackNumbers<f64> {
    track_numbers(
        &given,
        0.0,
        duration,
        rate,
        &f64::clamp,
        &f64::min,
        &f64::max,
        &|x: f64, y: f64| x - y,
        &to_frames,
    )
}

fn given(cue_in: Option<f64>, cue_out: Option<f64>, start_next: Option<f64>) -> GivenNumbers<f64> {
    GivenNumbers {
        cue_in,
        cue_out,
        fade_in: Some(2.0),
        fade_out: None,
        start_next,
        amplify: Some(-1.0),
        replaygain: None,
    }
}

#[test]
fn cue_points_stay_inside_the_track() {
    let n = numbers_at(10, 6.0, given(Some(1.5), Some(4.0), Some(3.0)));
    assert_eq!((n.start_frame, n.end_frame, n.start_next), (15, 40, Some(1.5)));
    assert_eq!((n.fade_in, n.fade_out), (Some(2.0), None));
    assert_eq!((n.amplify, n.replaygain), (Some(-1.0), None));

    let n = numbers_at(10, 6.0, given(None, None, None));
    assert_eq!((n.start_frame, n.end_frame, n.start_next), (0, 60, None));

    let n = numbers_at(10, 6.0, given(Some(-3.0), Some(99.0), Some(-1.0)));
    assert_eq!((n.start_frame, n.end_frame, n.start_next), (0, 60, Some(0.0)));

    // A last cue point before the first one leaves nothing between them.
    let n = numbers_at(10, 6.0, given(Some(5.0), Some(2.0), Some(2.0)));
    assert_eq!((n.start_frame, n.end_frame, n.start_next), (50, 50, Some(0.0)));
}

fn annotated(
    track: DecodedTrack<f32, f64>,
    uri: &str,
    replaygain: bool,
) -> PreparedTrack<f32, f64> {
    prepare_annotated(
        track,
        &parse_annotated_uri(uri),
        replaygain,
        0.0,
        &|text: &str| text.parse::<f64>().ok(),
        &|frames: usize, rate: u32| frames as f64 / rate as f64,
        &f64::clamp,
        &f64::min,
        &f64::max,
        &|x: f64, y: f64| x - y,
        &to_frames,
        &|db: f64| 10f64.powf(db / 20.0) as f32,
        &|s: f32, gain: f32| s * gain,
    )
}

const ALL_NUMBERS: &str = r#"annotate:azuracast_autocue="true",autocue_cue_in=" 1.5 ",autocue_cue_out="4",autocue_fade_in="0.25",autocue_fade_out="0.5",autocue_start_next="3.5",liq_amplify="20 dB",replaygain_track_gain="-40",jingle_mode="true":x"#;

#[test]
fn each_number_is_read_from_its_own_annotation() {
    let parse = |text: &str| text.parse::<f64>().ok();
    let n = given_numbers(&number_texts(&parse_annotated_uri(ALL_NUMBERS)), &parse);
    assert_eq!((n.cue_in, n.cue_out), (Some(1.5), Some(4.0)));
    assert_eq!((n.fade_in, n.fade_out), (Some(0.25), Some(0.5)));
    assert_eq!(n.start_next, Some(3.5));
    assert_eq!((n.amplify, n.replaygain), (Some(20.0), Some(-40.0)));

    // What is no number is not there.
    let odd = r#"annotate:azuracast_autocue="true",autocue_cue_in="soon",autocue_cue_out="4":x"#;
    let n = given_numbers(&number_texts(&parse_annotated_uri(odd)), &parse);
    assert_eq!((n.cue_in, n.cue_out, n.fade_in), (None, Some(4.0), None));
}

#[test]
fn a_track_is_prepared_by_its_annotations() {
    // Two frames a second, six seconds.
    let samples: Vec<f32> = (0..24).map(|i| i as f32).collect();
    let track = || DecodedTrack {
        samples: samples.clone(),
        sample_rate: 2,
        channels: 2,
        replaygain_track_gain_db: Some(40.0),
    };
    let t = annotated(track(), ALL_NUMBERS, false);
    let expected: Vec<f32> = (6..16).map(|i| i as f32 * 10.0).collect();
    assert_eq!(t.decoded.samples, expected);
    assert_eq!((t.fade_in_override, t.fade_out_override), (Some(0.25), Some(0.5)));
    assert_eq!(t.start_next, Some(2.0));
    assert!(t.jingle_mode && !t.is_live && !t.is_error_file);
    assert_eq!((t.decoded.sample_rate, t.decoded.channels), (2, 2));

    // With its own ReplayGain, and with that of the annotations.
    let t = annotated(track(), "x", true);
    assert_eq!(t.decoded.samples[23], 2300.0);
    assert_eq!(t.start_next, None);
    let t = annotated(track(), ALL_NUMBERS, true);
    assert_eq!(t.decoded.samples.len(), 10);
    assert!((t.decoded.samples[9] - 1.5).abs() < 1e-4);

    // Cue points count up to the end of this track.
    let far = r#"annotate:azuracast_autocue="true",autocue_cue_in="5",autocue_cue_out="99":x"#;
    assert_eq!(annotated(track(), far, false).decoded.samples, &samples[20..]);
    let off = r#"annotate:autocue_cue_in="5",autocue_cue_out="99",autocue_fade_in="1":x"#;
    let t = annotated(track(), off, false);
    assert_eq!(t.decoded.samples, samples);
    assert_eq!(t.fade_in_override, None);
}

#[test]
fn gains_are_applied_one_after_the_other() {
    let numbers = TrackNumbers { amplify: Some(20.0), replaygain: Some(-20.0), ..no_numbers() };
    let t = prepare(decoded(vec![0.5, -0.25]), "x", false, numbers);
    assert_eq!(t.decoded.samples, vec![5.0, -2.5]);
    let t = prepare(decoded(vec![0.5, -0.25]), "x", true, numbers);
    assert!((t.decoded.samples[0] - 0.5).abs() < 1e-6);

    // The file's own tag counts where the annotations say nothing.
    let mut tagged = decoded(vec![1.0, 1.0]);
    tagged.replaygain_track_gain_db = Some(-20.0);
    let t = prepare(tagged.clone(), "x", true, no_numbers());
    assert!((t.decoded.samples[0] - 0.1).abs() < 1e-6);
    let t = prepare(tagged, "x", true, TrackNumbers { replaygain: Some(0.0), ..no_numbers() });
    assert_eq!(t.decoded.samples[0], 1.0);
}

#[test]
fn annotations_become_metadata() {
    let uri = r#"annotate:title="T",artist="A",song_id="s",media_id="m",jingle_mode="true":x"#;
    let t = prepare(decoded(vec![]), uri, false, no_numbers());
    assert_eq!(t.metadata.title.as_deref(), Some("T"));
    assert_eq!(t.metadata.artist.as_deref(), Some("A"));
    assert_eq!(t.metadata.song_id.as_deref(), Some("s"));
    assert_eq!(t.metadata.media_id.as_deref(), Some("m"));
    assert!(t.jingle_mode && !t.is_error_file && !t.is_live);
    let f = prepare_fallback_track(decoded(vec![]));
    assert!(f.is_error_file && !f.is_live && f.metadata.is_empty());
    let l = prepare_live_chunk(decoded(vec![]));
    assert!(l.is_live && !l.is_error_file && l.metadata.is_empty());
}

// --- Reports --------------------------------------------------------------------

#[test]
fn nothing_is_reported_twice_in_a_row() {
    let mut dedup = FeedbackDedup::new();
    let t = track_with("T", "A");
    let payload = dedup.report_for(&t).unwrap();
    assert_eq!(payload.title.as_deref(), Some("T"));
    assert_eq!(payload.artist.as_deref(), Some("A"));
    assert_eq!(payload.song_id, None);

    // A report that failed does not count.
    dedup.report_answered(&t.metadata, false);
    assert!(dedup.report_for(&t).is_some());

    dedup.report_answered(&t.metadata, true);
    assert!(dedup.report_for(&t).is_none());
    assert!(dedup.report_for(&track_with("T", "B")).is_some());

    // A jingle in between leaves no trace.
    let mut jingle = track_with("J", "S");
    jingle.jingle_mode = true;
    assert!(dedup.report_for(&jingle).is_none());
    assert!(dedup.report_for(&t).is_none());
}

#[test]
fn audio_without_metadata_is_not_reported() {
    let dedup = FeedbackDedup::default();
    let live = prepare_live_chunk(decoded(vec![]));
    assert!(dedup.report_for(&live).is_none());
    assert_eq!(now_playing_for(&live).unwrap().song_string(), None);
    assert_eq!(
        now_playing_for(&track_with("T", "A")).unwrap().song_string().as_deref(),
        Some("A - T")
    );
}

// --- Fetching -------------------------------------------------------------------

fn queued(action: FetchAction) -> String {
    match action {
        FetchAction::PlayQueued(uri) => uri,
        other => panic!("unexpected action {other:?}"),
    }
}

#[test]
fn the_next_track_comes_in_order_of_priority() {
    let mut q = TrackQueues::new();
    q.push(QUEUE_REQUESTS, "r".to_string()).unwrap();
    q.push(QUEUE_INTERRUPTING, "i".to_string()).unwrap();
    let none = None;
    assert_eq!(queued(next_fetch_action(FetchEvent::Start, &mut q, true, &none)), "i");
    assert!(matches!(
        next_fetch_action(FetchEvent::Start, &mut q, true, &none),
        FetchAction::PlayLive
    ));
    assert_eq!(queued(next_fetch_action(FetchEvent::LiveEnded, &mut q, true, &none)), "r");
    assert!(matches!(
        next_fetch_action(FetchEvent::QueuedTrackFailed, &mut q, false, &none),
        FetchAction::AskAutoDj
    ));
    match next_fetch_action(FetchEvent::NextSong("n".to_string()), &mut q, false, &none) {
        FetchAction::PlayAutoDj(uri) => assert_eq!(uri, "n"),
        other => panic!("unexpected action {other:?}"),
    }
}

#[test]
fn failures_end_in_the_fallback_file_or_in_silence() {
    let mut q = TrackQueues::new();
    let file = Some("/f.mp3".to_string());
    for event in [FetchEvent::NextSongFailed, FetchEvent::AutoDjTrackFailed] {
        match next_fetch_action(event, &mut q, false, &file) {
            FetchAction::PlayFallback(path) => assert_eq!(path, "/f.mp3"),
            other => panic!("unexpected action {other:?}"),
        }
    }
    assert!(matches!(
        next_fetch_action(FetchEvent::NextSongFailed, &mut q, false, &None),
        FetchAction::PlaySilence
    ));
    assert!(matches!(
        next_fetch_action(FetchEvent::FallbackFailed, &mut q, false, &file),
        FetchAction::PlaySilence
    ));
}

#[test]
fn silence_fills_the_retry_delay() {
    let t: PreparedTrack<f32, f64> = silence_track(0.0f32);
    assert_eq!(t.decoded.samples.len(), 882_000);
    assert!(t.decoded.samples.iter().all(|s| *s == 0.0));
    assert!(t.is_error_file);
}

// --- Bodies and transitions --------------------------------------------------------

#[test]
fn a_track_is_played_up_to_its_window() {
    let plan = plan_body(100, 10, 30, false);
    assert_eq!((plan.body_end, plan.tail_end), (70, 100));
    // Already inside the window.
    let plan = plan_body(100, 80, 30, false);
    assert_eq!((plan.body_end, plan.tail_end), (80, 100));
    // Shorter than the window.
    let plan = plan_body(20, 5, 30, false);
    assert_eq!((plan.body_end, plan.tail_end), (5, 20));
}

#[test]
fn a_skip_leaves_one_window() {
    let plan = plan_body(100, 10, 30, true);
    assert_eq!((plan.body_end, plan.tail_end), (10, 40));
    let plan = plan_body(100, 90, 30, true);
    assert_eq!((plan.body_end, plan.tail_end), (90, 100));
    let plan = plan_body(100, 90, usize::MAX, true);
    assert_eq!((plan.body_end, plan.tail_end), (90, 100));
}

#[test]
fn transitions_are_told_apart() {
    let mut a = track_with("A", "x");
    a.fade_out_override = Some(1.0);
    let mut b = track_with("B", "x");
    b.fade_in_override = Some(0.5);
    let live = prepare_live_chunk(decoded(vec![0.0; 8]));

    let p = plan_transition_to(&a, &b, 100, 2.0).unwrap();
    assert_eq!((p.head_frames, p.fade_out, p.fade_in, p.to_live), (2, 1.0, 0.5, false));
    let p = plan_transition_to(&b, &a, 1, 2.0).unwrap();
    assert_eq!((p.head_frames, p.fade_out, p.fade_in, p.to_live), (1, 2.0, 2.0, false));
    // Into live both fades are the default ones.
    let p = plan_transition_to(&a, &live, 3, 2.0).unwrap();
    assert_eq!((p.head_frames, p.fade_out, p.fade_in, p.to_live), (3, 2.0, 2.0, true));
    // Back from live nothing is special.
    let p = plan_transition_to(&live, &b, 100, 2.0).unwrap();
    assert_eq!((p.head_frames, p.fade_out, p.fade_in, p.to_live), (2, 2.0, 0.5, false));
    assert!(plan_transition_to(&live, &live, 100, 2.0).is_none());
}

#[test]
fn a_round_plays_everything_once() {
    let track = track_with("A", "x");
    let live = prepare_live_chunk(decoded(vec![0.0; 200]));

    // From track to track: the body first, the tail in the transition.
    let start = start_round(false, 100, 10, 30, false);
    assert!(start.prefetch);
    assert_eq!(start.body, (10, 70));
    let end = end_round(&track, &track, &start, 100, 30, 2.0);
    assert_eq!((end.rest, end.tail, end.next_played), ((70, 70), (70, 100), 2));

    // From live to a track: nothing before the track is there.
    let start = start_round(true, 100, 10, 30, false);
    assert!(!start.prefetch);
    assert_eq!(start.body, (10, 10));
    let end = end_round(&live, &track, &start, 100, 30, 2.0);
    assert_eq!((end.rest, end.tail, end.next_played), ((10, 70), (70, 100), 2));

    // From live to live: all of it, as it is.
    let end = end_round(&live, &live, &start, 100, 30, 2.0);
    assert_eq!((end.rest, end.tail, end.next_played), ((10, 100), (100, 100), 0));
    assert!(end.transition.is_none());

    // Into live after a skip.
    let start = start_round(false, 100, 10, 30, true);
    let end = end_round(&track, &live, &start, 100, 30, 2.0);
    assert_eq!((start.body, end.rest, end.tail), ((10, 10), (10, 10), (10, 40)));
    assert_eq!(end.next_played, 30);
    assert!(end.transition.unwrap().to_live);
}

#[test]
fn frames_are_cut_in_pairs() {
    let t = decoded((0..8).map(|i| i as f32).collect());
    assert_eq!(frames_of(&t, 1, 3), vec![2.0, 3.0, 4.0, 5.0]);
    assert!(frames_of(&t, 2, 2).is_empty());
}

#[test]
fn live_audio_is_processed_only_where_wanted() {
    assert!(is_processed(false, false));
    assert!(is_processed(false, true));
    assert!(!is_processed(true, false));
    assert!(is_processed(true, true));
    assert!(drops_prefetched(false, true));
    assert!(!drops_prefetched(false, false));
    assert!(!drops_prefetched(true, true));
}

#[test]
fn a_round_takes_overrides_and_the_live_edge() {
    let mut control = ControlSignals::new();
    let mut live = LiveState::new();
    let mut meta = TrackMetadata::default();
    assert!(!take_overrides(&mut control, &mut meta));
    assert!(!check_live(&mut control, &mut live));
    assert!(!take_skip_for(&mut control, false));

    let mut overrides = TextMap::new();
    overrides.insert("title".to_string(), "T".to_string());
    control.set_metadata_override(overrides);
    assert!(take_overrides(&mut control, &mut meta));
    assert_eq!(meta.title.as_deref(), Some("T"));
    // Ready only after the override was taken: still noticed in this round.
    live.mark_ready();
    assert!(check_live(&mut control, &mut live));
    assert!(take_skip_for(&mut control, false));

    assert!(!take_overrides(&mut control, &mut meta));
    assert!(!check_live(&mut control, &mut live));
    assert!(!take_skip_for(&mut control, false));

    // A skip while live plays is dropped.
    control.request_skip();
    assert!(!take_skip_for(&mut control, true));
    assert!(!take_skip_for(&mut control, false));
}
