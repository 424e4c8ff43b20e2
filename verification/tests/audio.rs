use azuracast_engine::audio_processing::{
    choose_processor, le_bytes_into_samples, samples_to_le_bytes, stereo_tool_args,
    ProcessorChoice, SlidingWindow,
};
use azuracast_engine::callbacks::{
    auth_body, check_status, endpoint, feedback_body, read_flag_answer, savecache_body,
    unreadable_answer, uri_body, user_body, Callback, CpResponse, FeedbackPayload,
};
use azuracast_engine::cli::{
    assemble_test, flag_value, parse_args, parse_test_mode, test_cuts, Invocation,
};
use azuracast_engine::config::{AudioProcessingConfig, CallbacksConfig};
use azuracast_engine::crossfade::{
    compare_loudness, measures_loudness, mix_add_fade, mix_transition, mix_with_params,
    plan_transition, select_smart_branch, sequence, CrossfadeMode, CrossfadeParams, CrossfadeThresholds, FadeCurve, FadePoint,
    LoudnessComparison, SmartBranch, Transition,
};
use azuracast_engine::decode::{
    chunk_ranges, interleave_stereo, needs_resampling, parse_leading_number,
    to_stereo_channel_planes, ChunkAction, DecodeAction, FileDecoder, LiveDecoder, PacketAction,
    PacketDecode, PacketRead,
};
use azuracast_engine::media::ResolvedMedia;

// --- Smart crossfades --------------------------------------------------------------

fn default_thresholds() -> CrossfadeThresholds<f64> {
    CrossfadeThresholds { high: -15.0, medium: -32.0, margin: 8.0 }
}

fn branch_of(a: f64, b: f64, t: &CrossfadeThresholds<f64>) -> SmartBranch {
    select_smart_branch(&compare_loudness(
        a,
        b,
        t,
        &|x: f64, y: f64| x <= y,
        &|x: f64, y: f64| x + y,
        &|x: f64, y: f64| (x - y).abs(),
    ))
}

#[test]
fn full_crossfade_when_both_quiet_and_close() {
    let t = default_thresholds();
    assert_eq!(branch_of(-35.0, -33.0, &t), SmartBranch::FullCrossfade);
}

#[test]
fn fade_out_only_when_new_much_louder() {
    let t = default_thresholds();
    assert_eq!(branch_of(-30.0, -16.0, &t), SmartBranch::FadeOutOnly);
}

#[test]
fn fade_in_only_when_old_much_louder() {
    let t = default_thresholds();
    assert_eq!(branch_of(-16.0, -30.0, &t), SmartBranch::FadeInOnly);
}

#[test]
fn hard_cut_in_when_old_near_silent() {
    let t = default_thresholds();
    assert_eq!(branch_of(-60.0, -20.0, &t), SmartBranch::HardCutIn);
}

#[test]
fn falls_through_to_hard_sequential_cut() {
    let t = default_thresholds();
    assert_eq!(branch_of(-5.0, -5.0, &t), SmartBranch::HardSequentialCut);
}

#[test]
fn levels_are_compared_both_ways() {
    let t = default_thresholds();
    let c = compare_loudness(
        -32.0,
        -15.0,
        &t,
        &|x: f64, y: f64| x <= y,
        &|x: f64, y: f64| x + y,
        &|x: f64, y: f64| (x - y).abs(),
    );
    let expected = LoudnessComparison {
        a_at_most_medium: true,
        a_at_least_medium: true,
        a_at_most_high: true,
        b_at_most_medium: false,
        b_at_least_medium: true,
        b_at_most_high: true,
        within_margin: false,
        a_louder_by_margin: false,
        b_louder_by_margin: true,
    };
    assert_eq!(c, expected);
    assert_eq!(select_smart_branch(&c), SmartBranch::FadeOutOnly);
}

#[test]
fn silence_on_both_sides_is_a_hard_cut_in() {
    // The difference of two infinities is no number.
    let t = default_thresholds();
    let s = f64::NEG_INFINITY;
    assert_eq!(branch_of(s, s, &t), SmartBranch::HardCutIn);
}

// --- Mixing -------------------------------------------------------------------------

fn gain(p: FadePoint) -> f32 {
    let t = p.at as f64 / p.of as f64;
    match (p.curve, p.rising) {
        (FadeCurve::Linear, true) => t as f32,
        (FadeCurve::Linear, false) => (1.0 - t) as f32,
        (FadeCurve::Sine, true) => (t * std::f64::consts::FRAC_PI_2).sin() as f32,
        (FadeCurve::Sine, false) => (t * std::f64::consts::FRAC_PI_2).cos() as f32,
    }
}

fn fade(s: f32, p: FadePoint) -> f32 {
    s * gain(p)
}

fn sum(a: f32, b: f32) -> f32 {
    a + b
}

fn seconds_to_frames(secs: f64, rate: u32) -> usize {
    (secs * rate as f64).round() as usize
}

/// The level of the first sample, in dB.
fn level(side: &[f32]) -> f64 {
    side.first().map_or(f64::NEG_INFINITY, |s| 20.0 * (s.abs() as f64).log10())
}

fn mix(
    old_tail: &[f32],
    new_head: &[f32],
    rate: u32,
    params: &CrossfadeParams<f64>,
) -> Vec<f32> {
    mix_with_params(
        old_tail,
        new_head,
        2,
        params,
        0.0,
        &level,
        &|x: f64, y: f64| x <= y,
        &|x: f64, y: f64| x + y,
        &|x: f64, y: f64| (x - y).abs(),
        &|secs: f64| seconds_to_frames(secs, rate),
        &fade,
        &sum,
    )
}

#[test]
fn mix_add_fade_sums_and_extends_with_longer() {
    let channels = 2usize;
    let old = vec![1.0f32; 4 * channels]; // 4 frames
    let new = vec![1.0f32; 8 * channels]; // 8 frames
    let out = mix_add_fade(&old, &new, channels, 0, 0, FadeCurve::Linear, 0.0, &fade, &sum);
    assert_eq!(out.len(), 8 * channels);
    // Overlap region: 1.0 (old) + 1.0 (new) = 2.0.
    assert!((out[0] - 2.0).abs() < 1e-6);
    // Tail region (only new remains): 1.0.
    assert!((out[6 * channels] - 1.0).abs() < 1e-6);
}

#[test]
fn sequence_concatenates_without_overlap() {
    let old = vec![1.0f32, 1.0, 1.0, 1.0];
    let new = vec![2.0f32, 2.0];
    let out = sequence(&old, &new);
    assert_eq!(out, vec![1.0, 1.0, 1.0, 1.0, 2.0, 2.0]);
}

#[test]
fn to_live_dispatch_ignores_mode_and_produces_no_overlap() {
    let channels = 2usize;
    let old_tail = vec![0.1f32; 4 * channels];
    let new_head = vec![0.1f32; 4 * channels];
    let params = CrossfadeParams {
        mode: CrossfadeMode::Smart,
        fade_in_secs: 0.0,
        fade_out_secs: 0.0,
        thresholds: default_thresholds(),
        to_live: true,
    };
    let out = mix(&old_tail, &new_head, 4, &params);
    assert_eq!(out.len(), old_tail.len() + new_head.len());
    assert!(!measures_loudness(true, CrossfadeMode::Smart));
    assert!(measures_loudness(false, CrossfadeMode::Smart));
    assert!(!measures_loudness(false, CrossfadeMode::Normal));
}

#[test]
fn to_live_fades_old_out_and_new_in_sequentially() {
    let channels = 2usize;
    let sample_rate = 4u32; // 4 frames == 1 second, for round numbers
    let old_tail = vec![1.0f32; 4 * channels]; // 1s, full volume
    let new_head = vec![1.0f32; 4 * channels]; // 1s, full volume
    let params = CrossfadeParams {
        mode: CrossfadeMode::Normal, // must be ignored entirely
        fade_in_secs: 1.0,
        fade_out_secs: 1.0,
        thresholds: default_thresholds(),
        to_live: true,
    };
    let out = mix(&old_tail, &new_head, sample_rate, &params);

    // No overlap: total length is old + new, unlike a crossfade add.
    assert_eq!(out.len(), old_tail.len() + new_head.len());

    // Old side: fade-out starts at gain 1.0 (first frame of the
    // fade-out window) and ends near 0.0 (last frame before the cut).
    assert!((out[0] - 1.0).abs() < 1e-6, "old tail should start unfaded");
    let last_old_frame = 3 * channels;
    assert!(out[last_old_frame] < 0.3, "old tail should be nearly silent by its end");

    // New side: fade-in starts near 0.0 and ends at gain 1.0.
    let new_start = old_tail.len();
    assert!(out[new_start] < 0.3, "new head should start nearly silent");
    let last_new_frame = new_start + 3 * channels;
    assert!(
        (out[last_new_frame] - 1.0).abs() < 0.3,
        "new head should approach full volume by its end"
    );
    let expected: Vec<f32> = [1.0, 0.75, 0.5, 0.25, 0.0, 0.25, 0.5, 0.75]
        .iter()
        .flat_map(|s| [*s, *s])
        .collect();
    assert_eq!(out, expected);
}

#[test]
fn settings_decide_how_two_tracks_are_mixed() {
    let old = vec![0.01f32; 12];
    let new = vec![0.01f32; 16];
    let smart = CrossfadeParams {
        mode: CrossfadeMode::Smart,
        fade_in_secs: 1.0,
        fade_out_secs: 0.5,
        thresholds: default_thresholds(),
        to_live: false,
    };
    let overlap = |old: &[f32], new: &[f32], out, inn, curve| {
        mix_add_fade(old, new, 2, out, inn, curve, 0.0, &fade, &sum)
    };
    // Both quiet: fades of their own lengths, two frames and four.
    let full = overlap(&old, &new, 2, 4, FadeCurve::Sine);
    assert_eq!(mix(&old, &new, 4, &smart), full);
    assert_ne!(overlap(&old, &new, 4, 2, FadeCurve::Sine), full);

    // Both loud: one after the other, unless the thresholds say they are not.
    let loud = vec![1.0f32; 12];
    assert_eq!(mix(&loud, &loud, 4, &smart), sequence(&loud, &loud));
    let lenient = CrossfadeParams {
        thresholds: CrossfadeThresholds { high: 9.0, medium: 1.0, margin: 8.0 },
        ..smart
    };
    assert_eq!(mix(&loud, &loud, 4, &lenient), overlap(&loud, &loud, 2, 4, FadeCurve::Sine));

    // From -30 dB to -17 dB and back.
    let soft = vec![10f32.powf(-1.5); 12];
    let firm = vec![10f32.powf(-0.85); 12];
    assert_eq!(mix(&soft, &firm, 4, &smart), overlap(&soft, &firm, 2, 0, FadeCurve::Sine));
    assert_eq!(mix(&firm, &soft, 4, &smart), overlap(&firm, &soft, 0, 4, FadeCurve::Sine));
    // From near silence to a track that can be heard.
    assert_eq!(mix(&old, &soft, 4, &smart), overlap(&old, &soft, 0, 0, FadeCurve::Sine));

    let normal = CrossfadeParams { mode: CrossfadeMode::Normal, ..smart };
    assert_eq!(mix(&loud, &loud, 4, &normal), overlap(&loud, &loud, 2, 4, FadeCurve::Linear));
}

#[test]
fn overlaps_fade_both_sides() {
    let old = vec![1.0f32; 4];
    let new = vec![2.0f32; 8];
    let out = mix_add_fade(&old, &new, 1, 2, 4, FadeCurve::Linear, 0.0, &fade, &sum);
    // Old: 1, 1, 1, 0.5; new: 0, 0.5, 1, 1.5, 2, 2, 2, 2.
    assert_eq!(out, vec![1.0, 1.5, 2.0, 2.0, 2.0, 2.0, 2.0, 2.0]);
    // A fade longer than its side covers all of it.
    let out = mix_add_fade(&old, &[], 1, 99, 99, FadeCurve::Linear, 0.0, &fade, &sum);
    assert_eq!(out, vec![1.0, 0.75, 0.5, 0.25]);
}

#[test]
fn crossfade_settings_do_not_touch_other_transitions() {
    let old = vec![1.0f32; 6];
    let new = vec![0.5f32; 8];
    let settings = [
        (CrossfadeMode::Smart, SmartBranch::FullCrossfade),
        (CrossfadeMode::Normal, SmartBranch::HardCutIn),
        (CrossfadeMode::Disabled, SmartBranch::HardSequentialCut),
    ];
    let mixed = |to_live: bool, mode: CrossfadeMode, branch: SmartBranch| {
        let transition = plan_transition(to_live, mode, branch, 2, 3);
        mix_transition(&old, &new, 2, transition, 0.0, &fade, &sum)
    };
    let live = mixed(true, CrossfadeMode::Normal, SmartBranch::FullCrossfade);
    assert_eq!(live.len(), old.len() + new.len());
    for (mode, branch) in settings {
        assert_eq!(mixed(true, mode, branch), live);
    }
    let plain = mixed(false, CrossfadeMode::Normal, SmartBranch::FullCrossfade);
    assert_eq!(plain.len(), new.len());
    for (_, branch) in settings {
        assert_eq!(mixed(false, CrossfadeMode::Normal, branch), plain);
        assert_eq!(mixed(false, CrossfadeMode::Disabled, branch), plain);
    }
}

#[test]
fn every_branch_has_its_layout() {
    let plan = |branch| plan_transition(false, CrossfadeMode::Smart, branch, 7, 9);
    let sine = |fade_out_frames, fade_in_frames| Transition::Overlap {
        curve: FadeCurve::Sine,
        fade_out_frames,
        fade_in_frames,
    };
    assert_eq!(plan(SmartBranch::FullCrossfade), sine(7, 9));
    assert_eq!(plan(SmartBranch::FadeOutOnly), sine(7, 0));
    assert_eq!(plan(SmartBranch::FadeInOnly), sine(0, 9));
    assert_eq!(plan(SmartBranch::HardCutIn), sine(0, 0));
    assert_eq!(plan(SmartBranch::HardSequentialCut), Transition::Sequence);
    for mode in [CrossfadeMode::Normal, CrossfadeMode::Disabled] {
        assert_eq!(
            plan_transition(false, mode, SmartBranch::HardSequentialCut, 7, 9),
            Transition::Overlap {
                curve: FadeCurve::Linear,
                fade_out_frames: 7,
                fade_in_frames: 9
            }
        );
    }
    assert_eq!(
        plan_transition(true, CrossfadeMode::Smart, SmartBranch::FullCrossfade, 7, 9),
        Transition::FadedSequence { fade_out_frames: 7, fade_in_frames: 9 }
    );
}

// --- Samples as bytes ------------------------------------------------------------------

#[test]
fn samples_to_le_bytes_round_trips_through_le_bytes_into_samples() {
    let original = vec![0.25f32, -0.5, 0.75, -1.0, 0.0];
    let bits: Vec<u32> = original.iter().map(|s| s.to_bits()).collect();
    let bytes = samples_to_le_bytes(&bits);
    assert_eq!(bytes.len(), original.len() * 4);

    let mut back = vec![0u32; original.len()];
    le_bytes_into_samples(&bytes, &mut back);
    let decoded: Vec<f32> = back.iter().map(|b| f32::from_bits(*b)).collect();
    assert_eq!(decoded, original);
}

#[test]
fn samples_to_le_bytes_matches_manual_encoding_for_one_sample() {
    let bytes = samples_to_le_bytes(&[1.0f32.to_bits()]);
    assert_eq!(bytes, 1.0f32.to_le_bytes().to_vec());
}

#[test]
fn a_window_keeps_the_last_values() {
    let mut w = SlidingWindow::new(2);
    assert_eq!(w.len(), 0);
    assert_eq!(w.push(1), None);
    assert_eq!(w.push(2), None);
    assert_eq!(w.push(3), Some(1));
    assert_eq!(w.push(4), Some(2));
    assert_eq!(w.len(), 2);
}

// --- Processors --------------------------------------------------------------------------

#[test]
fn processors_are_chosen_by_name() {
    let mut cfg = AudioProcessingConfig::default();
    assert!(matches!(choose_processor(&cfg), ProcessorChoice::NoProcessing));
    cfg.method = "nrj".to_string();
    assert!(matches!(choose_processor(&cfg), ProcessorChoice::Nrj));
    cfg.method = "master_me".to_string();
    assert!(matches!(choose_processor(&cfg), ProcessorChoice::Unrecognized));
    cfg.method = "stereo_tool".to_string();
    assert!(matches!(choose_processor(&cfg), ProcessorChoice::Incomplete));
    cfg.stereo_tool_binary = Some("/bin/st".to_string());
    assert!(matches!(choose_processor(&cfg), ProcessorChoice::Incomplete));
    cfg.stereo_tool_preset_path = Some("/p.sts".to_string());
    cfg.stereo_tool_license_key = Some("k".to_string());
    match choose_processor(&cfg) {
        ProcessorChoice::StereoTool { binary, preset, license_key } => {
            assert_eq!((binary.as_str(), preset.as_str()), ("/bin/st", "/p.sts"));
            assert_eq!(license_key.as_deref(), Some("k"));
        }
        other => panic!("unexpected choice {other:?}"),
    }
}

#[test]
fn the_external_program_gets_its_arguments() {
    assert_eq!(stereo_tool_args("/p.sts", &None), ["--silent", "-", "-", "-s", "/p.sts"]);
    assert_eq!(
        stereo_tool_args("/p.sts", &Some(String::new())),
        ["--silent", "-", "-", "-s", "/p.sts"]
    );
    assert_eq!(
        stereo_tool_args("/p.sts", &Some("key".to_string())),
        ["--silent", "-", "-", "-s", "/p.sts", "-k", "key"]
    );
}

// --- Decoding -------------------------------------------------------------------------------

#[test]
fn leading_numbers_are_found() {
    for (text, number) in [
        ("-3.2 dB", Some("-3.2")),
        ("3.2", Some("3.2")),
        ("  +7dB", Some("+7")),
        (".5", Some(".5")),
        ("5.", Some("5.")),
        ("1.2.3", Some("1.2")),
        ("-", None),
        (".", None),
        ("dB 3", None),
        ("", None),
    ] {
        assert_eq!(parse_leading_number(text).as_deref(), number, "{text}");
    }
}

fn planes(interleaved: &[f32], channels: usize) -> (Vec<f32>, Vec<f32>) {
    to_stereo_channel_planes(interleaved, channels, &sum, &|s: f32, n: usize| s / n as f32, 0.0)
}

#[test]
fn any_channel_count_becomes_stereo() {
    let (l, r) = planes(&[1.0, 2.0, 3.0, 4.0, 5.0], 2);
    assert_eq!((l, r), (vec![1.0, 3.0], vec![2.0, 4.0]));
    let (l, r) = planes(&[1.0, 2.0], 1);
    assert_eq!((l, r), (vec![1.0, 2.0], vec![1.0, 2.0]));
    let (l, r) = planes(&[1.0, 2.0, 3.0, 4.0, 5.0, 6.0, 7.0], 3);
    assert_eq!((l.clone(), r), (vec![2.0, 5.0], l));
    let (l, _) = planes(&[1.0, 2.0], 0);
    assert!(l.len() == 2 && l[0].is_nan());
}

#[test]
fn interleaving_undoes_splitting() {
    let samples = vec![1.0, 2.0, 3.0, 4.0];
    let (l, r) = planes(&samples, 2);
    assert_eq!(interleave_stereo(&l, &r), samples);
}

#[test]
fn chunks_cover_their_range_once() {
    assert_eq!(chunk_ranges(3, 10, 3), [(3, 6), (6, 9), (9, 10)]);
    assert_eq!(chunk_ranges(0, 6, 3), [(0, 3), (3, 6)]);
    assert!(chunk_ranges(5, 5, 3).is_empty());
    assert!(chunk_ranges(6, 5, 3).is_empty());
    let max = usize::MAX;
    assert_eq!(chunk_ranges(max - 1, max, max), [(max - 1, max)]);
    assert!(needs_resampling(48000, 44100, 1));
    assert!(!needs_resampling(44100, 44100, 1));
    assert!(!needs_resampling(48000, 44100, 0));
}

#[test]
fn files_are_decoded_packet_by_packet() {
    let mut d = FileDecoder::new("a.mp3", 7);
    assert_eq!(d.finish(), Err("no audio frames decoded from a.mp3".to_string()));
    assert!(matches!(d.on_packet(PacketRead::Packet(7)), PacketAction::Decode));
    assert!(matches!(d.on_packet(PacketRead::Packet(8)), PacketAction::Skip));
    assert!(matches!(d.on_packet(PacketRead::EndOfStream), PacketAction::Stop));
    assert!(matches!(d.on_packet(PacketRead::ResetRequired), PacketAction::Stop));
    match d.on_packet(PacketRead::Failed("io".to_string())) {
        PacketAction::Fail(m) => assert_eq!(m, "error reading packet from a.mp3: io"),
        other => panic!("unexpected action {other:?}"),
    }
    assert!(matches!(d.on_decoded(PacketDecode::BadPacket), DecodeAction::Skip));
    let audio = |rate, channels| PacketDecode::Audio { rate, channels };
    assert!(matches!(d.on_decoded(audio(48000, 1)), DecodeAction::Append));
    assert!(matches!(d.on_decoded(audio(44100, 2)), DecodeAction::Append));
    assert_eq!(d.finish(), Ok((48000, 1)));
    match d.on_decoded(PacketDecode::Fatal("x".to_string())) {
        DecodeAction::Fail(m) => assert_eq!(m, "fatal decode error in a.mp3: x"),
        other => panic!("unexpected action {other:?}"),
    }
}

#[test]
fn live_streams_are_announced_with_their_first_audio() {
    let mut d = LiveDecoder::new(1);
    assert!(matches!(d.on_packet(PacketRead::Packet(1)), PacketAction::Decode));
    assert!(matches!(d.on_packet(PacketRead::Packet(2)), PacketAction::Skip));
    assert!(matches!(d.on_packet(PacketRead::Failed("x".to_string())), PacketAction::Stop));
    let audio = |rate, channels| PacketDecode::Audio { rate, channels };
    assert!(matches!(d.on_decoded(audio(0, 2)), DecodeAction::Skip));
    assert!(matches!(d.on_decoded(audio(44100, 0)), DecodeAction::Skip));
    assert!(matches!(d.on_decoded(audio(44100, 2)), DecodeAction::Append));
    assert!(matches!(d.on_decoded(PacketDecode::BadPacket), DecodeAction::Skip));
    assert!(matches!(d.on_decoded(PacketDecode::Fatal("x".to_string())), DecodeAction::Stop));
    assert_eq!(d.on_chunk(0), ChunkAction::Skip);
    assert_eq!(d.on_chunk(10), ChunkAction::AnnounceAndSend);
    assert_eq!(d.on_chunk(0), ChunkAction::Skip);
    assert_eq!(d.on_chunk(10), ChunkAction::Send);
}

// --- Callbacks --------------------------------------------------------------------------------

#[test]
fn callback_urls_ignore_slashes_at_the_end() {
    let mut cfg = CallbacksConfig {
        base_url: "http://127.0.0.1:6010//".to_string(),
        api_key: "k".to_string(),
        station_id: 12,
    };
    assert_eq!(
        endpoint(&cfg, "nextsong"),
        "http://127.0.0.1:6010/api/internal/12/liquidsoap/nextsong"
    );
    cfg.station_id = i64::MIN;
    cfg.base_url = "".to_string();
    assert_eq!(
        endpoint(&cfg, Callback::SaveCache.action()),
        "/api/internal/-9223372036854775808/liquidsoap/savecache"
    );
}

#[test]
fn only_status_200_is_success() {
    assert_eq!(check_status("u", 200, "200 OK"), Ok(()));
    assert_eq!(
        check_status("u", 204, "204 No Content"),
        Err("u returned non-200 status: 204 No Content".to_string())
    );
    assert!(check_status("u", 500, "500").is_err());
}

#[test]
fn callbacks_have_names_and_limits() {
    let all = [
        (Callback::NextSong, "nextsong", 10),
        (Callback::Auth, "auth", 5),
        (Callback::DjOn, "djon", 10),
        (Callback::DjOff, "djoff", 10),
        (Callback::Feedback, "feedback", 10),
        (Callback::Cp, "cp", 30),
        (Callback::SaveCache, "savecache", 5),
    ];
    for (callback, name, secs) in all {
        assert_eq!(callback.action(), name);
        assert_eq!(callback.timeout_secs(30), secs);
    }
    assert_eq!(
        unreadable_answer(Callback::Cp, "eof", "{"),
        "failed to parse cp response: eof (body: {)"
    );
    let empty = FeedbackPayload::default();
    assert!(empty.song_id.is_none() && empty.title.is_none());
}

#[test]
fn flag_answers_are_read() {
    for callback in [Callback::DjOn, Callback::DjOff, Callback::Feedback, Callback::SaveCache] {
        assert_eq!(read_flag_answer(callback, "true"), Ok(true));
        assert_eq!(read_flag_answer(callback, " \t\r\nfalse\n "), Ok(false));
    }
    for body in ["", "  ", "null", "1", "\"true\"", "True", "tru", "true false", "\u{a0}true", "{}"] {
        let error = serde_json::from_str::<bool>(body).unwrap_err();
        assert_eq!(
            read_flag_answer(Callback::Feedback, body),
            Err(format!("failed to parse feedback response: {error} (body: {body})"))
        );
    }
    assert_eq!(
        read_flag_answer(Callback::DjOn, "tru"),
        Err("failed to parse djon response: EOF while parsing a value at line 1 column 3 \
             (body: tru)"
            .to_string())
    );
}

#[test]
fn only_temporary_files_are_removed() {
    let resolve = |is_temp| {
        ResolvedMedia::from_response(CpResponse { uri: "/tmp/x".to_string(), is_temp })
    };
    assert_eq!(resolve(true).file_to_remove(), Some("/tmp/x"));
    assert_eq!(resolve(false).file_to_remove(), None);
    assert_eq!(resolve(false).local_path, "/tmp/x");
}

// --- The command line ---------------------------------------------------------------------------

fn args(list: &[&str]) -> Vec<String> {
    list.iter().map(|s| s.to_string()).collect()
}

#[test]
fn flags_are_followed_by_their_values() {
    let a = args(&["engine", "--duration", "3.5", "--mode"]);
    assert_eq!(flag_value(&a, "--duration").as_deref(), Some("3.5"));
    assert_eq!(flag_value(&a, "--mode"), None);
    assert_eq!(flag_value(&a, "--output"), None);
}

#[test]
fn command_lines_are_read_in_order() {
    let parse = |list: &[&str]| parse_args(&args(list));
    assert!(matches!(parse(&["e", "--config", "x", "--version"]), Invocation::Version));
    match parse(&["e", "--crossfade-test", "a", "b", "--mode", "normal"]) {
        Invocation::CrossfadeTest { file1, file2, duration, mode, output } => {
            assert_eq!((file1.as_str(), file2.as_str()), ("a", "b"));
            assert_eq!(duration, None);
            assert_eq!(mode, "normal");
            assert_eq!(output, "crossfade-test-output.wav");
        }
        other => panic!("unexpected invocation {other:?}"),
    }
    assert!(matches!(parse(&["e", "--crossfade-test", "a"]), Invocation::CrossfadeTestUsage));
    assert!(matches!(parse(&["e", "--check-config", "-"]), Invocation::CheckConfig));
    assert!(matches!(parse(&["e", "--check-config", "x"]), Invocation::CheckConfigUsage));
    assert!(matches!(parse(&["e", "--check-config"]), Invocation::CheckConfigUsage));
    match parse(&["e", "--config", "engine.toml"]) {
        Invocation::Run(path) => assert_eq!(path, "engine.toml"),
        other => panic!("unexpected invocation {other:?}"),
    }
    assert!(matches!(parse(&["e", "--config"]), Invocation::ConfigPathMissing));
    assert!(matches!(parse(&["e"]), Invocation::Usage));
}

#[test]
fn test_runs_know_three_modes() {
    assert_eq!(parse_test_mode("smart"), Ok(CrossfadeMode::Smart));
    assert_eq!(parse_test_mode("normal"), Ok(CrossfadeMode::Normal));
    assert_eq!(parse_test_mode("disabled"), Ok(CrossfadeMode::Disabled));
    assert_eq!(
        parse_test_mode("none"),
        Err("unknown --mode 'none' (expected smart|normal|disabled)".to_string())
    );
}

#[test]
fn test_runs_put_three_parts_together() {
    assert_eq!(test_cuts(100, 10, 30), (70, 10));
    assert_eq!(test_cuts(20, 100, 30), (0, 30));
    let out = assemble_test(&[1, 2, 3], 2, &[9, 9], &[4, 5, 6], 1);
    assert_eq!(out, vec![1, 2, 9, 9, 5, 6]);
}

// --- Callback bodies ------------------------------------------------------------------------

#[test]
fn bodies_are_json_objects() {
    assert_eq!(user_body("dj"), r#"{"user":"dj"}"#);
    assert_eq!(user_body(""), r#"{"user":""}"#);
    assert_eq!(uri_body(r#"media:a "b"\c.mp3"#), r#"{"uri":"media:a \"b\"\\c.mp3"}"#);
    assert_eq!(auth_body("dj", "hunter\t2"), r#"{"password":"hunter\t2","user":"dj"}"#);
    assert_eq!(
        savecache_body("k", r#"{"a":[1,2]}"#),
        r#"{"cache_key":"k","data":{"a":[1,2]}}"#
    );
    let none = FeedbackPayload {
        song_id: None,
        media_id: None,
        playlist_id: None,
        sq_id: None,
        artist: None,
        title: None,
    };
    assert_eq!(feedback_body(&none), "{}");
    let some = FeedbackPayload {
        song_id: None,
        media_id: Some("7".to_string()),
        playlist_id: None,
        sq_id: Some("9".to_string()),
        artist: Some("Bj\u{f6}rk".to_string()),
        title: None,
    };
    assert_eq!(
        feedback_body(&some),
        "{\"media_id\":\"7\",\"sq_id\":\"9\",\"artist\":\"Bj\u{f6}rk\"}"
    );
    let all = FeedbackPayload {
        song_id: Some("1".to_string()),
        media_id: Some("2".to_string()),
        playlist_id: Some("3".to_string()),
        sq_id: Some("4".to_string()),
        artist: Some("5".to_string()),
        title: Some("6".to_string()),
    };
    assert_eq!(
        feedback_body(&all),
        r#"{"song_id":"1","media_id":"2","playlist_id":"3","sq_id":"4","artist":"5","title":"6"}"#
    );
}

#[test]
fn texts_in_bodies_are_escaped() {
    assert_eq!(
        user_body("\u{8}\t\n\u{c}\r\"\\/\0\u{1f}\u{7f}\u{2028}\u{1f3b5}"),
        "{\"user\":\"\\b\\t\\n\\f\\r\\\"\\\\/\\u0000\\u001f\u{7f}\u{2028}\u{1f3b5}\"}"
    );
    for code in 0..0x250u32 {
        let text: String = char::from_u32(code).into_iter().collect();
        let mut object = serde_json::Map::new();
        object.insert("user".to_string(), serde_json::Value::from(text.as_str()));
        object.insert("password".to_string(), serde_json::Value::from("p"));
        let body = auth_body(&text, "p");
        assert_eq!(body, serde_json::Value::Object(object).to_string());
        let read: serde_json::Value = serde_json::from_str(&body).unwrap();
        assert_eq!(read["user"], serde_json::Value::from(text.as_str()));
    }
}
