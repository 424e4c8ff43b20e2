use azuracast_engine::annotate::{parse_annotated_uri, Annotations};
use azuracast_engine::prepare::number_texts;

fn get_f64(a: &Annotations, key: &str) -> Option<f64> {
    a.get_trimmed(key).and_then(|t| t.parse::<f64>().ok())
}

#[test]
fn no_annotations_bare_path() {
    let a = parse_annotated_uri("media:some/path.mp3");
    assert!(a.is_empty());
    assert_eq!(a.path, "media:some/path.mp3");
}

#[test]
fn single_key() {
    let a = parse_annotated_uri(r#"annotate:title="Song Title":media:some/path.mp3"#);
    assert_eq!(a.len(), 1);
    assert_eq!(a.get("title"), Some("Song Title"));
    assert_eq!(a.path, "media:some/path.mp3");
}

#[test]
fn multiple_keys() {
    let a = parse_annotated_uri(
        r#"annotate:title="Song Title",artist="Some Artist",duration="123.45":media:x.mp3"#,
    );
    assert_eq!(a.len(), 3);
    assert_eq!(a.get("title"), Some("Song Title"));
    assert_eq!(a.get("artist"), Some("Some Artist"));
    assert_eq!(get_f64(&a, "duration"), Some(123.45));
    assert_eq!(a.path, "media:x.mp3");
}

#[test]
fn embedded_escaped_quote() {
    let a = parse_annotated_uri(r#"annotate:title="She said \"hi\" to me":media:x.mp3"#);
    assert_eq!(a.get("title"), Some(r#"She said "hi" to me"#));
    assert_eq!(a.path, "media:x.mp3");
}

#[test]
fn downstream_keys_of_interest() {
    let uri = [
        r#"annotate:title="T",artist="A",duration="180",song_id="s1","#,
        r#"media_id="m1",sq_id="q1",playlist_id="p1",jingle_mode="true","#,
        r#"azuracast_autocue="true",autocue_cue_in="1.5",autocue_cue_out="170.0","#,
        r#"autocue_fade_in="2.0",autocue_fade_out="3.0",autocue_start_next="165.0","#,
        r#"liq_amplify="3.2 dB",azuracast_cache_key="cachekey123""#,
        ":media:path/to/file.mp3",
    ]
    .concat();
    let a = parse_annotated_uri(&uri);
    assert_eq!(a.get("title"), Some("T"));
    assert_eq!(a.get("artist"), Some("A"));
    assert_eq!(get_f64(&a, "duration"), Some(180.0));
    assert_eq!(a.get("song_id"), Some("s1"));
    assert_eq!(a.get("media_id"), Some("m1"));
    assert_eq!(a.get("sq_id"), Some("q1"));
    assert_eq!(a.get("playlist_id"), Some("p1"));
    assert!(a.get_bool("jingle_mode"));
    assert!(a.get_bool("azuracast_autocue"));
    assert_eq!(get_f64(&a, "autocue_cue_in"), Some(1.5));
    assert_eq!(get_f64(&a, "autocue_cue_out"), Some(170.0));
    assert_eq!(get_f64(&a, "autocue_fade_in"), Some(2.0));
    assert_eq!(get_f64(&a, "autocue_fade_out"), Some(3.0));
    assert_eq!(get_f64(&a, "autocue_start_next"), Some(165.0));
    assert_eq!(a.get("liq_amplify"), Some("3.2 dB"));
    assert_eq!(a.get("azuracast_cache_key"), Some("cachekey123"));
    assert_eq!(a.path, "media:path/to/file.mp3");
}

#[test]
fn no_prefix_at_all() {
    let a = parse_annotated_uri("/var/azuracast/media/song.mp3");
    assert!(a.is_empty());
    assert_eq!(a.path, "/var/azuracast/media/song.mp3");
}

#[test]
fn text_that_is_no_pair_is_the_path() {
    let a = parse_annotated_uri("annotate:plain/path.mp3");
    assert!(a.is_empty());
    assert_eq!(a.path, "plain/path.mp3");

    let b = parse_annotated_uri(r#"annotate:title="T",key=value:x.mp3"#);
    assert_eq!(b.get("title"), Some("T"));
    assert_eq!(b.len(), 1);
    assert_eq!(b.path, "key=value:x.mp3");

    let c = parse_annotated_uri("annotate:key=");
    assert!(c.is_empty());
    assert_eq!(c.path, "key=");
}

#[test]
fn unterminated_values_keep_what_was_read() {
    let a = parse_annotated_uri(r#"annotate:title="never closed"#);
    assert_eq!(a.get("title"), Some("never closed"));
    assert_eq!(a.path, "");

    let b = parse_annotated_uri(r#"annotate:title="closed""#);
    assert_eq!(b.get("title"), Some("closed"));
    assert_eq!(b.path, "");
}

#[test]
fn unexpected_text_after_a_value_is_the_path() {
    let a = parse_annotated_uri(r#"annotate:title="T"rest"#);
    assert_eq!(a.get("title"), Some("T"));
    assert_eq!(a.path, "rest");
}

#[test]
fn backslashes_stand_for_themselves_before_other_characters() {
    let a = parse_annotated_uri(r#"annotate:title="a\b\\c":x"#);
    assert_eq!(a.get("title"), Some(r"a\b\\c"));
    assert_eq!(a.path, "x");
}

#[test]
fn a_later_pair_wins_over_an_earlier_one() {
    let a = parse_annotated_uri(r#"annotate:title="one",title="two":x"#);
    assert_eq!(a.len(), 1);
    assert_eq!(a.get("title"), Some("two"));
}

#[test]
fn written_uris_read_back() {
    let pairs = [("title", r#"Say "x", y=z: \ok"#), ("artist", "É — ü")];
    let mut uri = String::from("annotate:");
    for (i, (key, value)) in pairs.iter().enumerate() {
        if i > 0 {
            uri.push(',');
        }
        uri.push_str(&format!("{key}=\"{}\"", value.replace('"', "\\\"")));
    }
    uri.push_str(":media:a:b,c.mp3");
    let a = parse_annotated_uri(&uri);
    assert_eq!(a.len(), 2);
    assert_eq!(a.get("title"), Some(r#"Say "x", y=z: \ok"#));
    assert_eq!(a.get("artist"), Some("É — ü"));
    assert_eq!(a.path, "media:a:b,c.mp3");
}

#[test]
fn a_backslash_at_the_end_of_a_value_hides_the_quote() {
    let a = parse_annotated_uri("annotate:title=\"x\\\":path");
    assert_eq!(a.get("title"), Some("x\":path"));
    assert_eq!(a.path, "");
}

#[test]
fn only_the_text_true_is_true() {
    let a = parse_annotated_uri(r#"annotate:a="true",b="TRUE",c="1",d="false":x"#);
    assert!(a.get_bool("a"));
    assert!(!a.get_bool("b"));
    assert!(!a.get_bool("c"));
    assert!(!a.get_bool("d"));
    assert!(!a.get_bool("absent"));
}

#[test]
fn numbers_are_trimmed_before_they_are_read() {
    let a = parse_annotated_uri("annotate:n=\" \t1.25\u{a0}\":x");
    assert_eq!(a.get_trimmed("n").as_deref(), Some("1.25"));
    assert_eq!(a.get_trimmed("m"), None);
}

#[test]
fn cue_numbers_count_only_with_autocue() {
    let off = parse_annotated_uri(r#"annotate:autocue_cue_in="1",liq_amplify="-3.2 dB":x"#);
    let texts = number_texts(&off);
    assert_eq!(texts.cue_in, None);
    assert_eq!(texts.amplify.as_deref(), Some("-3.2"));

    let on = parse_annotated_uri(
        r#"annotate:azuracast_autocue="true",autocue_cue_in=" 1 ",autocue_fade_out="2",replaygain_track_gain=" -6.5 ":x"#,
    );
    let texts = number_texts(&on);
    assert_eq!(texts.cue_in.as_deref(), Some("1"));
    assert_eq!(texts.cue_out, None);
    assert_eq!(texts.fade_in, None);
    assert_eq!(texts.fade_out.as_deref(), Some("2"));
    assert_eq!(texts.start_next, None);
    assert_eq!(texts.amplify, None);
    assert_eq!(texts.replaygain.as_deref(), Some("-6.5"));
}
