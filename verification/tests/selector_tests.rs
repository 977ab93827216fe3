use dash_to_hls::manifest::{
    AdaptationSet, Manifest, Period, Representation, SegmentTemplate, TimelineEntry,
};
use dash_to_hls::resolver::ExtractError;
use dash_to_hls::selector::{
    adaptation_is_audio, adaptation_is_video, find_best, select_representations, SelectionPolicy,
};

const MPD_URL: &str = "http://origin.example/live/stream.mpd";

fn rep(id: &str, bandwidth: Option<u64>) -> Representation {
    Representation {
        id: Some(id.to_string()),
        bandwidth,
        base_url: None,
        segment_template: Some(SegmentTemplate {
            initialization: Some("$RepresentationID$-init".to_string()),
            media: Some("$RepresentationID$-$Time$".to_string()),
            duration: None,
            timescale: None,
            timeline: Some(vec![TimelineEntry { t: Some(0), d: 1, r: Some(1) }]),
        }),
        segment_list: None,
    }
}

fn bare(id: &str) -> Representation {
    Representation {
        id: Some(id.to_string()),
        bandwidth: None,
        base_url: None,
        segment_template: None,
        segment_list: None,
    }
}

fn set(mime: Option<&str>, content: Option<&str>, reps: Vec<Representation>) -> AdaptationSet {
    AdaptationSet {
        mime_type: mime.map(|s| s.to_string()),
        content_type: content.map(|s| s.to_string()),
        segment_template: None,
        representations: reps,
    }
}

fn manifest(periods: Vec<Vec<AdaptationSet>>) -> Manifest {
    Manifest {
        mpd_type: None,
        base_url: None,
        periods: periods
            .into_iter()
            .map(|adaptations| Period { base_url: None, duration_secs: None, adaptations })
            .collect(),
    }
}

fn urls(id: &str) -> Vec<String> {
    vec![
        format!("http://origin.example/live/{}-0", id),
        format!("http://origin.example/live/{}-1", id),
    ]
}

#[test]
fn default_policy_prefers_six_and_nine() {
    let p = SelectionPolicy::default();
    assert_eq!(p.video_index, 6);
    assert_eq!(p.audio_index, 9);
}

#[test]
fn adaptation_types() {
    assert!(adaptation_is_video(&set(Some("video/mp4"), None, vec![])));
    assert!(adaptation_is_video(&set(None, Some("video"), vec![])));
    assert!(!adaptation_is_video(&set(Some("video/webm"), Some("audio"), vec![])));
    assert!(adaptation_is_audio(&set(Some("audio/mp4"), None, vec![])));
    assert!(adaptation_is_audio(&set(None, Some("audio"), vec![])));
    assert!(!adaptation_is_audio(&set(None, None, vec![])));
}

#[test]
fn single_video_representation_is_taken_by_the_fallback() {
    let m = manifest(vec![vec![set(Some("video/mp4"), None, vec![rep("only", Some(1))])]]);
    let choice = select_representations(&m, MPD_URL, SelectionPolicy::default()).unwrap();
    let video = choice.video.unwrap();
    assert_eq!(video.segment_urls, urls("only"));
    assert_eq!(video.init_url, Some("http://origin.example/live/only-init".to_string()));
    assert!(choice.audio.is_none());
}

#[test]
fn preferred_positions_count_across_adaptation_sets() {
    let video: Vec<Representation> = (0..8).map(|i| rep(&format!("v{}", i), Some(100 - i))).collect();
    let audio: Vec<Representation> = (0..3).map(|i| rep(&format!("a{}", i), None)).collect();
    let m = manifest(vec![vec![
        set(Some("video/mp4"), None, video),
        set(Some("audio/mp4"), None, audio),
    ]]);
    let choice = select_representations(&m, MPD_URL, SelectionPolicy::default()).unwrap();
    assert_eq!(choice.video.unwrap().segment_urls, urls("v6"));
    assert_eq!(choice.audio.unwrap().segment_urls, urls("a1"));
}

#[test]
fn positions_start_anew_in_each_period() {
    let first: Vec<Representation> = (0..5).map(|i| rep(&format!("p0v{}", i), None)).collect();
    let second: Vec<Representation> = (0..7).map(|i| rep(&format!("p1v{}", i), None)).collect();
    let m = manifest(vec![
        vec![set(Some("video/mp4"), None, first)],
        vec![set(Some("video/mp4"), None, second)],
    ]);
    let choice = select_representations(&m, MPD_URL, SelectionPolicy::default()).unwrap();
    assert_eq!(choice.video.unwrap().segment_urls, urls("p1v6"));
}

#[test]
fn position_of_the_wrong_type_is_not_preferred() {
    let audio: Vec<Representation> = (0..7).map(|i| rep(&format!("a{}", i), None)).collect();
    let m = manifest(vec![vec![
        set(Some("audio/mp4"), None, audio),
        set(Some("video/mp4"), None, vec![rep("low", Some(1)), rep("high", Some(9))]),
    ]]);
    let choice = select_representations(&m, MPD_URL, SelectionPolicy::default()).unwrap();
    assert_eq!(choice.video.unwrap().segment_urls, urls("high"));
    assert_eq!(choice.audio.unwrap().segment_urls, urls("a0"));
}

#[test]
fn custom_policy_moves_the_preferred_positions() {
    let m = manifest(vec![vec![
        set(None, Some("video"), vec![rep("v0", Some(9)), rep("v1", Some(1))]),
        set(None, Some("audio"), vec![rep("a0", None), rep("a1", None)]),
    ]]);
    let policy = SelectionPolicy { video_index: 1, audio_index: 3 };
    let choice = select_representations(&m, MPD_URL, policy).unwrap();
    assert_eq!(choice.video.unwrap().segment_urls, urls("v1"));
    assert_eq!(choice.audio.unwrap().segment_urls, urls("a1"));
}

#[test]
fn fallback_takes_greatest_bandwidth_and_first_audio() {
    let m = manifest(vec![vec![
        set(Some("video/mp4"), None, vec![rep("v0", Some(5)), rep("v1", Some(50)), rep("v2", None)]),
        set(Some("audio/mp4"), None, vec![rep("a0", Some(1)), rep("a1", Some(100))]),
    ]]);
    let choice = select_representations(&m, MPD_URL, SelectionPolicy::default()).unwrap();
    assert_eq!(choice.video.unwrap().segment_urls, urls("v1"));
    assert_eq!(choice.audio.unwrap().segment_urls, urls("a0"));
}

#[test]
fn of_equal_bandwidths_the_last_is_best() {
    let reps = vec![rep("a", Some(7)), rep("b", Some(9)), rep("c", Some(9)), rep("d", Some(1))];
    assert_eq!(find_best(&reps), Some(2));
    assert_eq!(find_best(&vec![rep("a", None), rep("b", None)]), Some(1));
    assert_eq!(find_best(&vec![rep("a", Some(3))]), Some(0));
    assert_eq!(find_best(&Vec::new()), None);
}

#[test]
fn fallback_keeps_the_first_adaptation_set_of_a_type() {
    let m = manifest(vec![vec![
        set(Some("video/mp4"), None, vec![rep("first", Some(1))]),
        set(Some("video/mp4"), None, vec![rep("second", Some(99))]),
    ]]);
    let choice = select_representations(&m, MPD_URL, SelectionPolicy::default()).unwrap();
    assert_eq!(choice.video.unwrap().segment_urls, urls("first"));
}

#[test]
fn empty_manifest_resolves_nothing() {
    let choice = select_representations(&manifest(vec![]), MPD_URL, SelectionPolicy::default()).unwrap();
    assert!(choice.video.is_none());
    assert!(choice.audio.is_none());
    let m = manifest(vec![vec![set(Some("video/mp4"), None, vec![]), set(Some("text/vtt"), None, vec![rep("t", None)])]]);
    let choice = select_representations(&m, MPD_URL, SelectionPolicy::default()).unwrap();
    assert!(choice.video.is_none());
    assert!(choice.audio.is_none());
}

#[test]
fn unsupported_representation_fails_the_selection() {
    let m = manifest(vec![vec![set(Some("video/mp4"), None, vec![bare("nothing")])]]);
    let r = select_representations(&m, MPD_URL, SelectionPolicy::default());
    assert_eq!(r.unwrap_err(), ExtractError::RepresentationUnsupported);
}
