use dash_to_hls::config::ChannelTOML;
use dash_to_hls::manager::{
    clone_stream_info, output_dir, playlist_content_type, playlist_url, segment_content_type,
    serve_decision, stream_file_path, Activation, ServeDecision, StreamManager,
    DEFAULT_IDLE_TIMEOUT_SECS, SWEEP_INTERVAL_SECS,
};
use dash_to_hls::pipeline::StreamInfo;

fn channel(id: &str, name: &str) -> ChannelTOML {
    ChannelTOML {
        id: id.to_string(),
        name: name.to_string(),
        url: format!("http://origin.example/{}.mpd", id),
        key: String::new(),
    }
}

fn manager() -> StreamManager {
    StreamManager::from_channels(&vec![channel("c1", "One"), channel("c2", "Two"), channel("c3", "Three")])
}

#[test]
fn manager_defaults() {
    assert_eq!(DEFAULT_IDLE_TIMEOUT_SECS, 120);
    assert_eq!(SWEEP_INTERVAL_SECS, 15);
    assert_eq!(playlist_content_type(), "application/vnd.apple.mpegurl");
    assert_eq!(segment_content_type(), "video/mp2t");
}

#[test]
fn configured_channels_are_listed_and_inactive() {
    let m = manager();
    assert_eq!(m.len(), 3);
    let listed: Vec<(String, String)> =
        m.list_channels().into_iter().map(|c| (c.id, c.name)).collect();
    assert_eq!(
        listed,
        vec![
            ("c1".to_string(), "One".to_string()),
            ("c2".to_string(), "Two".to_string()),
            ("c3".to_string(), "Three".to_string()),
        ]
    );
    assert!(m.list_active().is_empty());
    assert!(!m.is_active("c1"));
    assert_eq!(m.last_access("c1"), None);
}

#[test]
fn later_channel_of_one_id_holds() {
    let m = StreamManager::from_channels(&vec![channel("c1", "Old"), channel("c2", "Two"), channel("c1", "New")]);
    assert_eq!(m.len(), 2);
    assert_eq!(m.details("c1").unwrap().name, "New");
}

#[test]
fn activation_starts_a_configured_stream() {
    let mut m = manager();
    match m.activate("c2") {
        Activation::Started(info) => {
            assert_eq!(info.id, "c2");
            assert_eq!(info.name, "Two");
            assert_eq!(info.url, "http://origin.example/c2.mpd");
            assert_eq!(info.key, "");
            assert_eq!(info.video_init, None);
            assert_eq!(info.audio_init, None);
        }
        other => panic!("unexpected activation {:?}", other),
    }
    assert!(m.is_active("c2"));
    assert!(!m.is_active("c1"));
    assert_eq!(m.list_active(), vec!["c2"]);
    assert_eq!(m.last_access("c2"), None);
}

#[test]
fn second_activation_makes_no_second_pipeline() {
    let mut m = manager();
    let mut started = 0;
    for _ in 0..2 {
        if let Activation::Started(_) = m.activate("c1") {
            started += 1;
        }
    }
    assert_eq!(started, 1);
    assert!(matches!(m.activate("c1"), Activation::AlreadyActive));
    assert_eq!(m.list_active(), vec!["c1"]);
}

#[test]
fn unknown_stream_is_not_activated() {
    let mut m = manager();
    assert!(matches!(m.activate("nope"), Activation::NotFound));
    assert!(m.list_active().is_empty());
    assert!(!m.is_active("nope"));
    assert!(m.details("nope").is_none());
}

#[test]
fn touch_counts_only_for_active_streams() {
    let mut m = manager();
    assert!(!m.touch("c1", 1000));
    assert_eq!(m.last_access("c1"), None);
    assert!(!m.touch("nope", 1000));
    m.activate("c1");
    assert!(m.touch("c1", 2000));
    assert_eq!(m.last_access("c1"), Some(2000));
    assert!(m.touch("c1", 3000));
    assert_eq!(m.last_access("c1"), Some(3000));
    assert_eq!(m.last_access("c2"), None);
}

#[test]
fn idle_stream_is_evicted() {
    let mut m = manager();
    m.activate("c1");
    m.activate("c2");
    assert!(m.touch("c1", 2));
    assert!(m.touch("c2", 100));
    assert!(m.sweep(122, 120).is_empty());
    assert!(m.is_active("c1"));
    assert_eq!(m.sweep(123, 120), vec!["c1"]);
    assert!(!m.is_active("c1"));
    assert_eq!(m.last_access("c1"), None);
    assert!(m.is_active("c2"));
    assert_eq!(m.last_access("c2"), Some(100));
    assert_eq!(m.list_active(), vec!["c2"]);
    assert!(m.sweep(123, 120).is_empty());
    assert_eq!(output_dir("c1"), "./streams/c1");
}

#[test]
fn activate_fetch_teardown() {
    let mut m = StreamManager::from_channels(&vec![channel("c1", "One")]);
    assert!(matches!(m.activate("c1"), Activation::Started(_)));
    match m.serve("c1", "master.m3u8", 2) {
        ServeDecision::Playlist { path } => assert_eq!(path, "./streams/c1/master.m3u8"),
        other => panic!("unexpected decision {:?}", other),
    }
    assert_eq!(m.list_active(), vec!["c1"]);
    let mut evicted = Vec::new();
    let mut now = 2;
    while now <= 2 + 125 + SWEEP_INTERVAL_SECS {
        evicted.extend(m.sweep(now, DEFAULT_IDLE_TIMEOUT_SECS));
        now += SWEEP_INTERVAL_SECS;
    }
    assert_eq!(evicted, vec!["c1"]);
    assert!(m.list_active().is_empty());
    assert!(!m.is_active("c1"));
    assert_eq!(m.last_access("c1"), None);
    assert!(matches!(m.activate("c1"), Activation::Started(_)));
}

#[test]
fn stream_that_was_never_asked_for_is_kept() {
    let mut m = manager();
    m.activate("c1");
    assert!(m.sweep(u64::MAX, 0).is_empty());
    assert!(m.is_active("c1"));
}

#[test]
fn clock_that_runs_backwards_evicts_nothing() {
    let mut m = manager();
    m.activate("c1");
    m.touch("c1", 500);
    assert!(m.sweep(100, 0).is_empty());
    assert!(m.sweep(500, 0).is_empty());
    assert_eq!(m.sweep(501, 0), vec!["c1"]);
}

#[test]
fn sweep_names_every_idle_stream_in_order() {
    let mut m = manager();
    for id in ["c3", "c1", "c2"] {
        m.activate(id);
        m.touch(id, 10);
    }
    m.touch("c2", 1000);
    assert_eq!(m.sweep(1000, 120), vec!["c1", "c3"]);
    assert_eq!(m.list_active(), vec!["c2"]);
}

#[test]
fn requests_are_served_by_file_kind() {
    let mut m = manager();
    assert!(matches!(m.serve("c1", "master.m3u8", 5), ServeDecision::NotActive));
    assert_eq!(m.last_access("c1"), None);
    m.activate("c1");
    match m.serve("c1", "segment_003.ts", 7) {
        ServeDecision::Segment { path } => assert_eq!(path, "./streams/c1/segment_003.ts"),
        other => panic!("unexpected decision {:?}", other),
    }
    assert_eq!(m.last_access("c1"), Some(7));
    assert!(matches!(m.serve("c1", "chunk.m4s", 8), ServeDecision::Segment { .. }));
    assert!(matches!(m.serve("c1", "notes.txt", 9), ServeDecision::InvalidFileType));
    assert_eq!(m.last_access("c1"), Some(9));
    assert!(matches!(m.serve("nope", "master.m3u8", 9), ServeDecision::NotActive));
}

#[test]
fn serve_decisions() {
    assert!(matches!(serve_decision(false, "c", "a.ts"), ServeDecision::NotActive));
    assert!(matches!(serve_decision(true, "c", "a.m3u8"), ServeDecision::Playlist { .. }));
    assert!(matches!(serve_decision(true, "c", "a.ts"), ServeDecision::Segment { .. }));
    assert!(matches!(serve_decision(true, "c", "a.m4s"), ServeDecision::Segment { .. }));
    assert!(matches!(serve_decision(true, "c", "ts"), ServeDecision::InvalidFileType));
    assert!(matches!(serve_decision(true, "c", ""), ServeDecision::InvalidFileType));
    assert!(matches!(serve_decision(true, "c", "a.ts.bak"), ServeDecision::InvalidFileType));
}

#[test]
fn details_of_a_stream() {
    let mut m = manager();
    let d = m.details("c2").unwrap();
    assert_eq!(d.id, "c2");
    assert_eq!(d.name, "Two");
    assert!(!d.active);
    assert_eq!(d.url, "/streams/c2/master.m3u8");
    m.activate("c2");
    assert!(m.details("c2").unwrap().active);
}

#[test]
fn paths() {
    assert_eq!(output_dir("c1"), "./streams/c1");
    assert_eq!(stream_file_path("c1", "master.m3u8"), "./streams/c1/master.m3u8");
    assert_eq!(playlist_url("c1"), "/streams/c1/master.m3u8");
}

#[test]
fn empty_manager() {
    let mut m = StreamManager::new();
    assert_eq!(m.len(), 0);
    assert!(m.list_channels().is_empty());
    assert!(m.sweep(10, 0).is_empty());
    assert!(matches!(m.activate("c1"), Activation::NotFound));
    m.add_channel(&channel("c1", "One"));
    assert_eq!(m.len(), 1);
    assert!(matches!(m.activate("c1"), Activation::Started(_)));
    m.touch("c1", 3);
    m.add_channel(&channel("c1", "Again"));
    assert!(!m.is_active("c1"));
    assert_eq!(m.last_access("c1"), None);
}

#[test]
fn stream_info_is_copied_whole() {
    let s = StreamInfo {
        id: "c".to_string(),
        name: "n".to_string(),
        url: "u".to_string(),
        key: "k".to_string(),
        video_init: Some(vec![1, 2]),
        audio_init: None,
    };
    let c = clone_stream_info(&s);
    assert_eq!((c.id, c.name, c.url, c.key), ("c".to_string(), "n".to_string(), "u".to_string(), "k".to_string()));
    assert_eq!(c.video_init, Some(vec![1, 2]));
    assert_eq!(c.audio_init, None);
}
