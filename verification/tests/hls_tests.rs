use dash_to_hls::hls::{
    decimal_of_u32, decrypt_fallback_args, hls_writer_args, mux_args, mux_result,
    temp_file_name, MediaKind, DEFAULT_MAX_SEGMENTS, DEFAULT_SEGMENT_DURATION,
};

#[test]
fn writer_defaults() {
    assert_eq!(DEFAULT_MAX_SEGMENTS, 40);
    assert_eq!(DEFAULT_SEGMENT_DURATION, 4);
}

#[test]
fn writer_arguments() {
    let args = hls_writer_args("./streams/c1", 40, 4);
    let expected = vec![
        "-hide_banner",
        "-loglevel",
        "error",
        "-y",
        "-i",
        "pipe:0",
        "-c:v",
        "copy",
        "-c:a",
        "aac",
        "-ac",
        "2",
        "-channel_layout",
        "stereo",
        "-b:a",
        "128k",
        "-ar",
        "48000",
        "-f",
        "hls",
        "-hls_time",
        "4",
        "-hls_list_size",
        "40",
        "-hls_flags",
        "delete_segments",
        "-hls_segment_type",
        "mpegts",
        "-hls_segment_filename",
        "./streams/c1/segment_%03d.ts",
        "./streams/c1/master.m3u8",
    ];
    assert_eq!(args, expected);
}

#[test]
fn writer_arguments_carry_the_settings() {
    let args = hls_writer_args("out", u32::MAX, 0);
    assert_eq!(args[21], "0");
    assert_eq!(args[23], "4294967295");
    assert_eq!(args[29], "out/segment_%03d.ts");
    assert_eq!(args[30], "out/master.m3u8");
}

#[test]
fn muxer_arguments() {
    let args = mux_args("/tmp/x/video_3.mp4", "/tmp/x/audio_3.mp4");
    let expected = vec![
        "-y",
        "-i",
        "/tmp/x/video_3.mp4",
        "-i",
        "/tmp/x/audio_3.mp4",
        "-map",
        "0:v:0",
        "-map",
        "1:a:0",
        "-c:v",
        "copy",
        "-c:a",
        "aac",
        "-f",
        "mpegts",
        "pipe:1",
    ];
    assert_eq!(args, expected);
}

#[test]
fn fallback_arguments() {
    let args = decrypt_fallback_args("100b6c20940f779a4589152b57d2dacb");
    let expected = vec![
        "-y",
        "-decryption_key",
        "100b6c20940f779a4589152b57d2dacb",
        "-i",
        "pipe:0",
        "-c",
        "copy",
        "pipe:1",
    ];
    assert_eq!(args, expected);
}

#[test]
fn scratch_file_names() {
    assert_eq!(temp_file_name(MediaKind::Video, 0), "video_0.mp4");
    assert_eq!(temp_file_name(MediaKind::Audio, 0), "audio_0.mp4");
    assert_eq!(temp_file_name(MediaKind::Video, 17), "video_17.mp4");
    assert_eq!(temp_file_name(MediaKind::Audio, u32::MAX), "audio_4294967295.mp4");
}

#[test]
fn counts_in_decimal() {
    assert_eq!(decimal_of_u32(0), "0");
    assert_eq!(decimal_of_u32(40), "40");
    assert_eq!(decimal_of_u32(u32::MAX), "4294967295");
}

#[test]
fn mux_run_amounts_to_its_output_or_its_errors() {
    assert_eq!(mux_result(true, vec![0x47, 1], "noise".to_string()).unwrap(), vec![0x47, 1]);
    assert!(mux_result(true, Vec::new(), String::new()).unwrap().is_empty());
    let e = mux_result(false, vec![0x47], "Invalid data found".to_string()).unwrap_err();
    assert_eq!(e.stderr, "Invalid data found");
}
