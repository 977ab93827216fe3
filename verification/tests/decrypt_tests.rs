use dash_to_hls::decrypt::{
    after_in_process, decrypt_segment, finish_decrypt, has_nul, with_init, DecryptStep,
};

#[test]
fn empty_key_returns_the_bytes_unchanged() {
    let data: Vec<u8> = vec![0, 0, 0, 24, 102, 116, 121, 112, 255, 1, 2, 3];
    match decrypt_segment(data.clone(), "") {
        DecryptStep::Done(out) => assert_eq!(out, data),
        DecryptStep::Fallback(_) => panic!("a clear channel needs no subprocess"),
    }
    match decrypt_segment(Vec::new(), "") {
        DecryptStep::Done(out) => assert!(out.is_empty()),
        DecryptStep::Fallback(_) => panic!("a clear channel needs no subprocess"),
    }
}

#[test]
fn key_that_is_no_hex_falls_back_with_the_input() {
    let data: Vec<u8> = vec![0, 0, 0, 8, 102, 114, 101, 101];
    match decrypt_segment(data.clone(), "this is no key") {
        DecryptStep::Fallback(input) => assert_eq!(input, data),
        DecryptStep::Done(_) => panic!("the decoder cannot take this key"),
    }
}

#[test]
fn key_with_a_nul_falls_back_with_the_input() {
    let data: Vec<u8> = vec![1, 2, 3];
    match decrypt_segment(data.clone(), "00\u{0}11") {
        DecryptStep::Fallback(input) => assert_eq!(input, data),
        DecryptStep::Done(_) => panic!("the decoder cannot take this key"),
    }
}

#[test]
fn nul_is_found() {
    assert!(has_nul("a\u{0}b"));
    assert!(has_nul("\u{0}"));
    assert!(!has_nul("100b6c20940f779a4589152b57d2dacb"));
    assert!(!has_nul(""));
}

#[test]
fn outcome_of_the_decoder_decides() {
    match after_in_process(vec![1, 2], Some(vec![9, 9, 9])) {
        DecryptStep::Done(out) => assert_eq!(out, vec![9, 9, 9]),
        DecryptStep::Fallback(_) => panic!("the decoder gave an output"),
    }
    match after_in_process(vec![1, 2], Some(Vec::new())) {
        DecryptStep::Done(out) => assert!(out.is_empty()),
        DecryptStep::Fallback(_) => panic!("the decoder gave an output"),
    }
    match after_in_process(vec![1, 2], None) {
        DecryptStep::Fallback(input) => assert_eq!(input, vec![1, 2]),
        DecryptStep::Done(_) => panic!("the decoder failed"),
    }
}

#[test]
fn subprocess_output_or_the_input_bytes() {
    assert_eq!(finish_decrypt(vec![1, 2], Some(vec![7])), vec![7]);
    assert_eq!(finish_decrypt(vec![1, 2], Some(Vec::new())), vec![1, 2]);
    assert_eq!(finish_decrypt(vec![1, 2], None), vec![1, 2]);
}

#[test]
fn media_goes_behind_the_init_segment() {
    assert_eq!(with_init(&Some(vec![1, 2]), vec![3, 4]), vec![1, 2, 3, 4]);
    assert_eq!(with_init(&Some(Vec::new()), vec![3, 4]), vec![3, 4]);
    assert_eq!(with_init(&None, vec![3, 4]), vec![3, 4]);
}
