use vid2txt::fs_utils::{
    extension_candidates, find_first_with_ext, has_dot, media_extension, same_ignoring_ascii_case,
    try_infer_with_exts, Inferred, MEDIA_EXTENSION_COUNT,
};

fn directory_answers(directory: &[&str], file_name: &str) -> Vec<bool> {
    extension_candidates(file_name).iter().map(|n| directory.contains(&n.as_str())).collect()
}

fn infer_in(directory: &[&str], file_name: &str) -> Option<Inferred> {
    let exists = directory.contains(&file_name);
    try_infer_with_exts(exists, Some(file_name), &directory_answers(directory, file_name))
}

#[test]
fn a_name_without_extension_finds_its_media_file() {
    assert_eq!(infer_in(&["clip.mp4"], "clip"), Some(Inferred::Sibling("clip.mp4".to_string())));
}

#[test]
fn a_name_with_extension_is_not_guessed_over() {
    assert_eq!(infer_in(&["clip.mp4.mp4", "clip.mkv"], "clip.mp4"), None);
    assert_eq!(infer_in(&[], "clip.mp4"), None);
    assert_eq!(try_infer_with_exts(false, Some("clip.mp4"), &vec![true; 12]), None);
    assert_eq!(try_infer_with_exts(false, Some(".hidden"), &vec![true; 12]), None);
    assert_eq!(try_infer_with_exts(false, Some("clip."), &vec![true; 12]), None);
}

#[test]
fn a_name_without_any_match_is_not_found() {
    assert_eq!(infer_in(&["clip.mp4"], "missing"), None);
    assert_eq!(infer_in(&[], "missing"), None);
    assert_eq!(infer_in(&["missing.txt", "missing.MP4"], "missing"), None);
}

#[test]
fn an_existing_input_is_taken_as_given() {
    assert_eq!(infer_in(&["clip", "clip.mp4"], "clip"), Some(Inferred::AsGiven));
    assert_eq!(infer_in(&["clip.mp4"], "clip.mp4"), Some(Inferred::AsGiven));
    assert_eq!(try_infer_with_exts(true, None, &Vec::new()), Some(Inferred::AsGiven));
}

#[test]
fn an_input_without_a_file_name_stands_for_nothing() {
    assert_eq!(try_infer_with_exts(false, None, &vec![true; 12]), None);
}

#[test]
fn extensions_are_tried_in_a_fixed_order() {
    let order = ["mp4", "mkv", "webm", "mov", "m4a", "mp3", "wav", "flac", "avi", "m4v", "aac", "opus"];
    assert_eq!(MEDIA_EXTENSION_COUNT, 12);
    for (k, ext) in order.iter().enumerate() {
        assert_eq!(media_extension(k), *ext);
    }
    let expected: Vec<String> = order.iter().map(|e| format!("talk.{}", e)).collect();
    assert_eq!(extension_candidates("talk"), expected);
    assert_eq!(extension_candidates("talk.mp3"), Vec::<String>::new());
    assert_eq!(infer_in(&["talk.opus", "talk.wav", "talk.mkv"], "talk"), Some(Inferred::Sibling("talk.mkv".to_string())));
    assert_eq!(infer_in(&["talk.opus"], "talk"), Some(Inferred::Sibling("talk.opus".to_string())));
}

#[test]
fn missing_answers_count_as_no() {
    assert_eq!(try_infer_with_exts(false, Some("talk"), &Vec::new()), None);
    assert_eq!(try_infer_with_exts(false, Some("talk"), &vec![false, false]), None);
    assert_eq!(
        try_infer_with_exts(false, Some("talk"), &vec![false, false, true]),
        Some(Inferred::Sibling("talk.webm".to_string()))
    );
    let mut answers = vec![false; 12];
    answers.push(true);
    assert_eq!(try_infer_with_exts(false, Some("talk"), &answers), None);
}

#[test]
fn dots_are_found_anywhere_in_a_name() {
    assert!(has_dot("a.b"));
    assert!(has_dot(".a"));
    assert!(has_dot("a."));
    assert!(!has_dot("ab"));
    assert!(!has_dot(""));
}

#[test]
fn the_first_file_with_the_extension_is_found() {
    let ext = |s: &str| Some(s.to_string());
    let files = vec![None, ext("txt"), ext("WAV"), ext("wav"), ext("wave")];
    assert_eq!(find_first_with_ext(&files, "wav"), Some(2));
    assert_eq!(find_first_with_ext(&files, "WaV"), Some(2));
    assert_eq!(find_first_with_ext(&files, "wave"), Some(4));
    assert_eq!(find_first_with_ext(&files, "mp3"), None);
    assert_eq!(find_first_with_ext(&files, ""), None);
    assert_eq!(find_first_with_ext(&vec![ext("")], ""), Some(0));
    assert_eq!(find_first_with_ext(&Vec::new(), "wav"), None);
}

#[test]
fn extensions_are_compared_without_ascii_case() {
    for (a, b) in [("wav", "WAV"), ("", ""), ("Mp3", "mP3"), ("é", "é"), ("a", "b"), ("é", "É"), ("wav", "wave"), ("k", "\u{212a}")] {
        assert_eq!(same_ignoring_ascii_case(a, b), a.eq_ignore_ascii_case(b), "{:?} {:?}", a, b);
    }
}
