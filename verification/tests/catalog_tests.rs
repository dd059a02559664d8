use vid2txt::constants::CACHE_TTL_SECS;
use vid2txt::hf::{
    fetch_hf_files_cached, filter_and_sort_files, is_model_file_name, is_quantized_name,
    key_ranks_before, rank_files, with_keys, CacheStamp, CatalogAction, CatalogError,
    CatalogEvent, CatalogState, HfFile, KeyedFile,
};

fn file(name: &str) -> HfFile {
    HfFile { rfilename: name.to_string(), size: None }
}

fn sized(name: &str, size: u64) -> HfFile {
    HfFile { rfilename: name.to_string(), size: Some(size) }
}

fn names(files: &[HfFile]) -> Vec<String> {
    files.iter().map(|f| f.rfilename.clone()).collect()
}

fn listing() -> Vec<HfFile> {
    vec![file("ggml-base.bin"), file("ggml-base-q5.bin"), file("notes.txt"), file("ggml-large.gguf")]
}

fn sorted_as_a_stable_sort_would(files: Vec<HfFile>, prefer_quantized: bool) -> Vec<HfFile> {
    let mut v: Vec<HfFile> = files.into_iter().filter(|f| {
        let n = &f.rfilename;
        n.starts_with("ggml-") && (n.ends_with(".bin") || n.ends_with(".gguf"))
    }).collect();
    v.sort_by(|a, b| {
        let (an, bn) = (a.rfilename.to_lowercase(), b.rfilename.to_lowercase());
        let aq = is_quantized_name(&an) != prefer_quantized;
        let bq = is_quantized_name(&bn) != prefer_quantized;
        aq.cmp(&bq).then_with(|| an.cmp(&bn))
    });
    v
}

#[test]
fn filtering_drops_what_is_no_model_file() {
    let out = filter_and_sort_files(listing(), false);
    assert_eq!(names(&out), vec!["ggml-base.bin", "ggml-large.gguf", "ggml-base-q5.bin"]);
}

#[test]
fn quantized_models_come_first_when_preferred() {
    let out = filter_and_sort_files(listing(), true);
    assert_eq!(names(&out), vec!["ggml-base-q5.bin", "ggml-base.bin", "ggml-large.gguf"]);
}

#[test]
fn model_file_names_have_a_fixed_head_and_tail() {
    assert!(is_model_file_name("ggml-base.bin"));
    assert!(is_model_file_name("ggml-large-v3.gguf"));
    assert!(is_model_file_name("ggml-.bin"));
    assert!(is_model_file_name("ggml-a/b c.bin"));
    assert!(!is_model_file_name("ggml.bin"));
    assert!(!is_model_file_name("GGML-base.bin"));
    assert!(!is_model_file_name("ggml-base.BIN"));
    assert!(!is_model_file_name("ggml-base.bin "));
    assert!(!is_model_file_name(" ggml-base.bin"));
    assert!(!is_model_file_name("ggml-base.ggu"));
    assert!(!is_model_file_name("ggml-basebin"));
    assert!(!is_model_file_name("notes.txt"));
    assert!(!is_model_file_name(""));
}

#[test]
fn quantized_names_carry_a_mark() {
    assert!(is_quantized_name("ggml-base-q5.bin"));
    assert!(is_quantized_name("ggml-base-q8_0.bin"));
    assert!(is_quantized_name("ggml-base.q4.bin"));
    assert!(is_quantized_name("-q"));
    assert!(is_quantized_name("x.quiet"));
    assert!(!is_quantized_name("ggml-base.bin"));
    assert!(!is_quantized_name("ggml-base-Q5.bin"));
    assert!(!is_quantized_name("q"));
    assert!(!is_quantized_name(""));
}

#[test]
fn names_are_compared_in_lower_case() {
    let files = vec![file("ggml-b.bin"), file("ggml-A.bin"), file("ggml-C-Q5.bin"), file("ggml-a0.bin")];
    let out = filter_and_sort_files(files, false);
    assert_eq!(names(&out), vec!["ggml-A.bin", "ggml-a0.bin", "ggml-b.bin", "ggml-C-Q5.bin"]);
    let keyed = with_keys(&vec![file("GGML-Base-Q5.BIN")]);
    assert_eq!(keyed[0].key, "ggml-base-q5.bin");
    assert_eq!(keyed[0].file, file("GGML-Base-Q5.BIN"));
}

#[test]
fn entries_of_one_lower_cased_name_keep_their_order() {
    let files = vec![
        sized("ggml-X.bin", 1), sized("ggml-a.bin", 2), sized("ggml-x.bin", 3), sized("ggml-X.bin", 4),
        sized("ggml-x.bin", 5),
    ];
    let out = filter_and_sort_files(files, false);
    assert_eq!(
        out,
        vec![
            sized("ggml-a.bin", 2), sized("ggml-X.bin", 1), sized("ggml-x.bin", 3),
            sized("ggml-X.bin", 4), sized("ggml-x.bin", 5),
        ]
    );
}

#[test]
fn the_catalog_is_what_a_stable_sort_gives() {
    let pool = [
        "ggml-base.bin", "ggml-base-q5.bin", "ggml-large-v3.bin", "ggml-large-v3-q5_0.bin",
        "ggml-Tiny.en.bin", "ggml-tiny.EN.bin", "ggml-small.q8.gguf", "ggml-medium.gguf", "README.md",
        "ggml-z.bin", "ggml-Z.bin", "ggml-é.bin", "ggml-É.bin", "ggml-.bin", "x-ggml-a.bin",
    ];
    let mut seed: u64 = 12345;
    let mut round = 0;
    while round < 200 {
        let mut files = Vec::new();
        let mut k = 0;
        while k < 12 {
            seed = seed.wrapping_mul(6364136223846793005).wrapping_add(1442695040888963407);
            let pick = ((seed >> 33) % 15) as usize;
            files.push(sized(pool[pick], k));
            k += 1;
        }
        for prefer in [false, true] {
            let expected = sorted_as_a_stable_sort_would(files.clone(), prefer);
            assert_eq!(filter_and_sort_files(files.clone(), prefer), expected);
        }
        round += 1;
    }
}

#[test]
fn the_empty_listing_gives_the_empty_catalog() {
    assert_eq!(filter_and_sort_files(Vec::new(), true), Vec::new());
    assert_eq!(filter_and_sort_files(vec![file("notes.txt")], false), Vec::new());
}

#[test]
fn ranking_goes_by_the_given_keys() {
    let entry = |key: &str, name: &str| KeyedFile { key: key.to_string(), file: file(name) };
    let out = rank_files(vec![entry("b", "1"), entry("a-q", "2"), entry("a", "3"), entry("b", "4")], false);
    let order: Vec<String> = out.iter().map(|e| e.file.rfilename.clone()).collect();
    assert_eq!(order, vec!["3", "1", "4", "2"]);
    let out = rank_files(vec![entry("b", "1"), entry("a-q", "2"), entry("a", "3"), entry("b", "4")], true);
    let order: Vec<String> = out.iter().map(|e| e.file.rfilename.clone()).collect();
    assert_eq!(order, vec!["2", "3", "1", "4"]);
    assert!(key_ranks_before("z-q", "a", true));
    assert!(!key_ranks_before("z-q", "a", false));
    assert!(key_ranks_before("a", "b", true));
    assert!(!key_ranks_before("a", "a", true));
    assert!(key_ranks_before("a", "ab", false));
}

#[test]
fn a_cache_of_23_hours_is_served_without_a_fetch() {
    let (lookup, first) = fetch_hf_files_cached(false, true);
    assert_eq!(first, CatalogAction::ProbeCache);
    let (lookup, second) = lookup.step(CatalogEvent::Stamp(CacheStamp::Age(23 * 3600)));
    assert_eq!(second, CatalogAction::ReadCache);
    let (lookup, third) = lookup.step(CatalogEvent::Cached(Some(listing())));
    assert_eq!(lookup.state, CatalogState::Finished);
    assert_eq!(
        third,
        CatalogAction::Serve(vec![file("ggml-base-q5.bin"), file("ggml-base.bin"), file("ggml-large.gguf")])
    );
}

#[test]
fn a_cache_of_25_hours_triggers_a_fetch() {
    let (lookup, _) = fetch_hf_files_cached(false, false);
    let (lookup, second) = lookup.step(CatalogEvent::Stamp(CacheStamp::Age(25 * 3600)));
    assert_eq!(second, CatalogAction::Fetch);
    assert_eq!(lookup.state, CatalogState::AwaitFetched);
    let (lookup, third) = lookup.step(CatalogEvent::Fetched(Some(listing())));
    assert_eq!(lookup.state, CatalogState::Finished);
    assert_eq!(
        third,
        CatalogAction::StoreAndServe {
            listing: listing(),
            catalog: vec![file("ggml-base.bin"), file("ggml-large.gguf"), file("ggml-base-q5.bin")],
        }
    );
}

#[test]
fn the_cache_is_fresh_up_to_the_last_second_of_the_day() {
    assert_eq!(CACHE_TTL_SECS, 86400);
    for (age, fresh) in [(0, true), (86399, true), (86400, false), (86401, false), (u64::MAX, false)] {
        let (lookup, _) = fetch_hf_files_cached(false, false);
        let (_, action) = lookup.step(CatalogEvent::Stamp(CacheStamp::Age(age)));
        let expected = if fresh { CatalogAction::ReadCache } else { CatalogAction::Fetch };
        assert_eq!(action, expected, "age {}", age);
    }
}

#[test]
fn a_missing_or_future_cache_triggers_a_fetch() {
    for stamp in [CacheStamp::Missing, CacheStamp::Future] {
        let (lookup, _) = fetch_hf_files_cached(false, false);
        let (lookup, action) = lookup.step(CatalogEvent::Stamp(stamp));
        assert_eq!(action, CatalogAction::Fetch);
        assert_eq!(lookup.state, CatalogState::AwaitFetched);
    }
}

#[test]
fn an_unreadable_cache_triggers_a_fetch() {
    let (lookup, _) = fetch_hf_files_cached(false, false);
    let (lookup, _) = lookup.step(CatalogEvent::Stamp(CacheStamp::Age(10)));
    let (lookup, action) = lookup.step(CatalogEvent::Cached(None));
    assert_eq!(action, CatalogAction::Fetch);
    assert_eq!(lookup.state, CatalogState::AwaitFetched);
}

#[test]
fn a_forced_refresh_fetches_at_once() {
    let (lookup, first) = fetch_hf_files_cached(true, false);
    assert_eq!(first, CatalogAction::Fetch);
    assert_eq!(lookup.state, CatalogState::AwaitFetched);
    assert!(!lookup.prefer_quantized);
}

#[test]
fn a_failed_fetch_makes_the_catalog_unavailable() {
    let (lookup, _) = fetch_hf_files_cached(true, false);
    let (lookup, action) = lookup.step(CatalogEvent::Fetched(None));
    assert_eq!(action, CatalogAction::Fail(CatalogError::CatalogUnavailable));
    assert_eq!(lookup.state, CatalogState::Finished);
}

#[test]
fn a_failed_fetch_is_not_mended_from_a_stale_cache() {
    let (lookup, _) = fetch_hf_files_cached(false, false);
    let (lookup, _) = lookup.step(CatalogEvent::Stamp(CacheStamp::Age(90000)));
    let (lookup, action) = lookup.step(CatalogEvent::Fetched(None));
    assert_eq!(action, CatalogAction::Fail(CatalogError::CatalogUnavailable));
    let (lookup, action) = lookup.step(CatalogEvent::Cached(Some(listing())));
    assert_eq!(action, CatalogAction::Nothing);
    assert_eq!(lookup.state, CatalogState::Finished);
}

#[test]
fn an_event_that_answers_nothing_changes_nothing() {
    let (lookup, _) = fetch_hf_files_cached(false, true);
    let (lookup, action) = lookup.step(CatalogEvent::Fetched(Some(listing())));
    assert_eq!(action, CatalogAction::Nothing);
    assert_eq!(lookup.state, CatalogState::AwaitStamp);
    assert!(lookup.prefer_quantized);
    let (lookup, action) = lookup.step(CatalogEvent::Cached(None));
    assert_eq!(action, CatalogAction::Nothing);
    assert_eq!(lookup.state, CatalogState::AwaitStamp);
}
