use soundboard_engine::devices::{check_alias, check_offered, find_device, list_audio_devices, means_default};
use soundboard_engine::engine::EngineError;
use soundboard_engine::text::{chars_of, compare, contains, ends_with, stands_at, starts_with, Rank};

fn names(list: &[&str]) -> Vec<String> {
    list.iter().map(|name| name.to_string()).collect()
}

fn chars(text: &str) -> Vec<char> {
    text.chars().collect()
}

#[test]
fn characters_of_a_text() {
    assert_eq!(chars_of("hw:0"), vec!['h', 'w', ':', '0']);
    assert_eq!(chars_of(""), Vec::<char>::new());
    assert_eq!(chars_of("Lautsprecher (Größe)").len(), 20);
    assert_eq!(chars_of("スピーカー"), vec!['ス', 'ピ', 'ー', 'カ', 'ー']);
}

#[test]
fn pattern_at_a_position() {
    assert!(stands_at(&chars("surround51"), &chars("round"), 3));
    assert!(!stands_at(&chars("surround51"), &chars("round"), 2));
    assert!(!stands_at(&chars("round"), &chars("surround"), 0));
    assert!(stands_at(&chars("abc"), &chars(""), 3));
    assert!(!stands_at(&chars("abc"), &chars(""), 4));
    assert!(!stands_at(&chars("abc"), &chars("c"), usize::MAX));
}

#[test]
fn prefix_suffix_and_substring() {
    assert!(starts_with(&chars("hw:0,0"), &chars("hw:")));
    assert!(!starts_with(&chars("plughw:0"), &chars("hw:")));
    assert!(!starts_with(&chars("hw"), &chars("hw:")));
    assert!(ends_with(&chars("samplerate"), &chars("rate")));
    assert!(!ends_with(&chars("rates"), &chars("rate")));
    assert!(!ends_with(&chars("ate"), &chars("rate")));
    assert!(contains(&chars("front:surround"), &chars("surround")));
    assert!(contains(&chars("upmix"), &chars("upmix")));
    assert!(!contains(&chars("upmi"), &chars("upmix")));
    assert!(!contains(&chars("up-mix"), &chars("upmix")));
    assert!(contains(&chars("abc"), &chars("")));
    assert!(contains(&chars(""), &chars("")));
}

#[test]
fn dictionary_order_by_code_point() {
    assert_eq!(compare(&chars("abc"), &chars("abd")), Rank::Before);
    assert_eq!(compare(&chars("abd"), &chars("abc")), Rank::After);
    assert_eq!(compare(&chars("abc"), &chars("abc")), Rank::Same);
    assert_eq!(compare(&chars("ab"), &chars("abc")), Rank::Before);
    assert_eq!(compare(&chars("abc"), &chars("ab")), Rank::After);
    assert_eq!(compare(&chars(""), &chars("")), Rank::Same);
    assert_eq!(compare(&chars(""), &chars("a")), Rank::Before);
    assert_eq!(compare(&chars("Z"), &chars("a")), Rank::Before);
    assert_eq!(compare(&chars("z"), &chars("é")), Rank::Before);
    assert_eq!(compare(&chars("\u{ffff}"), &chars("\u{10000}")), Rank::Before);
}

#[test]
fn hardware_nodes_and_aliases_are_not_offered() {
    for name in [
        "hw:CARD=PCH,DEV=0",
        "plughw:CARD=PCH,DEV=0",
        "dmix:CARD=PCH,DEV=0",
        "dsnoop:CARD=PCH,DEV=0",
        "samplerate",
        "speexrate",
        "speex",
        "surround51:CARD=PCH,DEV=0",
        "front surround",
        "upmix",
        "vdownmix",
        "my upmixer",
    ] {
        assert!(!check_offered(name), "{}", name);
    }
}

#[test]
fn alias_patterns_are_matched_as_written() {
    assert!(check_alias("hw:0"));
    assert!(check_alias("plughw:0"));
    assert!(check_alias("dmix:0"));
    assert!(check_alias("dsnoop:0"));
    assert!(check_alias("lavrate"));
    assert!(check_alias("speexrate"));
    assert!(check_alias("a surround b"));
    assert!(check_alias("upmix"));
    assert!(check_alias("vdownmix"));
    assert!(!check_alias("HW:0"));
    assert!(!check_alias("Surround"));
    assert!(!check_alias("pulse"));
    assert!(!check_alias(""));
}

#[test]
fn aliases_are_matched_without_regard_to_case() {
    assert!(!check_offered("HW:0,0"));
    assert!(!check_offered("PlugHW:1"));
    assert!(!check_offered("Surround Sound"));
    assert!(!check_offered("SampleRATE"));
    assert!(!check_offered("VDownMix"));
}

#[test]
fn ordinary_names_are_offered() {
    for name in ["default", "pulse", "Speakers (Realtek Audio)", "sysdefault:CARD=PCH", "", "rate limiter", "the hw: node", "my speex"] {
        assert!(check_offered(name), "{}", name);
    }
}

#[test]
fn listing_of_no_devices_is_just_default() {
    assert_eq!(list_audio_devices(&Vec::new()), names(&["Default"]));
}

#[test]
fn listing_is_filtered_sorted_and_free_of_duplicates() {
    let host = names(&[
        "pulse",
        "hw:CARD=PCH,DEV=0",
        "default",
        "Speakers",
        "pulse",
        "surround40:CARD=PCH,DEV=0",
        "Headset",
        "HW:1",
        "default",
        "samplerate",
    ]);
    assert_eq!(list_audio_devices(&host), names(&["Default", "Headset", "Speakers", "default", "pulse"]));
}

#[test]
fn listing_matches_sort_and_dedup_of_the_standard_library() {
    let host = names(&["b", "a", "ab", "B", "", "é", "e", "a", "z", "Z", "10", "9", "ñ", "n", "b"]);
    let mut expected = host.clone();
    expected.sort();
    expected.dedup();
    expected.insert(0, "Default".to_string());
    assert_eq!(list_audio_devices(&host), expected);
}

#[test]
fn listing_keeps_a_device_that_is_itself_called_default() {
    assert_eq!(list_audio_devices(&names(&["Default", "Aux"])), names(&["Default", "Aux", "Default"]));
}

#[test]
fn default_name_means_the_host_s_default_device() {
    assert!(means_default("Default"));
    assert!(!means_default("default"));
    assert!(!means_default("Default "));
    assert!(!means_default(""));
    assert!(!means_default("Speakers"));
}

#[test]
fn other_names_mean_the_first_device_of_that_name() {
    let available = vec![
        Some("pulse".to_string()),
        None,
        Some("Speakers".to_string()),
        Some("Headset".to_string()),
        Some("Speakers".to_string()),
    ];
    assert_eq!(find_device("Speakers", &available), Ok(2));
    assert_eq!(find_device("pulse", &available), Ok(0));
    assert_eq!(find_device("Headset", &available), Ok(3));
}

#[test]
fn unknown_device_name_is_an_error() {
    let available = vec![Some("pulse".to_string()), None];
    assert_eq!(find_device("Speakers", &available), Err(EngineError::DeviceNotFound));
    assert_eq!(find_device("Pulse", &available), Err(EngineError::DeviceNotFound));
    assert_eq!(find_device("", &available), Err(EngineError::DeviceNotFound));
    assert_eq!(find_device("Speakers", &vec![]), Err(EngineError::DeviceNotFound));
}
