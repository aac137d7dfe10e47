use soundboard_engine::cache::{
    choose_duration, storage_for, CachedSound, DecodeCache, Storage, CACHE_THRESHOLD_BYTES,
};

#[test]
fn threshold_is_five_mebibytes() {
    assert_eq!(CACHE_THRESHOLD_BYTES, 5_242_880);
}

#[test]
fn files_up_to_the_threshold_are_buffered() {
    assert_eq!(storage_for(0), Storage::Buffered);
    assert_eq!(storage_for(2 * 1024 * 1024), Storage::Buffered);
    assert_eq!(storage_for(5_242_880), Storage::Buffered);
}

#[test]
fn files_over_the_threshold_are_streamed() {
    assert_eq!(storage_for(5_242_881), Storage::Streamed);
    assert_eq!(storage_for(10 * 1024 * 1024), Storage::Streamed);
    assert_eq!(storage_for(u64::MAX), Storage::Streamed);
}

#[test]
fn container_duration_is_preferred() {
    assert_eq!(choose_duration(Some(1_000), Some(990)), 1_000);
    assert_eq!(choose_duration(Some(0), Some(990)), 0);
    assert_eq!(choose_duration(Some(1_000), None), 1_000);
}

#[test]
fn decoder_duration_is_the_fallback() {
    assert_eq!(choose_duration(None, Some(990)), 990);
    assert_eq!(choose_duration(None, None), 0);
}

#[test]
fn small_file_with_samples_makes_a_buffered_entry() {
    let sound = CachedSound::decoded(2_097_152, 2, 44_100, Some(1_000), Some(998), Some(vec![1i16, -1, 2])).unwrap();
    assert_eq!(sound.file_size(), 2_097_152);
    assert_eq!(sound.channels(), 2);
    assert_eq!(sound.sample_rate(), 44_100);
    assert_eq!(sound.duration_ms(), 1_000);
    assert_eq!(sound.samples(), Some(&vec![1i16, -1, 2]));
    assert_eq!(sound.storage(), Storage::Buffered);
}

#[test]
fn large_file_makes_an_entry_without_samples() {
    let sound = CachedSound::<Vec<i16>>::decoded(10_485_760, 1, 48_000, None, Some(60_000), None).unwrap();
    assert_eq!(sound.samples(), None);
    assert_eq!(sound.storage(), Storage::Streamed);
    assert_eq!(sound.duration_ms(), 60_000);
    assert_eq!(sound.channels(), 1);
    assert_eq!(sound.sample_rate(), 48_000);
}

#[test]
fn entry_must_match_the_storage_policy() {
    assert!(CachedSound::<Vec<i16>>::decoded(2_097_152, 2, 44_100, None, None, None).is_none());
    assert!(CachedSound::decoded(10_485_760, 2, 44_100, None, None, Some(vec![0i16])).is_none());
    assert!(CachedSound::decoded(5_242_880, 2, 44_100, None, None, Some(vec![0i16])).is_some());
    assert!(CachedSound::<Vec<i16>>::decoded(5_242_881, 2, 44_100, None, None, None).is_some());
}

#[test]
fn empty_cache_has_no_entry() {
    let cache: DecodeCache<Vec<i16>> = DecodeCache::new();
    assert_eq!(cache.len(), 0);
    assert!(!cache.contains("short.wav"));
    assert!(cache.get("short.wav").is_none());
}

#[test]
fn same_path_twice_keeps_one_entry() {
    let mut cache = DecodeCache::new();
    let first = CachedSound::decoded(100, 2, 44_100, Some(1_000), None, Some(vec![1i16])).unwrap();
    let second = CachedSound::decoded(200, 1, 22_050, Some(2_000), None, Some(vec![2i16])).unwrap();
    assert!(cache.offer("short.wav".to_string(), first).is_none());
    let back = cache.offer("short.wav".to_string(), second).unwrap();
    assert_eq!(back.file_size(), 200);
    assert_eq!(cache.len(), 1);
    let kept = cache.get("short.wav").unwrap();
    assert_eq!(kept.file_size(), 100);
    assert_eq!(kept.duration_ms(), 1_000);
    assert_eq!(kept.samples(), Some(&vec![1i16]));
}

#[test]
fn paths_are_told_apart_by_their_text() {
    let mut cache = DecodeCache::new();
    let a = CachedSound::decoded(100, 2, 44_100, Some(1_000), None, Some(vec![1i16])).unwrap();
    let b = CachedSound::<Vec<i16>>::decoded(10_485_760, 2, 44_100, Some(2_000), None, None).unwrap();
    assert!(cache.offer("a.wav".to_string(), a).is_none());
    assert!(cache.offer("A.wav".to_string(), b).is_none());
    assert_eq!(cache.len(), 2);
    assert!(cache.contains("a.wav"));
    assert!(cache.contains("A.wav"));
    assert!(!cache.contains("a.wa"));
    assert_eq!(cache.get("a.wav").unwrap().storage(), Storage::Buffered);
    assert_eq!(cache.get("A.wav").unwrap().storage(), Storage::Streamed);
}
