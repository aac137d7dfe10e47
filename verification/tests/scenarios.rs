use soundboard_engine::cache::{storage_for, CachedSound, Storage};
use soundboard_engine::engine::{
    play_sound, replace_sink, report_progress, seek_instance, start_instance, stop_instance, AudioState,
};
use soundboard_engine::progress::{after_settle, after_tick, ReporterStep, SETTLE_MS, TICK_MS};

#[test]
fn short_sound_plays_to_its_end() {
    let mut state: AudioState<&str, Vec<i16>, u8> = AudioState::new();
    let file_size = 2 * 1024 * 1024;
    assert_eq!(storage_for(file_size), Storage::Buffered);
    let sound = CachedSound::decoded(file_size, 2, 44_100, Some(1_000), None, Some(vec![0i16; 8])).unwrap();
    let instance_id = play_sound(&mut state).unwrap();
    assert_eq!(instance_id, 1);
    assert!(state.cache.offer("short.wav".to_string(), sound).is_none());
    let unused = start_instance(&mut state, 1, "a".to_string(), "short.wav".to_string(), "Short".to_string(), "sink", 0);
    assert!(unused.is_none());

    // The sink has audio for one second.
    let sink_empty = |at: u64| at >= 1_000;
    let mut now = 0u64;
    let mut last_position = 0u64;
    let mut events = 0u32;
    let finished_at = loop {
        let event = match report_progress(&mut state, 1, now) {
            Some(event) => event,
            None => break now,
        };
        assert!(event.position_ms <= event.duration_ms);
        assert!(event.position_ms >= last_position);
        last_position = event.position_ms;
        events += 1;
        now += TICK_MS;
        match after_tick(sink_empty(now), state.sinks.contains(1)) {
            ReporterStep::Report => continue,
            ReporterStep::Finish => break now,
            ReporterStep::Settle => {
                now += SETTLE_MS;
                let current = state.sinks.get(1).map(|_| sink_empty(now));
                if after_settle(current) == ReporterStep::Finish {
                    break now;
                }
            },
        }
    };
    assert!(stop_instance(&mut state, 1).is_ok());
    assert_eq!(events, 34);
    assert_eq!(last_position, 990);
    assert_eq!(finished_at, 1_030);
    assert!(finished_at >= 1_000 && finished_at <= 1_100);
    assert!(!state.sinks.contains(1));
    assert!(report_progress(&mut state, 1, finished_at).is_none());
}

#[test]
fn large_file_is_streamed_and_seeks_by_decoding_again() {
    let mut state: AudioState<&str, Vec<i16>, u8> = AudioState::new();
    let file_size = 10 * 1024 * 1024;
    assert_eq!(storage_for(file_size), Storage::Streamed);
    let sound = CachedSound::<Vec<i16>>::decoded(file_size, 2, 44_100, Some(240_000), None, None).unwrap();
    assert!(state.cache.offer("long.mp3".to_string(), sound).is_none());
    let entry = state.cache.get("long.mp3").unwrap();
    assert!(entry.samples().is_none());
    assert_eq!(entry.storage(), Storage::Streamed);
    assert_eq!(entry.duration_ms(), 240_000);

    let instance_id = play_sound(&mut state).unwrap();
    assert_eq!(instance_id, 1);
    assert!(start_instance(&mut state, 1, "b".to_string(), "long.mp3".to_string(), "Long".to_string(), "first", 0).is_none());
    assert_eq!(report_progress(&mut state, 1, 90).unwrap().position_ms, 90);

    let pickup = seek_instance(&state, 1, 500).unwrap();
    assert_eq!(pickup.position_ms, 500);
    assert!(!pickup.paused);
    // The file is opened and decoded again from the pickup's position.
    assert!(state.cache.get(&state.sinks.get(1).unwrap().path).unwrap().samples().is_none());
    assert_eq!(replace_sink(&mut state, 1, "second", pickup.position_ms, 100), Ok("first"));
    assert_eq!(report_progress(&mut state, 1, 100).unwrap().position_ms, 500);
    assert_eq!(report_progress(&mut state, 1, 130).unwrap().position_ms, 530);
}

#[test]
fn reporter_survives_a_seek_that_empties_the_old_sink() {
    let mut state: AudioState<&str, Vec<i16>, u8> = AudioState::new();
    let sound = CachedSound::decoded(100, 2, 44_100, Some(60_000), None, Some(vec![0i16])).unwrap();
    state.cache.offer("a.wav".to_string(), sound);
    let instance_id = play_sound(&mut state).unwrap();
    start_instance(&mut state, instance_id, "a".to_string(), "a.wav".to_string(), "A".to_string(), "old", 0);
    report_progress(&mut state, instance_id, 30);
    // The sink the reporter holds was replaced and stopped by a seek: it is empty.
    replace_sink(&mut state, instance_id, "new", 10_000, 40).unwrap();
    assert_eq!(after_tick(true, state.sinks.contains(instance_id)), ReporterStep::Settle);
    let new_sink_empty = state.sinks.get(instance_id).map(|_| false);
    assert_eq!(after_settle(new_sink_empty), ReporterStep::Report);
    assert_eq!(report_progress(&mut state, instance_id, 70).unwrap().position_ms, 10_030);
}
