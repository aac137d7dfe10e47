use soundboard_engine::levels::LevelData;
use soundboard_engine::meter::{
    check_live, scale, MasterLevelEvent, MeterManager, MeterReading, ACTIVE_POLL_MS, IDLE_POLL_MS,
    STALE_AFTER_MS,
};

const ONE: u32 = 65_536;

fn reading(drained: bool, paused: bool, last_update: u64) -> MeterReading {
    MeterReading { drained, paused, levels: LevelData { peak: 0, rms: 0, volume: ONE, last_update } }
}

fn loud(paused: bool, peak: u32, rms: u32, volume: u32) -> MeterReading {
    MeterReading { drained: false, paused, levels: LevelData { peak, rms, volume, last_update: 1_000 } }
}

#[test]
fn meter_constants() {
    assert_eq!(STALE_AFTER_MS, 200);
    assert_eq!(ACTIVE_POLL_MS, 16);
    assert_eq!(IDLE_POLL_MS, 250);
}

#[test]
fn meter_is_live_while_fresh_and_not_drained() {
    assert!(check_live(&reading(false, false, 1_000), 1_000));
    assert!(check_live(&reading(false, true, 1_000), 1_199));
    assert!(!check_live(&reading(false, false, 1_000), 1_200));
    assert!(!check_live(&reading(false, false, 1_000), 5_000));
    assert!(!check_live(&reading(true, false, 1_000), 1_000));
    // An update that lies ahead of the clock counts as fresh.
    assert!(check_live(&reading(false, false, 2_000), 1_000));
}

#[test]
fn scaled_level_is_the_product() {
    assert_eq!(scale(ONE, ONE, ONE), 1u128 << 48);
    assert_eq!(scale(32_768, ONE, ONE), 1u128 << 47);
    assert_eq!(scale(32_768, 16_384, ONE / 2), 1u128 << 44);
    assert_eq!(scale(0, ONE, ONE), 0);
    assert_eq!(scale(ONE, 0, ONE), 0);
    assert_eq!(scale(3, 5, 7), 105);
    assert_eq!(scale(u32::MAX, u32::MAX, u32::MAX), 79_228_162_458_924_105_385_300_197_375);
}

#[test]
fn meters_are_kept_in_the_order_they_came() {
    let mut manager = MeterManager::new();
    manager.add_meter("a");
    manager.add_meter("b");
    manager.add_meter("c");
    assert_eq!(manager.meters(), &vec!["a", "b", "c"]);
}

#[test]
fn poll_without_meters_idles_at_level_zero() {
    let mut manager: MeterManager<&str> = MeterManager::new();
    let tick = manager.poll(&vec![], ONE, 1_000).unwrap();
    assert!(tick.survivors.is_empty());
    assert!(tick.heard.is_empty());
    assert_eq!(tick.master, MasterLevelEvent { peak: 0, rms: 0 });
    assert_eq!(tick.interval_ms, 250);
}

#[test]
fn poll_needs_one_reading_per_meter() {
    let mut manager = MeterManager::new();
    manager.add_meter("a");
    manager.add_meter("b");
    assert!(manager.poll(&vec![reading(false, false, 0)], ONE, 10).is_none());
    assert!(manager.poll(&vec![], ONE, 10).is_none());
    assert_eq!(manager.meters(), &vec!["a", "b"]);
}

#[test]
fn poll_drops_drained_and_stale_meters() {
    let mut manager = MeterManager::new();
    for name in ["drained", "fresh", "stale", "paused", "edge"] {
        manager.add_meter(name);
    }
    let readings = vec![
        reading(true, false, 1_000),
        reading(false, false, 990),
        reading(false, false, 700),
        reading(false, true, 1_000),
        reading(false, false, 801),
    ];
    let tick = manager.poll(&readings, ONE, 1_000).unwrap();
    assert_eq!(tick.survivors, vec![1, 3, 4]);
    assert_eq!(tick.heard, vec![true, false, true]);
    assert_eq!(tick.interval_ms, 16);
    assert_eq!(manager.meters(), &vec!["fresh", "paused", "edge"]);
}

#[test]
fn master_level_is_the_largest_scaled_level() {
    let mut manager = MeterManager::new();
    for name in ["half", "quiet", "paused", "rumble"] {
        manager.add_meter(name);
    }
    let readings = vec![
        loud(false, 32_768, 10_000, ONE),
        loud(false, ONE, 20_000, ONE / 4),
        loud(true, ONE, ONE, ONE),
        loud(false, 1_000, 30_000, ONE / 2),
    ];
    let tick = manager.poll(&readings, ONE, 1_000).unwrap();
    // Peaks: 0.5 * 1, 1 * 0.25, (paused), 1000/65536 * 0.5; RMS: 10000, 5000, (paused), 15000.
    assert_eq!(tick.master.peak, 32_768u128 << 32);
    assert_eq!(tick.master.rms, 15_000u128 << 32);
    assert_eq!(tick.heard, vec![true, true, false, true]);

    let halved = manager.poll(&readings, ONE / 2, 1_000).unwrap();
    assert_eq!(halved.master.peak, 32_768u128 << 31);
    assert_eq!(halved.master.rms, 15_000u128 << 31);
}

#[test]
fn master_level_is_the_larger_of_two_not_their_sum() {
    let mut manager = MeterManager::new();
    manager.add_meter(1u8);
    manager.add_meter(2u8);
    let readings = vec![loud(false, 40_000, 30_000, ONE), loud(false, 50_000, 20_000, ONE)];
    let tick = manager.poll(&readings, ONE, 1_000).unwrap();
    assert_eq!(tick.master, MasterLevelEvent { peak: 50_000u128 << 32, rms: 30_000u128 << 32 });
}

#[test]
fn master_level_is_zero_when_all_live_meters_are_paused() {
    let mut manager = MeterManager::new();
    manager.add_meter(1u8);
    manager.add_meter(2u8);
    let tick = manager.poll(&vec![loud(true, ONE, ONE, ONE), loud(true, 5, 5, ONE)], ONE, 1_050).unwrap();
    assert_eq!(tick.survivors, vec![0, 1]);
    assert_eq!(tick.heard, vec![false, false]);
    assert_eq!(tick.master, MasterLevelEvent { peak: 0, rms: 0 });
    assert_eq!(tick.interval_ms, 16);
    assert_eq!(manager.meters().len(), 2);
}

#[test]
fn master_level_leaves_out_stale_and_drained_meters() {
    let mut manager = MeterManager::new();
    manager.add_meter(1u8);
    manager.add_meter(2u8);
    manager.add_meter(3u8);
    let mut drained = loud(false, ONE, ONE, ONE);
    drained.drained = true;
    let readings = vec![drained, loud(false, ONE, ONE, ONE), loud(false, 7, 3, ONE)];
    // At 1200 the levels of 1000 are stale; at 1199 they are not.
    let fresh = manager.poll(&readings, ONE, 1_199).unwrap();
    assert_eq!(fresh.master, MasterLevelEvent { peak: 1u128 << 48, rms: 1u128 << 48 });
    assert_eq!(manager.meters(), &vec![2u8, 3u8]);
    let stale = manager.poll(&readings[1..].to_vec(), ONE, 1_200).unwrap();
    assert_eq!(stale.master, MasterLevelEvent { peak: 0, rms: 0 });
    assert_eq!(stale.interval_ms, 250);
    assert!(manager.meters().is_empty());
}

#[test]
fn master_level_is_zero_at_master_volume_zero() {
    let mut manager = MeterManager::new();
    manager.add_meter(1u8);
    let tick = manager.poll(&vec![loud(false, ONE, ONE, ONE)], 0, 1_000).unwrap();
    assert_eq!(tick.master, MasterLevelEvent { peak: 0, rms: 0 });
    assert_eq!(tick.heard, vec![true]);
    assert_eq!(tick.interval_ms, 16);
}

#[test]
fn poll_idles_once_every_meter_is_gone() {
    let mut manager = MeterManager::new();
    manager.add_meter(1u8);
    manager.add_meter(2u8);
    let tick = manager.poll(&vec![reading(true, false, 100), reading(false, false, 100)], ONE, 300).unwrap();
    assert!(tick.survivors.is_empty());
    assert!(tick.heard.is_empty());
    assert_eq!(tick.interval_ms, 250);
    assert!(manager.meters().is_empty());
    assert_eq!(manager.poll(&vec![], ONE, 320).unwrap().interval_ms, 250);
}
