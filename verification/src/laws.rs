//! What holds of the engine whatever is played.
//!
//! Each law is stated over the same functions as the contracts of the
//! commands, so that it speaks of what the commands do.

use vstd::prelude::*;
use crate::cache::{fits_in_memory, offered, CachedSound, DecodeCache};
use crate::clock::least;
use crate::engine::AudioState;
use crate::levels::{is_peak, is_rms, magnitude, square_sum};
use crate::meter::{
    heard_peak, heard_rms, is_heard, is_live, is_master_peak, is_master_rms, lists_live, scaled, MeterReading,
};
use crate::progress::ProgressTracker;
use crate::session::Session;

verus! {

/// A reported position is never beyond the sound's duration, at any tick and
/// in any state of the session.
pub proof fn law_position_within_duration<S>(session: Session<S>, now: u64)
    ensures
        0 <= session.reported_at(now) <= session.duration_ms,
{
}

/// On a clock that does not run backwards a tracker never notes a pause
/// ahead of the clock: a new tracker has noted none, and a tick at `now`
/// notes none later than `now`.
pub proof fn law_tracker_keeps_up(tracker: ProgressTracker, base: u64, paused: bool, now: u64, later: u64)
    requires
        tracker.not_ahead_of(now),
        now <= later,
    ensures
        tracker.advanced(base, paused, now).not_ahead_of(later),
        (ProgressTracker { paused_total: 0, pause_started: None, last_offset: base }).not_ahead_of(now),
{
}

/// The reported position never runs backwards while the clock does not.
/// Between two ticks of a session that keeps its sink, the session may be
/// paused or resumed; the later tick reports no earlier position than the one
/// before it.
pub proof fn law_position_never_runs_backwards<S>(session: Session<S>, first: u64, then_paused: bool, second: u64)
    requires
        first <= second,
        session.tracker.not_ahead_of(first),
    ensures
        session.reported_at(first) <= (Session { paused: then_paused, ..session.ticked(first) }).reported_at(
            second,
        ),
{
}

/// While a session stays paused its position stands still: once a tick has
/// seen the pause, every later tick reports what that one reported.
pub proof fn law_paused_position_stands_still<S>(session: Session<S>, seen: u64, later: u64)
    requires
        session.paused,
    ensures
        session.ticked(seen).reported_at(later) == session.reported_at(seen),
{
}

/// The time a session spends paused does not move its position. Let a tick at
/// `seen` find the session paused, and let the session be resumed some time
/// later. The first tick after that, at `resumed`, reports the position that
/// the tick at `seen` reported, however long the pause was. The clock is
/// taken not to run backwards.
pub proof fn law_pause_takes_no_time<S>(session: Session<S>, seen: u64, resumed: u64)
    requires
        session.paused,
        seen <= resumed,
        session.tracker.not_ahead_of(seen),
    ensures
        session.ticked(seen).toggled().reported_at(resumed) == session.reported_at(seen),
{
}

/// A pause is noticed by the next tick, so it costs at most the time between
/// two ticks. Let a tick at `last` find the session playing, and let the
/// session be paused after it. The tick at `seen` that first finds it paused
/// reports a position that is no earlier than the one reported at `last`, and
/// ahead of it by no more than the time between the two ticks.
pub proof fn law_pause_seen_within_a_tick<S>(session: Session<S>, last: u64, seen: u64)
    requires
        !session.paused,
        last <= seen,
    ensures
        session.reported_at(last) <= session.ticked(last).toggled().reported_at(seen)
            <= session.reported_at(last) + (seen - last),
{
}

/// A seek lands on its target. Right after a new sink took over at
/// `position_ms`, the reported position is `position_ms`, or the duration if
/// that is less. At a later tick it is ahead of that by no more than the time
/// that has passed since. The clock is taken not to run backwards.
pub proof fn law_seek_lands_on_target<S>(session: Session<S>, sink: S, position_ms: u64, now: u64, later: u64)
    requires
        now <= later,
        session.tracker.not_ahead_of(now),
    ensures
        session.rebased(sink, position_ms, now).reported_at(now) == least(
            position_ms as int,
            session.duration_ms as int,
        ),
        least(position_ms as int, session.duration_ms as int) <= session.rebased(
            sink,
            position_ms,
            now,
        ).reported_at(later) <= least(position_ms + (later - now), session.duration_ms as int),
{
}

/// A move to another device keeps the position of a playing session: the
/// position reported right after the new sink took over is the one that was
/// reported right before. It keeps the pause state of every session.
pub proof fn law_handover_keeps_position<S>(session: Session<S>, sink: S, now: u64)
    ensures
        session.rebased(sink, session.handover_position(now), now).paused == session.paused,
        !session.paused ==> session.rebased(sink, session.handover_position(now), now).reported_at(now)
            == session.reported_at(now),
{
}

/// A paused session that is moved to another device goes back to the offset
/// at which its last sink was started. The clock is taken not to run
/// backwards.
pub proof fn law_handover_of_paused_session<S>(session: Session<S>, sink: S, now: u64)
    requires
        session.paused,
        session.tracker.not_ahead_of(now),
    ensures
        session.rebased(sink, session.handover_position(now), now).reported_at(now) == least(
            session.base_offset as int,
            session.duration_ms as int,
        ),
{
}

/// A window has one peak and one RMS: the levels that a full window is given
/// are the only ones that fit it.
pub proof fn law_levels_are_determined(samples: Seq<i32>, peak: int, rms: int, other_peak: int, other_rms: int)
    requires
        is_peak(peak, samples),
        is_peak(other_peak, samples),
        is_rms(rms, samples),
        is_rms(other_rms, samples),
    ensures
        peak == other_peak,
        rms == other_rms,
{
    let mean = square_sum(samples) / (samples.len() as int);
    if rms < other_rms {
        assert((rms + 1) * (rms + 1) <= other_rms * other_rms) by (nonlinear_arith)
            requires
                0 <= rms,
                rms + 1 <= other_rms,
        ;
    } else if other_rms < rms {
        assert((other_rms + 1) * (other_rms + 1) <= rms * rms) by (nonlinear_arith)
            requires
                0 <= other_rms,
                other_rms + 1 <= rms,
        ;
    }
    let at = choose|i: int| 0 <= i < samples.len() && magnitude(#[trigger] samples[i]) == peak;
    let other_at = choose|i: int| 0 <= i < samples.len() && magnitude(#[trigger] samples[i]) == other_peak;
    assert(magnitude(samples[at]) <= other_peak);
    assert(magnitude(samples[other_at]) <= peak);
}

/// The master level is zero while no meter is heard, which is when nothing is
/// live or all that is live is paused. Else it is the largest scaled level
/// among the meters that are heard: no such level is above it, and one of
/// them is equal to it.
pub proof fn law_master_level(readings: Seq<MeterReading>, master_volume: u32, now: u64, peak: int, rms: int)
    requires
        is_master_peak(peak, readings, master_volume, now),
        is_master_rms(rms, readings, master_volume, now),
    ensures
        (forall|i: int| 0 <= i < readings.len() ==> !is_heard(#[trigger] readings[i], now)) ==> peak == 0 && rms
            == 0,
        forall|i: int|
            0 <= i < readings.len() && is_heard(#[trigger] readings[i], now) ==> {
                &&& scaled(readings[i].levels.peak, readings[i].levels.volume, master_volume) <= peak
                &&& scaled(readings[i].levels.rms, readings[i].levels.volume, master_volume) <= rms
            },
        (exists|i: int| 0 <= i < readings.len() && is_heard(#[trigger] readings[i], now)) ==> {
            &&& exists|i: int|
                0 <= i < readings.len() && is_heard(#[trigger] readings[i], now) && scaled(
                    readings[i].levels.peak,
                    readings[i].levels.volume,
                    master_volume,
                ) == peak
            &&& exists|i: int|
                0 <= i < readings.len() && is_heard(#[trigger] readings[i], now) && scaled(
                    readings[i].levels.rms,
                    readings[i].levels.volume,
                    master_volume,
                ) == rms
        },
{
    assert forall|i: int| 0 <= i < readings.len() && is_heard(#[trigger] readings[i], now) implies {
        &&& scaled(readings[i].levels.peak, readings[i].levels.volume, master_volume) <= peak
        &&& scaled(readings[i].levels.rms, readings[i].levels.volume, master_volume) <= rms
    } by {
        assert(heard_peak(readings[i], master_volume, now) <= peak);
        assert(heard_rms(readings[i], master_volume, now) <= rms);
    }
    if forall|i: int| 0 <= i < readings.len() ==> !is_heard(#[trigger] readings[i], now) {
        if peak != 0 {
            let i = choose|i: int|
                0 <= i < readings.len() && heard_peak(#[trigger] readings[i], master_volume, now) == peak;
            assert(!is_heard(readings[i], now));
        }
        if rms != 0 {
            let i = choose|i: int|
                0 <= i < readings.len() && heard_rms(#[trigger] readings[i], master_volume, now) == rms;
            assert(!is_heard(readings[i], now));
        }
    }
    if exists|i: int| 0 <= i < readings.len() && is_heard(#[trigger] readings[i], now) {
        let any = choose|i: int| 0 <= i < readings.len() && is_heard(#[trigger] readings[i], now);
        lemma_scaled_is_not_negative(readings[any].levels.peak, readings[any].levels.volume, master_volume);
        lemma_scaled_is_not_negative(readings[any].levels.rms, readings[any].levels.volume, master_volume);
        assert(heard_peak(readings[any], master_volume, now) <= peak);
        assert(heard_rms(readings[any], master_volume, now) <= rms);
        if peak == 0 {
            assert(scaled(readings[any].levels.peak, readings[any].levels.volume, master_volume) == peak);
        } else {
            let i = choose|i: int|
                0 <= i < readings.len() && heard_peak(#[trigger] readings[i], master_volume, now) == peak;
            assert(is_heard(readings[i], now));
        }
        if rms == 0 {
            assert(scaled(readings[any].levels.rms, readings[any].levels.volume, master_volume) == rms);
        } else {
            let i = choose|i: int|
                0 <= i < readings.len() && heard_rms(#[trigger] readings[i], master_volume, now) == rms;
            assert(is_heard(readings[i], now));
        }
    }
}

/// A scaled level is not negative.
proof fn lemma_scaled_is_not_negative(level: u32, volume: u32, master_volume: u32)
    ensures
        scaled(level, volume, master_volume) >= 0,
{
    assert(level * volume * master_volume >= 0) by (nonlinear_arith)
        requires
            level >= 0,
            volume >= 0,
            master_volume >= 0,
    ;
}

/// Which meters count for the master level. A meter that stays after a poll
/// is heard exactly if its reading was live and not paused, so no meter is
/// heard when nothing is live or all that is live is paused; and the poll
/// keeps a meter exactly if a reading was live.
pub proof fn law_master_level_sources(
    survivors: Seq<usize>,
    heard: Seq<bool>,
    readings: Seq<MeterReading>,
    now: u64,
)
    requires
        lists_live(survivors, readings, now),
        heard.len() == survivors.len(),
        forall|j: int| 0 <= j < survivors.len() ==> (#[trigger] heard[j]) == !readings[survivors[j] as int].paused,
    ensures
        (exists|j: int| 0 <= j < heard.len() && heard[j]) <==> (exists|i: int|
            0 <= i < readings.len() && is_heard(readings[i], now)),
        survivors.len() > 0 <==> (exists|i: int| 0 <= i < readings.len() && is_live(readings[i], now)),
{
    if exists|j: int| 0 <= j < heard.len() && heard[j] {
        let j = choose|j: int| 0 <= j < heard.len() && heard[j];
        assert(is_heard(readings[survivors[j] as int], now));
    }
    if exists|i: int| 0 <= i < readings.len() && is_heard(readings[i], now) {
        let i = choose|i: int| 0 <= i < readings.len() && is_heard(readings[i], now);
        assert(is_live(readings[i], now));
        let j = choose|j: int| 0 <= j < survivors.len() && survivors[j] == i;
        assert(heard[j]);
    }
    if survivors.len() > 0 {
        assert(is_live(readings[survivors[0] as int], now));
    }
    if exists|i: int| 0 <= i < readings.len() && is_live(readings[i], now) {
        let i = choose|i: int| 0 <= i < readings.len() && is_live(readings[i], now);
        let j = choose|j: int| 0 <= j < survivors.len() && survivors[j] == i;
    }
}

/// A path has one cache entry, the first that was offered for it: offering a
/// second sound for the same path changes nothing.
pub proof fn law_cache_keeps_first_entry<B>(
    sounds: Map<Seq<char>, CachedSound<B>>,
    path: Seq<char>,
    first: CachedSound<B>,
    second: CachedSound<B>,
)
    ensures
        offered(sounds, path, first).contains_key(path),
        offered(offered(sounds, path, first), path, second) == offered(sounds, path, first),
        !sounds.contains_key(path) ==> offered(offered(sounds, path, first), path, second)[path] == first,
{
}

/// The cache holds the samples of a file exactly if the file is no larger
/// than the threshold.
pub proof fn law_small_files_are_buffered<B>(cache: DecodeCache<B>, path: Seq<char>)
    requires
        cache.wf(),
        cache@.contains_key(path),
    ensures
        cache@[path].spec_samples() is Some <==> fits_in_memory(cache@[path].spec_file_size()),
{
    cache.lemma_entries_consistent();
}

/// The stream of the selected device outlives the cleanup that follows a
/// change of device: closing all streams but that of `selected` leaves that
/// one as it was, and leaves no other.
pub proof fn law_cleanup_keeps_selected_stream<H>(streams: Map<Seq<char>, H>, selected: Seq<char>)
    ensures
        streams.restrict(set![selected]).contains_key(selected) <==> streams.contains_key(selected),
        streams.contains_key(selected) ==> streams.restrict(set![selected])[selected] == streams[selected],
        forall|other: Seq<char>|
            other != selected ==> !(#[trigger] streams.restrict(set![selected]).contains_key(other)),
{
}

/// A fresh instance id names no live session: in a well-formed engine the
/// id that comes after the last one given out is not in use.
pub proof fn law_next_instance_id_is_free<S, B, H>(state: AudioState<S, B, H>)
    requires
        state.wf(),
        state.instance_counter < u32::MAX,
    ensures
        !state.sinks@.contains_key((state.instance_counter + 1) as u32),
{
    let next = (state.instance_counter + 1) as u32;
    if state.sinks@.contains_key(next) {
        assert(0 < next <= state.instance_counter);
    }
}

} // verus!
