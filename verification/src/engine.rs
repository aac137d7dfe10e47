//! The engine's state and its commands.
//!
//! The engine owns the live sessions, the decode cache, the open output
//! streams, the name of the selected device and the counter that numbers the
//! instances. A command is a step on that state. What needs a device or a
//! file happens between two steps, in the caller's hands: a command that
//! leads to such work says what is to be done, and a second one takes in the
//! result.

use vstd::prelude::*;
use vstd::string::StringExecFns;
use crate::cache::{offered, CachedSound, DecodeCache};
use crate::names::NameMap;
use crate::session::{Pickup, ProgressEvent, Session, SessionTable};

verus! {

/// Why a command did nothing.
#[derive(Clone, Copy, Debug, PartialEq, Eq, Structural)]
pub enum EngineError {
    /// No live session has the instance id.
    InstanceNotFound,
    /// The host has no output device of the name.
    DeviceNotFound,
    /// Every instance id has been given out.
    InstancesExhausted,
}

impl EngineError {
    /// The text shown to the caller.
    pub fn message(&self) -> (text: String)
        ensures
            text@ == match *self {
                EngineError::InstanceNotFound => "Instance not found"@,
                EngineError::DeviceNotFound => "Audio device not found"@,
                EngineError::InstancesExhausted => "No instance id left"@,
            },
    {
        match self {
            EngineError::InstanceNotFound => String::from_str("Instance not found"),
            EngineError::DeviceNotFound => String::from_str("Audio device not found"),
            EngineError::InstancesExhausted => String::from_str("No instance id left"),
        }
    }
}

/// The state of the engine, with sinks of type `S`, sample buffers of type `B`
/// and stream handles of type `H`.
pub struct AudioState<S, B, H> {
    /// The name of the selected output device.
    pub current_device_name: String,
    /// The live sessions.
    pub sinks: SessionTable<S>,
    /// The open output streams, by device name.
    pub active_streams: NameMap<H>,
    /// The instance id that was given out last.
    pub instance_counter: u32,
    /// The decoded sounds.
    pub cache: DecodeCache<B>,
}

/// The name that stands for the host's default output device.
pub open spec fn default_device() -> Seq<char> {
    "Default"@
}

impl<S, B, H> AudioState<S, B, H> {
    /// The tables are well-formed, and every live session has an instance id
    /// that was given out.
    pub open spec fn wf(&self) -> bool {
        &&& self.sinks.wf()
        &&& self.active_streams.wf()
        &&& self.cache.wf()
        &&& forall|instance_id: u32| #[trigger]
            self.sinks@.contains_key(instance_id) ==> 0 < instance_id <= self.instance_counter
    }

    /// Nothing but the live sessions differs from `before`.
    pub open spec fn differs_in_sinks_only(&self, before: &Self) -> bool {
        &&& self.current_device_name == before.current_device_name
        &&& self.active_streams == before.active_streams
        &&& self.instance_counter == before.instance_counter
        &&& self.cache == before.cache
    }

    /// An engine that plays nothing yet, on the default device.
    pub fn new() -> (state: Self)
        ensures
            state.wf(),
            state.current_device_name@ == default_device(),
            state.sinks@ == Map::<u32, Session<S>>::empty(),
            state.active_streams@ == Map::<Seq<char>, H>::empty(),
            state.cache@ == Map::<Seq<char>, CachedSound<B>>::empty(),
            state.instance_counter == 0,
    {
        AudioState {
            current_device_name: String::from_str("Default"),
            sinks: SessionTable::new(),
            active_streams: NameMap::new(),
            instance_counter: 0,
            cache: DecodeCache::new(),
        }
    }

    /// The open stream of `device_name`.
    pub fn stream_handle(&self, device_name: &str) -> (found: Option<&H>)
        requires
            self.wf(),
        ensures
            match found {
                Some(handle) => self.active_streams@.contains_key(device_name@) && *handle
                    == self.active_streams@[device_name@],
                None => !self.active_streams@.contains_key(device_name@),
            },
    {
        self.active_streams.get(device_name)
    }

    /// Keeps `handle` as the open stream of `device_name`. A device has one
    /// stream: if it has one already, that one stays and `handle` comes back.
    pub fn keep_stream(&mut self, device_name: String, handle: H) -> (unused: Option<H>)
        requires
            old(self).wf(),
        ensures
            final(self).wf(),
            final(self).current_device_name == old(self).current_device_name,
            final(self).sinks == old(self).sinks,
            final(self).cache == old(self).cache,
            final(self).instance_counter == old(self).instance_counter,
            match unused {
                Some(back) => {
                    &&& old(self).active_streams@.contains_key(device_name@)
                    &&& back == handle
                    &&& final(self).active_streams@ == old(self).active_streams@
                },
                None => {
                    &&& !old(self).active_streams@.contains_key(device_name@)
                    &&& final(self).active_streams@ == old(self).active_streams@.insert(
                        device_name@,
                        handle,
                    )
                },
            },
    {
        self.active_streams.insert_absent(device_name, handle)
    }

    /// Plans the move of the live sessions to another device at `now`: one
    /// pickup for each session whose sound has been decoded, at the position
    /// at which the session is handed over. A new sink is then built for each
    /// pickup and handed in with [`replace_sink`]; a session for which that
    /// fails stays as it is.
    pub fn migrate_active_sinks(&self, now: u64) -> (plan: Vec<Pickup>)
        requires
            self.wf(),
        ensures
            forall|i: int|
                0 <= i < plan@.len() ==> {
                    &&& can_resume(self, #[trigger] plan@[i].instance_id)
                    &&& plan@[i] == self.sinks@[plan@[i].instance_id].pickup_from(
                        self.sinks@[plan@[i].instance_id].handover_position(now),
                    )
                },
            forall|i: int, j: int|
                0 <= i < j < plan@.len() ==> plan@[i].instance_id != plan@[j].instance_id,
            forall|instance_id: u32|
                can_resume(self, instance_id) ==> exists|i: int|
                    0 <= i < plan@.len() && #[trigger] plan@[i].instance_id == instance_id,
    {
        let ghost sessions = self.sinks.in_order();
        proof {
            self.sinks.lemma_in_order();
        }
        let mut plan: Vec<Pickup> = Vec::new();
        let ghost mut from: Seq<int> = Seq::empty();
        let count = self.sinks.count();
        let mut k: usize = 0;
        while k < count
            invariant
                self.wf(),
                sessions == self.sinks.in_order(),
                count == sessions.len(),
                k <= count,
                from.len() == plan@.len(),
                forall|i: int| 0 <= i < from.len() ==> 0 <= #[trigger] from[i] < k,
                forall|i: int, j: int| 0 <= i < j < from.len() ==> from[i] < from[j],
                forall|i: int|
                    0 <= i < from.len() ==> self.cache@.contains_key(sessions[#[trigger] from[i]].path@),
                forall|i: int|
                    0 <= i < plan@.len() ==> #[trigger] plan@[i] == sessions[from[i]].pickup_from(
                        sessions[from[i]].handover_position(now),
                    ),
                forall|j: int|
                    0 <= j < k && self.cache@.contains_key((#[trigger] sessions[j]).path@) ==> exists|i: int|
                        0 <= i < from.len() && from[i] == j,
            decreases count - k,
        {
            let session = self.sinks.nth(k);
            if self.cache.contains(session.path.as_str()) {
                let ghost planned = plan@;
                let pickup = session.handover(now);
                plan.push(pickup);
                proof {
                    let ghost earlier = from;
                    from = from.push(k as int);
                    assert forall|i: int| 0 <= i < plan@.len() implies #[trigger] plan@[i]
                        == sessions[from[i]].pickup_from(sessions[from[i]].handover_position(now)) by {
                        if i < planned.len() {
                            assert(plan@[i] == planned[i]);
                            assert(from[i] == earlier[i]);
                        }
                    }
                    assert forall|i: int| 0 <= i < from.len() implies self.cache@.contains_key(
                        sessions[#[trigger] from[i]].path@,
                    ) by {
                        if i < earlier.len() {
                            assert(from[i] == earlier[i]);
                        }
                    }
                    assert forall|j: int|
                        0 <= j < k + 1 && self.cache@.contains_key((#[trigger] sessions[j]).path@) implies exists|
                        i: int,
                    | 0 <= i < from.len() && from[i] == j by {
                        if j < k {
                            let i = choose|i: int| 0 <= i < earlier.len() && earlier[i] == j;
                            assert(from[i] == j);
                        } else {
                            assert(from[from.len() - 1] == j);
                        }
                    }
                }
            }
            k += 1;
        }
        proof {
            assert forall|i: int| 0 <= i < plan@.len() implies {
                &&& can_resume(self, #[trigger] plan@[i].instance_id)
                &&& plan@[i] == self.sinks@[plan@[i].instance_id].pickup_from(
                    self.sinks@[plan@[i].instance_id].handover_position(now),
                )
            } by {
                assert(self.sinks@.contains_key(sessions[from[i]].instance_id));
            }
            assert forall|i: int, j: int| 0 <= i < j < plan@.len() implies plan@[i].instance_id
                != plan@[j].instance_id by {
                assert(from[i] < from[j]);
            }
            assert forall|instance_id: u32| can_resume(self, instance_id) implies exists|i: int|
                0 <= i < plan@.len() && #[trigger] plan@[i].instance_id == instance_id by {
                let j = choose|j: int| 0 <= j < sessions.len() && sessions[j].instance_id == instance_id;
                assert(self.sinks@[sessions[j].instance_id] == sessions[j]);
                let i = choose|i: int| 0 <= i < from.len() && from[i] == j;
                assert(plan@[i].instance_id == instance_id);
            }
        }
        plan
    }

    /// Closes the streams of all devices but `except_device`.
    pub fn cleanup_streams(&mut self, except_device: &str)
        requires
            old(self).wf(),
        ensures
            final(self).wf(),
            final(self).active_streams@ == old(self).active_streams@.restrict(set![except_device@]),
            final(self).current_device_name == old(self).current_device_name,
            final(self).sinks == old(self).sinks,
            final(self).cache == old(self).cache,
            final(self).instance_counter == old(self).instance_counter,
    {
        self.active_streams.retain_only(except_device);
    }
}

/// Whether a session can start under `instance_id` with the sound at `path`:
/// the id was given out and is not in use, and the sound has been decoded.
pub open spec fn can_start<S, B, H>(state: &AudioState<S, B, H>, instance_id: u32, path: Seq<char>) -> bool {
    &&& 0 < instance_id <= state.instance_counter
    &&& !state.sinks@.contains_key(instance_id)
    &&& state.cache@.contains_key(path)
}

/// Whether a new sink can take over the session of `instance_id`: the session
/// is live and its sound has been decoded.
pub open spec fn can_resume<S, B, H>(state: &AudioState<S, B, H>, instance_id: u32) -> bool {
    &&& state.sinks@.contains_key(instance_id)
    &&& state.cache@.contains_key(state.sinks@[instance_id].path@)
}

/// Warms the cache with `sound`, which was decoded from the file at `path`,
/// and says whether it was taken in. A path that is cached keeps its entry:
/// however often and from wherever a path is asked for, it has one entry.
pub fn preload_sound<S, B, H>(state: &mut AudioState<S, B, H>, path: String, sound: CachedSound<B>) -> (taken:
    bool)
    requires
        old(state).wf(),
    ensures
        final(state).wf(),
        final(state).cache@ == offered(old(state).cache@, path@, sound),
        taken == !old(state).cache@.contains_key(path@),
        final(state).current_device_name == old(state).current_device_name,
        final(state).sinks == old(state).sinks,
        final(state).active_streams == old(state).active_streams,
        final(state).instance_counter == old(state).instance_counter,
{
    state.cache.offer(path, sound).is_none()
}

/// Gives out the instance id of a sound that is about to play. The ids count
/// up from one and none is given out twice.
pub fn play_sound<S, B, H>(state: &mut AudioState<S, B, H>) -> (issued: Result<u32, EngineError>)
    requires
        old(state).wf(),
    ensures
        final(state).wf(),
        final(state).current_device_name == old(state).current_device_name,
        final(state).sinks == old(state).sinks,
        final(state).active_streams == old(state).active_streams,
        final(state).cache == old(state).cache,
        match issued {
            Ok(instance_id) => {
                &&& old(state).instance_counter < u32::MAX
                &&& instance_id == old(state).instance_counter + 1
                &&& final(state).instance_counter == instance_id
                &&& !final(state).sinks@.contains_key(instance_id)
            },
            Err(error) => {
                &&& old(state).instance_counter == u32::MAX
                &&& error == EngineError::InstancesExhausted
                &&& final(state).instance_counter == old(state).instance_counter
            },
        },
{
    if state.instance_counter == u32::MAX {
        Err(EngineError::InstancesExhausted)
    } else {
        state.instance_counter = state.instance_counter + 1;
        Ok(state.instance_counter)
    }
}

/// Starts the session of `instance_id`: `sink` plays the sound at `path` from
/// its beginning, as of `now`. Without a decoded sound at `path`, or with an
/// id that was not given out or is in use, nothing starts and `sink` comes
/// back.
pub fn start_instance<S, B, H>(
    state: &mut AudioState<S, B, H>,
    instance_id: u32,
    id: String,
    path: String,
    name: String,
    sink: S,
    now: u64,
) -> (unused: Option<S>)
    requires
        old(state).wf(),
    ensures
        final(state).wf(),
        final(state).differs_in_sinks_only(old(state)),
        match unused {
            None => {
                &&& can_start(old(state), instance_id, path@)
                &&& final(state).sinks@ == old(state).sinks@.insert(
                    instance_id,
                    Session::started(
                        instance_id,
                        id,
                        path,
                        name,
                        sink,
                        old(state).cache@[path@].spec_duration_ms(),
                        now,
                    ),
                )
            },
            Some(back) => {
                &&& !can_start(old(state), instance_id, path@)
                &&& back == sink
                &&& final(state).sinks@ == old(state).sinks@
            },
        },
{
    if instance_id == 0 || instance_id > state.instance_counter || state.sinks.contains(instance_id) {
        return Some(sink);
    }
    let duration_ms = match state.cache.get(path.as_str()) {
        Some(sound) => sound.duration_ms(),
        None => {
            return Some(sink);
        },
    };
    let session = Session::start(instance_id, id, path, name, sink, duration_ms, now);
    state.sinks.insert(session);
    None
}

/// One tick of the reporter of `instance_id` at `now`: what to send out, or
/// nothing if the instance is gone, which ends the reporter.
pub fn report_progress<S, B, H>(state: &mut AudioState<S, B, H>, instance_id: u32, now: u64) -> (event:
    Option<ProgressEvent>)
    requires
        old(state).wf(),
    ensures
        final(state).wf(),
        final(state).differs_in_sinks_only(old(state)),
        match event {
            Some(progress) => {
                &&& old(state).sinks@.contains_key(instance_id)
                &&& progress == old(state).sinks@[instance_id].progress_at(now)
                &&& progress.position_ms == old(state).sinks@[instance_id].reported_at(now)
                &&& progress.position_ms <= progress.duration_ms
                &&& final(state).sinks@ == old(state).sinks@.insert(
                    instance_id,
                    old(state).sinks@[instance_id].ticked(now),
                )
            },
            None => !old(state).sinks@.contains_key(instance_id) && final(state).sinks@ == old(
                state,
            ).sinks@,
        },
{
    state.sinks.tick(instance_id, now)
}

/// Pauses a playing instance and resumes a paused one; says whether it is
/// paused now. The sink stays the same.
pub fn toggle_pause_instance<S, B, H>(state: &mut AudioState<S, B, H>, instance_id: u32) -> (now_paused:
    Result<bool, EngineError>)
    requires
        old(state).wf(),
    ensures
        final(state).wf(),
        final(state).differs_in_sinks_only(old(state)),
        match now_paused {
            Ok(paused) => {
                &&& old(state).sinks@.contains_key(instance_id)
                &&& paused == !old(state).sinks@[instance_id].paused
                &&& final(state).sinks@ == old(state).sinks@.insert(
                    instance_id,
                    old(state).sinks@[instance_id].toggled(),
                )
            },
            Err(error) => {
                &&& !old(state).sinks@.contains_key(instance_id)
                &&& error == EngineError::InstanceNotFound
                &&& final(state).sinks@ == old(state).sinks@
            },
        },
{
    match state.sinks.toggle_pause(instance_id) {
        Some(paused) => Ok(paused),
        None => Err(EngineError::InstanceNotFound),
    }
}

/// Removes the session of `instance_id` and hands it back, for its sink to be
/// stopped. This is also how a session that has played to its end leaves.
pub fn stop_instance<S, B, H>(state: &mut AudioState<S, B, H>, instance_id: u32) -> (stopped: Result<
    Session<S>,
    EngineError,
>)
    requires
        old(state).wf(),
    ensures
        final(state).wf(),
        final(state).differs_in_sinks_only(old(state)),
        final(state).sinks@ == old(state).sinks@.remove(instance_id),
        match stopped {
            Ok(session) => old(state).sinks@.contains_key(instance_id) && session == old(
                state,
            ).sinks@[instance_id],
            Err(error) => !old(state).sinks@.contains_key(instance_id) && error
                == EngineError::InstanceNotFound,
        },
{
    match state.sinks.remove(instance_id) {
        Some(session) => Ok(session),
        None => Err(EngineError::InstanceNotFound),
    }
}

/// Removes every session and hands them back, each once, for their sinks to
/// be stopped.
pub fn stop_all<S, B, H>(state: &mut AudioState<S, B, H>) -> (stopped: Vec<Session<S>>)
    requires
        old(state).wf(),
    ensures
        final(state).wf(),
        final(state).differs_in_sinks_only(old(state)),
        final(state).sinks@ == Map::<u32, Session<S>>::empty(),
        stopped@ == old(state).sinks.in_order(),
        stopped@.len() == old(state).sinks@.dom().len(),
        forall|i: int|
            0 <= i < stopped@.len() ==> {
                &&& old(state).sinks@.contains_key(#[trigger] stopped@[i].instance_id)
                &&& old(state).sinks@[stopped@[i].instance_id] == stopped@[i]
            },
        forall|i: int, j: int|
            0 <= i < j < stopped@.len() ==> stopped@[i].instance_id != stopped@[j].instance_id,
        forall|instance_id: u32| #[trigger]
            old(state).sinks@.contains_key(instance_id) ==> exists|i: int|
                0 <= i < stopped@.len() && stopped@[i].instance_id == instance_id,
{
    proof {
        state.sinks.lemma_in_order();
    }
    state.sinks.drain()
}

/// Says where a new sink is to pick the session of `instance_id` up so that
/// it goes on at `position_ms`. There is nothing to do for an instance that is
/// gone or whose sound was never decoded.
pub fn seek_instance<S, B, H>(state: &AudioState<S, B, H>, instance_id: u32, position_ms: u64) -> (pickup:
    Option<Pickup>)
    requires
        state.wf(),
    ensures
        pickup is Some <==> can_resume(state, instance_id),
        pickup matches Some(at) ==> at == state.sinks@[instance_id].pickup_from(position_ms)
            && at.instance_id == instance_id,
{
    proof {
        state.sinks.lemma_keyed();
    }
    match state.sinks.get(instance_id) {
        Some(session) => {
            if state.cache.contains(session.path.as_str()) {
                Some(Pickup { instance_id, position_ms, paused: session.paused })
            } else {
                None
            }
        },
        None => None,
    }
}

/// Hands the session of `instance_id` the sink that was built for a
/// [`Pickup`]: the session goes on at `position_ms` as of `now`, paused or not
/// as it was, and the sink that played it until now comes back to be stopped.
/// If the instance is gone in the meantime, `sink` comes back.
pub fn replace_sink<S, B, H>(
    state: &mut AudioState<S, B, H>,
    instance_id: u32,
    sink: S,
    position_ms: u64,
    now: u64,
) -> (outcome: Result<S, S>)
    requires
        old(state).wf(),
    ensures
        final(state).wf(),
        final(state).differs_in_sinks_only(old(state)),
        match outcome {
            Ok(replaced) => {
                &&& old(state).sinks@.contains_key(instance_id)
                &&& replaced == old(state).sinks@[instance_id].sink
                &&& final(state).sinks@ == old(state).sinks@.insert(
                    instance_id,
                    old(state).sinks@[instance_id].rebased(sink, position_ms, now),
                )
            },
            Err(unused) => {
                &&& !old(state).sinks@.contains_key(instance_id)
                &&& unused == sink
                &&& final(state).sinks@ == old(state).sinks@
            },
        },
{
    state.sinks.replace_sink(instance_id, sink, position_ms, now)
}

/// Selects `device_name` as the output device and says whether that is
/// another device than before. Only then is there anything to move.
pub fn set_audio_device<S, B, H>(state: &mut AudioState<S, B, H>, device_name: String) -> (changed: bool)
    requires
        old(state).wf(),
    ensures
        final(state).wf(),
        final(state).current_device_name == device_name,
        changed == (old(state).current_device_name@ != device_name@),
        final(state).sinks == old(state).sinks,
        final(state).active_streams == old(state).active_streams,
        final(state).cache == old(state).cache,
        final(state).instance_counter == old(state).instance_counter,
{
    let changed = !(state.current_device_name == device_name);
    state.current_device_name = device_name;
    changed
}

} // verus!
