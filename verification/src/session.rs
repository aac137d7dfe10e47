//! Live playback instances.
//!
//! A session is one sound that is playing or paused. It owns the one sink that
//! plays it; a seek or a move to another device hands the session a new sink
//! and takes the old one away, so that no session ever has two.

use vstd::prelude::*;
use crate::assoc::{lemma_paired_at, lemma_paired_push, lemma_paired_remove, lemma_paired_update, paired};
use crate::clock::{add_capped, capped};
use crate::progress::{clamp_position, position, reported, ProgressTracker};

verus! {

/// One playing instance, with a sink of type `S`.
pub struct Session<S> {
    /// The number the engine gave this instance.
    pub instance_id: u32,
    /// The caller's own id of the sound.
    pub id: String,
    /// The file that is played.
    pub path: String,
    /// The caller's name of the sound.
    pub name: String,
    /// The sink that plays the sound now.
    pub sink: S,
    /// Whether the sink is paused.
    pub paused: bool,
    /// The instant at which the sink was started.
    pub start_time: u64,
    /// The position in the sound at which the sink was started.
    pub base_offset: u64,
    /// The length of the sound in milliseconds.
    pub duration_ms: u64,
    /// The reporter's memory of pauses.
    pub tracker: ProgressTracker,
}

/// What a reporter sends out on every tick.
pub struct ProgressEvent {
    pub id: String,
    pub instance_id: u32,
    pub name: String,
    pub position_ms: u64,
    pub duration_ms: u64,
    pub is_paused: bool,
}

/// Where a session is to be picked up by a new sink.
#[derive(Clone, Copy, Debug, PartialEq, Eq, Structural)]
pub struct Pickup {
    pub instance_id: u32,
    /// The position at which the new sink starts.
    pub position_ms: u64,
    /// Whether the new sink starts paused.
    pub paused: bool,
}

impl<S> Session<S> {
    /// Time played since the current sink was started, as a tick at `now`
    /// would find it.
    pub open spec fn elapsed_at(self, now: u64) -> int {
        self.tracker.advanced(self.base_offset, self.paused, now).elapsed(self.start_time, now)
    }

    /// The position in the sound as a tick at `now` would find it.
    pub open spec fn position_at(self, now: u64) -> int {
        position(self.base_offset, self.elapsed_at(now))
    }

    /// The position a tick at `now` reports.
    pub open spec fn reported_at(self, now: u64) -> int {
        reported(self.base_offset, self.elapsed_at(now), self.duration_ms)
    }

    /// What a tick at `now` sends out.
    pub open spec fn progress_at(self, now: u64) -> ProgressEvent {
        ProgressEvent {
            id: self.id,
            instance_id: self.instance_id,
            name: self.name,
            position_ms: self.reported_at(now) as u64,
            duration_ms: self.duration_ms,
            is_paused: self.paused,
        }
    }

    /// Where a new sink picks the session up if it is to go on at
    /// `position_ms`.
    pub open spec fn pickup_from(self, position_ms: u64) -> Pickup {
        Pickup { instance_id: self.instance_id, position_ms, paused: self.paused }
    }

    /// The session after a tick at `now`.
    pub open spec fn ticked(self, now: u64) -> Session<S> {
        Session { tracker: self.tracker.advanced(self.base_offset, self.paused, now), ..self }
    }

    /// The session with its pause state flipped.
    pub open spec fn toggled(self) -> Session<S> {
        Session { paused: !self.paused, ..self }
    }

    /// The session after `sink` took over at `position_ms`, started at `now`.
    /// The pause state stays as it was.
    pub open spec fn rebased(self, sink: S, position_ms: u64, now: u64) -> Session<S> {
        Session { sink, base_offset: position_ms, start_time: now, ..self }
    }

    /// The position at which a new device picks the session up at `now`. A
    /// playing session goes on where a tick at `now` would find it. A paused
    /// one counts no time since its sink was started and goes back to the
    /// offset of that sink.
    pub open spec fn handover_position(self, now: u64) -> u64 {
        if self.paused {
            self.base_offset
        } else {
            capped(self.position_at(now))
        }
    }

    /// The session of a sink that starts at the beginning of the sound at
    /// `now`: it plays, and no time has been spent paused.
    pub open spec fn started(
        instance_id: u32,
        id: String,
        path: String,
        name: String,
        sink: S,
        duration_ms: u64,
        now: u64,
    ) -> Session<S> {
        Session {
            instance_id,
            id,
            path,
            name,
            sink,
            paused: false,
            start_time: now,
            base_offset: 0,
            duration_ms,
            tracker: ProgressTracker { paused_total: 0, pause_started: None, last_offset: 0 },
        }
    }

    /// A session for a sink that starts at the beginning of the sound at `now`.
    pub fn start(
        instance_id: u32,
        id: String,
        path: String,
        name: String,
        sink: S,
        duration_ms: u64,
        now: u64,
    ) -> (session: Session<S>)
        ensures
            session == Self::started(instance_id, id, path, name, sink, duration_ms, now),
    {
        Session {
            instance_id,
            id,
            path,
            name,
            sink,
            paused: false,
            start_time: now,
            base_offset: 0,
            duration_ms,
            tracker: ProgressTracker::new(0),
        }
    }

    /// One tick of the reporter: takes in the sink's state at `now` and says
    /// what to report.
    pub fn tick(&mut self, now: u64) -> (event: ProgressEvent)
        ensures
            *final(self) == old(self).ticked(now),
            event == old(self).progress_at(now),
            event.position_ms == old(self).reported_at(now),
            event.position_ms <= event.duration_ms,
    {
        self.tracker.observe(self.base_offset, self.paused, now);
        let played = self.tracker.played(self.start_time, now);
        ProgressEvent {
            id: self.id.clone(),
            instance_id: self.instance_id,
            name: self.name.clone(),
            position_ms: clamp_position(self.base_offset, played, self.duration_ms),
            duration_ms: self.duration_ms,
            is_paused: self.paused,
        }
    }

    /// Where a new device picks the session up at `now`.
    pub fn handover(&self, now: u64) -> (pickup: Pickup)
        ensures
            pickup == self.pickup_from(self.handover_position(now)),
    {
        let position_ms = if self.paused {
            self.base_offset
        } else {
            let mut tracker = self.tracker;
            tracker.observe(self.base_offset, self.paused, now);
            add_capped(self.base_offset, tracker.played(self.start_time, now))
        };
        Pickup { instance_id: self.instance_id, position_ms, paused: self.paused }
    }
}

/// The live sessions, by instance id.
pub struct SessionTable<S> {
    entries: Vec<Session<S>>,
}

impl<S> SessionTable<S> {
    /// The instance ids, in the order in which the sessions came.
    pub closed spec fn ids(&self) -> Seq<u32> {
        Seq::new(self.entries@.len(), |i: int| self.entries@[i].instance_id)
    }

    /// No instance id occurs twice.
    pub closed spec fn wf(&self) -> bool {
        self.ids().no_duplicates()
    }

    /// The table as a map from instance id to session.
    pub closed spec fn view(&self) -> Map<u32, Session<S>> {
        paired(self.ids(), self.entries@)
    }

    /// The sessions in the order in which they came.
    pub closed spec fn in_order(&self) -> Seq<Session<S>> {
        self.entries@
    }

    /// The order lists each session of the map once.
    pub proof fn lemma_in_order(&self)
        requires
            self.wf(),
        ensures
            self@.dom().finite(),
            self@.dom().len() == self.in_order().len(),
            forall|i: int|
                0 <= i < self.in_order().len() ==> {
                    &&& self@.contains_key(#[trigger] self.in_order()[i].instance_id)
                    &&& self@[self.in_order()[i].instance_id] == self.in_order()[i]
                },
            forall|i: int, j: int|
                0 <= i < j < self.in_order().len() ==> self.in_order()[i].instance_id
                    != self.in_order()[j].instance_id,
            forall|k: u32| #[trigger]
                self@.contains_key(k) ==> exists|i: int|
                    0 <= i < self.in_order().len() && self.in_order()[i].instance_id == k,
    {
        assert(self@.dom() =~= self.ids().to_set());
        self.ids().unique_seq_to_set();
        assert forall|i: int| 0 <= i < self.in_order().len() implies {
            &&& self@.contains_key(#[trigger] self.in_order()[i].instance_id)
            &&& self@[self.in_order()[i].instance_id] == self.in_order()[i]
        } by {
            lemma_paired_at(self.ids(), self.entries@, i);
        }
        assert forall|i: int, j: int| 0 <= i < j < self.in_order().len() implies self.in_order()[i].instance_id
            != self.in_order()[j].instance_id by {
            assert(self.ids()[i] != self.ids()[j]);
        }
        assert forall|k: u32| #[trigger] self@.contains_key(k) implies exists|i: int|
            0 <= i < self.in_order().len() && self.in_order()[i].instance_id == k by {
            let i = self.ids().index_of(k);
            assert(0 <= i < self.ids().len() && self.ids()[i] == k);
        }
    }

    /// Every session is filed under its own instance id.
    pub proof fn lemma_keyed(&self)
        requires
            self.wf(),
        ensures
            forall|instance_id: u32| #[trigger]
                self@.contains_key(instance_id) ==> self@[instance_id].instance_id == instance_id,
    {
        assert forall|instance_id: u32| #[trigger] self@.contains_key(instance_id) implies self@[instance_id].instance_id
            == instance_id by {
            let i = self.ids().index_of(instance_id);
            assert(0 <= i < self.ids().len() && self.ids()[i] == instance_id);
            lemma_paired_at(self.ids(), self.entries@, i);
        }
    }

    /// A table without sessions.
    pub fn new() -> (table: Self)
        ensures
            table.wf(),
            table@ == Map::<u32, Session<S>>::empty(),
    {
        let table = SessionTable { entries: Vec::new() };
        assert(table@ =~= Map::<u32, Session<S>>::empty());
        table
    }

    /// The number of live sessions.
    pub fn len(&self) -> (n: usize)
        requires
            self.wf(),
        ensures
            self@.dom().finite(),
            n == self@.dom().len(),
    {
        proof {
            self.lemma_in_order();
        }
        self.entries.len()
    }

    fn position(&self, instance_id: u32) -> (at: Option<usize>)
        requires
            self.wf(),
        ensures
            match at {
                Some(i) => i < self.entries@.len() && self.entries@[i as int].instance_id == instance_id
                    && self@.contains_key(instance_id) && self@[instance_id] == self.entries@[i as int],
                None => !self@.contains_key(instance_id),
            },
    {
        let mut i: usize = 0;
        while i < self.entries.len()
            invariant
                self.wf(),
                i <= self.entries@.len(),
                forall|j: int| 0 <= j < i ==> self.entries@[j].instance_id != instance_id,
            decreases self.entries@.len() - i,
        {
            if self.entries[i].instance_id == instance_id {
                proof {
                    assert(self.ids()[i as int] == instance_id);
                    lemma_paired_at(self.ids(), self.entries@, i as int);
                }
                return Some(i);
            }
            i += 1;
        }
        None
    }

    /// Whether `instance_id` names a live session.
    pub fn contains(&self, instance_id: u32) -> (found: bool)
        requires
            self.wf(),
        ensures
            found == self@.contains_key(instance_id),
    {
        self.position(instance_id).is_some()
    }

    /// The session of `instance_id`.
    pub fn get(&self, instance_id: u32) -> (found: Option<&Session<S>>)
        requires
            self.wf(),
        ensures
            match found {
                Some(session) => self@.contains_key(instance_id) && *session == self@[instance_id],
                None => !self@.contains_key(instance_id),
            },
    {
        match self.position(instance_id) {
            Some(i) => Some(&self.entries[i]),
            None => None,
        }
    }

    /// Puts `session` under its instance id. A session that had the id before
    /// leaves the table and is handed back.
    pub fn insert(&mut self, session: Session<S>) -> (previous: Option<Session<S>>)
        requires
            old(self).wf(),
        ensures
            final(self).wf(),
            final(self)@ == old(self)@.insert(session.instance_id, session),
            match previous {
                Some(had) => old(self)@.contains_key(session.instance_id) && had == old(
                    self,
                )@[session.instance_id],
                None => !old(self)@.contains_key(session.instance_id),
            },
    {
        let previous = self.remove(session.instance_id);
        proof {
            assert(self@.contains_key(session.instance_id) == self.ids().contains(session.instance_id));
            lemma_paired_push(self.ids(), self.entries@, session.instance_id, session);
        }
        let ghost ids = self.ids();
        self.entries.push(session);
        assert(self.ids() =~= ids.push(session.instance_id));
        assert(self@ =~= old(self)@.insert(session.instance_id, session));
        previous
    }

    /// Takes the session of `instance_id` out of the table.
    pub fn remove(&mut self, instance_id: u32) -> (taken: Option<Session<S>>)
        requires
            old(self).wf(),
        ensures
            final(self).wf(),
            final(self)@ == old(self)@.remove(instance_id),
            match taken {
                Some(session) => old(self)@.contains_key(instance_id) && session == old(
                    self,
                )@[instance_id],
                None => !old(self)@.contains_key(instance_id),
            },
    {
        match self.position(instance_id) {
            Some(i) => {
                proof {
                    lemma_paired_remove(self.ids(), self.entries@, i as int);
                }
                let ghost ids = self.ids();
                let session = self.entries.remove(i);
                assert(self.ids() =~= ids.remove(i as int));
                Some(session)
            },
            None => {
                assert(self@.remove(instance_id) =~= self@);
                None
            },
        }
    }

    /// Takes every session out of the table, in the order in which they came.
    pub fn drain(&mut self) -> (all: Vec<Session<S>>)
        requires
            old(self).wf(),
        ensures
            final(self).wf(),
            final(self)@ == Map::<u32, Session<S>>::empty(),
            all@ == old(self).in_order(),
    {
        let mut all: Vec<Session<S>> = Vec::new();
        core::mem::swap(&mut self.entries, &mut all);
        assert(self.ids() =~= Seq::<u32>::empty());
        assert(self@ =~= Map::<u32, Session<S>>::empty());
        all
    }

    /// Flips the pause state of `instance_id` and says what it is now.
    pub fn toggle_pause(&mut self, instance_id: u32) -> (now_paused: Option<bool>)
        requires
            old(self).wf(),
        ensures
            final(self).wf(),
            match now_paused {
                Some(paused) => {
                    &&& old(self)@.contains_key(instance_id)
                    &&& paused == !old(self)@[instance_id].paused
                    &&& final(self)@ == old(self)@.insert(instance_id, old(self)@[instance_id].toggled())
                },
                None => !old(self)@.contains_key(instance_id) && final(self)@ == old(self)@,
            },
    {
        match self.position(instance_id) {
            Some(i) => {
                let ghost ids = self.ids();
                let ghost before = self.entries@;
                let paused = !self.entries[i].paused;
                self.entries[i].paused = paused;
                proof {
                    assert(self.entries@ =~= before.update(i as int, before[i as int].toggled()));
                    assert(self.ids() =~= ids);
                    lemma_paired_update(ids, before, i as int, before[i as int].toggled());
                }
                Some(paused)
            },
            None => None,
        }
    }

    /// The session that came `i`-th among the live ones.
    pub fn nth(&self, i: usize) -> (session: &Session<S>)
        requires
            i < self.in_order().len(),
        ensures
            *session == self.in_order()[i as int],
    {
        &self.entries[i]
    }

    /// The number of sessions in [`Self::in_order`].
    pub fn count(&self) -> (n: usize)
        ensures
            n == self.in_order().len(),
    {
        self.entries.len()
    }

    /// One tick of the reporter of `instance_id`. There is nothing to report
    /// for an instance that is gone.
    pub fn tick(&mut self, instance_id: u32, now: u64) -> (event: Option<ProgressEvent>)
        requires
            old(self).wf(),
        ensures
            final(self).wf(),
            match event {
                Some(progress) => {
                    &&& old(self)@.contains_key(instance_id)
                    &&& progress == old(self)@[instance_id].progress_at(now)
                    &&& progress.position_ms == old(self)@[instance_id].reported_at(now)
                    &&& progress.position_ms <= progress.duration_ms
                    &&& final(self)@ == old(self)@.insert(instance_id, old(self)@[instance_id].ticked(now))
                },
                None => !old(self)@.contains_key(instance_id) && final(self)@ == old(self)@,
            },
    {
        match self.position(instance_id) {
            Some(i) => {
                let ghost ids = self.ids();
                let ghost before = self.entries@;
                let progress = self.entries[i].tick(now);
                proof {
                    assert(self.entries@ =~= before.update(i as int, before[i as int].ticked(now)));
                    assert(self.ids() =~= ids);
                    lemma_paired_update(ids, before, i as int, before[i as int].ticked(now));
                }
                Some(progress)
            },
            None => None,
        }
    }

    /// Gives the session of `instance_id` the sink `sink`, which starts at
    /// `position_ms` at the instant `now`, and hands back the sink it had. If
    /// the instance is gone, `sink` comes back.
    pub fn replace_sink(&mut self, instance_id: u32, sink: S, position_ms: u64, now: u64) -> (outcome:
        Result<S, S>)
        requires
            old(self).wf(),
        ensures
            final(self).wf(),
            match outcome {
                Ok(replaced) => {
                    &&& old(self)@.contains_key(instance_id)
                    &&& replaced == old(self)@[instance_id].sink
                    &&& final(self)@ == old(self)@.insert(
                        instance_id,
                        old(self)@[instance_id].rebased(sink, position_ms, now),
                    )
                },
                Err(unused) => {
                    &&& !old(self)@.contains_key(instance_id)
                    &&& unused == sink
                    &&& final(self)@ == old(self)@
                },
            },
    {
        match self.position(instance_id) {
            Some(i) => {
                let ghost ids = self.ids();
                let ghost before = self.entries@;
                let mut other = sink;
                core::mem::swap(&mut self.entries[i].sink, &mut other);
                self.entries[i].base_offset = position_ms;
                self.entries[i].start_time = now;
                proof {
                    assert(self.entries@ =~= before.update(
                        i as int,
                        before[i as int].rebased(sink, position_ms, now),
                    ));
                    assert(self.ids() =~= ids);
                    lemma_paired_update(ids, before, i as int, before[i as int].rebased(sink, position_ms, now));
                }
                Ok(other)
            },
            None => Err(sink),
        }
    }
}

} // verus!
