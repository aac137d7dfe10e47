//! The decode cache.
//!
//! A sound is decoded once and kept for as long as the engine lives. A small
//! file is kept whole, as a buffer of samples that every later play, seek or
//! move to another device replays. Of a large file only the format is kept,
//! and each of those opens and decodes the file again.

use vstd::prelude::*;
use crate::names::NameMap;

verus! {

/// Files of at most this many bytes are kept in memory once decoded.
pub const CACHE_THRESHOLD_BYTES: u64 = 5 * 1024 * 1024;

/// How a decoded sound is kept.
#[derive(Clone, Copy, Debug, PartialEq, Eq, Structural)]
pub enum Storage {
    /// The samples are kept in memory.
    Buffered,
    /// The file is decoded again whenever it is played.
    Streamed,
}

/// Whether a file of `file_size` bytes is kept in memory.
pub open spec fn fits_in_memory(file_size: u64) -> bool {
    file_size <= CACHE_THRESHOLD_BYTES
}

/// The way in which a file of `file_size` bytes is kept.
pub open spec fn storage_of(file_size: u64) -> Storage {
    if fits_in_memory(file_size) {
        Storage::Buffered
    } else {
        Storage::Streamed
    }
}

/// The duration of a sound: the one its container states, else the one its
/// decoder reports, else zero.
pub open spec fn preferred_duration(container: Option<u64>, decoder: Option<u64>) -> u64 {
    match container {
        Some(ms) => ms,
        None => match decoder {
            Some(ms) => ms,
            None => 0,
        },
    }
}

/// Decides how a file of `file_size` bytes is kept.
pub fn storage_for(file_size: u64) -> (storage: Storage)
    ensures
        storage == storage_of(file_size),
{
    if file_size <= CACHE_THRESHOLD_BYTES {
        Storage::Buffered
    } else {
        Storage::Streamed
    }
}

/// Picks the duration of a sound from what its container and its decoder say.
pub fn choose_duration(container: Option<u64>, decoder: Option<u64>) -> (ms: u64)
    ensures
        ms == preferred_duration(container, decoder),
{
    match container {
        Some(ms) => ms,
        None => match decoder {
            Some(ms) => ms,
            None => 0,
        },
    }
}

/// What the cache keeps of one file, with sample buffers of type `B`.
pub struct CachedSound<B> {
    file_size: u64,
    channels: u16,
    sample_rate: u32,
    duration_ms: u64,
    samples: Option<B>,
}

impl<B> CachedSound<B> {
    /// The size of the file in bytes.
    pub closed spec fn spec_file_size(&self) -> u64 {
        self.file_size
    }

    /// The number of channels.
    pub closed spec fn spec_channels(&self) -> u16 {
        self.channels
    }

    /// The sample rate in hertz.
    pub closed spec fn spec_sample_rate(&self) -> u32 {
        self.sample_rate
    }

    /// The duration in milliseconds.
    pub closed spec fn spec_duration_ms(&self) -> u64 {
        self.duration_ms
    }

    /// The decoded samples, where they are kept.
    pub closed spec fn spec_samples(&self) -> Option<B> {
        self.samples
    }

    /// The samples are kept exactly if the file is small enough.
    pub open spec fn consistent(&self) -> bool {
        self.spec_samples() is Some <==> fits_in_memory(self.spec_file_size())
    }

    #[verifier::type_invariant]
    spec fn inv(&self) -> bool {
        self.consistent()
    }

    /// The entry for a file that was decoded. `samples` must be there exactly
    /// if the file is to be kept in memory; else there is no entry.
    pub fn decoded(
        file_size: u64,
        channels: u16,
        sample_rate: u32,
        container_duration: Option<u64>,
        decoder_duration: Option<u64>,
        samples: Option<B>,
    ) -> (sound: Option<CachedSound<B>>)
        ensures
            sound is Some <==> (samples is Some <==> fits_in_memory(file_size)),
            match sound {
                Some(entry) => {
                    &&& entry.consistent()
                    &&& entry.spec_file_size() == file_size
                    &&& entry.spec_channels() == channels
                    &&& entry.spec_sample_rate() == sample_rate
                    &&& entry.spec_duration_ms() == preferred_duration(
                        container_duration,
                        decoder_duration,
                    )
                    &&& entry.spec_samples() == samples
                },
                None => true,
            },
    {
        let buffered = match storage_for(file_size) {
            Storage::Buffered => true,
            Storage::Streamed => false,
        };
        if samples.is_some() == buffered {
            Some(
                CachedSound {
                    file_size,
                    channels,
                    sample_rate,
                    duration_ms: choose_duration(container_duration, decoder_duration),
                    samples,
                },
            )
        } else {
            None
        }
    }

    /// The size of the file in bytes.
    #[verifier::when_used_as_spec(spec_file_size)]
    pub fn file_size(&self) -> (n: u64)
        ensures
            n == self.spec_file_size(),
    {
        self.file_size
    }

    /// The number of channels.
    #[verifier::when_used_as_spec(spec_channels)]
    pub fn channels(&self) -> (n: u16)
        ensures
            n == self.spec_channels(),
    {
        self.channels
    }

    /// The sample rate in hertz.
    #[verifier::when_used_as_spec(spec_sample_rate)]
    pub fn sample_rate(&self) -> (hz: u32)
        ensures
            hz == self.spec_sample_rate(),
    {
        self.sample_rate
    }

    /// The duration in milliseconds.
    #[verifier::when_used_as_spec(spec_duration_ms)]
    pub fn duration_ms(&self) -> (ms: u64)
        ensures
            ms == self.spec_duration_ms(),
    {
        self.duration_ms
    }

    /// The decoded samples, if the sound is kept in memory.
    pub fn samples(&self) -> (samples: Option<&B>)
        ensures
            self.consistent(),
            match samples {
                Some(buffer) => self.spec_samples() == Some(*buffer),
                None => self.spec_samples() is None,
            },
    {
        proof {
            use_type_invariant(self);
        }
        self.samples.as_ref()
    }

    /// How the sound is kept.
    pub fn storage(&self) -> (storage: Storage)
        ensures
            storage == storage_of(self.spec_file_size()),
            storage == Storage::Buffered <==> self.spec_samples() is Some,
    {
        proof {
            use_type_invariant(self);
        }
        storage_for(self.file_size)
    }
}

/// The cache after `sound` was offered for `path`: a path that has an entry
/// keeps it.
pub open spec fn offered<B>(
    sounds: Map<Seq<char>, CachedSound<B>>,
    path: Seq<char>,
    sound: CachedSound<B>,
) -> Map<Seq<char>, CachedSound<B>> {
    if sounds.contains_key(path) {
        sounds
    } else {
        sounds.insert(path, sound)
    }
}

/// The decoded sounds, by path.
pub struct DecodeCache<B> {
    sounds: NameMap<CachedSound<B>>,
}

impl<B> DecodeCache<B> {
    /// The cache as a map from the text of a path to what is kept of the file.
    pub closed spec fn view(&self) -> Map<Seq<char>, CachedSound<B>> {
        self.sounds@
    }

    /// Every path has one entry, and every entry is consistent.
    pub closed spec fn wf(&self) -> bool {
        &&& self.sounds.wf()
        &&& forall|path: Seq<char>| #[trigger]
            self.sounds@.contains_key(path) ==> self.sounds@[path].consistent()
    }

    /// In a well-formed cache the samples of a file are kept exactly if the
    /// file is small enough.
    pub proof fn lemma_entries_consistent(&self)
        requires
            self.wf(),
        ensures
            forall|path: Seq<char>| #[trigger]
                self@.contains_key(path) ==> self@[path].consistent(),
    {
    }

    /// An empty cache.
    pub fn new() -> (cache: Self)
        ensures
            cache.wf(),
            cache@ == Map::<Seq<char>, CachedSound<B>>::empty(),
    {
        DecodeCache { sounds: NameMap::new() }
    }

    /// The number of cached files.
    pub fn len(&self) -> (n: usize)
        requires
            self.wf(),
        ensures
            self@.dom().finite(),
            n == self@.dom().len(),
    {
        self.sounds.len()
    }

    /// Whether `path` has an entry.
    pub fn contains(&self, path: &str) -> (found: bool)
        requires
            self.wf(),
        ensures
            found == self@.contains_key(path@),
    {
        self.sounds.contains(path)
    }

    /// What is kept of `path`.
    pub fn get(&self, path: &str) -> (found: Option<&CachedSound<B>>)
        requires
            self.wf(),
        ensures
            match found {
                Some(sound) => self@.contains_key(path@) && *sound == self@[path@] && sound.consistent(),
                None => !self@.contains_key(path@),
            },
    {
        self.sounds.get(path)
    }

    /// Offers `sound` as the entry of `path`. A path that has an entry keeps
    /// it, and `sound` is handed back.
    pub fn offer(&mut self, path: String, sound: CachedSound<B>) -> (rejected: Option<CachedSound<B>>)
        requires
            old(self).wf(),
        ensures
            final(self).wf(),
            final(self)@ == offered(old(self)@, path@, sound),
            match rejected {
                Some(back) => old(self)@.contains_key(path@) && back == sound,
                None => !old(self)@.contains_key(path@),
            },
    {
        proof {
            use_type_invariant(&sound);
        }
        self.sounds.insert_absent(path, sound)
    }
}

} // verus!
