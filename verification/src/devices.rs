//! Output devices: which names are offered, and which device a name means.
//!
//! The host lists its output devices under many names, among them raw
//! hardware nodes and plug-in aliases that nobody wants to pick. The list that
//! is offered leaves those out, names each device once, in dictionary order,
//! and begins with the entry that stands for the host's default device.

use vstd::prelude::*;
use vstd::string::StringExecFns;
use crate::engine::{default_device, EngineError};
use crate::text::{
    begins_with, chars_of, compare, contains, ends_with, finishes_with, lemma_precedes_transitive,
    lowercase, occurs_in, precedes, starts_with, to_lowercase, Rank,
};

verus! {

/// Whether a name in lower case is that of a raw hardware node or of a
/// plug-in alias.
pub open spec fn is_alias(lower: Seq<char>) -> bool {
    ||| begins_with(lower, "hw:"@)
    ||| begins_with(lower, "plughw:"@)
    ||| begins_with(lower, "dmix:"@)
    ||| begins_with(lower, "dsnoop:"@)
    ||| finishes_with(lower, "rate"@)
    ||| begins_with(lower, "speex"@)
    ||| occurs_in(lower, "surround"@)
    ||| occurs_in(lower, "upmix"@)
    ||| occurs_in(lower, "vdownmix"@)
}

/// Whether a device name is offered: its lower-case form is no alias.
pub open spec fn is_offered(name: Seq<char>) -> bool {
    !is_alias(lowercase(name))
}

/// `texts` rises strictly in dictionary order from position `from` on.
pub open spec fn rises_from(texts: Seq<String>, from: int) -> bool {
    forall|i: int, j: int| from <= i < j < texts.len() ==> precedes(texts[i]@, texts[j]@)
}

/// `text` is the text of one of `names`.
pub open spec fn is_among(text: Seq<char>, names: Seq<String>) -> bool {
    exists|j: int| 0 <= j < names.len() && names[j]@ == text
}

/// `text` is listed in `listed` at position `from` or later.
pub open spec fn is_listed_from(text: Seq<char>, listed: Seq<String>, from: int) -> bool {
    exists|i: int| from <= i < listed.len() && listed[i]@ == text
}

/// Whether `lower`, a name in lower case, is that of a raw hardware node or
/// of a plug-in alias.
pub fn check_alias(lower: &str) -> (alias: bool)
    ensures
        alias == is_alias(lower@),
{
    let chars = chars_of(lower);
    starts_with(&chars, &chars_of("hw:")) || starts_with(&chars, &chars_of("plughw:")) || starts_with(
        &chars,
        &chars_of("dmix:"),
    ) || starts_with(&chars, &chars_of("dsnoop:")) || ends_with(&chars, &chars_of("rate")) || starts_with(
        &chars,
        &chars_of("speex"),
    ) || contains(&chars, &chars_of("surround")) || contains(&chars, &chars_of("upmix")) || contains(
        &chars,
        &chars_of("vdownmix"),
    )
}

/// Whether a device name is offered.
pub fn check_offered(name: &str) -> (offered: bool)
    ensures
        offered == is_offered(name@),
{
    let lower = to_lowercase(name);
    !check_alias(lower.as_str())
}

/// Where `key` belongs in the rising list `keys`: the position of the first
/// text that does not come before it, and whether that text is `key` itself.
fn find_slot(keys: &Vec<Vec<char>>, key: &Vec<char>) -> (slot: (usize, bool))
    ensures
        slot.0 <= keys@.len(),
        forall|i: int| 0 <= i < slot.0 ==> precedes(keys@[i]@, key@),
        slot.1 ==> slot.0 < keys@.len() && keys@[slot.0 as int]@ == key@,
        !slot.1 ==> slot.0 == keys@.len() || precedes(key@, keys@[slot.0 as int]@),
{
    let mut at: usize = 0;
    while at < keys.len()
        invariant
            at <= keys@.len(),
            forall|i: int| 0 <= i < at ==> precedes(keys@[i]@, key@),
        decreases keys@.len() - at,
    {
        match compare(&keys[at], key) {
            Rank::Before => {
                at += 1;
            },
            Rank::Same => {
                return (at, true);
            },
            Rank::After => {
                return (at, false);
            },
        }
    }
    (at, false)
}

/// The device names that are offered, made from the names the host lists.
/// The first entry is "Default". After it come the listed names that are
/// offered, each once, in dictionary order.
pub fn list_audio_devices(names: &Vec<String>) -> (listed: Vec<String>)
    ensures
        listed@.len() >= 1,
        listed@[0]@ == default_device(),
        rises_from(listed@, 1),
        forall|i: int|
            1 <= i < listed@.len() ==> is_offered((#[trigger] listed@[i])@) && is_among(
                listed@[i]@,
                names@,
            ),
        forall|j: int|
            0 <= j < names@.len() && is_offered((#[trigger] names@[j])@) ==> is_listed_from(
                names@[j]@,
                listed@,
                1,
            ),
{
    let mut listed: Vec<String> = Vec::new();
    let mut keys: Vec<Vec<char>> = Vec::new();
    let mut n: usize = 0;
    while n < names.len()
        invariant
            n <= names@.len(),
            keys@.len() == listed@.len(),
            forall|i: int| 0 <= i < listed@.len() ==> (#[trigger] keys@[i])@ == listed@[i]@,
            rises_from(listed@, 0),
            forall|i: int|
                0 <= i < listed@.len() ==> is_offered((#[trigger] listed@[i])@) && is_among(
                    listed@[i]@,
                    names@.take(n as int),
                ),
            forall|j: int|
                0 <= j < n && is_offered((#[trigger] names@[j])@) ==> is_listed_from(
                    names@[j]@,
                    listed@,
                    0,
                ),
        decreases names@.len() - n,
    {
        let name = &names[n];
        let ghost had = listed@;
        let ghost seen = names@.take(n as int);
        let ghost seen_now = names@.take(n + 1);
        proof {
            assert(seen_now[n as int]@ == name@);
            assert forall|i: int| 0 <= i < had.len() implies is_among(had[i]@, seen_now) by {
                let j = choose|j: int| 0 <= j < seen.len() && seen[j]@ == had[i]@;
                assert(seen_now[j]@ == had[i]@);
            }
        }
        if check_offered(name.as_str()) {
            let key = chars_of(name.as_str());
            let (at, found) = find_slot(&keys, &key);
            if found {
                proof {
                    assert(had[at as int]@ == name@);
                }
            } else {
                let ghost had_keys = keys@;
                let entry = name.clone();
                listed.insert(at, entry);
                keys.insert(at, key);
                proof {
                    assert forall|i: int, j: int| 0 <= i < j < listed@.len() implies precedes(
                        listed@[i]@,
                        listed@[j]@,
                    ) by {
                        if j < at {
                            assert(listed@[i] == had[i] && listed@[j] == had[j]);
                        } else if j == at {
                            assert(listed@[i] == had[i] && listed@[j]@ == name@);
                            assert(had_keys[i]@ == had[i]@);
                        } else if i < at {
                            assert(listed@[i] == had[i] && listed@[j] == had[j - 1]);
                        } else if i == at {
                            assert(listed@[i]@ == name@ && listed@[j] == had[j - 1]);
                            assert(had_keys[at as int]@ == had[at as int]@);
                            if j > at + 1 {
                                lemma_precedes_transitive(name@, had[at as int]@, had[j - 1]@);
                            }
                        } else {
                            assert(listed@[i] == had[i - 1] && listed@[j] == had[j - 1]);
                        }
                    }
                    assert forall|i: int| 0 <= i < listed@.len() implies (#[trigger] keys@[i])@
                        == listed@[i]@ by {
                        if i < at {
                            assert(keys@[i] == had_keys[i] && listed@[i] == had[i]);
                        } else if i > at {
                            assert(keys@[i] == had_keys[i - 1] && listed@[i] == had[i - 1]);
                        }
                    }
                    assert forall|i: int| 0 <= i < listed@.len() implies is_offered(
                        (#[trigger] listed@[i])@,
                    ) && is_among(listed@[i]@, seen_now) by {
                        if i < at {
                            assert(listed@[i] == had[i]);
                        } else if i > at {
                            assert(listed@[i] == had[i - 1]);
                        }
                    }
                    assert(listed@[at as int]@ == name@);
                }
            }
            proof {
                assert forall|j: int| 0 <= j < n + 1 && is_offered((#[trigger] names@[j])@) implies is_listed_from(
                    names@[j]@,
                    listed@,
                    0,
                ) by {
                    if j < n {
                        let i = choose|i: int| 0 <= i < had.len() && had[i]@ == names@[j]@;
                        if found || i < at {
                            assert(listed@[i]@ == names@[j]@);
                        } else {
                            assert(listed@[i + 1]@ == names@[j]@);
                        }
                    } else {
                        assert(listed@[at as int]@ == names@[j]@);
                    }
                }
            }
        }
        n += 1;
    }
    proof {
        assert(names@.take(n as int) =~= names@);
    }
    let ghost sorted = listed@;
    listed.insert(0, String::from_str("Default"));
    proof {
        assert forall|i: int| 1 <= i < listed@.len() implies is_offered((#[trigger] listed@[i])@)
            && is_among(listed@[i]@, names@) by {
            assert(listed@[i] == sorted[i - 1]);
        }
        assert forall|i: int, j: int| 1 <= i < j < listed@.len() implies precedes(
            listed@[i]@,
            listed@[j]@,
        ) by {
            assert(listed@[i] == sorted[i - 1]);
            assert(listed@[j] == sorted[j - 1]);
        }
        assert forall|j: int| 0 <= j < names@.len() && is_offered((#[trigger] names@[j])@) implies is_listed_from(
            names@[j]@,
            listed@,
            1,
        ) by {
            let i = choose|i: int| 0 <= i < sorted.len() && sorted[i]@ == names@[j]@;
            assert(listed@[i + 1]@ == names@[j]@);
        }
    }
    listed
}

/// `position` is the first place in `available` that holds the name `wanted`.
pub open spec fn is_first_named(available: Seq<Option<String>>, wanted: Seq<char>, position: int) -> bool {
    &&& 0 <= position < available.len()
    &&& names_it(available[position], wanted)
    &&& forall|i: int| 0 <= i < position ==> !names_it(#[trigger] available[i], wanted)
}

/// A device whose name could be read has the name `wanted`.
pub open spec fn names_it(device: Option<String>, wanted: Seq<char>) -> bool {
    device matches Some(name) && name@ == wanted
}

/// Whether `device_name` stands for the host's default output device.
pub fn means_default(device_name: &str) -> (default: bool)
    ensures
        default == (device_name@ == default_device()),
{
    device_name.to_owned() == String::from_str("Default")
}

/// Finds the device that `device_name` stands for in `available`, the host's
/// list of output devices, where a device whose name could not be read is
/// `None`: the first one of that name.
pub fn find_device(device_name: &str, available: &Vec<Option<String>>) -> (found: Result<usize, EngineError>)
    ensures
        match found {
            Ok(position) => is_first_named(available@, device_name@, position as int),
            Err(error) => {
                &&& error == EngineError::DeviceNotFound
                &&& forall|i: int| 0 <= i < available@.len() ==> !names_it(#[trigger] available@[i], device_name@)
            },
        },
{
    let wanted = device_name.to_owned();
    let mut i: usize = 0;
    while i < available.len()
        invariant
            i <= available@.len(),
            wanted@ == device_name@,
            forall|k: int| 0 <= k < i ==> !names_it(#[trigger] available@[k], device_name@),
        decreases available@.len() - i,
    {
        let named = match &available[i] {
            Some(name) => *name == wanted,
            None => false,
        };
        if named {
            return Ok(i);
        }
        i += 1;
    }
    Err(EngineError::DeviceNotFound)
}

} // verus!
