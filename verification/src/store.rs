//! The store of rotation flags: which devices the user wants in the rotation,
//! kept from one run to the next as a JSON object from identifier to flag.
//!
//! Reading and writing the file is left to the caller; this module turns
//! devices into the text to write and the text read into flags, and merges
//! stored flags onto a fresh enumeration.

use vstd::prelude::*;
use std::collections::HashMap;
use crate::device::{distinct_ids, with_flag, AudioDevice};
use crate::states::{distinct_keys, pairs_map, SavedStates};

verus! {

/// Why stored flags could not be read or written.
#[derive(Clone, Copy, Debug, PartialEq, Eq, Structural)]
pub enum PersistenceError {
    /// The stored state exists but could not be read.
    Unreadable,
    /// The stored state is not a JSON object from strings to booleans.
    Malformed,
}

/// What the caller found where the flags are kept.
#[derive(Clone, Debug, PartialEq, Eq)]
pub enum StoredText {
    /// Nothing has been stored yet.
    Absent,
    /// Something is stored but reading it failed.
    Unreadable,
    /// The stored text.
    Present(String),
}

/// The flags of a device list as a map from identifier to flag; of two
/// devices with one identifier the later counts.
pub open spec fn states_of(devices: Seq<AudioDevice>) -> Map<Seq<char>, bool>
    decreases devices.len(),
{
    if devices.len() == 0 {
        Map::empty()
    } else {
        states_of(devices.drop_last()).insert(devices.last().id@, devices.last().selectable)
    }
}

/// The flag a device has once the stored flags are merged onto it: the
/// stored one where its identifier is stored, its own otherwise.
pub open spec fn merged_flag(device: AudioDevice, saved: Map<Seq<char>, bool>) -> bool {
    if saved.contains_key(device.id@) {
        saved[device.id@]
    } else {
        device.selectable
    }
}

/// A device list with the stored flags merged onto it.
pub open spec fn applied(devices: Seq<AudioDevice>, saved: Map<Seq<char>, bool>) -> Seq<
    AudioDevice,
> {
    Seq::new(devices.len(), |i: int| with_flag(devices[i], merged_flag(devices[i], saved)))
}

/// What `serde_json` reads from a text as a map from strings to booleans:
/// the map, or `None` where it rejects the text.
pub uninterp spec fn json_states(text: Seq<char>) -> Option<Map<Seq<char>, bool>>;

/// `serde_json::Error`, carried through and never looked into.
#[verifier::external_type_specification]
#[verifier::external_body]
pub struct ExJsonError(serde_json::Error);

/// `serde_json::from_str` at the type `HashMap<String, bool>`, the entries of
/// the map it returns handed out as pairs in no particular order.
///
/// Trusted: whether the call succeeds and which map it returns depend on the
/// text alone, and `json_states` names that outcome. The pairs are the
/// entries of the map, each key once, so `pairs_map` of them is the map.
#[verifier::external_body]
fn parse_states(text: &str) -> (parsed: Result<Vec<(String, bool)>, serde_json::Error>)
    ensures
        match parsed {
            Ok(pairs) => json_states(text@) == Some(pairs_map(pairs@)),
            Err(_) => json_states(text@) is None,
        },
{
    let map: HashMap<String, bool> = serde_json::from_str(text)?;
    Ok(map.into_iter().collect())
}

/// `serde_json::to_string_pretty` on the `HashMap<String, bool>` that holds
/// the given pairs.
///
/// Trusted: the call succeeds, and the text it returns is one that
/// `serde_json` reads back as the map of these pairs. It succeeds because
/// the serializer fails only where its writer fails, where a key is no
/// string or where a `Serialize` impl refuses: here the writer is a byte
/// vector in memory, the keys are strings and the values booleans. In which
/// order the entries are written is left open.
#[verifier::external_body]
fn write_states(pairs: &Vec<(String, bool)>) -> (written: Result<String, serde_json::Error>)
    requires
        distinct_keys(pairs@),
    ensures
        written is Ok,
        json_states(written->Ok_0@) == Some(pairs_map(pairs@)),
{
    let map: HashMap<String, bool> = pairs.iter().cloned().collect();
    serde_json::to_string_pretty(&map)
}

/// `states_of` holds exactly the identifiers of the devices, and in a list
/// without repeated identifiers it gives each the flag of its device.
pub proof fn lemma_states_of(devices: Seq<AudioDevice>)
    ensures
        forall|k: Seq<char>| #[trigger]
            states_of(devices).contains_key(k) <==> exists|i: int|
                0 <= i < devices.len() && (#[trigger] devices[i]).id@ == k,
        distinct_ids(devices) ==> forall|i: int|
            0 <= i < devices.len() ==> states_of(devices)[(#[trigger] devices[i]).id@]
                == devices[i].selectable,
    decreases devices.len(),
{
    if devices.len() > 0 {
        let front = devices.drop_last();
        let last = devices.last();
        lemma_states_of(front);
        assert forall|k: Seq<char>| #[trigger]
            states_of(devices).contains_key(k) <==> exists|i: int|
                0 <= i < devices.len() && (#[trigger] devices[i]).id@ == k by {
            if states_of(devices).contains_key(k) {
                if k == last.id@ {
                    assert(devices[devices.len() - 1].id@ == k);
                } else {
                    assert(states_of(front).contains_key(k));
                    let i = choose|i: int| 0 <= i < front.len() && (#[trigger] front[i]).id@ == k;
                    assert(devices[i].id@ == k);
                }
            }
            if exists|i: int| 0 <= i < devices.len() && (#[trigger] devices[i]).id@ == k {
                let i = choose|i: int| 0 <= i < devices.len() && (#[trigger] devices[i]).id@ == k;
                if i < front.len() {
                    assert(front[i].id@ == k);
                    assert(states_of(front).contains_key(k));
                } else {
                    assert(k == last.id@);
                }
                assert(states_of(devices).contains_key(k));
            }
        }
        if distinct_ids(devices) {
            assert forall|i: int, j: int| 0 <= i < j < front.len() implies (#[trigger] front[i]).id@
                != (#[trigger] front[j]).id@ by {
                assert(devices[i].id@ != devices[j].id@);
            }
            assert forall|i: int| 0 <= i < devices.len() implies states_of(devices)[(
            #[trigger] devices[i]).id@] == devices[i].selectable by {
                if i < front.len() {
                    assert(devices[i].id@ != devices[devices.len() - 1].id@);
                    assert(front[i] == devices[i]);
                }
            }
        }
    }
}

/// The flags of the devices, as `SavedStates`.
pub fn states_of_devices(devices: &Vec<AudioDevice>) -> (states: SavedStates)
    ensures
        states@ == states_of(devices@),
{
    let mut states = SavedStates::new();
    let mut i: usize = 0;
    while i < devices.len()
        invariant
            i <= devices.len(),
            states@ == states_of(devices@.take(i as int)),
        decreases devices.len() - i,
    {
        proof {
            assert(devices@.take(i + 1).drop_last() =~= devices@.take(i as int));
        }
        states.insert(devices[i].id.clone(), devices[i].selectable);
        i = i + 1;
    }
    assert(devices@.take(devices.len() as int) =~= devices@);
    states
}

/// Merges the stored flags onto the devices: a device whose identifier is
/// stored gets the stored flag, every other device keeps its own. Stored
/// identifiers that no device has are passed over.
pub fn apply_device_selectable_state(devices: &mut Vec<AudioDevice>, saved_states: &SavedStates)
    ensures
        final(devices)@ == applied(old(devices)@, saved_states@),
{
    let mut i: usize = 0;
    while i < devices.len()
        invariant
            i <= devices.len(),
            devices@.len() == old(devices)@.len(),
            forall|j: int|
                0 <= j < i ==> devices@[j] == with_flag(
                    old(devices)@[j],
                    merged_flag(old(devices)@[j], saved_states@),
                ),
            forall|j: int| i <= j < devices.len() ==> devices@[j] == old(devices)@[j],
        decreases devices.len() - i,
    {
        match saved_states.get(devices[i].id.as_str()) {
            Some(selectable) => {
                devices[i].selectable = selectable;
            },
            None => {},
        }
        i = i + 1;
    }
    assert(devices@ =~= applied(old(devices)@, saved_states@));
}

/// What becomes of the pairs that `serde_json` read, or of its refusal.
pub fn read_states(parsed: Result<Vec<(String, bool)>, serde_json::Error>) -> (states: Result<
    SavedStates,
    PersistenceError,
>)
    ensures
        match parsed {
            Ok(pairs) => states is Ok && states->Ok_0@ == pairs_map(pairs@),
            Err(_) => states == Err::<SavedStates, PersistenceError>(PersistenceError::Malformed),
        },
{
    match parsed {
        Ok(pairs) => Ok(SavedStates::from_pairs(&pairs)),
        Err(_) => Err(PersistenceError::Malformed),
    }
}

/// The text to store for the devices: a JSON object with one entry per
/// identifier, which replaces whatever was stored before.
///
/// The text is one that reads back as exactly the flags of the devices.
/// Turning the flags into text cannot fail; writing the text to the file is
/// the caller's part, and a failure there leaves the devices in memory as
/// they are.
pub fn save_device_selectable_state(devices: &Vec<AudioDevice>) -> (text: String)
    ensures
        json_states(text@) == Some(states_of(devices@)),
{
    let states = states_of_devices(devices);
    write_states(states.pairs()).unwrap()
}

/// The stored flags, from what the caller found where they are kept.
///
/// Nothing stored yet gives no flags and is no error. Stored text gives the
/// flags that `serde_json` reads from it as a map from strings to booleans,
/// and `Malformed` where it reads none.
pub fn load_device_selectable_state(stored: &StoredText) -> (states: Result<
    SavedStates,
    PersistenceError,
>)
    ensures
        match *stored {
            StoredText::Absent => states is Ok && states->Ok_0@ == Map::<Seq<char>, bool>::empty(),
            StoredText::Unreadable => states == Err::<SavedStates, PersistenceError>(
                PersistenceError::Unreadable,
            ),
            StoredText::Present(text) => match json_states(text@) {
                Some(flags) => states is Ok && states->Ok_0@ == flags,
                None => states == Err::<SavedStates, PersistenceError>(
                    PersistenceError::Malformed,
                ),
            },
        },
{
    match stored {
        StoredText::Absent => Ok(SavedStates::new()),
        StoredText::Unreadable => Err(PersistenceError::Unreadable),
        StoredText::Present(text) => read_states(parse_states(text.as_str())),
    }
}

/// The flags to go on with after a load: what was loaded, or no flags where
/// loading failed.
pub fn loaded_or_empty(loaded: Result<SavedStates, PersistenceError>) -> (states: SavedStates)
    ensures
        match loaded {
            Ok(s) => states == s,
            Err(_) => states@ == Map::<Seq<char>, bool>::empty(),
        },
{
    match loaded {
        Ok(s) => s,
        Err(_) => SavedStates::new(),
    }
}

/// Round trip of the flags through the store.
///
/// Flags saved from a device list without repeated identifiers and merged
/// onto any later enumeration give every device that was present at the save
/// the flag it had then, and leave every other device as it is.
pub proof fn lemma_round_trip(saved: Seq<AudioDevice>, current: Seq<AudioDevice>)
    requires
        distinct_ids(saved),
    ensures
        applied(current, states_of(saved)).len() == current.len(),
        forall|i: int, j: int|
            0 <= i < current.len() && 0 <= j < saved.len() && (#[trigger] current[i]).id@ == (
            #[trigger] saved[j]).id@ ==> applied(current, states_of(saved))[i] == with_flag(
                current[i],
                saved[j].selectable,
            ),
        forall|i: int|
            0 <= i < current.len() && (forall|j: int|
                0 <= j < saved.len() ==> (#[trigger] saved[j]).id@ != current[i].id@)
                ==> #[trigger] applied(current, states_of(saved))[i] == current[i],
        applied(saved, states_of(saved)) == saved,
{
    lemma_states_of(saved);
    assert forall|i: int, j: int|
        0 <= i < current.len() && 0 <= j < saved.len() && (#[trigger] current[i]).id@ == (
        #[trigger] saved[j]).id@ implies applied(current, states_of(saved))[i] == with_flag(
        current[i],
        saved[j].selectable,
    ) by {
        assert(states_of(saved)[saved[j].id@] == saved[j].selectable);
    }
    assert forall|i: int|
        0 <= i < current.len() && (forall|j: int|
            0 <= j < saved.len() ==> (#[trigger] saved[j]).id@ != current[i].id@)
            implies #[trigger] applied(current, states_of(saved))[i] == current[i] by {
        if states_of(saved).contains_key(current[i].id@) {
            let j = choose|j: int| 0 <= j < saved.len() && (#[trigger] saved[j]).id@ == current[i].id@;
            assert(false);
        }
    }
    assert forall|i: int| 0 <= i < saved.len() implies applied(saved, states_of(saved))[i]
        == saved[i] by {
        assert(states_of(saved)[saved[i].id@] == saved[i].selectable);
    }
    assert(applied(saved, states_of(saved)) =~= saved);
}

/// A stored identifier that no device has changes nothing.
pub proof fn lemma_unknown_identifier_ignored(
    devices: Seq<AudioDevice>,
    saved: Map<Seq<char>, bool>,
    unknown: Seq<char>,
    selectable: bool,
)
    requires
        forall|i: int| 0 <= i < devices.len() ==> (#[trigger] devices[i]).id@ != unknown,
    ensures
        applied(devices, saved.insert(unknown, selectable)) == applied(devices, saved),
        applied(devices, saved.remove(unknown)) == applied(devices, saved),
{
    assert forall|i: int| 0 <= i < devices.len() implies applied(
        devices,
        saved.insert(unknown, selectable),
    )[i] == applied(devices, saved)[i] by {
        assert(devices[i].id@ != unknown);
    }
    assert forall|i: int| 0 <= i < devices.len() implies applied(devices, saved.remove(unknown))[i]
        == applied(devices, saved)[i] by {
        assert(devices[i].id@ != unknown);
    }
    assert(applied(devices, saved.insert(unknown, selectable)) =~= applied(devices, saved));
    assert(applied(devices, saved.remove(unknown)) =~= applied(devices, saved));
}

} // verus!
