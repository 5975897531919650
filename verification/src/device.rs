//! Audio endpoints as plain data.

use vstd::prelude::*;
use crate::text::same_text;

verus! {

/// Coarse physical category of an endpoint. It only decides which icon is shown.
#[derive(Clone, Copy, Debug, PartialEq, Eq, Structural)]
pub enum FormFactor {
    Headphones,
    Headset,
    Speaker,
    Other,
}

/// One active render endpoint of an enumeration snapshot.
///
/// `id` is the identifier the operating system assigned; it is the only key.
/// `friendly_name` is for display and may repeat across devices.
/// `selectable` says whether the device takes part in the rotation.
#[derive(Clone, Debug, PartialEq, Eq)]
pub struct AudioDevice {
    pub id: String,
    pub friendly_name: String,
    pub selectable: bool,
    pub form_factor: FormFactor,
}

/// The identifiers of a device list, in enumeration order.
pub open spec fn ids(devices: Seq<AudioDevice>) -> Seq<Seq<char>> {
    Seq::new(devices.len(), |i: int| devices[i].id@)
}

/// The rotation flags of a device list, in enumeration order.
pub open spec fn flags(devices: Seq<AudioDevice>) -> Seq<bool> {
    Seq::new(devices.len(), |i: int| devices[i].selectable)
}

/// No identifier occurs twice: what one enumeration snapshot guarantees.
pub open spec fn distinct_ids(devices: Seq<AudioDevice>) -> bool {
    forall|i: int, j: int|
        0 <= i < j < devices.len() ==> (#[trigger] devices[i]).id@ != (#[trigger] devices[j]).id@
}

/// The same device with its rotation flag replaced.
pub open spec fn with_flag(device: AudioDevice, selectable: bool) -> AudioDevice {
    AudioDevice {
        id: device.id,
        friendly_name: device.friendly_name,
        selectable,
        form_factor: device.form_factor,
    }
}

/// A place in a list, where one was found, as a mathematical integer.
pub open spec fn as_place(found: Option<usize>) -> Option<int> {
    match found {
        Some(i) => Some(i as int),
        None => None,
    }
}

/// `is_first_match(names, name, i)`: `i` is the first place at which `name` stands.
pub open spec fn is_first_match(names: Seq<Seq<char>>, name: Seq<char>, i: int) -> bool {
    &&& 0 <= i < names.len()
    &&& names[i] == name
    &&& forall|j: int| 0 <= j < i ==> names[j] != name
}

/// The first place at or after `start` at which `name` stands, if there is one.
pub open spec fn position_from(names: Seq<Seq<char>>, name: Seq<char>, start: int) -> Option<int>
    decreases names.len() - start,
{
    if start < 0 || start >= names.len() {
        None
    } else if names[start] == name {
        Some(start)
    } else {
        position_from(names, name, start + 1)
    }
}

/// The first place at which `name` stands, if there is one.
pub open spec fn position(names: Seq<Seq<char>>, name: Seq<char>) -> Option<int> {
    position_from(names, name, 0)
}

/// `position_from` finds the least matching place from `start` on, and finds
/// none exactly when there is none.
pub proof fn lemma_position_from(names: Seq<Seq<char>>, name: Seq<char>, start: int)
    requires
        0 <= start,
    ensures
        match position_from(names, name, start) {
            Some(i) => {
                &&& start <= i < names.len()
                &&& names[i] == name
                &&& forall|j: int| start <= j < i ==> names[j] != name
            },
            None => forall|j: int| start <= j < names.len() ==> names[j] != name,
        },
    decreases names.len() - start,
{
    if start < names.len() && names[start] != name {
        lemma_position_from(names, name, start + 1);
    }
}

/// `position` is the first match, and is `None` exactly when nothing matches.
pub proof fn lemma_position(names: Seq<Seq<char>>, name: Seq<char>)
    ensures
        match position(names, name) {
            Some(i) => is_first_match(names, name, i),
            None => forall|j: int| 0 <= j < names.len() ==> names[j] != name,
        },
{
    lemma_position_from(names, name, 0);
}

/// In a list without repeated identifiers every device is found at its own place.
pub proof fn lemma_position_of_own_id(devices: Seq<AudioDevice>, i: int)
    requires
        distinct_ids(devices),
        0 <= i < devices.len(),
    ensures
        position(ids(devices), devices[i].id@) == Some(i),
{
    lemma_position(ids(devices), devices[i].id@);
    match position(ids(devices), devices[i].id@) {
        Some(k) => {
            assert(ids(devices)[k] == devices[k].id@);
            if k < i {
                assert(devices[k].id@ != devices[i].id@);
            }
            if i < k {
                assert(ids(devices)[i] == devices[i].id@);
            }
        },
        None => {
            assert(ids(devices)[i] == devices[i].id@);
        },
    }
}

/// Whether no identifier occurs twice in the list.
pub fn has_distinct_ids(devices: &Vec<AudioDevice>) -> (distinct: bool)
    ensures
        distinct == distinct_ids(devices@),
{
    let mut j: usize = 0;
    while j < devices.len()
        invariant
            j <= devices.len(),
            forall|a: int, b: int| 0 <= a < b < j ==> devices@[a].id@ != devices@[b].id@,
        decreases devices.len() - j,
    {
        let mut i: usize = 0;
        while i < j
            invariant
                i <= j < devices.len(),
                forall|a: int| 0 <= a < i ==> devices@[a].id@ != devices@[j as int].id@,
            decreases j - i,
        {
            if same_text(devices[i].id.as_str(), devices[j].id.as_str()) {
                assert(devices@[i as int].id@ == devices@[j as int].id@);
                return false;
            }
            i = i + 1;
        }
        j = j + 1;
    }
    true
}

impl AudioDevice {
    /// A freshly enumerated device: it takes part in the rotation until the
    /// stored flags say otherwise.
    pub fn new(id: String, friendly_name: String, form_factor: FormFactor) -> (device: Self)
        ensures
            device.id == id,
            device.friendly_name == friendly_name,
            device.selectable,
            device.form_factor == form_factor,
    {
        AudioDevice { id, friendly_name, selectable: true, form_factor }
    }
}

} // verus!
