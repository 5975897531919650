//! The rotation: which device becomes the default next.
//!
//! The rotation walks the enumeration order from left to right over the
//! devices that are selectable and wraps from the end back to the start.

use vstd::prelude::*;
use crate::device::{
    as_place, flags, ids, is_first_match, lemma_position, lemma_position_from, position,
    position_from, with_flag, AudioDevice,
};
use crate::text::same_text;

verus! {

/// The least selectable place at or after `start`, if there is one.
pub open spec fn first_selectable_from(selectable: Seq<bool>, start: int) -> Option<int>
    decreases selectable.len() - start,
{
    if start < 0 || start >= selectable.len() {
        None
    } else if selectable[start] {
        Some(start)
    } else {
        first_selectable_from(selectable, start + 1)
    }
}

/// The place the rotation moves to from `current`: the first selectable place
/// behind `current`, or else the first selectable place of all.
pub open spec fn next_after(selectable: Seq<bool>, current: int) -> Option<int> {
    match first_selectable_from(selectable, current + 1) {
        Some(i) => Some(i),
        None => first_selectable_from(selectable, 0),
    }
}

/// The place the rotation starts from: that of the current default device,
/// or the front of the list when that device is not in it.
pub open spec fn current_place(devices: Seq<AudioDevice>, current: Seq<char>) -> int {
    match position(ids(devices), current) {
        Some(i) => i,
        None => 0,
    }
}

/// The place of the device that becomes the default after `current`.
pub open spec fn rotation_target(devices: Seq<AudioDevice>, current: Seq<char>) -> Option<int> {
    next_after(flags(devices), current_place(devices, current))
}

/// `first_selectable_from` finds the least selectable place from `start` on,
/// and finds none exactly when there is none.
pub proof fn lemma_first_selectable_from(selectable: Seq<bool>, start: int)
    requires
        0 <= start,
    ensures
        match first_selectable_from(selectable, start) {
            Some(i) => {
                &&& start <= i < selectable.len()
                &&& selectable[i]
                &&& forall|j: int| start <= j < i ==> !selectable[j]
            },
            None => forall|j: int| start <= j < selectable.len() ==> !selectable[j],
        },
    decreases selectable.len() - start,
{
    if start < selectable.len() && !selectable[start] {
        lemma_first_selectable_from(selectable, start + 1);
    }
}

/// The rotation has a target exactly when some place is selectable, and the
/// target is a selectable place.
pub proof fn lemma_next_after(selectable: Seq<bool>, current: int)
    requires
        0 <= current,
    ensures
        next_after(selectable, current) is None <==> forall|j: int|
            0 <= j < selectable.len() ==> !selectable[j],
        match next_after(selectable, current) {
            Some(i) => 0 <= i < selectable.len() && selectable[i],
            None => true,
        },
{
    lemma_first_selectable_from(selectable, current + 1);
    lemma_first_selectable_from(selectable, 0);
}

/// The place of the first device whose identifier is `id`.
pub fn find_device(devices: &Vec<AudioDevice>, id: &str) -> (found: Option<usize>)
    ensures
        as_place(found) == position(ids(devices@), id@),
        match found {
            Some(i) => is_first_match(ids(devices@), id@, i as int),
            None => forall|j: int| 0 <= j < devices.len() ==> devices[j].id@ != id@,
        },
{
    let mut i: usize = 0;
    proof {
        lemma_position_from(ids(devices@), id@, 0);
    }
    while i < devices.len()
        invariant
            i <= devices.len(),
            forall|j: int| 0 <= j < i ==> devices[j].id@ != id@,
            position(ids(devices@), id@) == position_from(ids(devices@), id@, i as int),
        decreases devices.len() - i,
    {
        if same_text(devices[i].id.as_str(), id) {
            assert(ids(devices@)[i as int] == id@);
            proof {
                lemma_position(ids(devices@), id@);
            }
            return Some(i);
        }
        assert(ids(devices@)[i as int] != id@);
        i = i + 1;
    }
    proof {
        lemma_position(ids(devices@), id@);
        assert forall|j: int| 0 <= j < devices.len() implies devices[j].id@ != id@ by {}
    }
    None
}

/// The least selectable place at or after `start`.
fn first_selectable(devices: &Vec<AudioDevice>, start: usize) -> (found: Option<usize>)
    ensures
        as_place(found) == first_selectable_from(flags(devices@), start as int),
{
    let mut i: usize = start;
    while i < devices.len()
        invariant
            start <= i,
            first_selectable_from(flags(devices@), start as int) == first_selectable_from(
                flags(devices@),
                i as int,
            ),
        decreases devices.len() - i,
    {
        if devices[i].selectable {
            return Some(i);
        }
        i = i + 1;
    }
    None
}

/// The place the rotation moves to from the place `current`.
///
/// `None` means that no device is selectable; the caller then leaves the
/// default device as it is.
pub fn next_index(devices: &Vec<AudioDevice>, current: usize) -> (target: Option<usize>)
    ensures
        as_place(target) == next_after(flags(devices@), current as int),
        target is None <==> forall|j: int| 0 <= j < devices.len() ==> !devices[j].selectable,
        match target {
            Some(i) => i < devices.len() && devices[i as int].selectable,
            None => true,
        },
{
    proof {
        lemma_next_after(flags(devices@), current as int);
        assert(flags(devices@).len() == devices.len());
        assert forall|j: int| 0 <= j < devices.len() implies #[trigger] flags(devices@)[j]
            == devices[j].selectable by {}
        if forall|j: int| 0 <= j < devices.len() ==> !devices[j].selectable {
            assert forall|j: int| 0 <= j < flags(devices@).len() implies !flags(devices@)[j] by {
                assert(!devices[j].selectable);
            }
        }
        if forall|j: int| 0 <= j < flags(devices@).len() ==> !flags(devices@)[j] {
            assert forall|j: int| 0 <= j < devices.len() implies !devices[j].selectable by {
                assert(!flags(devices@)[j]);
            }
        }
    }
    let behind: Option<usize> = if current < devices.len() {
        first_selectable(devices, current + 1)
    } else {
        None
    };
    match behind {
        Some(i) => Some(i),
        None => first_selectable(devices, 0),
    }
}

/// The place of the device that becomes the default after the device whose
/// identifier is `current`.
///
/// A `current` that is not in the list counts as the front of the list.
/// `None` means that no device is selectable.
pub fn next_device(devices: &Vec<AudioDevice>, current: &str) -> (target: Option<usize>)
    ensures
        as_place(target) == rotation_target(devices@, current@),
        target is None <==> forall|j: int| 0 <= j < devices.len() ==> !devices[j].selectable,
        match target {
            Some(i) => i < devices.len() && devices[i as int].selectable,
            None => true,
        },
{
    let place: usize = match find_device(devices, current) {
        Some(i) => i,
        None => 0,
    };
    next_index(devices, place)
}

/// Flips the rotation flag of the first device whose identifier is `target`
/// and returns its place. Where no device has that identifier nothing
/// changes and `None` is returned.
pub fn toggle_selectable(devices: &mut Vec<AudioDevice>, target: &str) -> (toggled: Option<usize>)
    ensures
        as_place(toggled) == position(ids(old(devices)@), target@),
        match toggled {
            Some(i) => {
                &&& i < old(devices).len()
                &&& final(devices)@ == old(devices)@.update(
                    i as int,
                    with_flag(old(devices)@[i as int], !old(devices)@[i as int].selectable),
                )
            },
            None => final(devices)@ == old(devices)@,
        },
{
    match find_device(devices, target) {
        Some(i) => {
            let flag: bool = devices[i].selectable;
            devices[i].selectable = !flag;
            assert(devices@ =~= old(devices)@.update(
                i as int,
                with_flag(old(devices)@[i as int], !old(devices)@[i as int].selectable),
            ));
            Some(i)
        },
        None => None,
    }
}

} // verus!
