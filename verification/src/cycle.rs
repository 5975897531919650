//! The rotation is a cycle over the selectable devices.

use vstd::prelude::*;
use crate::device::{distinct_ids, flags, lemma_position_of_own_id, AudioDevice};
use crate::rotation::{
    current_place, first_selectable_from, lemma_first_selectable_from, lemma_next_after,
    next_after, rotation_target,
};

verus! {

/// The selectable places of a list, in increasing order.
pub open spec fn selectable_places(selectable: Seq<bool>) -> Seq<int>
    decreases selectable.len(),
{
    if selectable.len() == 0 {
        Seq::empty()
    } else {
        let rest = selectable_places(selectable.drop_last());
        if selectable.last() {
            rest.push(selectable.len() - 1)
        } else {
            rest
        }
    }
}

/// The place reached from `start` by `n` moves of the rotation.
pub open spec fn after_moves(selectable: Seq<bool>, start: int, n: nat) -> int
    decreases n,
{
    if n == 0 {
        start
    } else {
        let before = after_moves(selectable, start, (n - 1) as nat);
        match next_after(selectable, before) {
            Some(i) => i,
            None => before,
        }
    }
}

/// The place reached from `start` by `n` calls of the rotation, each made
/// with the identifier of the device that the call before it returned.
pub open spec fn after_calls(devices: Seq<AudioDevice>, start: int, n: nat) -> int
    decreases n,
{
    if n == 0 {
        start
    } else {
        let before = after_calls(devices, start, (n - 1) as nat);
        match rotation_target(devices, devices[before].id@) {
            Some(i) => i,
            None => before,
        }
    }
}

/// `selectable_places` lists exactly the selectable places, each once, in
/// increasing order.
pub proof fn lemma_selectable_places(selectable: Seq<bool>)
    ensures
        forall|j: int|
            0 <= j < selectable_places(selectable).len() ==> {
                &&& 0 <= #[trigger] selectable_places(selectable)[j] < selectable.len()
                &&& selectable[selectable_places(selectable)[j]]
            },
        forall|a: int, b: int|
            0 <= a < b < selectable_places(selectable).len() ==> #[trigger] selectable_places(
                selectable,
            )[a] < #[trigger] selectable_places(selectable)[b],
        forall|i: int|
            0 <= i < selectable.len() && #[trigger] selectable[i] ==> exists|j: int|
                0 <= j < selectable_places(selectable).len() && #[trigger] selectable_places(
                    selectable,
                )[j] == i,
    decreases selectable.len(),
{
    if selectable.len() > 0 {
        let front = selectable.drop_last();
        let rest = selectable_places(front);
        let all = selectable_places(selectable);
        lemma_selectable_places(front);
        assert forall|j: int| 0 <= j < all.len() implies {
            &&& 0 <= #[trigger] all[j] < selectable.len()
            &&& selectable[all[j]]
        } by {
            if j < rest.len() {
                assert(all[j] == rest[j]);
                assert(front[rest[j]] == selectable[rest[j]]);
            }
        }
        assert forall|a: int, b: int| 0 <= a < b < all.len() implies #[trigger] all[a]
            < #[trigger] all[b] by {
            assert(all[a] == rest[a]);
            if b < rest.len() {
                assert(all[b] == rest[b]);
            }
        }
        assert forall|i: int| 0 <= i < selectable.len() && #[trigger] selectable[i] implies exists|
            j: int,
        |
            0 <= j < all.len() && #[trigger] all[j] == i by {
            if i < front.len() {
                assert(front[i]);
                let j = choose|j: int| 0 <= j < rest.len() && #[trigger] rest[j] == i;
                assert(all[j] == i);
            } else {
                assert(all[all.len() - 1] == i);
            }
        }
    }
}

/// A position counted on past the end of a cycle of `count` places, brought
/// back into the cycle: positions below `count` stay, later ones start over.
pub open spec fn wrap(j: int, count: int) -> int {
    if j < count {
        j
    } else {
        j - count
    }
}

/// From the `j`-th selectable place the rotation moves to the next one, and
/// from the last one to the first.
pub proof fn lemma_next_selectable_place(selectable: Seq<bool>, j: int)
    requires
        0 <= j < selectable_places(selectable).len(),
    ensures
        next_after(selectable, selectable_places(selectable)[j]) == Some(
            selectable_places(selectable)[wrap(j + 1, selectable_places(selectable).len() as int)],
        ),
{
    let places = selectable_places(selectable);
    let count = places.len() as int;
    let here = places[j];
    lemma_selectable_places(selectable);
    lemma_first_selectable_from(selectable, here + 1);
    lemma_first_selectable_from(selectable, 0);
    if j + 1 < count {
        let there = places[j + 1];
        assert(here < there);
        assert(selectable[there]);
        let i = first_selectable_from(selectable, here + 1)->0;
        assert(selectable[i]);
        let m = choose|m: int| 0 <= m < places.len() && #[trigger] places[m] == i;
        if m <= j {
            if m < j {
                assert(places[m] < places[j]);
            }
        }
        if m > j + 1 {
            assert(places[j + 1] < places[m]);
        }
    } else {
        match first_selectable_from(selectable, here + 1) {
            Some(i) => {
                assert(selectable[i]);
                let m = choose|m: int| 0 <= m < places.len() && #[trigger] places[m] == i;
                if m < j {
                    assert(places[m] < places[j]);
                }
            },
            None => {},
        }
        let first = places[0];
        assert(selectable[first]);
        let i = first_selectable_from(selectable, 0)->0;
        assert(selectable[i]);
        let m = choose|m: int| 0 <= m < places.len() && #[trigger] places[m] == i;
        if 0 < m {
            assert(places[0] < places[m]);
        }
    }
}

/// From the `j`-th selectable place, `n` moves lead to the selectable place
/// that stands `n` further on in the cycle.
pub proof fn lemma_moves_from_selectable_place(selectable: Seq<bool>, j: int, n: nat)
    requires
        0 <= j < selectable_places(selectable).len(),
        n <= selectable_places(selectable).len(),
    ensures
        after_moves(selectable, selectable_places(selectable)[j], n) == selectable_places(
            selectable,
        )[wrap(j + n, selectable_places(selectable).len() as int)],
    decreases n,
{
    if n > 0 {
        let count = selectable_places(selectable).len() as int;
        lemma_moves_from_selectable_place(selectable, j, (n - 1) as nat);
        lemma_next_selectable_place(selectable, wrap(j + n - 1, count));
    }
}

/// Starting from a selectable place, the rotation visits every selectable
/// place exactly once and is back at the start after as many moves as
/// there are selectable places.
pub proof fn lemma_moves_cycle(selectable: Seq<bool>, start: int)
    requires
        0 <= start < selectable.len(),
        selectable[start],
    ensures
        selectable_places(selectable).len() >= 1,
        after_moves(selectable, start, selectable_places(selectable).len()) == start,
        forall|n: nat|
            n < selectable_places(selectable).len() ==> {
                &&& 0 <= #[trigger] after_moves(selectable, start, n) < selectable.len()
                &&& selectable[after_moves(selectable, start, n)]
            },
        forall|m: nat, n: nat|
            m < n < selectable_places(selectable).len() ==> #[trigger] after_moves(
                selectable,
                start,
                m,
            ) != #[trigger] after_moves(selectable, start, n),
        forall|i: int|
            0 <= i < selectable.len() && #[trigger] selectable[i] ==> exists|n: nat|
                n < selectable_places(selectable).len() && #[trigger] after_moves(
                    selectable,
                    start,
                    n,
                ) == i,
{
    let places = selectable_places(selectable);
    let count = places.len() as int;
    lemma_selectable_places(selectable);
    let j = choose|j: int| 0 <= j < places.len() && #[trigger] places[j] == start;
    lemma_moves_from_selectable_place(selectable, j, count as nat);
    assert forall|n: nat| n < places.len() implies {
        &&& 0 <= #[trigger] after_moves(selectable, start, n) < selectable.len()
        &&& selectable[after_moves(selectable, start, n)]
    } by {
        lemma_moves_from_selectable_place(selectable, j, n);
        assert(after_moves(selectable, start, n) == places[wrap(j + n, count)]);
    }
    assert forall|m: nat, n: nat| m < n < places.len() implies #[trigger] after_moves(
        selectable,
        start,
        m,
    ) != #[trigger] after_moves(selectable, start, n) by {
        lemma_moves_from_selectable_place(selectable, j, m);
        lemma_moves_from_selectable_place(selectable, j, n);
        let a = wrap(j + m, count);
        let b = wrap(j + n, count);
        assert(a != b);
        if a < b {
            assert(places[a] < places[b]);
        } else {
            assert(places[b] < places[a]);
        }
    }
    assert forall|i: int| 0 <= i < selectable.len() && #[trigger] selectable[i] implies exists|
        n: nat,
    |
        n < places.len() && #[trigger] after_moves(selectable, start, n) == i by {
        let t = choose|t: int| 0 <= t < places.len() && #[trigger] places[t] == i;
        let n: nat = if t >= j {
            (t - j) as nat
        } else {
            (t - j + count) as nat
        };
        lemma_moves_from_selectable_place(selectable, j, n);
        assert(wrap(j + n, count) == t);
        assert(after_moves(selectable, start, n) == i);
    }
}

/// In a list without repeated identifiers, calling the rotation with the
/// identifier of the device it returned last is the same as moving on from
/// that device's place.
pub proof fn lemma_calls_are_moves(devices: Seq<AudioDevice>, start: int, n: nat)
    requires
        distinct_ids(devices),
        0 <= start < devices.len(),
    ensures
        after_calls(devices, start, n) == after_moves(flags(devices), start, n),
        0 <= after_calls(devices, start, n) < devices.len(),
    decreases n,
{
    if n > 0 {
        lemma_calls_are_moves(devices, start, (n - 1) as nat);
        let before = after_calls(devices, start, (n - 1) as nat);
        lemma_position_of_own_id(devices, before);
        assert(current_place(devices, devices[before].id@) == before);
        lemma_next_after(flags(devices), before);
    }
}

/// The cycle property of the rotation.
///
/// Take a device list in which no identifier repeats and a selectable device
/// in it. Call the rotation with that device's identifier, then with the
/// identifier of the device it returned, and so on. Then the calls return
/// selectable devices only, the first `k` devices on the way (the start
/// included) are pairwise different, every selectable device is among them,
/// and the `k`-th call returns the start again, where `k` is the number of
/// selectable devices.
pub proof fn lemma_rotation_cycle(devices: Seq<AudioDevice>, start: int)
    requires
        distinct_ids(devices),
        0 <= start < devices.len(),
        devices[start].selectable,
    ensures
        selectable_places(flags(devices)).len() >= 1,
        after_calls(devices, start, selectable_places(flags(devices)).len()) == start,
        forall|n: nat|
            n < selectable_places(flags(devices)).len() ==> {
                &&& 0 <= #[trigger] after_calls(devices, start, n) < devices.len()
                &&& devices[after_calls(devices, start, n)].selectable
            },
        forall|m: nat, n: nat|
            m < n < selectable_places(flags(devices)).len() ==> #[trigger] after_calls(
                devices,
                start,
                m,
            ) != #[trigger] after_calls(devices, start, n),
        forall|i: int|
            0 <= i < devices.len() && (#[trigger] devices[i]).selectable ==> exists|n: nat|
                n < selectable_places(flags(devices)).len() && #[trigger] after_calls(
                    devices,
                    start,
                    n,
                ) == i,
{
    let selectable = flags(devices);
    let count = selectable_places(selectable).len();
    assert(selectable[start]);
    lemma_moves_cycle(selectable, start);
    lemma_calls_are_moves(devices, start, count);
    assert forall|n: nat| n < count implies {
        &&& 0 <= #[trigger] after_calls(devices, start, n) < devices.len()
        &&& devices[after_calls(devices, start, n)].selectable
    } by {
        lemma_calls_are_moves(devices, start, n);
        assert(selectable[after_moves(selectable, start, n)]);
    }
    assert forall|m: nat, n: nat| m < n < count implies #[trigger] after_calls(devices, start, m)
        != #[trigger] after_calls(devices, start, n) by {
        lemma_calls_are_moves(devices, start, m);
        lemma_calls_are_moves(devices, start, n);
    }
    assert forall|i: int| 0 <= i < devices.len() && (#[trigger] devices[i]).selectable implies exists|
        n: nat,
    |
        n < count && #[trigger] after_calls(devices, start, n) == i by {
        assert(selectable[i]);
        let n = choose|n: nat| n < count && #[trigger] after_moves(selectable, start, n) == i;
        lemma_calls_are_moves(devices, start, n);
    }
}

} // verus!
