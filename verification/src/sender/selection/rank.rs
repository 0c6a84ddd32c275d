//! Ranking links by integer keys.

use vstd::prelude::*;

verus! {

/// Whether `i` is the first among the links with the largest key, where that is
/// above `floor`. A link without a key takes no part.
pub open spec fn is_first_max(keys: Seq<Option<i64>>, floor: i64, i: int) -> bool {
    &&& 0 <= i < keys.len()
    &&& keys[i] is Some
    &&& keys[i]->0 > floor
    &&& forall|j: int|
        0 <= j < keys.len() && (#[trigger] keys[j]) is Some ==> keys[j]->0 <= keys[i]->0
    &&& forall|j: int| 0 <= j < i && (#[trigger] keys[j]) is Some ==> keys[j]->0 < keys[i]->0
}

/// The first among the links with the largest key, where that is above `floor`.
pub open spec fn first_max(keys: Seq<Option<i64>>, floor: i64) -> Option<usize> {
    if exists|i: int| is_first_max(keys, floor, i) {
        Some((choose|i: int| is_first_max(keys, floor, i)) as usize)
    } else {
        None
    }
}

/// The keys without that of one link.
pub open spec fn without(keys: Seq<Option<i64>>, idx: Option<usize>) -> Seq<Option<i64>> {
    match idx {
        Some(i) => keys.update(i as int, None),
        None => keys,
    }
}

/// The runner-up: the first among the largest keys once the best link is left
/// out.
pub open spec fn second_max(keys: Seq<Option<i64>>, floor: i64) -> Option<usize> {
    first_max(without(keys, first_max(keys, floor)), floor)
}

/// At most one link is the first among the largest.
pub proof fn first_max_is_unique(keys: Seq<Option<i64>>, floor: i64, i: int, j: int)
    requires
        is_first_max(keys, floor, i),
        is_first_max(keys, floor, j),
    ensures
        i == j,
{
    assert(keys[i] is Some && keys[j] is Some);
}

/// Where some link's key is above `floor`, one is the first among the largest.
pub proof fn first_max_exists(keys: Seq<Option<i64>>, floor: i64, k: int)
    requires
        0 <= k < keys.len(),
        keys[k] is Some,
        keys[k]->0 > floor,
    ensures
        exists|i: int| is_first_max(keys, floor, i),
    decreases keys.len(),
{
    let front = keys.drop_last();
    let last = keys.last();
    if k < front.len() {
        first_max_exists(front, floor, k);
    }
    if exists|i: int| is_first_max(front, floor, i) {
        let i = choose|i: int| is_first_max(front, floor, i);
        if last is Some && last->0 > front[i]->0 {
            assert forall|j: int| 0 <= j < keys.len() && (#[trigger] keys[j]) is Some implies keys[j]->0
                <= last->0 && (j < keys.len() - 1 ==> keys[j]->0 < last->0) by {
                if j < front.len() {
                    assert(front[j] is Some);
                }
            }
            assert(is_first_max(keys, floor, keys.len() - 1));
        } else {
            assert forall|j: int| 0 <= j < keys.len() && (#[trigger] keys[j]) is Some implies keys[j]->0
                <= keys[i]->0 && (j < i ==> keys[j]->0 < keys[i]->0) by {
                if j < front.len() {
                    assert(front[j] is Some);
                }
            }
            assert(is_first_max(keys, floor, i));
        }
    } else {
        assert forall|j: int| 0 <= j < front.len() && (#[trigger] keys[j]) is Some implies keys[j]->0
            <= floor by {
            assert(front[j] is Some);
            if front[j]->0 > floor {
                first_max_exists(front, floor, j);
            }
        }
        assert(k == keys.len() - 1);
        assert(is_first_max(keys, floor, k));
    }
}

proof fn first_max_is(keys: Seq<Option<i64>>, floor: i64, i: int)
    requires
        is_first_max(keys, floor, i),
        keys.len() <= usize::MAX,
    ensures
        first_max(keys, floor) == Some(i as usize),
{
    let c = choose|c: int| is_first_max(keys, floor, c);
    first_max_is_unique(keys, floor, i, c);
}

proof fn first_max_is_none(keys: Seq<Option<i64>>, floor: i64)
    requires
        forall|j: int| 0 <= j < keys.len() && (#[trigger] keys[j]) is Some ==> keys[j]->0 <= floor,
    ensures
        first_max(keys, floor) is None,
{
    if exists|i: int| is_first_max(keys, floor, i) {
        let c = choose|c: int| is_first_max(keys, floor, c);
        assert(keys[c] is Some);
    }
}

/// What is chosen is in the ranking, its key above `floor` and no key larger.
pub proof fn first_max_facts(keys: Seq<Option<i64>>, floor: i64)
    requires
        keys.len() <= usize::MAX,
    ensures
        match first_max(keys, floor) {
            Some(i) => is_first_max(keys, floor, i as int),
            None => forall|j: int|
                0 <= j < keys.len() && (#[trigger] keys[j]) is Some ==> keys[j]->0 <= floor,
        },
{
    if exists|i: int| is_first_max(keys, floor, i) {
        let c = choose|c: int| is_first_max(keys, floor, c);
        assert(is_first_max(keys, floor, c));
    } else {
        assert forall|j: int| 0 <= j < keys.len() && (#[trigger] keys[j]) is Some implies keys[j]->0
            <= floor by {
            if keys[j]->0 > floor {
                first_max_exists(keys, floor, j);
            }
        }
    }
}

/// The best link.
pub fn best_of(keys: &[Option<i64>], floor: i64) -> (best: Option<usize>)
    ensures
        best == first_max(keys@, floor),
        match best {
            Some(i) => is_first_max(keys@, floor, i as int),
            None => forall|j: int|
                0 <= j < keys@.len() && (#[trigger] keys@[j]) is Some ==> keys@[j]->0 <= floor,
        },
{
    let mut best: Option<usize> = None;
    let mut top: i64 = floor;
    let mut i: usize = 0;
    while i < keys.len()
        invariant
            i <= keys@.len(),
            top >= floor,
            forall|j: int| 0 <= j < i && (#[trigger] keys@[j]) is Some ==> keys@[j]->0 <= top,
            match best {
                Some(b) => {
                    &&& b < i
                    &&& keys@[b as int] == Some(top)
                    &&& top > floor
                    &&& forall|j: int|
                        0 <= j < b && (#[trigger] keys@[j]) is Some ==> keys@[j]->0 < top
                },
                None => top == floor,
            },
        decreases keys@.len() - i,
    {
        if let Some(key) = keys[i] {
            if key > top {
                best = Some(i);
                top = key;
            }
        }
        i += 1;
    }
    proof {
        match best {
            Some(b) => {
                assert(keys@[b as int]->0 == top);
                assert(is_first_max(keys@, floor, b as int));
                first_max_is(keys@, floor, b as int);
            },
            None => {
                first_max_is_none(keys@, floor);
            },
        }
    }
    best
}

/// The best link and the runner-up.
pub fn best_two_of(keys: &Vec<Option<i64>>, floor: i64) -> (ranked: (Option<usize>, Option<usize>))
    ensures
        ranked.0 == first_max(keys@, floor),
        ranked.1 == second_max(keys@, floor),
        match ranked.0 {
            Some(i) => is_first_max(keys@, floor, i as int),
            None => forall|j: int|
                0 <= j < keys@.len() && (#[trigger] keys@[j]) is Some ==> keys@[j]->0 <= floor,
        },
        match ranked.1 {
            Some(i) => is_first_max(without(keys@, ranked.0), floor, i as int),
            None => true,
        },
{
    let best: Option<usize> = best_of(keys.as_slice(), floor);
    let mut rest: Vec<Option<i64>> = keys.clone();
    assert(rest@ =~= keys@);
    if let Some(b) = best {
        rest.set(b, None);
    }
    let second: Option<usize> = best_of(rest.as_slice(), floor);
    (best, second)
}

} // verus!
