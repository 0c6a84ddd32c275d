//! Which links have a reader.

use vstd::prelude::*;

verus! {

/// What makes the readers match the links.
pub struct ReaderChanges {
    /// Links that need a reader.
    pub start: Vec<u64>,
    /// Readers whose link is gone.
    pub stop: Vec<u64>,
}

/// The ids among the first `n` of `ids` that are not in `other` and do not occur
/// earlier, in order.
pub open spec fn newcomers(ids: Seq<u64>, other: Seq<u64>, n: nat) -> Seq<u64>
    decreases n,
{
    if n == 0 {
        Seq::empty()
    } else {
        let before = newcomers(ids, other, (n - 1) as nat);
        if other.contains(ids[n - 1]) || ids.take(n - 1).contains(ids[n - 1]) {
            before
        } else {
            before.push(ids[n - 1])
        }
    }
}

fn occurs(ids: &[u64], n: usize, id: u64) -> (r: bool)
    requires
        n <= ids@.len(),
    ensures
        r == ids@.take(n as int).contains(id),
{
    let ghost first = ids@.take(n as int);
    let mut i: usize = 0;
    while i < n
        invariant
            i <= n <= ids@.len(),
            first == ids@.take(n as int),
            forall|k: int| 0 <= k < i ==> #[trigger] first[k] != id,
        decreases n - i,
    {
        if ids[i] == id {
            assert(first[i as int] == id);
            return true;
        }
        i += 1;
    }
    false
}

fn list_newcomers(ids: &[u64], other: &[u64]) -> (list: Vec<u64>)
    ensures
        list@ == newcomers(ids@, other@, ids@.len()),
{
    let mut list: Vec<u64> = Vec::new();
    let mut i: usize = 0;
    assert(other@.take(other@.len() as int) =~= other@);
    while i < ids.len()
        invariant
            i <= ids@.len(),
            other@.take(other@.len() as int) == other@,
            list@ == newcomers(ids@, other@, i as nat),
        decreases ids@.len() - i,
    {
        if !occurs(other, other.len(), ids[i]) && !occurs(ids, i, ids[i]) {
            list.push(ids[i]);
        }
        i += 1;
    }
    list
}

/// Which readers are to be started and stopped so that every link has one and
/// nothing else does.
pub fn plan_readers(links: &[u64], readers: &[u64]) -> (changes: ReaderChanges)
    ensures
        changes.start@ == newcomers(links@, readers@, links@.len()),
        changes.stop@ == newcomers(readers@, links@, readers@.len()),
{
    ReaderChanges { start: list_newcomers(links, readers), stop: list_newcomers(readers, links) }
}

proof fn newcomers_are_all(ids: Seq<u64>, other: Seq<u64>, n: nat, id: u64)
    requires
        n <= ids.len(),
    ensures
        newcomers(ids, other, n).contains(id) <==> ids.take(n as int).contains(id)
            && !other.contains(id),
    decreases n,
{
    if n > 0 {
        let before = newcomers(ids, other, (n - 1) as nat);
        let last = ids[n - 1];
        newcomers_are_all(ids, other, (n - 1) as nat, id);
        let now = ids.take(n as int);
        let earlier = ids.take(n - 1);
        assert(now =~= earlier.push(last));
        assert(now.contains(id) <==> earlier.contains(id) || id == last) by {
            if earlier.contains(id) {
                let k = choose|k: int| 0 <= k < earlier.len() && earlier[k] == id;
                assert(now[k] == id);
            }
            assert(now[n - 1] == last);
        }
        assert(before.push(last).contains(id) <==> before.contains(id) || id == last) by {
            if before.contains(id) {
                let k = choose|k: int| 0 <= k < before.len() && before[k] == id;
                assert(before.push(last)[k] == id);
            }
            assert(before.push(last)[before.len() as int] == last);
        }
        if id == last && !other.contains(last) && ids.take(n - 1).contains(last) {
            newcomers_are_all(ids, other, (n - 1) as nat, last);
        }
    }
}

/// Once the changes are made, exactly the links have readers.
pub proof fn readers_match_links(links: Seq<u64>, readers: Seq<u64>, id: u64)
    ensures
        ((readers.contains(id) && !newcomers(readers, links, readers.len()).contains(id))
            || newcomers(links, readers, links.len()).contains(id)) <==> links.contains(id),
{
    newcomers_are_all(links, readers, links.len(), id);
    newcomers_are_all(readers, links, readers.len(), id);
    assert(links.take(links.len() as int) =~= links);
    assert(readers.take(readers.len() as int) =~= readers);
}

/// No reader is started or stopped twice, and none is started that runs or stopped that is
/// needed.
pub proof fn readers_change_once(links: Seq<u64>, readers: Seq<u64>, n: nat)
    requires
        n <= links.len(),
    ensures
        newcomers(links, readers, n).no_duplicates(),
        forall|k: int|
            0 <= k < newcomers(links, readers, n).len() ==> !readers.contains(
                #[trigger] newcomers(links, readers, n)[k],
            ) && links.contains(newcomers(links, readers, n)[k]),
    decreases n,
{
    if n > 0 {
        let before = newcomers(links, readers, (n - 1) as nat);
        readers_change_once(links, readers, (n - 1) as nat);
        newcomers_are_all(links, readers, (n - 1) as nat, links[n - 1]);
        assert(links[n - 1] == links[n - 1] && links.contains(links[n - 1]));
    }
}

} // verus!
