//! The requests that wait for an answer of a child process, by the id of the request.
use vstd::prelude::*;
use vstd::string::*;
use crate::json;
use crate::json::{Json, JsonTree};
use crate::text;

verus! {

/// The requests that wait for an answer. Under each id waits at most one.
pub struct Pending<T> {
    entries: Vec<(Json, T)>,
}

/// The entry `i` waits under an id equal to `id`, and none before it does.
pub open spec fn waits_at<T>(entries: Seq<(JsonTree, T)>, id: JsonTree, i: int) -> bool {
    &&& 0 <= i < entries.len()
    &&& json::json_equal(entries[i].0, id)
    &&& forall|j: int| 0 <= j < i ==> !json::json_equal((#[trigger] entries[j]).0, id)
}

/// Nothing waits under an id equal to `id`.
pub open spec fn waits_nowhere<T>(entries: Seq<(JsonTree, T)>, id: JsonTree) -> bool {
    forall|j: int| 0 <= j < entries.len() ==> !json::json_equal((#[trigger] entries[j]).0, id)
}

/// The entries without those that wait under an id equal to `id`.
pub open spec fn without_id<T>(entries: Seq<(JsonTree, T)>, id: JsonTree) -> Seq<(JsonTree, T)> {
    entries.filter(|entry: (JsonTree, T)| !json::json_equal(entry.0, id))
}

/// No two ids are equal.
pub open spec fn distinct_ids<T>(entries: Seq<(JsonTree, T)>) -> bool {
    forall|i: int, j: int|
        0 <= i < j < entries.len() ==> !json::json_equal(
            (#[trigger] entries[i]).0,
            (#[trigger] entries[j]).0,
        )
}

/// What each of the ids says, with what waits under it.
spec fn entry_trees<T>(entries: Seq<(Json, T)>) -> Seq<(JsonTree, T)> {
    Seq::new(entries.len(), |i: int| (entries[i].0.tree(), entries[i].1))
}

impl<T> Pending<T> {
    /// No two ids are equal.
    #[verifier::type_invariant]
    spec fn distinct(self) -> bool {
        distinct_ids(entry_trees(self.entries@))
    }

    /// The ids with what waits under them, in the order in which they came in.
    pub closed spec fn view(self) -> Seq<(JsonTree, T)> {
        entry_trees(self.entries@)
    }

    /// Nothing waits.
    pub fn new() -> (r: Pending<T>)
        ensures
            r@ == Seq::<(JsonTree, T)>::empty(),
    {
        let entries: Vec<(Json, T)> = Vec::new();
        assert(entry_trees(entries@) =~= Seq::empty());
        Pending { entries }
    }

    /// Lets `waiter` wait under `id`, in place of what waited under an equal id. The id equals
    /// itself, so that an answer under it finds the waiter.
    pub fn insert(&mut self, id: Json, waiter: T)
        ensures
            final(self)@ == without_id(old(self)@, id.tree()).push((id.tree(), waiter)),
            distinct_ids(final(self)@),
            json::json_equal(id.tree(), id.tree()),
            waits_at(final(self)@, id.tree(), final(self)@.len() - 1),
    {
        let _ = id.equals(&id);
        let ghost all = self@;
        let ghost keep = |entry: (JsonTree, T)| !json::json_equal(entry.0, id.tree());
        proof {
            use_type_invariant(&*self);
        }
        let mut rest: Vec<(Json, T)> = Vec::new();
        std::mem::swap(&mut rest, &mut self.entries);
        let mut i: usize = 0;
        let ghost mut seen: int = 0;
        proof {
            reveal(Seq::filter);
            assert(all.take(0) =~= Seq::empty());
            assert(entry_trees(rest@).take(0) =~= Seq::empty());
            assert(all.skip(0) =~= all);
        }
        while i < rest.len()
            invariant
                0 <= seen <= all.len(),
                i <= rest@.len(),
                rest@.len() - i == all.len() - seen,
                keep == (|entry: (JsonTree, T)| !json::json_equal(entry.0, id.tree())),
                entry_trees(rest@).take(i as int) == all.take(seen).filter(keep),
                entry_trees(rest@).skip(i as int) == all.skip(seen),
            decreases rest@.len() - i,
        {
            let ghost before = rest@;
            proof {
                reveal(Seq::filter);
                assert(all.take(seen + 1).drop_last() =~= all.take(seen));
                assert(all.take(seen + 1).last() == all[seen]);
                assert(all.skip(seen)[0] == all[seen]);
                assert(entry_trees(before).skip(i as int)[0] == entry_trees(before)[i as int]);
                assert(all.skip(seen).skip(1) =~= all.skip(seen + 1));
            }
            if rest[i].0.equals(&id) {
                rest.remove(i);
                assert(entry_trees(rest@).take(i as int) =~= entry_trees(before).take(i as int));
                assert(entry_trees(rest@).skip(i as int) =~= entry_trees(before).skip(
                    i as int,
                ).skip(1));
            } else {
                i += 1;
                assert(entry_trees(rest@).take(i as int) =~= entry_trees(before).take(
                    i - 1,
                ).push(entry_trees(before)[i - 1]));
                assert(entry_trees(rest@).skip(i as int) =~= entry_trees(before).skip(
                    i - 1,
                ).skip(1));
            }
            proof {
                seen = seen + 1;
            }
        }
        proof {
            assert(all.take(seen) =~= all);
            assert(entry_trees(rest@).take(i as int) =~= entry_trees(rest@));
            lemma_without_id(all, id.tree());
        }
        let ghost kept = rest@;
        rest.push((id, waiter));
        assert(entry_trees(rest@) =~= entry_trees(kept).push((id.tree(), waiter)));
        proof {
            law_answer_reaches_request(all, id.tree(), waiter);
        }
        self.entries = rest;
    }

    /// Ends the waiting under `id`: what waited under an equal id is taken out.
    pub fn remove(&mut self, id: &Json) -> (r: Option<T>)
        ensures
            match r {
                Some(waiter) => exists|i: int| #[trigger]
                    waits_at(old(self)@, id.tree(), i) && waiter == old(self)@[i].1 && final(self)@
                        == old(self)@.remove(i),
                None => waits_nowhere(old(self)@, id.tree()) && final(self)@ == old(self)@,
            },
    {
        let ghost all = self@;
        proof {
            use_type_invariant(&*self);
        }
        let mut i: usize = 0;
        while i < self.entries.len()
            invariant
                i <= self.entries@.len(),
                all == self@,
                all == old(self)@,
                distinct_ids(all),
                forall|j: int| 0 <= j < i ==> !json::json_equal((#[trigger] all[j]).0, id.tree()),
            decreases self.entries@.len() - i,
        {
            if self.entries[i].0.equals(id) {
                let mut rest: Vec<(Json, T)> = Vec::new();
                assert(entry_trees(rest@) =~= Seq::empty());
                std::mem::swap(&mut rest, &mut self.entries);
                let ghost before = rest@;
                let taken = rest.remove(i);
                assert(entry_trees(rest@) =~= entry_trees(before).remove(i as int));
                assert(waits_at(all, id.tree(), i as int));
                self.entries = rest;
                return Some(taken.1);
            }
            i += 1;
        }
        None
    }
}

/// What is left without an id keeps its order, and holds no id equal to it.
proof fn lemma_without_id<T>(entries: Seq<(JsonTree, T)>, id: JsonTree)
    requires
        distinct_ids(entries),
    ensures
        distinct_ids(without_id(entries, id)),
        waits_nowhere(without_id(entries, id), id),
        forall|i: int|
            0 <= i < without_id(entries, id).len() ==> entries.contains(
                #[trigger] without_id(entries, id)[i],
            ),
    decreases entries.len(),
{
    reveal(Seq::filter);
    if entries.len() > 0 {
        let before = entries.drop_last();
        let kept = without_id(before, id);
        let all = without_id(entries, id);
        assert(distinct_ids(before)) by {
            assert forall|i: int, j: int| 0 <= i < j < before.len() implies !json::json_equal(
                (#[trigger] before[i]).0,
                (#[trigger] before[j]).0,
            ) by {
                assert(!json::json_equal(entries[i].0, entries[j].0));
            }
        }
        lemma_without_id(before, id);
        assert forall|i: int| 0 <= i < all.len() implies entries.contains(#[trigger] all[i]) by {
            if i < kept.len() {
                assert(kept[i] == all[i]);
                let k = choose|k: int| 0 <= k < before.len() && before[k] == kept[i];
                assert(entries[k] == all[i]);
            } else {
                assert(entries[entries.len() - 1] == all[i]);
            }
        }
        assert forall|i: int, j: int| 0 <= i < j < all.len() implies !json::json_equal(
            (#[trigger] all[i]).0,
            (#[trigger] all[j]).0,
        ) by {
            assert(all[i] == kept[i]);
            if j < kept.len() {
                assert(all[j] == kept[j]);
            } else {
                let k = choose|k: int| 0 <= k < before.len() && before[k] == kept[i];
                assert(entries[k] == all[i]);
                assert(entries[entries.len() - 1] == all[j]);
            }
        }
    }
}

/// An answer reaches the request that was last put to wait under its id, and that request only.
/// An id equals itself, as `Pending::insert` ensures.
pub proof fn law_answer_reaches_request<T>(entries: Seq<(JsonTree, T)>, id: JsonTree, waiter: T)
    requires
        distinct_ids(entries),
        json::json_equal(id, id),
    ensures
        ({
            let waiting = without_id(entries, id).push((id, waiter));
            let last = without_id(entries, id).len() as int;
            &&& waits_at(waiting, id, last)
            &&& forall|i: int| #[trigger] waits_at(waiting, id, i) ==> i == last
            &&& waiting[last].1 == waiter
            &&& waiting.remove(last) == without_id(entries, id)
        }),
{
    lemma_without_id(entries, id);
    let kept = without_id(entries, id);
    let waiting = kept.push((id, waiter));
    let last = kept.len() as int;
    assert forall|j: int| 0 <= j < last implies !json::json_equal((#[trigger] waiting[j]).0, id) by {
        assert(kept[j] == waiting[j]);
    }
    assert forall|i: int| #[trigger] waits_at(waiting, id, i) implies i == last by {
        if i < last {
            assert(!json::json_equal(waiting[i].0, id));
        }
    }
    assert(waiting.remove(last) =~= kept);
}

/// Taking out what waits under an id leaves every other request waiting, and nothing under an equal
/// id.
pub proof fn law_others_keep_waiting<T>(
    entries: Seq<(JsonTree, T)>,
    id: JsonTree,
    entry: (JsonTree, T),
)
    ensures
        without_id(entries, id).contains(entry) <==> entries.contains(entry) && !json::json_equal(
            entry.0,
            id,
        ),
    decreases entries.len(),
{
    reveal(Seq::filter);
    let left = without_id(entries, id);
    if entries.len() > 0 {
        let before = entries.drop_last();
        let rest = without_id(before, id);
        law_others_keep_waiting(before, id, entry);
        if left.contains(entry) {
            let i = choose|i: int| 0 <= i < left.len() && left[i] == entry;
            if i < rest.len() {
                assert(rest[i] == entry);
                let j = choose|j: int| 0 <= j < before.len() && before[j] == entry;
                assert(entries[j] == entry);
            } else {
                assert(entries[entries.len() - 1] == entry);
            }
        }
        if entries.contains(entry) && !json::json_equal(entry.0, id) {
            if entries.last() == entry {
                assert(left[left.len() - 1] == entry);
            } else {
                let j = choose|j: int| 0 <= j < entries.len() && entries[j] == entry;
                assert(before[j] == entry);
                let i = choose|i: int| 0 <= i < rest.len() && rest[i] == entry;
                assert(left[i] == entry);
            }
        }
    }
}

/// Where something waits under an equal id there is a first such entry, and where there is one
/// something waits.
pub proof fn law_waits_somewhere<T>(entries: Seq<(JsonTree, T)>, id: JsonTree, i: int)
    ensures
        0 <= i < entries.len() && json::json_equal(entries[i].0, id) ==> !waits_nowhere(entries, id)
            && exists|k: int| #[trigger] waits_at(entries, id, k) && k <= i,
        waits_at(entries, id, i) ==> 0 <= i < entries.len() && json::json_equal(entries[i].0, id)
            && !waits_nowhere(entries, id),
        waits_nowhere(entries, id) ==> !waits_at(entries, id, i),
    decreases i,
{
    if 0 <= i < entries.len() && json::json_equal(entries[i].0, id) {
        if exists|j: int| 0 <= j < i && json::json_equal((#[trigger] entries[j]).0, id) {
            let j = choose|j: int| 0 <= j < i && json::json_equal((#[trigger] entries[j]).0, id);
            law_waits_somewhere(entries, id, j);
            let k = choose|k: int| #[trigger] waits_at(entries, id, k) && k <= j;
            assert(waits_at(entries, id, k) && k <= i);
        } else {
            assert(waits_at(entries, id, i));
        }
    }
}

} // verus!
