//! What belongs to each process.
use std::collections::HashMap;

use vstd::prelude::*;

use crate::sort::{sort, Ranked};

verus! {

/// The items of the process `pid`, in the order in which they come.
pub open spec fn of_pid<V>(items: Seq<(i32, V)>, pid: i32) -> Seq<V>
    decreases items.len(),
{
    if items.len() == 0 {
        seq![]
    } else {
        let rest = of_pid(items.drop_last(), pid);
        if items.last().0 == pid {
            rest.push(items.last().1)
        } else {
            rest
        }
    }
}

/// Whether `map` holds the items of each process that has some.
pub open spec fn is_grouped<T: DeepView>(
    items: Seq<(i32, <T as DeepView>::V)>,
    map: Map<i32, Vec<T>>,
) -> bool {
    forall|pid: i32|
        {
            &&& #[trigger] map.contains_key(pid) <==> of_pid(items, pid).len() > 0
            &&& map.contains_key(pid) ==> map[pid].deep_view() == of_pid(items, pid)
        }
}

/// Whether `map` holds the items of each process that has some, in order.
pub open spec fn is_sorted_grouping<T: Ranked>(
    items: Seq<(i32, <T as DeepView>::V)>,
    map: Map<i32, Vec<T>>,
) -> bool {
    forall|pid: i32|
        {
            &&& #[trigger] map.contains_key(pid) <==> of_pid(items, pid).len() > 0
            &&& map.contains_key(pid) ==> map[pid].deep_view() == crate::sort::stable_sorted::<T>(
                of_pid(items, pid),
            )
        }
}

/// The items of the processes come one after the other.
pub proof fn lemma_of_pid_push<V>(items: Seq<(i32, V)>, item: (i32, V), pid: i32)
    ensures
        of_pid(items.push(item), pid) == (if item.0 == pid {
            of_pid(items, pid).push(item.1)
        } else {
            of_pid(items, pid)
        }),
{
    assert(items.push(item).drop_last() =~= items);
}

/// The items of a process in two lists are those in the first and then those in the second.
pub proof fn lemma_of_pid_append<V>(a: Seq<(i32, V)>, b: Seq<(i32, V)>, pid: i32)
    ensures
        of_pid(a + b, pid) == of_pid(a, pid) + of_pid(b, pid),
    decreases b.len(),
{
    if b.len() == 0 {
        assert(a + b =~= a);
        assert(of_pid(a, pid) + of_pid(b, pid) =~= of_pid(a, pid));
    } else {
        assert((a + b).drop_last() =~= a + b.drop_last());
        lemma_of_pid_append(a, b.drop_last(), pid);
        assert(of_pid(a, pid) + of_pid(b.drop_last(), pid).push(b.last().1) =~= (of_pid(a, pid)
            + of_pid(b.drop_last(), pid)).push(b.last().1));
    }
}

/// The items of each process.
pub fn group<T: DeepView>(items: Vec<(i32, T)>) -> (r: HashMap<i32, Vec<T>>)
    ensures
        is_grouped::<T>(items.deep_view(), r@),
{
    broadcast use vstd::std_specs::hash::group_hash_axioms;

    let ghost all = items.deep_view();
    let mut map: HashMap<i32, Vec<T>> = HashMap::new();
    assert(all.take(0) =~= seq![]);
    for item in it: items
        invariant
            all.len() == it.seq().len(),
            forall|i: int| 0 <= i < all.len() ==> all[i] == (#[trigger] it.seq()[i]).deep_view(),
            is_grouped::<T>(all.take(it.index()), map@),
    {
        broadcast use vstd::std_specs::hash::group_hash_axioms;

        let ghost n = it.index();
        let ghost before = map@;
        let ghost done = all.take(n);
        let ghost view = item.deep_view();
        assert(all[n] == view);
        proof {
            crate::list::lemma_take_push(all, n);
        }
        let (pid, value) = item;
        let mut list: Vec<T> = match map.remove(&pid) {
            Some(list) => list,
            None => Vec::new(),
        };
        let ghost old_list = list;
        assert(old_list.deep_view() =~= of_pid(done, pid));
        list.push(value);
        let ghost new_list = list;
        map.insert(pid, list);
        proof {
            crate::list::lemma_deep_push(old_list, value, new_list);
            assert forall|p: i32|
                {
                    &&& #[trigger] map@.contains_key(p) <==> of_pid(done.push(view), p).len() > 0
                    &&& map@.contains_key(p) ==> map@[p].deep_view() == of_pid(done.push(view), p)
                } by {
                lemma_of_pid_push(done, view, p);
                assert(before.contains_key(p) <==> of_pid(done, p).len() > 0);
            }
        }
    }
    assert(all.take(all.len() as int) =~= all);
    map
}

/// The items of each process, in order.
pub fn group_sorted<T: Ranked>(items: Vec<(i32, T)>) -> (r: HashMap<i32, Vec<T>>)
    ensures
        is_sorted_grouping::<T>(items.deep_view(), r@),
{
    broadcast use vstd::std_specs::hash::group_hash_axioms;

    let ghost all = items.deep_view();
    let grouped = group(items);
    let ghost before = grouped@;
    let keys = keys_of(&grouped);
    let mut map = grouped;
    let mut i: usize = 0;
    while i < keys.len()
        invariant
            i <= keys@.len(),
            is_grouped::<T>(all, before),
            keys@.no_duplicates(),
            keys@.to_set() == before.dom(),
            map@.dom() == before.dom(),
            forall|j: int|
                0 <= j < i ==> map@[#[trigger] keys@[j]].deep_view()
                    == crate::sort::stable_sorted::<T>(of_pid(all, keys@[j])),
            forall|j: int|
                i <= j < keys@.len() ==> map@[#[trigger] keys@[j]] == before[keys@[j]],
        decreases keys.len() - i,
    {
        broadcast use vstd::std_specs::hash::group_hash_axioms;

        let pid: i32 = keys[i];
        let ghost current = map@;
        assert(keys@.to_set().contains(pid));
        if let Some(list) = map.remove(&pid) {
            assert(list == before[pid]);
            assert(before.contains_key(pid));
            let sorted = sort(list);
            map.insert(pid, sorted);
            assert(map@.dom() =~= before.dom());
            assert forall|j: int| 0 <= j < i + 1 implies map@[#[trigger] keys@[j]].deep_view()
                == crate::sort::stable_sorted::<T>(of_pid(all, keys@[j])) by {
                if j < i {
                    assert(keys@[j] != pid);
                    assert(map@[keys@[j]] == current[keys@[j]]);
                }
            }
        }
        i = i + 1;
    }
    proof {
        assert forall|pid: i32|
            {
                &&& #[trigger] map@.contains_key(pid) <==> of_pid(all, pid).len() > 0
                &&& map@.contains_key(pid) ==> map@[pid].deep_view()
                    == crate::sort::stable_sorted::<T>(of_pid(all, pid))
            } by {
            assert(before.contains_key(pid) <==> of_pid(all, pid).len() > 0);
            if map@.contains_key(pid) {
                assert(keys@.to_set().contains(pid));
                let j = choose|j: int| 0 <= j < keys@.len() && keys@[j] == pid;
                assert(keys@[j] == pid);
            }
        }
    }
    map
}

/// The keys of a map, in the order in which it is walked.
pub fn keys_of<T>(map: &HashMap<i32, T>) -> (r: Vec<i32>)
    ensures
        r@.no_duplicates(),
        r@.to_set() == map@.dom(),
{
    broadcast use vstd::std_specs::hash::group_hash_axioms;

    let mut out: Vec<i32> = Vec::new();
    let keys = map.keys();
    let ghost all = vstd::std_specs::iter::IteratorSpec::remaining(&keys);
    for pid in it: keys
        invariant
            it.seq() == all,
            out@.len() == it.index(),
            forall|i: int| 0 <= i < it.index() ==> out@[i] == *(#[trigger] all[i]),
    {
        out.push(*pid);
    }
    assert(out@ =~= all.unref());
    assert forall|i: int, j: int| 0 <= i < out@.len() && 0 <= j < out@.len() && i != j implies out@[i]
        != out@[j] by {
        assert(all[i] != all[j]);
    }
    out
}

/// Each item is among those of its process.
pub proof fn lemma_of_pid_holds<V>(items: Seq<(i32, V)>, i: int)
    requires
        0 <= i < items.len(),
    ensures
        of_pid(items, items[i].0).contains(items[i].1),
    decreases items.len(),
{
    let before = items.drop_last();
    let rest = of_pid(before, items[i].0);
    let all = of_pid(items, items[i].0);
    if i < items.len() - 1 {
        assert(before[i] == items[i]);
        lemma_of_pid_holds(before, i);
        let k = choose|k: int| 0 <= k < rest.len() && rest[k] == items[i].1;
        assert(all[k] == items[i].1);
    } else {
        assert(all[rest.len() as int] == items[i].1);
    }
}

/// Each item of a process is one of all items, under the process.
pub proof fn lemma_of_pid_from<V>(items: Seq<(i32, V)>, pid: i32, k: int)
    requires
        0 <= k < of_pid(items, pid).len(),
    ensures
        exists|i: int|
            0 <= i < items.len() && #[trigger] items[i] == (pid, of_pid(items, pid)[k]),
    decreases items.len(),
{
    let before = items.drop_last();
    let rest = of_pid(before, pid);
    if k < rest.len() {
        lemma_of_pid_from(before, pid, k);
        let i = choose|i: int| 0 <= i < before.len() && #[trigger] before[i] == (pid, rest[k]);
        assert(items[i] == before[i]);
    } else {
        assert(items[items.len() - 1] == (pid, of_pid(items, pid)[k]));
    }
}

/// Each item is kept, under its process.
pub proof fn law_every_item_has_its_process<T: DeepView>(
    items: Vec<(i32, T)>,
    r: HashMap<i32, Vec<T>>,
    i: int,
)
    requires
        call_ensures(group::<T>, (items,), r),
        0 <= i < items@.len(),
    ensures
        r@.contains_key(items@[i].0),
        r@[items@[i].0].deep_view().contains(items@[i].1.deep_view()),
{
    assert(items.deep_view()[i] == items@[i].deep_view());
    lemma_of_pid_holds(items.deep_view(), i);
    assert(of_pid(items.deep_view(), items@[i].0).len() > 0);
}

/// One more item is added after those of its process, and changes no other process.
pub proof fn law_items_keep_their_order<T: DeepView>(
    before: Vec<(i32, T)>,
    after: Vec<(i32, T)>,
    item: (i32, T),
    r_before: HashMap<i32, Vec<T>>,
    r_after: HashMap<i32, Vec<T>>,
    pid: i32,
)
    requires
        call_ensures(group::<T>, (before,), r_before),
        call_ensures(group::<T>, (after,), r_after),
        after@ == before@.push(item),
    ensures
        before@.len() == 0 ==> !r_before@.contains_key(pid),
        pid != item.0 ==> (r_after@.contains_key(pid) <==> r_before@.contains_key(pid)),
        pid != item.0 && r_after@.contains_key(pid) ==> r_after@[pid].deep_view()
            == r_before@[pid].deep_view(),
        r_after@.contains_key(item.0),
        r_after@[item.0].deep_view() == (if r_before@.contains_key(item.0) {
            r_before@[item.0].deep_view()
        } else {
            Seq::empty()
        }).push(item.1.deep_view()),
{
    crate::list::lemma_deep_push(before, item, after);
    lemma_of_pid_push(before.deep_view(), item.deep_view(), pid);
    lemma_of_pid_push(before.deep_view(), item.deep_view(), item.0);
    assert(r_before@.contains_key(pid) <==> of_pid(before.deep_view(), pid).len() > 0);
    assert(r_before@.contains_key(item.0) <==> of_pid(before.deep_view(), item.0).len() > 0);
    assert(r_after@.contains_key(item.0) <==> of_pid(after.deep_view(), item.0).len() > 0);
    assert(r_after@.contains_key(pid) <==> of_pid(after.deep_view(), pid).len() > 0);
    if !r_before@.contains_key(item.0) {
        assert(of_pid(before.deep_view(), item.0) =~= Seq::empty());
    }
}

} // verus!
