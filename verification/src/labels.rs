//! Label lists and the two correlation keys that tie a pod to its owning Job
//! and task.  A label list is a sequence of key/value bindings whose map view
//! is what a chain of inserts would build: later bindings win.

use vstd::prelude::*;

use crate::text::str_eq;

verus! {

/// The character-level view of a label list.
pub open spec fn pairs_view(s: Seq<(String, String)>) -> Seq<(Seq<char>, Seq<char>)> {
    s.map_values(|p: (String, String)| (p.0@, p.1@))
}

/// The map a binding list denotes: each binding inserted in order, so a later
/// binding for a key overrides an earlier one.
pub open spec fn pairs_map(s: Seq<(Seq<char>, Seq<char>)>) -> Map<Seq<char>, Seq<char>>
    decreases s.len(),
{
    if s.len() == 0 {
        Map::empty()
    } else {
        pairs_map(s.drop_last()).insert(s.last().0, s.last().1)
    }
}

/// The map view of a label list.
pub open spec fn label_map(s: Seq<(String, String)>) -> Map<Seq<char>, Seq<char>> {
    pairs_map(pairs_view(s))
}

/// The label key naming the Job that owns a pod.
pub open spec fn spec_task_owner_label() -> Seq<char> {
    "habitat-task-owner"@
}

/// The label key naming the task a pod belongs to.
pub open spec fn spec_task_name_label() -> Seq<char> {
    "habitat-task"@
}

/// The finalizer this controller installs on every Job it manages.
pub open spec fn spec_finalizer_name() -> Seq<char> {
    "controller.batch.habitat"@
}

pub fn task_owner_label() -> (r: &'static str)
    ensures
        r@ == spec_task_owner_label(),
{
    "habitat-task-owner"
}

pub fn task_name_label() -> (r: &'static str)
    ensures
        r@ == spec_task_name_label(),
{
    "habitat-task"
}

pub fn finalizer_name() -> (r: &'static str)
    ensures
        r@ == spec_finalizer_name(),
{
    "controller.batch.habitat"
}

/// Appends a binding; on the map view this is exactly an insert.
pub fn push_label(pairs: &mut Vec<(String, String)>, key: String, value: String)
    ensures
        pairs_view(final(pairs)@) == pairs_view(old(pairs)@).push((key@, value@)),
        label_map(final(pairs)@) == label_map(old(pairs)@).insert(key@, value@),
{
    let ghost k = key@;
    let ghost v = value@;
    pairs.push((key, value));
    proof {
        assert(pairs_view(pairs@) =~= pairs_view(old(pairs)@).push((k, v)));
        assert(pairs_view(pairs@).drop_last() =~= pairs_view(old(pairs)@));
    }
}

/// Looks a key up in a label list, honouring the later-binding-wins view.
pub fn get_label(pairs: &Vec<(String, String)>, key: &str) -> (r: Option<String>)
    ensures
        match r {
            Some(v) => label_map(pairs@).contains_key(key@) && v@ == label_map(pairs@)[key@],
            None => !label_map(pairs@).contains_key(key@),
        },
{
    let ghost vw = pairs_view(pairs@);
    let mut j = pairs.len();
    proof {
        assert(vw.take(vw.len() as int) =~= vw);
    }
    while j > 0
        invariant
            0 <= j <= pairs@.len(),
            vw == pairs_view(pairs@),
            pairs_map(vw).contains_key(key@) == pairs_map(vw.take(j as int)).contains_key(key@),
            pairs_map(vw).contains_key(key@) ==> pairs_map(vw)[key@] == pairs_map(
                vw.take(j as int),
            )[key@],
        decreases j,
    {
        proof {
            assert(vw.take(j as int).drop_last() =~= vw.take(j - 1));
            assert(vw.take(j as int).last() == vw[j - 1]);
            assert(vw[j - 1] == (pairs@[j - 1].0@, pairs@[j - 1].1@));
        }
        if str_eq(pairs[j - 1].0.as_str(), key) {
            let v = pairs[j - 1].1.clone();
            return Some(v);
        }
        j = j - 1;
    }
    proof {
        assert(vw.take(0) =~= Seq::<(Seq<char>, Seq<char>)>::empty());
    }
    None
}

} // verus!
