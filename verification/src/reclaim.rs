//! The reclaim policy: a pod whose name encodes a replica index at or above
//! its task's maximum parallelism is excess and must be deleted.  The index
//! is read back out of the pod name's trailing numeric segment, and the task
//! is found through the task-name label.

use vstd::prelude::*;

use crate::batch::TaskSpec;
use crate::desired::pod_name_spec;
use crate::labels::{get_label, label_map, spec_task_name_label, task_name_label};
use crate::status::ObservedPod;
use crate::text::{
    is_digit, lemma_dec_rep_digits, lemma_dec_val_of_rep, lemma_trailing_of_dashed, parse_u32,
    parse_u32_spec, str_eq, trailing_segment, trailing_segment_spec,
};

verus! {

/// The first task of the list carrying the given name, as a scan finds it.
pub open spec fn find_task(tasks: Seq<TaskSpec>, name: Seq<char>) -> Option<TaskSpec>
    decreases tasks.len(),
{
    if tasks.len() == 0 {
        None
    } else if tasks.first().name@ == name {
        Some(tasks.first())
    } else {
        find_task(tasks.drop_first(), name)
    }
}

/// The replica index a pod name encodes: its trailing segment read as a
/// decimal number.
pub open spec fn pod_index(name: Seq<char>) -> Option<u32> {
    parse_u32_spec(trailing_segment_spec(name))
}

/// The task-name label of a pod, when it carries one.
pub open spec fn pod_task_label(p: ObservedPod) -> Option<Seq<char>> {
    if label_map(p.labels@).contains_key(spec_task_name_label()) {
        Some(label_map(p.labels@)[spec_task_name_label()])
    } else {
        None
    }
}

/// Whether reclaim removes a pod: its name's trailing segment parses as a
/// replica index, its task-name label names a task of the Job, and the index
/// is at or above that task's maximum parallelism — regardless of the pod's
/// phase or deletion state.
pub open spec fn pod_is_excess(p: ObservedPod, tasks: Seq<TaskSpec>) -> bool {
    match pod_index(p.name@) {
        Some(i) => match pod_task_label(p) {
            Some(t) => match find_task(tasks, t) {
                Some(task) => i >= task.parallelism.max,
                None => false,
            },
            None => false,
        },
        None => false,
    }
}

/// Scans the task list for the first task with the given name.
pub fn find_task_index(tasks: &Vec<TaskSpec>, name: &str) -> (r: Option<usize>)
    ensures
        match r {
            Some(k) => k < tasks@.len() && find_task(tasks@, name@) == Some(tasks@[k as int]),
            None => find_task(tasks@, name@) is None,
        },
{
    let mut k: usize = 0;
    proof {
        assert(tasks@.skip(0) =~= tasks@);
    }
    while k < tasks.len()
        invariant
            0 <= k <= tasks@.len(),
            find_task(tasks@, name@) == find_task(tasks@.skip(k as int), name@),
        decreases tasks@.len() - k,
    {
        proof {
            assert(tasks@.skip(k as int).first() == tasks@[k as int]);
        }
        if str_eq(tasks[k].name.as_str(), name) {
            return Some(k);
        }
        proof {
            assert(tasks@.skip(k as int).drop_first() =~= tasks@.skip(k + 1));
        }
        k = k + 1;
    }
    None
}

/// Decides reclaim for one pod.
pub fn is_excess(p: &ObservedPod, tasks: &Vec<TaskSpec>) -> (r: bool)
    ensures
        r == pod_is_excess(*p, tasks@),
{
    let seg = trailing_segment(p.name.as_str());
    match parse_u32(seg.as_str()) {
        Some(i) => match get_label(&p.labels, task_name_label()) {
            Some(t) => match find_task_index(tasks, t.as_str()) {
                Some(k) => i >= tasks[k].parallelism.max,
                None => false,
            },
            None => false,
        },
        None => false,
    }
}

/// A pod named by the desired-state builder reads back as its own replica
/// index: the digits after the final dash are exactly the rendered index.
pub proof fn lemma_pod_index_of_name(task_name: Seq<char>, i: u32)
    ensures
        pod_index(pod_name_spec(task_name, i as nat)) == Some(i),
{
    let digits = crate::text::dec_rep(i as nat);
    lemma_dec_rep_digits(i as nat);
    assert(forall|j: int| 0 <= j < digits.len() ==> digits[j] != '-') by {
        assert(forall|j: int| 0 <= j < digits.len() ==> is_digit(#[trigger] digits[j]));
    }
    lemma_trailing_of_dashed(task_name, digits);
    lemma_dec_val_of_rep(i as nat);
    assert(is_digit(digits[0]));
    assert(digits[0] != '+');
}

/// Deciding reclaim for a pod whose index and task are resolved: deletion
/// happens exactly when the index reaches the task's maximum.
pub proof fn lemma_reclaim_iff(p: ObservedPod, tasks: Seq<TaskSpec>, i: u32, task: TaskSpec)
    requires
        pod_index(p.name@) == Some(i),
        pod_task_label(p) matches Some(t) && find_task(tasks, t) == Some(task),
    ensures
        pod_is_excess(p, tasks) <==> i >= task.parallelism.max,
{
}

/// The monotonic floor: reclaim never removes a pod whose replica index lies
/// below its task's minimum, provided that task keeps `min <= max`.
pub proof fn lemma_monotonic_floor(p: ObservedPod, tasks: Seq<TaskSpec>, i: u32, task: TaskSpec)
    requires
        pod_index(p.name@) == Some(i),
        pod_task_label(p) matches Some(t) && find_task(tasks, t) == Some(task),
        task.parallelism.min <= task.parallelism.max,
        i < task.parallelism.min,
    ensures
        !pod_is_excess(p, tasks),
{
}

} // verus!
