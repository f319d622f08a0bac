//! The desired-state builder: a pure projection of a Job's spec onto the
//! minimal set of pod descriptors the Job requires — `min` replicas per
//! task, indices `0..min-1`, each with a deterministic name, an owner
//! reference to the Job, merged labels and the task's pod spec verbatim.

use vstd::prelude::*;

use crate::batch::{opt_pairs_view, opt_str_view, Job, PodSpecView, TaskSpec};
use crate::batch::{copy_opt_pairs, copy_pairs, copy_pod_spec, PodSpec};
use crate::labels::{
    pairs_view, push_label, spec_task_name_label, spec_task_owner_label, task_name_label,
    task_owner_label,
};
use crate::text::{dec_rep, u64_dec};

verus! {

/// A pod the controller wants to exist: what a create call sends, reduced to
/// the fields this controller sets.
#[derive(Clone, Debug, PartialEq, Eq)]
pub struct PodDesc {
    pub name: String,
    /// The owning Job, carried as a controller owner reference.
    pub owner: Option<String>,
    pub labels: Vec<(String, String)>,
    pub annotations: Option<Vec<(String, String)>>,
    pub spec: PodSpec,
}

/// Mathematical view of a pod descriptor.
pub ghost struct PodDescView {
    pub name: Seq<char>,
    pub owner: Option<Seq<char>>,
    pub labels: Seq<(Seq<char>, Seq<char>)>,
    pub annotations: Option<Seq<(Seq<char>, Seq<char>)>>,
    pub pod_spec: PodSpecView,
}

impl View for PodDesc {
    type V = PodDescView;

    open spec fn view(&self) -> PodDescView {
        PodDescView {
            name: self.name@,
            owner: opt_str_view(self.owner),
            labels: pairs_view(self.labels@),
            annotations: opt_pairs_view(self.annotations),
            pod_spec: self.spec@,
        }
    }
}

/// The deterministic name of a task's replica: the task name, a dash, and
/// the zero-based replica index in decimal.
pub open spec fn pod_name_spec(task_name: Seq<char>, i: nat) -> Seq<char> {
    task_name + seq!['-'] + dec_rep(i)
}

/// The labels a task's template asks for, before the controller merges its
/// own two keys in.
pub open spec fn template_labels(task: TaskSpec) -> Seq<(Seq<char>, Seq<char>)> {
    match task.template.metadata {
        Some(m) => match m.labels {
            Some(l) => pairs_view(l@),
            None => Seq::empty(),
        },
        None => Seq::empty(),
    }
}

/// The annotations a task's template asks for, copied verbatim.
pub open spec fn template_annotations(task: TaskSpec) -> Option<Seq<(Seq<char>, Seq<char>)>> {
    match task.template.metadata {
        Some(m) => opt_pairs_view(m.annotations),
        None => None,
    }
}

/// The descriptor of replica `i` of a task: deterministic name, owner
/// reference to the Job, template labels with the two correlation keys
/// merged in (overriding the template where it used them), template
/// annotations, and the task's pod spec verbatim.
pub open spec fn desired_pod(job: Job, task: TaskSpec, i: nat) -> PodDescView {
    PodDescView {
        name: pod_name_spec(task.name@, i),
        owner: Some(job.name@),
        labels: template_labels(task).push((spec_task_owner_label(), job.name@)).push(
            (spec_task_name_label(), task.name@),
        ),
        annotations: template_annotations(task),
        pod_spec: task.template.spec@,
    }
}

/// The `min` descriptors a task requires, in index order.
pub open spec fn task_pods(job: Job, task: TaskSpec) -> Seq<PodDescView> {
    Seq::new(task.parallelism.min as nat, |i: int| desired_pod(job, task, i as nat))
}

/// The descriptors of tasks `k..`, concatenated in task order.
pub open spec fn desired_pods_from(job: Job, tasks: Seq<TaskSpec>, k: int) -> Seq<PodDescView>
    decreases tasks.len() - k,
{
    if 0 <= k < tasks.len() {
        task_pods(job, tasks[k]) + desired_pods_from(job, tasks, k + 1)
    } else {
        Seq::empty()
    }
}

/// Everything the Job requires: exactly `sum(task.parallelism.min)`
/// descriptors, `min` per task, in task order.  A pure projection of spec
/// only — it never inspects live cluster state.
pub open spec fn desired_pods(job: Job) -> Seq<PodDescView> {
    desired_pods_from(job, job.spec.tasks@, 0)
}

/// The total replica floor of a task list: the sum of the minima.
pub open spec fn total_min(tasks: Seq<TaskSpec>) -> nat
    decreases tasks.len(),
{
    if tasks.len() == 0 {
        0
    } else {
        total_min(tasks.drop_last()) + tasks.last().parallelism.min as nat
    }
}

proof fn lemma_desired_pods_from_len(job: Job, tasks: Seq<TaskSpec>, k: int)
    requires
        0 <= k <= tasks.len(),
    ensures
        desired_pods_from(job, tasks, k).len() == total_min(tasks) - total_min(tasks.take(k)),
    decreases tasks.len() - k,
{
    lemma_total_min_take(tasks, k);
    if k < tasks.len() {
        lemma_desired_pods_from_len(job, tasks, k + 1);
        assert(tasks.take(k + 1).drop_last() =~= tasks.take(k));
        assert(tasks.take(k + 1).last() == tasks[k]);
    } else {
        assert(tasks.take(k) =~= tasks);
    }
}

proof fn lemma_total_min_take(tasks: Seq<TaskSpec>, k: int)
    requires
        0 <= k <= tasks.len(),
    ensures
        total_min(tasks.take(k)) <= total_min(tasks),
    decreases tasks.len() - k,
{
    if k < tasks.len() {
        lemma_total_min_take(tasks, k + 1);
        assert(tasks.take(k + 1).drop_last() =~= tasks.take(k));
    } else {
        assert(tasks.take(k) =~= tasks);
    }
}

/// A Job requires exactly the sum of its tasks' minima: so many descriptors,
/// no more and no fewer.
pub proof fn lemma_desired_pods_len(job: Job)
    ensures
        desired_pods(job).len() == total_min(job.spec.tasks@),
{
    lemma_desired_pods_from_len(job, job.spec.tasks@, 0);
    assert(job.spec.tasks@.take(0) =~= Seq::<TaskSpec>::empty());
}

/// The label selector that finds every pod owned by a Job.
pub open spec fn owned_label_spec(job: Job) -> Seq<char> {
    spec_task_owner_label() + seq!['='] + job.name@
}

/// Renders `"{taskName}-{replicaIndex}"`.
pub fn pod_name(task_name: &str, i: u32) -> (r: String)
    ensures
        r@ == pod_name_spec(task_name@, i as nat),
{
    let mut s = task_name.to_owned();
    s.append("-");
    let d = u64_dec(i as u64);
    s.append(d.as_str());
    proof {
        reveal_strlit("-");
        assert("-"@ =~= seq!['-']);
        assert(s@ =~= task_name@ + seq!['-'] + dec_rep(i as nat));
    }
    s
}

/// The label selector `habitat-task-owner={jobName}` for listing the pods a
/// Job owns.
pub fn new_owned_label(job: &Job) -> (r: String)
    ensures
        r@ == owned_label_spec(*job),
{
    let mut s = task_owner_label().to_owned();
    s.append("=");
    s.append(job.name.as_str());
    proof {
        reveal_strlit("=");
        assert("="@ =~= seq!['=']);
        assert(s@ =~= spec_task_owner_label() + seq!['='] + job.name@);
    }
    s
}

/// Builds the minimal owned pod set of a Job: `min` descriptors per task.
#[verifier::loop_isolation(false)]
pub fn build_min_owned_pods(job: &Job) -> (r: Vec<PodDesc>)
    ensures
        r@.map_values(|p: PodDesc| p@) == desired_pods(*job),
{
    let ghost target = desired_pods(*job);
    let ghost tasks = job.spec.tasks@;
    let mut out: Vec<PodDesc> = Vec::new();
    let mut ti: usize = 0;
    proof {
        assert(out@.map_values(|p: PodDesc| p@) + desired_pods_from(*job, tasks, 0) =~= target);
    }
    while ti < job.spec.tasks.len()
        invariant
            0 <= ti <= tasks.len(),
            out@.map_values(|p: PodDesc| p@) + desired_pods_from(*job, tasks, ti as int)
                =~= target,
        decreases tasks.len() - ti,
    {
        let task = &job.spec.tasks[ti];
        let min = task.parallelism.min;
        let ghost pods_here = task_pods(*job, tasks[ti as int]);
        let mut i: u32 = 0;
        proof {
            assert(out@.map_values(|p: PodDesc| p@) + pods_here.skip(0) + desired_pods_from(
                *job,
                tasks,
                ti + 1,
            ) =~= target);
        }
        while i < min
            invariant
                0 <= i <= min,
                out@.map_values(|p: PodDesc| p@) + pods_here.skip(i as int) + desired_pods_from(
                    *job,
                    tasks,
                    ti + 1,
                ) =~= target,
            decreases min - i,
        {
            let name = pod_name(task.name.as_str(), i);
            let mut lbls: Vec<(String, String)> = match &task.template.metadata {
                Some(m) => match &m.labels {
                    Some(l) => copy_pairs(l),
                    None => Vec::new(),
                },
                None => Vec::new(),
            };
            push_label(&mut lbls, String::from_str(task_owner_label()), job.name.clone());
            push_label(&mut lbls, String::from_str(task_name_label()), task.name.clone());
            let annotations = match &task.template.metadata {
                Some(m) => copy_opt_pairs(&m.annotations),
                None => None,
            };
            let desc = PodDesc {
                name,
                owner: Some(job.name.clone()),
                labels: lbls,
                annotations,
                spec: copy_pod_spec(&task.template.spec),
            };
            proof {
                assert(desc@.labels =~= desired_pod(*job, tasks[ti as int], i as nat).labels);
                assert(desc@ == desired_pod(*job, tasks[ti as int], i as nat));
                assert(pods_here[i as int] == desired_pod(*job, tasks[ti as int], i as nat));
            }
            let ghost out_before = out@;
            out.push(desc);
            proof {
                assert(out@.map_values(|p: PodDesc| p@) =~= out_before.map_values(
                    |p: PodDesc| p@,
                ).push(desc@));
                assert(pods_here.skip(i as int) =~= seq![pods_here[i as int]] + pods_here.skip(
                    i + 1,
                ));
                assert(out@.map_values(|p: PodDesc| p@) + pods_here.skip(i + 1)
                    + desired_pods_from(*job, tasks, ti + 1) =~= target);
            }
            i = i + 1;
        }
        proof {
            assert(pods_here.skip(min as int) =~= Seq::<PodDescView>::empty());
            assert(out@.map_values(|p: PodDesc| p@) + desired_pods_from(*job, tasks, ti + 1)
                =~= target);
        }
        ti = ti + 1;
    }
    proof {
        assert(out@.map_values(|p: PodDesc| p@) =~= target);
    }
    out
}

} // verus!
