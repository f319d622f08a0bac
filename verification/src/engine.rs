//! The reconciliation engine.  One reconcile turns a Job and the pods
//! observed for it into a plan: which pods to create (desired but missing),
//! which to delete (excess under the reclaim policy), and the status patch
//! to write.  The driver executes the plan against the cluster; the plan is
//! recomputed from live observation on every cycle, so a reconcile is
//! idempotent and safe to re-run from scratch after any partial failure.

use vstd::prelude::*;

use crate::batch::{job_is_terminal, Job, JobStatusPhase, TaskSpec};
use crate::desired::{build_min_owned_pods, desired_pods, PodDesc, PodDescView};
use crate::reclaim::{is_excess, pod_is_excess};
use crate::status::{classify, count_class, ObservedPod, PhaseCounts, PodClass};
use crate::status::{derive_phase, phase_for_counts};
use crate::text::str_eq;

verus! {

/// What the driver does once a reconcile step finishes.
#[derive(Clone, Copy, Debug, PartialEq, Eq, Structural)]
pub enum Action {
    /// Wait for the next externally triggered change.
    AwaitChange,
    /// Run the reconcile again after the given number of seconds.
    RequeueAfterSecs(u64),
}

/// A reconcile-time failure, carried up to the retry policy.
#[derive(Clone, Debug, PartialEq, Eq)]
pub enum Error {
    /// A cluster API call failed (conflict, timeout, unavailability).
    Api(String),
    /// Applying or removing the finalizer failed.
    Finalizer(String),
}

/// The status content of the merge patch a reconcile writes: the five counts
/// and, when the counts determine one, the phase.
#[derive(Clone, Copy, Debug, PartialEq, Eq, Structural)]
pub struct StatusPatch {
    pub counts: PhaseCounts,
    pub phase: Option<JobStatusPhase>,
}

/// Everything one apply-reconcile decides.  The driver executes it in order:
/// record the created event and stamp the zero status (first reconcile
/// only), issue the creates, issue the deletes, then write the status patch.
#[derive(Clone, Debug, PartialEq, Eq)]
pub struct ReconcilePlan {
    /// The Job had no status yet: record the "created" event and patch in a
    /// zero-valued status before anything else.
    pub record_created: bool,
    /// Pods to create: every desired descriptor no observed pod is named
    /// after, in task order.
    pub creates: Vec<PodDesc>,
    /// Names of excess pods to delete, in observation order.
    pub deletes: Vec<String>,
    /// The status patch to write; absent only when the Job is terminal and
    /// this reconcile is a no-op.
    pub status: Option<StatusPatch>,
}

/// Whether some observed pod carries this exact name.
pub open spec fn has_pod_named(pods: Seq<ObservedPod>, name: Seq<char>) -> bool {
    exists|k: int| 0 <= k < pods.len() && pods[k].name@ == name
}

/// The desired descriptors no observed pod is named after, in order.
pub open spec fn missing_pods(desired: Seq<PodDescView>, observed: Seq<ObservedPod>) -> Seq<
    PodDescView,
>
    decreases desired.len(),
{
    if desired.len() == 0 {
        Seq::empty()
    } else {
        let rest = missing_pods(desired.drop_last(), observed);
        if !has_pod_named(observed, desired.last().name) {
            rest.push(desired.last())
        } else {
            rest
        }
    }
}

/// The names of the observed pods the reclaim policy removes, in order.
pub open spec fn excess_names(observed: Seq<ObservedPod>, tasks: Seq<TaskSpec>) -> Seq<Seq<char>>
    decreases observed.len(),
{
    if observed.len() == 0 {
        Seq::empty()
    } else {
        let rest = excess_names(observed.drop_last(), tasks);
        if pod_is_excess(observed.last(), tasks) {
            rest.push(observed.last().name@)
        } else {
            rest
        }
    }
}

/// How many observed pods the reclaim policy removes.
pub open spec fn count_excess(observed: Seq<ObservedPod>, tasks: Seq<TaskSpec>) -> nat
    decreases observed.len(),
{
    if observed.len() == 0 {
        0
    } else {
        count_excess(observed.drop_last(), tasks) + (if pod_is_excess(observed.last(), tasks) {
            1nat
        } else {
            0nat
        })
    }
}

proof fn lemma_count_class_le(pods: Seq<ObservedPod>, c: PodClass)
    ensures
        count_class(pods, c) <= pods.len(),
    decreases pods.len(),
{
    if pods.len() > 0 {
        lemma_count_class_le(pods.drop_last(), c);
    }
}

proof fn lemma_count_excess_le(pods: Seq<ObservedPod>, tasks: Seq<TaskSpec>)
    ensures
        count_excess(pods, tasks) <= pods.len(),
    decreases pods.len(),
{
    if pods.len() > 0 {
        lemma_count_excess_le(pods.drop_last(), tasks);
    }
}

/// The counts one reconcile reports for an observed pod list: each pod's
/// classification counted once, and every reclaimed pod counted as
/// terminating in the same cycle it is deleted.
pub open spec fn counts_for(observed: Seq<ObservedPod>, tasks: Seq<TaskSpec>) -> PhaseCounts {
    PhaseCounts {
        pending: count_class(observed, PodClass::Pending) as u32,
        running: count_class(observed, PodClass::Running) as u32,
        succeeded: count_class(observed, PodClass::Succeeded) as u32,
        failed: count_class(observed, PodClass::Failed) as u32,
        terminating: (count_class(observed, PodClass::Terminating) + count_excess(
            observed,
            tasks,
        )) as u32,
    }
}

/// The phase the patch carries for these counts.
pub open spec fn phase_for(counts: PhaseCounts) -> Option<JobStatusPhase> {
    phase_for_counts(
        counts.pending,
        counts.running,
        counts.succeeded,
        counts.failed,
        counts.terminating,
    )
}

/// Scans the observed pods for one with this name.
fn has_pod(observed: &Vec<ObservedPod>, name: &str) -> (r: bool)
    ensures
        r == has_pod_named(observed@, name@),
{
    let mut j: usize = 0;
    while j < observed.len()
        invariant
            0 <= j <= observed@.len(),
            forall|k: int| 0 <= k < j ==> #[trigger] observed@[k].name@ != name@,
        decreases observed@.len() - j,
    {
        if str_eq(observed[j].name.as_str(), name) {
            return true;
        }
        j = j + 1;
    }
    false
}

/// One apply-reconcile, as a pure function from the Job and the observed pod
/// snapshot to the plan the driver executes.  A terminal Job yields the
/// empty plan.  Otherwise: the first reconcile records the created event and
/// stamps a zero status; every desired pod not observed is created; every
/// excess pod is deleted; and the status patch carries counts recomputed
/// from this snapshot alone, with the phase the counts determine.  The
/// observed list must be short enough for its counts to fit the status's
/// 32-bit counters.
#[verifier::loop_isolation(false)]
pub fn reconcile(job: &Job, observed: &Vec<ObservedPod>) -> (plan: ReconcilePlan)
    requires
        observed@.len() <= 0x7fff_ffff,
    ensures
        job_is_terminal(*job) ==> !plan.record_created && plan.creates@.len() == 0
            && plan.deletes@.len() == 0 && plan.status is None,
        !job_is_terminal(*job) ==> {
            &&& plan.record_created == (job.status is None)
            &&& plan.creates@.map_values(|p: PodDesc| p@) == missing_pods(
                desired_pods(*job),
                observed@,
            )
            &&& plan.deletes@.map_values(|s: String| s@) == excess_names(
                observed@,
                job.spec.tasks@,
            )
            &&& plan.status == Some(
                StatusPatch {
                    counts: counts_for(observed@, job.spec.tasks@),
                    phase: phase_for(counts_for(observed@, job.spec.tasks@)),
                },
            )
        },
{
    if let Some(status) = &job.status {
        if let Some(phase) = status.phase {
            if phase == JobStatusPhase::Succeeded || phase == JobStatusPhase::Failed || phase
                == JobStatusPhase::Terminated {
                return ReconcilePlan {
                    record_created: false,
                    creates: Vec::new(),
                    deletes: Vec::new(),
                    status: None,
                };
            }
        }
    }
    let record_created = job.status.is_none();

    let desired = build_min_owned_pods(job);
    let ghost dv = desired@.map_values(|p: PodDesc| p@);
    let mut rest = desired;
    let mut creates: Vec<PodDesc> = Vec::new();
    proof {
        assert(dv.take(0) =~= Seq::<PodDescView>::empty());
        assert(rest@.map_values(|p: PodDesc| p@) =~= dv.skip(0));
        assert(creates@.map_values(|p: PodDesc| p@) =~= Seq::<PodDescView>::empty());
    }
    while rest.len() > 0
        invariant
            rest@.len() <= dv.len(),
            rest@.map_values(|p: PodDesc| p@) =~= dv.skip(
                dv.len() - rest@.len(),
            ),
            creates@.map_values(|p: PodDesc| p@) == missing_pods(
                dv.take(dv.len() - rest@.len()),
                observed@,
            ),
        decreases rest@.len(),
    {
        let ghost k = dv.len() - rest@.len();
        let ghost rest_before = rest@;
        let d = rest.remove(0);
        proof {
            assert(rest@ =~= rest_before.skip(1));
            assert(d@ == rest_before.map_values(|p: PodDesc| p@)[0]);
            assert(d@ == dv.skip(k)[0]);
            assert(d@ == dv[k]);
            assert forall|j: int| 0 <= j < rest@.len() implies rest@.map_values(|p: PodDesc| p@)[j]
                == #[trigger] dv.skip(k + 1)[j] by {
                assert(rest@[j] == rest_before[j + 1]);
                assert(rest_before.map_values(|p: PodDesc| p@)[j + 1] == rest_before[j + 1]@);
                assert(rest_before.map_values(|p: PodDesc| p@)[j + 1] == dv.skip(k)[j + 1]);
                assert(dv.skip(k)[j + 1] == dv[k + 1 + j]);
                assert(dv.skip(k + 1)[j] == dv[k + 1 + j]);
            };
            assert(rest@.map_values(|p: PodDesc| p@) =~= dv.skip(k + 1));
            assert(dv.take(k + 1).drop_last() =~= dv.take(k));
            assert(dv.take(k + 1).last() == dv[k]);
        }
        if !has_pod(observed, d.name.as_str()) {
            let ghost creates_before = creates@;
            creates.push(d);
            proof {
                assert(creates@.map_values(|p: PodDesc| p@) =~= creates_before.map_values(
                    |p: PodDesc| p@,
                ).push(dv[k]));
            }
        }
    }
    proof {
        assert(dv.take(dv.len() as int) =~= dv);
        assert(creates@.map_values(|p: PodDesc| p@) == missing_pods(dv, observed@));
    }

    let mut counts = PhaseCounts { pending: 0, running: 0, succeeded: 0, failed: 0, terminating: 0 };
    let mut deletes: Vec<String> = Vec::new();
    let mut k: usize = 0;
    proof {
        assert(observed@.take(0) =~= Seq::<ObservedPod>::empty());
        assert(deletes@.map_values(|s: String| s@) =~= excess_names(
            observed@.take(0),
            job.spec.tasks@,
        ));
    }
    while k < observed.len()
        invariant
            0 <= k <= observed@.len(),
            counts.pending == count_class(observed@.take(k as int), PodClass::Pending),
            counts.running == count_class(observed@.take(k as int), PodClass::Running),
            counts.succeeded == count_class(observed@.take(k as int), PodClass::Succeeded),
            counts.failed == count_class(observed@.take(k as int), PodClass::Failed),
            counts.terminating == count_class(observed@.take(k as int), PodClass::Terminating)
                + count_excess(observed@.take(k as int), job.spec.tasks@),
            deletes@.map_values(|s: String| s@) == excess_names(
                observed@.take(k as int),
                job.spec.tasks@,
            ),
        decreases observed@.len() - k,
    {
        proof {
            assert(observed@.take(k + 1).drop_last() =~= observed@.take(k as int));
            assert(observed@.take(k + 1).last() == observed@[k as int]);
            lemma_count_class_le(observed@.take(k as int), PodClass::Pending);
            lemma_count_class_le(observed@.take(k as int), PodClass::Running);
            lemma_count_class_le(observed@.take(k as int), PodClass::Succeeded);
            lemma_count_class_le(observed@.take(k as int), PodClass::Failed);
            lemma_count_class_le(observed@.take(k as int), PodClass::Terminating);
            lemma_count_excess_le(observed@.take(k as int), job.spec.tasks@);
        }
        let pod = &observed[k];
        if is_excess(pod, &job.spec.tasks) {
            let ghost deletes_before = deletes@;
            deletes.push(pod.name.clone());
            counts.terminating = counts.terminating + 1;
            proof {
                assert(deletes@.map_values(|s: String| s@) =~= deletes_before.map_values(
                    |s: String| s@,
                ).push(observed@[k as int].name@));
            }
        }
        match classify(pod) {
            Some(PodClass::Pending) => {
                counts.pending = counts.pending + 1;
            },
            Some(PodClass::Running) => {
                counts.running = counts.running + 1;
            },
            Some(PodClass::Succeeded) => {
                counts.succeeded = counts.succeeded + 1;
            },
            Some(PodClass::Failed) => {
                counts.failed = counts.failed + 1;
            },
            Some(PodClass::Terminating) => {
                counts.terminating = counts.terminating + 1;
            },
            None => {},
        }
        k = k + 1;
    }
    proof {
        assert(observed@.take(observed@.len() as int) =~= observed@);
    }

    let phase = derive_phase(&counts);
    ReconcilePlan { record_created, creates, deletes, status: Some(StatusPatch { counts, phase }) }
}

/// Whether an observed pod is the stored form of a descriptor: the cluster
/// keeps the name and the labels a create call sent.
pub open spec fn pod_realizes(p: ObservedPod, d: PodDescView) -> bool {
    p.name@ == d.name && crate::labels::label_map(p.labels@) == crate::labels::pairs_map(d.labels)
}

/// Whether some observed pod is the stored form of this descriptor.
pub open spec fn some_pod_realizes(observed: Seq<ObservedPod>, d: PodDescView) -> bool {
    exists|j: int| 0 <= j < observed.len() && pod_realizes(observed[j], d)
}

/// Whether this pod is the stored form of some descriptor of the list.
pub open spec fn realizes_some(p: ObservedPod, descs: Seq<PodDescView>) -> bool {
    exists|k: int| 0 <= k < descs.len() && pod_realizes(p, descs[k])
}

/// Whether the observed pod set is exactly the desired set: every desired
/// descriptor is realized by some observed pod, and every observed pod
/// realizes some desired descriptor.  This is the state the cluster is in
/// once a first reconcile's creates have landed and nothing external has
/// touched the pods.
pub open spec fn observed_is_exactly_desired(observed: Seq<ObservedPod>, job: Job) -> bool {
    let desired = desired_pods(job);
    &&& forall|k: int|
        0 <= k < desired.len() ==> some_pod_realizes(observed, #[trigger] desired[k])
    &&& forall|j: int| 0 <= j < observed.len() ==> realizes_some(#[trigger] observed[j], desired)
}

proof fn lemma_missing_pods_all_present(desired: Seq<PodDescView>, observed: Seq<ObservedPod>)
    requires
        forall|k: int| 0 <= k < desired.len() ==> has_pod_named(observed, #[trigger] desired[k].name),
    ensures
        missing_pods(desired, observed) == Seq::<PodDescView>::empty(),
    decreases desired.len(),
{
    if desired.len() > 0 {
        assert(forall|k: int|
            0 <= k < desired.drop_last().len() ==> #[trigger] desired.drop_last()[k]
                == desired[k]);
        lemma_missing_pods_all_present(desired.drop_last(), observed);
        assert(has_pod_named(observed, desired.last().name));
    }
}

proof fn lemma_missing_pods_none_present(desired: Seq<PodDescView>, observed: Seq<ObservedPod>)
    requires
        forall|k: int|
            0 <= k < desired.len() ==> !has_pod_named(observed, #[trigger] desired[k].name),
    ensures
        missing_pods(desired, observed) == desired,
    decreases desired.len(),
{
    if desired.len() > 0 {
        assert(forall|k: int|
            0 <= k < desired.drop_last().len() ==> #[trigger] desired.drop_last()[k]
                == desired[k]);
        lemma_missing_pods_none_present(desired.drop_last(), observed);
        assert(missing_pods(desired, observed) =~= desired.drop_last().push(desired.last()));
        assert(desired.drop_last().push(desired.last()) =~= desired);
    }
}

proof fn lemma_excess_names_none(observed: Seq<ObservedPod>, tasks: Seq<TaskSpec>)
    requires
        forall|j: int| 0 <= j < observed.len() ==> !pod_is_excess(#[trigger] observed[j], tasks),
    ensures
        excess_names(observed, tasks) == Seq::<Seq<char>>::empty(),
        count_excess(observed, tasks) == 0,
    decreases observed.len(),
{
    if observed.len() > 0 {
        assert(forall|j: int|
            0 <= j < observed.drop_last().len() ==> #[trigger] observed.drop_last()[j]
                == observed[j]);
        lemma_excess_names_none(observed.drop_last(), tasks);
        assert(!pod_is_excess(observed.last(), tasks));
    }
}

proof fn lemma_excess_names_contains(observed: Seq<ObservedPod>, tasks: Seq<TaskSpec>, j: int)
    requires
        0 <= j < observed.len(),
        pod_is_excess(observed[j], tasks),
    ensures
        excess_names(observed, tasks).contains(observed[j].name@),
    decreases observed.len(),
{
    if j == observed.len() - 1 {
        assert(observed.last() == observed[j]);
        assert(excess_names(observed, tasks).last() == observed[j].name@);
    } else {
        assert(observed.drop_last()[j] == observed[j]);
        lemma_excess_names_contains(observed.drop_last(), tasks, j);
        let rest = excess_names(observed.drop_last(), tasks);
        let w = choose|w: int| 0 <= w < rest.len() && rest[w] == observed[j].name@;
        if pod_is_excess(observed.last(), tasks) {
            assert(excess_names(observed, tasks)[w] == observed[j].name@);
        } else {
            assert(excess_names(observed, tasks)[w] == observed[j].name@);
        }
    }
}

/// Min/max enforcement at the engine: a pod whose name parses to replica
/// index `i` and whose task label resolves to a task with maximum `m` is
/// reclaimed exactly when `i >= m`, whatever its phase; and every such
/// excess pod's name stands in the plan's deletions.
pub proof fn lemma_engine_deletes_iff(
    observed: Seq<ObservedPod>,
    tasks: Seq<TaskSpec>,
    j: int,
    i: u32,
    task: TaskSpec,
)
    requires
        0 <= j < observed.len(),
        crate::reclaim::pod_index(observed[j].name@) == Some(i),
        crate::reclaim::pod_task_label(observed[j]) matches Some(t) && crate::reclaim::find_task(
            tasks,
            t,
        ) == Some(task),
    ensures
        pod_is_excess(observed[j], tasks) <==> i >= task.parallelism.max,
        i >= task.parallelism.max ==> excess_names(observed, tasks).contains(observed[j].name@),
{
    crate::reclaim::lemma_reclaim_iff(observed[j], tasks, i, task);
    if i >= task.parallelism.max {
        lemma_excess_names_contains(observed, tasks, j);
    }
}

proof fn lemma_find_task_at(tasks: Seq<TaskSpec>, ti: int)
    requires
        forall|i: int, j: int|
            0 <= i < j < tasks.len() ==> #[trigger] tasks[i].name@ != #[trigger] tasks[j].name@,
        0 <= ti < tasks.len(),
    ensures
        crate::reclaim::find_task(tasks, tasks[ti].name@) == Some(tasks[ti]),
    decreases ti,
{
    if ti == 0 {
        assert(tasks.first() == tasks[0]);
    } else {
        let rest = tasks.drop_first();
        assert(tasks[0].name@ != tasks[ti].name@);
        assert(forall|j: int| 0 <= j < rest.len() ==> #[trigger] rest[j] == tasks[j + 1]);
        lemma_find_task_at(rest, ti - 1);
    }
}

proof fn lemma_desired_elem(job: Job, tasks: Seq<TaskSpec>, k0: int, k: int)
    requires
        0 <= k0 <= tasks.len(),
        0 <= k < crate::desired::desired_pods_from(job, tasks, k0).len(),
    ensures
        exists|ti: int, i: int|
            k0 <= ti < tasks.len() && 0 <= i < tasks[ti].parallelism.min
                && crate::desired::desired_pods_from(job, tasks, k0)[k]
                == #[trigger] crate::desired::desired_pod(job, tasks[ti], i as nat),
    decreases tasks.len() - k0,
{
    let here = crate::desired::task_pods(job, tasks[k0]);
    assert(crate::desired::desired_pods_from(job, tasks, k0) == here
        + crate::desired::desired_pods_from(job, tasks, k0 + 1));
    if k < here.len() {
        assert(crate::desired::desired_pods_from(job, tasks, k0)[k] == here[k]);
        assert(here[k] == crate::desired::desired_pod(job, tasks[k0], k as nat));
        assert(k0 <= k0 < tasks.len() && 0 <= k < tasks[k0].parallelism.min
            && crate::desired::desired_pods_from(job, tasks, k0)[k]
            == crate::desired::desired_pod(job, tasks[k0], k as nat));
    } else {
        lemma_desired_elem(job, tasks, k0 + 1, k - here.len());
        assert(crate::desired::desired_pods_from(job, tasks, k0)[k]
            == crate::desired::desired_pods_from(job, tasks, k0 + 1)[k - here.len()]);
        let (ti, i): (int, int) = choose|ti: int, i: int|
            k0 + 1 <= ti < tasks.len() && 0 <= i < tasks[ti].parallelism.min
                && crate::desired::desired_pods_from(job, tasks, k0 + 1)[k - here.len()]
                == #[trigger] crate::desired::desired_pod(job, tasks[ti], i as nat);
        assert(k0 <= ti < tasks.len() && 0 <= i < tasks[ti].parallelism.min
            && crate::desired::desired_pods_from(job, tasks, k0)[k]
            == crate::desired::desired_pod(job, tasks[ti], i as nat));
    }
}

proof fn lemma_realized_not_excess(job: Job, p: ObservedPod, ti: int, i: int)
    requires
        crate::batch::tasks_well_formed(job.spec.tasks@),
        0 <= ti < job.spec.tasks@.len(),
        0 <= i < job.spec.tasks@[ti].parallelism.min,
        pod_realizes(p, crate::desired::desired_pod(job, job.spec.tasks@[ti], i as nat)),
    ensures
        !pod_is_excess(p, job.spec.tasks@),
{
    let tasks = job.spec.tasks@;
    let task = tasks[ti];
    let d = crate::desired::desired_pod(job, task, i as nat);
    crate::reclaim::lemma_pod_index_of_name(task.name@, i as u32);
    assert(p.name@ == crate::desired::pod_name_spec(task.name@, i as nat));
    assert(crate::reclaim::pod_index(p.name@) == Some(i as u32));
    let s1 = crate::desired::template_labels(task).push(
        (crate::labels::spec_task_owner_label(), job.name@),
    );
    let s2 = s1.push((crate::labels::spec_task_name_label(), task.name@));
    assert(d.labels == s2);
    assert(s2.drop_last() =~= s1);
    assert(crate::labels::pairs_map(s2) == crate::labels::pairs_map(s1).insert(
        crate::labels::spec_task_name_label(),
        task.name@,
    ));
    assert(crate::labels::label_map(p.labels@) == crate::labels::pairs_map(s2));
    assert(crate::reclaim::pod_task_label(p) == Some(task.name@));
    lemma_find_task_at(tasks, ti);
    crate::reclaim::lemma_monotonic_floor(p, tasks, i as u32, task);
}

/// Idempotent convergence, first reconcile: with no pods observed, the plan
/// creates exactly the desired set and deletes nothing, so after the creates
/// land the observed set equals the desired-state builder's output.
pub proof fn lemma_first_reconcile_creates_all(job: Job)
    ensures
        missing_pods(desired_pods(job), Seq::<ObservedPod>::empty()) == desired_pods(job),
        excess_names(Seq::<ObservedPod>::empty(), job.spec.tasks@) == Seq::<Seq<char>>::empty(),
{
    lemma_missing_pods_none_present(desired_pods(job), Seq::<ObservedPod>::empty());
    lemma_excess_names_none(Seq::<ObservedPod>::empty(), job.spec.tasks@);
}

/// Whether the observed pods are, one for one and in order, the stored form
/// of these descriptors.
pub open spec fn realization_of(observed: Seq<ObservedPod>, descs: Seq<PodDescView>) -> bool {
    observed.len() == descs.len() && forall|j: int|
        0 <= j < observed.len() ==> pod_realizes(#[trigger] observed[j], descs[j])
}

/// Once the cluster stores exactly the pods a first reconcile created — one
/// per desired descriptor, names and labels kept — the observed set is
/// exactly the desired set.
pub proof fn lemma_realization_is_exact(observed: Seq<ObservedPod>, job: Job)
    requires
        realization_of(observed, desired_pods(job)),
    ensures
        observed_is_exactly_desired(observed, job),
{
    let desired = desired_pods(job);
    assert forall|k: int| 0 <= k < desired.len() implies some_pod_realizes(
        observed,
        #[trigger] desired[k],
    ) by {
        assert(0 <= k < observed.len() && pod_realizes(observed[k], desired[k]));
    };
    assert forall|j: int| 0 <= j < observed.len() implies realizes_some(
        #[trigger] observed[j],
        desired,
    ) by {
        assert(0 <= j < desired.len() && pod_realizes(observed[j], desired[j]));
    };
}

/// Idempotent convergence, steady state: for a well-formed spec, once the
/// observed pods are exactly the desired set — names and labels as created,
/// whatever their phases or deletion stamps read — a further reconcile plans
/// no creates and no deletes: zero pod API calls.  Together with the first
/// reconcile this covers any finite sequence of reconciles with no external
/// pod mutation in between.
#[verifier::rlimit(50)]
pub proof fn lemma_reconcile_converged(job: Job, observed: Seq<ObservedPod>)
    requires
        crate::batch::tasks_well_formed(job.spec.tasks@),
        observed_is_exactly_desired(observed, job),
    ensures
        missing_pods(desired_pods(job), observed) == Seq::<PodDescView>::empty(),
        excess_names(observed, job.spec.tasks@) == Seq::<Seq<char>>::empty(),
{
    let desired = desired_pods(job);
    assert forall|k: int|
        0 <= k < desired.len() implies has_pod_named(observed, #[trigger] desired[k].name) by {
        assert(some_pod_realizes(observed, desired[k]));
        let j = choose|j: int| 0 <= j < observed.len() && pod_realizes(observed[j], desired[k]);
        assert(observed[j].name@ == desired[k].name);
    };
    lemma_missing_pods_all_present(desired, observed);
    assert forall|j: int|
        0 <= j < observed.len() implies !pod_is_excess(#[trigger] observed[j], job.spec.tasks@) by {
        assert(realizes_some(observed[j], desired));
        let k = choose|k: int| 0 <= k < desired.len() && pod_realizes(observed[j], desired[k]);
        lemma_desired_elem(job, job.spec.tasks@, 0, k);
        let (ti, i): (int, int) = choose|ti: int, i: int|
            0 <= ti < job.spec.tasks@.len() && 0 <= i < job.spec.tasks@[ti].parallelism.min
                && crate::desired::desired_pods_from(job, job.spec.tasks@, 0)[k]
                == #[trigger] crate::desired::desired_pod(job, job.spec.tasks@[ti], i as nat);
        assert(pod_realizes(
            observed[j],
            crate::desired::desired_pod(job, job.spec.tasks@[ti], i as nat),
        ));
        lemma_realized_not_excess(job, observed[j], ti, i);
    };
    lemma_excess_names_none(observed, job.spec.tasks@);
}

/// The cleanup half of the finalizer protocol.  Owned-pod teardown is
/// implicit in the owner references the pods carry; the hook itself decides
/// nothing and waits for the next change.
pub fn cleanup(_job: &Job) -> (a: Action)
    ensures
        a == Action::AwaitChange,
{
    Action::AwaitChange
}

/// The retry policy: every reconcile failure requeues after the same fixed
/// delay of five minutes — no exponential backoff and no retry ceiling.
pub fn error_policy(_job: &Job, _error: &Error) -> (a: Action)
    ensures
        a == Action::RequeueAfterSecs(300),
{
    Action::RequeueAfterSecs(5 * 60)
}

} // verus!
