//! Pod state aggregation: classifying each observed pod into a phase bucket
//! and deriving the job-level phase from the five counts.

use vstd::prelude::*;

use crate::batch::JobStatusPhase;
use crate::text::str_eq;

verus! {

/// One pod as a reconcile observed it: its name, its labels, the phase
/// string it reports (if any), and whether a deletion timestamp is present.
#[derive(Clone, Debug, PartialEq, Eq)]
pub struct ObservedPod {
    pub name: String,
    pub labels: Vec<(String, String)>,
    pub phase: Option<String>,
    pub deleting: bool,
}

/// The bucket a pod counts toward.
#[derive(Clone, Copy, Debug, PartialEq, Eq, Structural)]
pub enum PodClass {
    Pending,
    Running,
    Succeeded,
    Failed,
    Terminating,
}

/// How one observed pod is classified: a deletion timestamp counts as
/// terminating no matter what phase the pod reports; otherwise the reported
/// phase string decides, and an absent or unrecognised phase is uncounted.
pub open spec fn classify_pod(p: ObservedPod) -> Option<PodClass> {
    if p.deleting {
        Some(PodClass::Terminating)
    } else {
        match p.phase {
            Some(s) => if s@ == "Pending"@ {
                Some(PodClass::Pending)
            } else if s@ == "Running"@ {
                Some(PodClass::Running)
            } else if s@ == "Succeeded"@ {
                Some(PodClass::Succeeded)
            } else if s@ == "Failed"@ {
                Some(PodClass::Failed)
            } else {
                None
            },
            None => None,
        }
    }
}

/// How many pods of a list fall in a bucket.
pub open spec fn count_class(pods: Seq<ObservedPod>, c: PodClass) -> nat
    decreases pods.len(),
{
    if pods.len() == 0 {
        0
    } else {
        count_class(pods.drop_last(), c) + (if classify_pod(pods.last()) == Some(c) {
            1nat
        } else {
            0nat
        })
    }
}

pub fn classify(p: &ObservedPod) -> (r: Option<PodClass>)
    ensures
        r == classify_pod(*p),
{
    if p.deleting {
        return Some(PodClass::Terminating);
    }
    match &p.phase {
        Some(s) => {
            if str_eq(s.as_str(), "Pending") {
                Some(PodClass::Pending)
            } else if str_eq(s.as_str(), "Running") {
                Some(PodClass::Running)
            } else if str_eq(s.as_str(), "Succeeded") {
                Some(PodClass::Succeeded)
            } else if str_eq(s.as_str(), "Failed") {
                Some(PodClass::Failed)
            } else {
                None
            }
        },
        None => None,
    }
}

/// The five per-phase pod counts a reconcile reports.
#[derive(Clone, Copy, Debug, PartialEq, Eq, Structural)]
pub struct PhaseCounts {
    pub pending: u32,
    pub running: u32,
    pub succeeded: u32,
    pub failed: u32,
    pub terminating: u32,
}

/// The job phase the five counts determine, in precedence order: any running
/// pod makes the job `Running`; only succeeded pods (nothing pending,
/// running, failed or terminating) make it `Succeeded`; failures with
/// nothing pending or running make it `Failed`; anything pending makes it
/// `Pending`; otherwise no phase is determined this cycle.
pub open spec fn phase_for_counts(
    pending: u32,
    running: u32,
    succeeded: u32,
    failed: u32,
    terminating: u32,
) -> Option<JobStatusPhase> {
    if running > 0 {
        Some(JobStatusPhase::Running)
    } else if pending == 0 && succeeded > 0 && failed == 0 && terminating == 0 {
        Some(JobStatusPhase::Succeeded)
    } else if pending == 0 && failed > 0 {
        Some(JobStatusPhase::Failed)
    } else if pending > 0 {
        Some(JobStatusPhase::Pending)
    } else {
        None
    }
}

/// Derives the job phase from the counts; `None` leaves the phase untouched.
pub fn derive_phase(counts: &PhaseCounts) -> (r: Option<JobStatusPhase>)
    ensures
        r == phase_for_counts(
            counts.pending,
            counts.running,
            counts.succeeded,
            counts.failed,
            counts.terminating,
        ),
{
    if counts.running > 0 {
        Some(JobStatusPhase::Running)
    } else if counts.pending == 0 && counts.succeeded > 0 && counts.failed == 0
        && counts.terminating == 0 {
        Some(JobStatusPhase::Succeeded)
    } else if counts.pending == 0 && counts.failed > 0 {
        Some(JobStatusPhase::Failed)
    } else if counts.pending > 0 {
        Some(JobStatusPhase::Pending)
    } else {
        None
    }
}

/// The derived phase follows the precedence order exactly, for every count
/// tuple: a running pod dominates everything; success needs every other
/// count to be zero; failure is terminal only once nothing is pending or
/// running; otherwise pending pods report `Pending`; and a job with no
/// countable pods gets no phase.
pub proof fn lemma_phase_precedence(
    pending: u32,
    running: u32,
    succeeded: u32,
    failed: u32,
    terminating: u32,
)
    ensures
        running > 0 ==> phase_for_counts(pending, running, succeeded, failed, terminating)
            == Some(JobStatusPhase::Running),
        running == 0 && pending == 0 && failed == 0 && terminating == 0 && succeeded > 0
            ==> phase_for_counts(pending, running, succeeded, failed, terminating) == Some(
            JobStatusPhase::Succeeded,
        ),
        running == 0 && pending == 0 && failed > 0 ==> phase_for_counts(
            pending,
            running,
            succeeded,
            failed,
            terminating,
        ) == Some(JobStatusPhase::Failed),
        running == 0 && pending > 0 ==> phase_for_counts(
            pending,
            running,
            succeeded,
            failed,
            terminating,
        ) == Some(JobStatusPhase::Pending),
        running == 0 && pending == 0 && failed == 0 && (succeeded == 0 || terminating > 0)
            ==> phase_for_counts(pending, running, succeeded, failed, terminating) is None,
{
}

} // verus!
