//! The Job workload resource: a set of named tasks, each a homogeneous group
//! of replica pods with elastic parallelism bounds, plus the status the
//! controller maintains for it.

use vstd::prelude::*;

verus! {

/// Replica bounds of one task; a well-formed spec has `min <= max`.
#[derive(Clone, Copy, Debug, PartialEq, Eq, Structural)]
pub struct ParallelismSpec {
    pub min: u32,
    pub max: u32,
}

/// Metadata carried onto the pods a task creates.  Labels and annotations are
/// ordered key/value bindings; a later binding for a key overrides an earlier
/// one, as repeated inserts into a map would.
#[derive(Clone, Debug, PartialEq, Eq)]
pub struct PodMeta {
    pub annotations: Option<Vec<(String, String)>>,
    pub labels: Option<Vec<(String, String)>>,
}

/// One container of a pod, reduced to the fields this controller carries
/// through unchanged.
#[derive(Clone, Debug, PartialEq, Eq)]
pub struct Container {
    pub name: String,
    pub image: Option<String>,
    pub command: Option<Vec<String>>,
    pub args: Option<Vec<String>>,
}

/// A restricted pod specification.  The controller never reads inside it: it
/// is copied verbatim from the task template onto every pod descriptor.
/// Scheduling-related fields are delegated to the external scheduler and kept
/// at the cluster boundary.
#[derive(Clone, Debug, PartialEq, Eq)]
pub struct PodSpec {
    pub containers: Vec<Container>,
    pub init_containers: Option<Vec<Container>>,
    pub restart_policy: Option<String>,
    pub service_account: Option<String>,
    pub service_account_name: Option<String>,
    pub set_hostname_as_fqdn: Option<bool>,
    pub share_process_namespace: Option<bool>,
    pub subdomain: Option<String>,
    pub termination_grace_period_seconds: Option<i64>,
}

/// The pod template of a task.
#[derive(Clone, Debug, PartialEq, Eq)]
pub struct PodTemplate {
    pub metadata: Option<PodMeta>,
    pub spec: PodSpec,
}

/// One homogeneous group of pods within a Job.  Task names are unique within
/// a Job's task list.
#[derive(Clone, Debug, PartialEq, Eq)]
pub struct TaskSpec {
    pub name: String,
    pub parallelism: ParallelismSpec,
    pub template: PodTemplate,
}

/// The user's immutable intent for a Job.  At most one of `priority` and
/// `priority_class_name` may be set; admission enforces this.
#[derive(Clone, Debug, PartialEq, Eq)]
pub struct JobSpec {
    pub scheduler_name: Option<String>,
    pub tasks: Vec<TaskSpec>,
    pub priority: Option<u32>,
    pub priority_class_name: Option<String>,
}

/// Job status phase.
#[derive(Clone, Copy, Debug, PartialEq, Eq, Structural)]
pub enum JobStatusPhase {
    /// The job has been accepted, but one or more of its pods is not running.
    Pending,
    /// At least one pod of the job is running.
    Running,
    /// The job is terminated and waiting for its pods to be released.
    Terminating,
    /// The job completed with success.
    Succeeded,
    /// The job completed with failure.
    Failed,
    /// The job completed unexpectedly.
    Terminated,
}

/// The status the controller owns: per-phase pod counts and, once determined,
/// an overall phase.  An absent count reads as zero.  Timestamps are carried
/// in RFC 3339 form.
#[derive(Clone, Debug, PartialEq, Eq)]
pub struct JobStatus {
    pub phase: Option<JobStatusPhase>,
    pub start_time: Option<String>,
    pub completion_time: Option<String>,
    pub pending: Option<u32>,
    pub running: Option<u32>,
    pub terminating: Option<u32>,
    pub succeeded: Option<u32>,
    pub failed: Option<u32>,
}

impl Default for JobStatus {
    /// The zero-valued status the first reconcile stamps onto a new Job.
    fn default() -> (r: JobStatus)
        ensures
            r.phase is None,
            r.start_time is None,
            r.completion_time is None,
            r.pending is None,
            r.running is None,
            r.terminating is None,
            r.succeeded is None,
            r.failed is None,
    {
        JobStatus {
            phase: None,
            start_time: None,
            completion_time: None,
            pending: None,
            running: None,
            terminating: None,
            succeeded: None,
            failed: None,
        }
    }
}

/// A named Job resource as the reconciler sees it.
#[derive(Clone, Debug, PartialEq, Eq)]
pub struct Job {
    pub name: String,
    pub spec: JobSpec,
    pub status: Option<JobStatus>,
}

/// A phase after which the controller stops reconciling.
pub open spec fn phase_is_terminal(p: JobStatusPhase) -> bool {
    p is Succeeded || p is Failed || p is Terminated
}

/// Whether a Job's recorded status puts it past reconciling.
pub open spec fn job_is_terminal(job: Job) -> bool {
    match job.status {
        Some(status) => match status.phase {
            Some(p) => phase_is_terminal(p),
            None => false,
        },
        None => false,
    }
}

/// Well-formedness of a task list, as admission establishes it: names are
/// unique and every task's minimum is no more than its maximum.
pub open spec fn tasks_well_formed(tasks: Seq<TaskSpec>) -> bool {
    &&& forall|i: int, j: int|
        0 <= i < j < tasks.len() ==> #[trigger] tasks[i].name@ != #[trigger] tasks[j].name@
    &&& forall|i: int|
        0 <= i < tasks.len() ==> #[trigger] tasks[i].parallelism.min <= tasks[i].parallelism.max
}

/// The character-level view of an optional string.
pub open spec fn opt_str_view(o: Option<String>) -> Option<Seq<char>> {
    match o {
        Some(s) => Some(s@),
        None => None,
    }
}

/// The character-level view of an optional string list.
pub open spec fn opt_strs_view(o: Option<Vec<String>>) -> Option<Seq<Seq<char>>> {
    match o {
        Some(v) => Some(v@.map_values(|s: String| s@)),
        None => None,
    }
}

/// The character-level view of an optional binding list.
pub open spec fn opt_pairs_view(o: Option<Vec<(String, String)>>) -> Option<
    Seq<(Seq<char>, Seq<char>)>,
> {
    match o {
        Some(v) => Some(crate::labels::pairs_view(v@)),
        None => None,
    }
}

/// Mathematical view of a container.
pub ghost struct ContainerView {
    pub name: Seq<char>,
    pub image: Option<Seq<char>>,
    pub command: Option<Seq<Seq<char>>>,
    pub args: Option<Seq<Seq<char>>>,
}

impl View for Container {
    type V = ContainerView;

    open spec fn view(&self) -> ContainerView {
        ContainerView {
            name: self.name@,
            image: opt_str_view(self.image),
            command: opt_strs_view(self.command),
            args: opt_strs_view(self.args),
        }
    }
}

/// Mathematical view of a pod specification.
pub ghost struct PodSpecView {
    pub containers: Seq<ContainerView>,
    pub init_containers: Option<Seq<ContainerView>>,
    pub restart_policy: Option<Seq<char>>,
    pub service_account: Option<Seq<char>>,
    pub service_account_name: Option<Seq<char>>,
    pub set_hostname_as_fqdn: Option<bool>,
    pub share_process_namespace: Option<bool>,
    pub subdomain: Option<Seq<char>>,
    pub termination_grace_period_seconds: Option<i64>,
}

impl View for PodSpec {
    type V = PodSpecView;

    open spec fn view(&self) -> PodSpecView {
        PodSpecView {
            containers: self.containers@.map_values(|c: Container| c@),
            init_containers: match self.init_containers {
                Some(v) => Some(v@.map_values(|c: Container| c@)),
                None => None,
            },
            restart_policy: opt_str_view(self.restart_policy),
            service_account: opt_str_view(self.service_account),
            service_account_name: opt_str_view(self.service_account_name),
            set_hostname_as_fqdn: self.set_hostname_as_fqdn,
            share_process_namespace: self.share_process_namespace,
            subdomain: opt_str_view(self.subdomain),
            termination_grace_period_seconds: self.termination_grace_period_seconds,
        }
    }
}

/// Copies an optional string; the copy is equal to the original.
pub fn copy_opt_string(o: &Option<String>) -> (r: Option<String>)
    ensures
        r == *o,
{
    match o {
        Some(s) => Some(s.clone()),
        None => None,
    }
}

/// Copies a string list element by element.
pub fn copy_str_vec(v: &Vec<String>) -> (r: Vec<String>)
    ensures
        r@ == v@,
{
    let mut out: Vec<String> = Vec::new();
    let mut i: usize = 0;
    while i < v.len()
        invariant
            0 <= i <= v@.len(),
            out@ =~= v@.take(i as int),
        decreases v@.len() - i,
    {
        out.push(v[i].clone());
        proof {
            assert(out@ =~= v@.take(i + 1));
        }
        i = i + 1;
    }
    proof {
        assert(v@.take(v@.len() as int) =~= v@);
    }
    out
}

pub fn copy_opt_str_vec(o: &Option<Vec<String>>) -> (r: Option<Vec<String>>)
    ensures
        opt_strs_view(r) == opt_strs_view(*o),
{
    match o {
        Some(v) => Some(copy_str_vec(v)),
        None => None,
    }
}

/// Copies a binding list element by element.
pub fn copy_pairs(v: &Vec<(String, String)>) -> (r: Vec<(String, String)>)
    ensures
        r@ == v@,
{
    let mut out: Vec<(String, String)> = Vec::new();
    let mut i: usize = 0;
    while i < v.len()
        invariant
            0 <= i <= v@.len(),
            out@ =~= v@.take(i as int),
        decreases v@.len() - i,
    {
        out.push((v[i].0.clone(), v[i].1.clone()));
        proof {
            assert(out@ =~= v@.take(i + 1));
        }
        i = i + 1;
    }
    proof {
        assert(v@.take(v@.len() as int) =~= v@);
    }
    out
}

pub fn copy_opt_pairs(o: &Option<Vec<(String, String)>>) -> (r: Option<Vec<(String, String)>>)
    ensures
        opt_pairs_view(r) == opt_pairs_view(*o),
{
    match o {
        Some(v) => Some(copy_pairs(v)),
        None => None,
    }
}

/// Copies a container; the copy has the same view.
pub fn copy_container(c: &Container) -> (r: Container)
    ensures
        r@ == c@,
{
    Container {
        name: c.name.clone(),
        image: copy_opt_string(&c.image),
        command: copy_opt_str_vec(&c.command),
        args: copy_opt_str_vec(&c.args),
    }
}

pub fn copy_container_vec(v: &Vec<Container>) -> (r: Vec<Container>)
    ensures
        r@.map_values(|c: Container| c@) == v@.map_values(|c: Container| c@),
{
    let mut out: Vec<Container> = Vec::new();
    let mut i: usize = 0;
    while i < v.len()
        invariant
            0 <= i <= v@.len(),
            out@.len() == i,
            forall|k: int| 0 <= k < i ==> #[trigger] out@[k]@ == v@[k]@,
        decreases v@.len() - i,
    {
        out.push(copy_container(&v[i]));
        i = i + 1;
    }
    proof {
        assert(out@.map_values(|c: Container| c@) =~= v@.map_values(|c: Container| c@));
    }
    out
}

/// Copies a pod specification; the copy has the same view, so a contract that
/// carries a template "verbatim" can speak of it.
pub fn copy_pod_spec(s: &PodSpec) -> (r: PodSpec)
    ensures
        r@ == s@,
{
    let init_containers = match &s.init_containers {
        Some(v) => Some(copy_container_vec(v)),
        None => None,
    };
    PodSpec {
        containers: copy_container_vec(&s.containers),
        init_containers,
        restart_policy: copy_opt_string(&s.restart_policy),
        service_account: copy_opt_string(&s.service_account),
        service_account_name: copy_opt_string(&s.service_account_name),
        set_hostname_as_fqdn: s.set_hostname_as_fqdn,
        share_process_namespace: s.share_process_namespace,
        subdomain: copy_opt_string(&s.subdomain),
        termination_grace_period_seconds: s.termination_grace_period_seconds,
    }
}

/// The name of the scheduler that dispatches pods when a Job names none.
pub fn default_scheduler() -> (r: String)
    ensures
        r@ == "default-scheduler"@,
{
    String::from_str("default-scheduler")
}

/// The replica bound assumed when a task leaves one unspecified.
pub fn default_parallelism() -> (r: u32)
    ensures
        r == 1u32,
{
    1
}

} // verus!
