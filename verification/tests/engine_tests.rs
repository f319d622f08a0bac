use habitat::batch::{
    Job, JobSpec, JobStatus, JobStatusPhase, ParallelismSpec, PodMeta, PodSpec, PodTemplate,
    TaskSpec,
};
use habitat::desired::{build_min_owned_pods, new_owned_label, pod_name};
use habitat::engine::{cleanup, error_policy, reconcile, Action, Error};
use habitat::labels::get_label;
use habitat::reclaim::is_excess;
use habitat::status::{derive_phase, ObservedPod, PhaseCounts};

fn empty_pod_spec() -> PodSpec {
    PodSpec {
        containers: Vec::new(),
        init_containers: None,
        restart_policy: None,
        service_account: None,
        service_account_name: None,
        set_hostname_as_fqdn: None,
        share_process_namespace: None,
        subdomain: None,
        termination_grace_period_seconds: None,
    }
}

fn task(name: &str, min: u32, max: u32) -> TaskSpec {
    TaskSpec {
        name: name.to_string(),
        parallelism: ParallelismSpec { min, max },
        template: PodTemplate { metadata: None, spec: empty_pod_spec() },
    }
}

fn job_of(name: &str, tasks: Vec<TaskSpec>, status: Option<JobStatus>) -> Job {
    Job {
        name: name.to_string(),
        spec: JobSpec { scheduler_name: None, tasks, priority: None, priority_class_name: None },
        status,
    }
}

fn owned_pod(job: &str, task_name: &str, index: u32, phase: Option<&str>, deleting: bool) -> ObservedPod {
    ObservedPod {
        name: format!("{task_name}-{index}"),
        labels: vec![
            ("habitat-task-owner".to_string(), job.to_string()),
            ("habitat-task".to_string(), task_name.to_string()),
        ],
        phase: phase.map(|p| p.to_string()),
        deleting,
    }
}

#[test]
fn first_reconcile_creates_the_floor() {
    // One task with min=1, max=2 and no pods yet: exactly task-0 is created,
    // nothing is deleted, the zero status is stamped first.
    let job = job_of("j", vec![task("task", 1, 2)], None);
    let plan = reconcile(&job, &Vec::new());
    assert!(plan.record_created);
    assert_eq!(plan.creates.len(), 1);
    assert_eq!(plan.creates[0].name, "task-0");
    assert_eq!(plan.creates[0].owner, Some("j".to_string()));
    assert!(plan.deletes.is_empty());
    let patch = plan.status.unwrap();
    assert_eq!(
        patch.counts,
        PhaseCounts { pending: 0, running: 0, succeeded: 0, failed: 0, terminating: 0 }
    );
    assert_eq!(patch.phase, None);
}

#[test]
fn observed_pod_phase_drives_the_status() {
    let job = job_of("j", vec![task("task", 1, 2)], Some(JobStatus::default()));
    for (phase, expect) in [("Pending", JobStatusPhase::Pending), ("Running", JobStatusPhase::Running)] {
        let pods = vec![owned_pod("j", "task", 0, Some(phase), false)];
        let plan = reconcile(&job, &pods);
        assert!(!plan.record_created);
        assert!(plan.creates.is_empty());
        assert!(plan.deletes.is_empty());
        let patch = plan.status.unwrap();
        assert_eq!(patch.phase, Some(expect));
    }
}

#[test]
fn reclaim_deletes_only_the_excess_index() {
    // task-0 and task-1 run below max=2 and stay; task-2 is excess and goes,
    // counted as terminating in the same cycle.
    let job = job_of("j", vec![task("task", 1, 2)], Some(JobStatus::default()));
    let pods = vec![
        owned_pod("j", "task", 0, Some("Running"), false),
        owned_pod("j", "task", 1, Some("Running"), false),
        owned_pod("j", "task", 2, None, false),
    ];
    let plan = reconcile(&job, &pods);
    assert!(plan.creates.is_empty());
    assert_eq!(plan.deletes, vec!["task-2".to_string()]);
    let patch = plan.status.unwrap();
    assert_eq!(patch.counts.running, 2);
    assert_eq!(patch.counts.terminating, 1);
    assert_eq!(patch.phase, Some(JobStatusPhase::Running));
}

#[test]
fn all_succeeded_job_succeeds() {
    let job = job_of("j", vec![task("task", 1, 2)], Some(JobStatus::default()));
    let pods = vec![owned_pod("j", "task", 0, Some("Succeeded"), false)];
    let plan = reconcile(&job, &pods);
    let patch = plan.status.unwrap();
    assert_eq!(patch.counts.succeeded, 1);
    assert_eq!(patch.phase, Some(JobStatusPhase::Succeeded));
}

#[test]
fn reconcile_is_idempotent_once_converged() {
    // After the first reconcile's creates land, further reconciles plan no
    // pod API calls at all.
    let job = job_of("j", vec![task("a", 2, 3), task("b", 1, 1)], None);
    let plan = reconcile(&job, &Vec::new());
    assert_eq!(plan.creates.len(), 3);
    let observed: Vec<ObservedPod> = plan
        .creates
        .iter()
        .map(|d| ObservedPod {
            name: d.name.clone(),
            labels: d.labels.clone(),
            phase: Some("Running".to_string()),
            deleting: false,
        })
        .collect();
    let job2 = job_of("j", vec![task("a", 2, 3), task("b", 1, 1)], Some(JobStatus::default()));
    let again = reconcile(&job2, &observed);
    assert!(again.creates.is_empty(), "second reconcile still creates pods");
    assert!(again.deletes.is_empty(), "second reconcile still deletes pods");
    let third = reconcile(&job2, &observed);
    assert!(third.creates.is_empty() && third.deletes.is_empty());
}

#[test]
fn terminal_job_is_left_alone() {
    for phase in [JobStatusPhase::Succeeded, JobStatusPhase::Failed, JobStatusPhase::Terminated] {
        let job = job_of(
            "j",
            vec![task("task", 1, 2)],
            Some(JobStatus { phase: Some(phase), ..JobStatus::default() }),
        );
        let pods = vec![owned_pod("j", "task", 5, Some("Running"), false)];
        let plan = reconcile(&job, &pods);
        assert!(!plan.record_created);
        assert!(plan.creates.is_empty());
        assert!(plan.deletes.is_empty());
        assert_eq!(plan.status, None);
    }
}

#[test]
fn deleting_pod_counts_as_terminating() {
    let job = job_of("j", vec![task("task", 1, 2)], Some(JobStatus::default()));
    let pods = vec![owned_pod("j", "task", 0, Some("Running"), true)];
    let plan = reconcile(&job, &pods);
    let patch = plan.status.unwrap();
    assert_eq!(patch.counts.running, 0, "deletion timestamp outranks the reported phase");
    assert_eq!(patch.counts.terminating, 1);
}

#[test]
fn unrecognised_phase_is_uncounted() {
    let job = job_of("j", vec![task("task", 1, 2)], Some(JobStatus::default()));
    let pods = vec![
        owned_pod("j", "task", 0, Some("Unknown"), false),
        owned_pod("j", "task", 1, None, false),
    ];
    let plan = reconcile(&job, &pods);
    let patch = plan.status.unwrap();
    assert_eq!(
        patch.counts,
        PhaseCounts { pending: 0, running: 0, succeeded: 0, failed: 0, terminating: 0 }
    );
    assert_eq!(patch.phase, None);
}

#[test]
fn excess_is_an_index_comparison() {
    // A pod is reclaimed exactly when its parsed index reaches its task's
    // maximum, never below the floor while min <= max.
    let tasks = vec![task("t", 2, 3)];
    for (index, excess) in [(0, false), (1, false), (2, false), (3, true), (4, true)] {
        let pod = owned_pod("j", "t", index, Some("Running"), false);
        assert_eq!(is_excess(&pod, &tasks), excess, "index {index}");
    }
}

#[test]
fn pod_without_parseable_index_is_kept() {
    let tasks = vec![task("t", 1, 1)];
    let mut pod = owned_pod("j", "t", 9, None, false);
    pod.name = "t-notanumber".to_string();
    assert!(!is_excess(&pod, &tasks));
    let mut unlabeled = owned_pod("j", "t", 9, None, false);
    unlabeled.labels.clear();
    assert!(!is_excess(&unlabeled, &tasks));
    let foreign = owned_pod("j", "other", 9, None, false);
    assert!(!is_excess(&foreign, &tasks));
}

#[test]
fn phase_precedence_table() {
    let cases: Vec<((u32, u32, u32, u32, u32), Option<JobStatusPhase>)> = vec![
        ((0, 1, 5, 5, 5), Some(JobStatusPhase::Running)),
        ((3, 2, 0, 0, 0), Some(JobStatusPhase::Running)),
        ((0, 0, 4, 0, 0), Some(JobStatusPhase::Succeeded)),
        ((0, 0, 4, 0, 1), None),
        ((0, 0, 4, 1, 0), Some(JobStatusPhase::Failed)),
        ((0, 0, 0, 2, 7), Some(JobStatusPhase::Failed)),
        ((1, 0, 0, 2, 0), Some(JobStatusPhase::Pending)),
        ((2, 0, 0, 0, 0), Some(JobStatusPhase::Pending)),
        ((0, 0, 0, 0, 0), None),
        ((0, 0, 0, 0, 3), None),
    ];
    for ((pending, running, succeeded, failed, terminating), expect) in cases {
        let counts = PhaseCounts { pending, running, succeeded, failed, terminating };
        assert_eq!(derive_phase(&counts), expect, "counts {counts:?}");
    }
}

#[test]
fn builder_produces_min_replicas_per_task() {
    let job = job_of("j", vec![task("a", 2, 5), task("b", 1, 1), task("c", 0, 4)], None);
    let pods = build_min_owned_pods(&job);
    let names: Vec<String> = pods.iter().map(|p| p.name.clone()).collect();
    assert_eq!(names, vec!["a-0".to_string(), "a-1".to_string(), "b-0".to_string()]);
    for p in &pods {
        assert_eq!(p.owner, Some("j".to_string()));
        assert!(p.labels.contains(&("habitat-task-owner".to_string(), "j".to_string())));
        assert_eq!(p.spec, empty_pod_spec());
    }
    assert!(pods[0].labels.contains(&("habitat-task".to_string(), "a".to_string())));
    assert!(pods[2].labels.contains(&("habitat-task".to_string(), "b".to_string())));
}

#[test]
fn correlation_keys_override_template_labels() {
    let mut t = task("a", 1, 1);
    t.template.metadata = Some(PodMeta {
        annotations: None,
        labels: Some(vec![
            ("app".to_string(), "demo".to_string()),
            ("habitat-task".to_string(), "bogus".to_string()),
        ]),
    });
    let job = job_of("j", vec![t], None);
    let pods = build_min_owned_pods(&job);
    assert_eq!(pods.len(), 1);
    // The later binding wins: the controller's task key overrides the
    // template's use of the same key, while other template labels survive.
    assert_eq!(get_label(&pods[0].labels, "habitat-task"), Some("a".to_string()));
    assert_eq!(get_label(&pods[0].labels, "habitat-task-owner"), Some("j".to_string()));
    assert_eq!(get_label(&pods[0].labels, "app"), Some("demo".to_string()));
}

#[test]
fn pod_names_and_selector() {
    assert_eq!(pod_name("task", 0), "task-0");
    assert_eq!(pod_name("a-b", 10), "a-b-10");
    let job = job_of("my-job", Vec::new(), None);
    assert_eq!(new_owned_label(&job), "habitat-task-owner=my-job");
}

#[test]
fn retry_policy_is_a_fixed_delay() {
    let job = job_of("j", Vec::new(), None);
    assert_eq!(
        error_policy(&job, &Error::Api("boom".to_string())),
        Action::RequeueAfterSecs(300)
    );
    assert_eq!(
        error_policy(&job, &Error::Finalizer("stuck".to_string())),
        Action::RequeueAfterSecs(300)
    );
    assert_eq!(cleanup(&job), Action::AwaitChange);
}
