use habitat::admission::{mutate, new_template_pod, rewrite_template_error, validate};
use habitat::batch::{
    Job, JobSpec, JobStatus, JobStatusPhase, ParallelismSpec, PodMeta, PodSpec, PodTemplate,
    TaskSpec,
};

fn empty_pod_spec() -> PodSpec {
    PodSpec {
        containers: Vec::new(),
        init_containers: None,
        restart_policy: None,
        service_account: None,
        service_account_name: None,
        set_hostname_as_fqdn: None,
        share_process_namespace: None,
        subdomain: None,
        termination_grace_period_seconds: None,
    }
}

fn task(name: &str, min: u32, max: u32) -> TaskSpec {
    TaskSpec {
        name: name.to_string(),
        parallelism: ParallelismSpec { min, max },
        template: PodTemplate { metadata: None, spec: empty_pod_spec() },
    }
}

fn spec_of(tasks: Vec<TaskSpec>) -> JobSpec {
    JobSpec { scheduler_name: None, tasks, priority: None, priority_class_name: None }
}

#[test]
fn empty_task_list_denied() {
    let spec = spec_of(Vec::new());
    let err = validate(&spec).unwrap_err();
    assert!(err.contains("no task specified"), "unexpected reason: {err}");
}

#[test]
fn min_above_max_denied() {
    let spec = spec_of(vec![task("t", 3, 2)]);
    let err = validate(&spec).unwrap_err();
    assert!(
        err.contains("parallelism.min can't greater than parallelism.max"),
        "unexpected reason: {err}"
    );
    assert_eq!(err, "task `t` parallelism.min can't greater than parallelism.max");
}

#[test]
fn first_violating_task_names_the_reason() {
    let spec = spec_of(vec![task("ok", 1, 1), task("bad1", 5, 4), task("bad2", 9, 2)]);
    let err = validate(&spec).unwrap_err();
    assert_eq!(err, "task `bad1` parallelism.min can't greater than parallelism.max");
}

#[test]
fn both_priority_fields_denied() {
    let mut spec = spec_of(vec![task("t", 1, 2)]);
    spec.priority = Some(1);
    spec.priority_class_name = Some("x".to_string());
    let err = validate(&spec).unwrap_err();
    assert!(
        err.contains("can't specify both priority and priorityClassName"),
        "unexpected reason: {err}"
    );
}

#[test]
fn validate_parallelism() {
    let valid = spec_of(vec![task("valid-job", 1, 2)]);
    assert!(validate(&valid).is_ok());
    let invalid = spec_of(vec![task("invalid-job", 3, 2)]);
    match validate(&invalid) {
        Ok(_) => panic!("invalid job is accepted by the admission"),
        Err(e) => assert!(
            e.contains("parallelism.min can't greater than parallelism.max"),
            "error is not caused by parallelism validation: {e}"
        ),
    }
}

#[test]
fn validate_priority() {
    let mut with_priority = spec_of(vec![task("valid-job1", 1, 2)]);
    with_priority.priority = Some(1);
    assert!(validate(&with_priority).is_ok());

    let mut with_class = spec_of(vec![task("valid-job1", 1, 2)]);
    with_class.priority_class_name = Some("system-node-critical".to_string());
    assert!(validate(&with_class).is_ok());

    let mut with_both = spec_of(vec![task("invalid-job", 1, 2)]);
    with_both.priority = Some(1);
    with_both.priority_class_name = Some("system-node-critical".to_string());
    match validate(&with_both) {
        Ok(_) => panic!("invalid job is accepted by the admission"),
        Err(e) => assert!(
            e.contains("can't specify both priority and priorityClassName"),
            "error is not caused by priority validation: {e}"
        ),
    }
}

#[test]
fn priority_checked_after_parallelism() {
    let mut spec = spec_of(vec![task("t", 3, 2)]);
    spec.priority = Some(1);
    spec.priority_class_name = Some("x".to_string());
    let err = validate(&spec).unwrap_err();
    assert!(err.contains("parallelism.min"), "unexpected reason: {err}");
}

#[test]
fn mutate_passes_job_through_unchanged() {
    let job = Job {
        name: "j".to_string(),
        spec: spec_of(vec![task("t", 1, 2)]),
        status: Some(JobStatus { phase: Some(JobStatusPhase::Running), ..JobStatus::default() }),
    };
    let out = mutate(job.clone());
    assert_eq!(out, job);
}

#[test]
fn template_pod_carries_template_verbatim() {
    let mut t = task("t", 1, 2);
    t.template.metadata = Some(PodMeta {
        annotations: Some(vec![("a".to_string(), "1".to_string())]),
        labels: Some(vec![("l".to_string(), "2".to_string())]),
    });
    t.template.spec.restart_policy = Some("Never".to_string());
    let pod = new_template_pod(&t);
    assert_eq!(pod.name, "t");
    assert_eq!(pod.owner, None);
    assert_eq!(pod.labels, vec![("l".to_string(), "2".to_string())]);
    assert_eq!(pod.annotations, Some(vec![("a".to_string(), "1".to_string())]));
    assert_eq!(pod.spec, t.template.spec);
}

#[test]
fn template_error_is_rewritten_onto_the_task_path() {
    let msg = "Pod \"t\" is invalid: spec.containers[0].image: required value";
    let out = rewrite_template_error(3, "t", msg);
    assert_eq!(out, "spec.tasks[3].template.spec.containers[0].image: required value");
}

#[test]
fn template_error_prefix_stripped_repeatedly() {
    // Every leading repetition of the prefix is removed, as
    // str::trim_start_matches strips it.
    let msg = "Pod \"p\" is invalid: Pod \"p\" is invalid: bad field";
    let out = rewrite_template_error(1, "p", msg);
    assert_eq!(out, "spec.tasks[1].template.bad field");
    assert_eq!(
        out,
        format!(
            "spec.tasks[1].template.{}",
            msg.trim_start_matches("Pod \"p\" is invalid: ")
        )
    );
}

#[test]
fn template_error_without_the_prefix_kept_whole() {
    let out = rewrite_template_error(0, "t", "connection refused");
    assert_eq!(out, "spec.tasks[0].template.connection refused");
}
