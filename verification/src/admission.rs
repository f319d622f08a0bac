//! Admission validation: the structural rules every incoming Job spec must
//! pass before it reaches storage, the synthesized template pod a dry-run
//! submits per task, and the rewriting of a dry-run failure onto the path of
//! the originating template field.

use vstd::prelude::*;

use crate::batch::{Job, JobSpec, TaskSpec};
use crate::desired::{template_annotations, template_labels, PodDesc};
use crate::text::{dec_rep, str_eq, u64_dec};

verus! {

/// The denial for a task whose minimum exceeds its maximum.
pub open spec fn min_max_message(name: Seq<char>) -> Seq<char> {
    "task `"@ + name + "` parallelism.min can't greater than parallelism.max"@
}

/// The first task, in list order, whose minimum exceeds its maximum.
pub open spec fn first_min_max_violation(tasks: Seq<TaskSpec>) -> Option<TaskSpec>
    decreases tasks.len(),
{
    if tasks.len() == 0 {
        None
    } else if tasks.first().parallelism.min > tasks.first().parallelism.max {
        Some(tasks.first())
    } else {
        first_min_max_violation(tasks.drop_first())
    }
}

/// The structural admission rules, in order, first failure winning: the task
/// list must be non-empty; every task needs `min <= max`; and at most one of
/// `priority` and `priorityClassName` may be set.  `None` means the spec is
/// accepted.
pub open spec fn validate_spec(spec: JobSpec) -> Option<Seq<char>> {
    if spec.tasks@.len() == 0 {
        Some("no task specified"@)
    } else {
        match first_min_max_violation(spec.tasks@) {
            Some(task) => Some(min_max_message(task.name@)),
            None => if spec.priority is Some && spec.priority_class_name is Some {
                Some("can't specify both priority and priorityClassName"@)
            } else {
                None
            },
        }
    }
}

proof fn lemma_no_violation_iff(tasks: Seq<TaskSpec>)
    ensures
        first_min_max_violation(tasks) is None <==> forall|i: int|
            0 <= i < tasks.len() ==> #[trigger] tasks[i].parallelism.min
                <= tasks[i].parallelism.max,
    decreases tasks.len(),
{
    if tasks.len() > 0 {
        let rest = tasks.drop_first();
        lemma_no_violation_iff(rest);
        if tasks.first().parallelism.min > tasks.first().parallelism.max {
            assert(tasks[0].parallelism.min > tasks[0].parallelism.max);
        } else if first_min_max_violation(rest) is None {
            assert forall|i: int|
                0 <= i < tasks.len() implies #[trigger] tasks[i].parallelism.min
                <= tasks[i].parallelism.max by {
                if i == 0 {
                    assert(tasks[0] == tasks.first());
                } else {
                    assert(rest[i - 1] == tasks[i]);
                }
            }
        } else {
            assert(exists|j: int|
                0 <= j < rest.len() && #[trigger] rest[j].parallelism.min
                    > rest[j].parallelism.max);
            let j = choose|j: int|
                0 <= j < rest.len() && #[trigger] rest[j].parallelism.min
                    > rest[j].parallelism.max;
            assert(tasks[j + 1] == rest[j]);
            assert(tasks[j + 1].parallelism.min > tasks[j + 1].parallelism.max);
        }
    }
}

/// Min/max enforcement at admission: with the other two rules satisfied, the
/// spec is denied exactly when some task has `min > max`.
pub proof fn lemma_min_max_admission(spec: JobSpec)
    requires
        spec.tasks@.len() > 0,
        !(spec.priority is Some && spec.priority_class_name is Some),
    ensures
        validate_spec(spec) is Some <==> exists|i: int|
            0 <= i < spec.tasks@.len() && #[trigger] spec.tasks@[i].parallelism.min
                > spec.tasks@[i].parallelism.max,
{
    lemma_no_violation_iff(spec.tasks@);
}

/// Priority exclusivity: with the other two rules satisfied, the spec is
/// denied exactly when both `priority` and `priorityClassName` are set, and
/// accepted when zero or one of them is.
pub proof fn lemma_priority_exclusivity(spec: JobSpec)
    requires
        spec.tasks@.len() > 0,
        forall|i: int|
            0 <= i < spec.tasks@.len() ==> #[trigger] spec.tasks@[i].parallelism.min
                <= spec.tasks@[i].parallelism.max,
    ensures
        validate_spec(spec) is Some <==> (spec.priority is Some
            && spec.priority_class_name is Some),
{
    lemma_no_violation_iff(spec.tasks@);
}

/// Validates a Job spec against the structural rules; an accepted spec
/// passes through unchanged, a denied one yields the first violated rule's
/// reason.
pub fn validate(spec: &JobSpec) -> (r: Result<(), String>)
    ensures
        r is Ok <==> validate_spec(*spec) is None,
        r matches Err(m) ==> validate_spec(*spec) == Some(m@),
{
    let ghost tasks = spec.tasks@;
    if spec.tasks.len() == 0 {
        return Err(String::from_str("no task specified"));
    }
    let mut k: usize = 0;
    proof {
        assert(tasks.skip(0) =~= tasks);
    }
    while k < spec.tasks.len()
        invariant
            0 <= k <= tasks.len(),
            tasks == spec.tasks@,
            first_min_max_violation(tasks) == first_min_max_violation(tasks.skip(k as int)),
        decreases tasks.len() - k,
    {
        proof {
            assert(tasks.skip(k as int).first() == tasks[k as int]);
        }
        let task = &spec.tasks[k];
        if task.parallelism.min > task.parallelism.max {
            let mut m = String::from_str("task `");
            m.append(task.name.as_str());
            m.append("` parallelism.min can't greater than parallelism.max");
            proof {
                assert(m@ =~= min_max_message(tasks[k as int].name@));
            }
            return Err(m);
        }
        proof {
            assert(tasks.skip(k as int).drop_first() =~= tasks.skip(k + 1));
        }
        k = k + 1;
    }
    proof {
        assert(tasks.skip(tasks.len() as int) =~= Seq::<TaskSpec>::empty());
    }
    if spec.priority.is_some() && spec.priority_class_name.is_some() {
        return Err(String::from_str("can't specify both priority and priorityClassName"));
    }
    Ok(())
}

/// The mutation step of the admission path: a deliberate no-op — this
/// controller never rewrites a spec on its way in.
pub fn mutate(job: Job) -> (r: Job)
    ensures
        r == job,
{
    job
}

/// The standalone pod a dry-run submits to exercise server-side validation
/// of one task's template: the task's name, its template metadata, its pod
/// spec verbatim, and no owner.
pub fn new_template_pod(task: &TaskSpec) -> (r: PodDesc)
    ensures
        r@.name == task.name@,
        r@.owner is None,
        r@.labels == template_labels(*task),
        r@.annotations == template_annotations(*task),
        r@.pod_spec == task.template.spec@,
{
    let labels: Vec<(String, String)> = match &task.template.metadata {
        Some(m) => match &m.labels {
            Some(l) => crate::batch::copy_pairs(l),
            None => Vec::new(),
        },
        None => Vec::new(),
    };
    let annotations = match &task.template.metadata {
        Some(m) => crate::batch::copy_opt_pairs(&m.annotations),
        None => None,
    };
    let r = PodDesc {
        name: task.name.clone(),
        owner: None,
        labels,
        annotations,
        spec: crate::batch::copy_pod_spec(&task.template.spec),
    };
    proof {
        assert(r@.labels =~= template_labels(*task));
    }
    r
}

/// The prefix the cluster API puts before a template error for a pod of this
/// name.
pub open spec fn invalid_prefix(pod_name: Seq<char>) -> Seq<char> {
    "Pod \""@ + pod_name + "\" is invalid: "@
}

/// `s` with every leading repetition of `p` removed, as
/// `str::trim_start_matches` strips it.
pub open spec fn trim_prefix_rec(s: Seq<char>, p: Seq<char>) -> Seq<char>
    decreases s.len(),
{
    if p.len() > 0 && s.len() >= p.len() && s.take(p.len() as int) == p {
        trim_prefix_rec(s.skip(p.len() as int), p)
    } else {
        s
    }
}

/// The denial a failed dry-run surfaces: the path of the originating
/// template field in the user's own resource, then the server's message
/// with the synthesized pod's prefix stripped.
pub open spec fn template_error_message(idx: nat, pod_name: Seq<char>, msg: Seq<char>) -> Seq<
    char,
> {
    "spec.tasks["@ + dec_rep(idx) + "].template."@ + trim_prefix_rec(msg, invalid_prefix(pod_name))
}

/// Whether `s` begins with `p`.
fn has_prefix(s: &str, p: &str) -> (r: bool)
    ensures
        r == (s@.len() >= p@.len() && s@.take(p@.len() as int) == p@),
{
    let sl = s.unicode_len();
    let pl = p.unicode_len();
    if sl < pl {
        return false;
    }
    let head = s.substring_char(0, pl);
    str_eq(head, p)
}

/// Strips every leading repetition of `p` from `s`.
fn trim_prefix_all(s: &str, p: &str) -> (r: String)
    ensures
        r@ == trim_prefix_rec(s@, p@),
{
    let mut cur = s.to_owned();
    if p.unicode_len() == 0 {
        return cur;
    }
    while has_prefix(cur.as_str(), p)
        invariant
            p@.len() > 0,
            trim_prefix_rec(s@, p@) == trim_prefix_rec(cur@, p@),
        decreases cur@.len(),
    {
        let pl = p.unicode_len();
        let cl = cur.as_str().unicode_len();
        let next = cur.as_str().substring_char(pl, cl);
        proof {
            assert(next@ =~= cur@.skip(p@.len() as int));
        }
        cur = next.to_owned();
    }
    cur
}

/// Rewrites a dry-run validation failure for task `idx` onto the path of
/// the originating template field.
pub fn rewrite_template_error(idx: usize, pod_name: &str, message: &str) -> (r: String)
    ensures
        r@ == template_error_message(idx as nat, pod_name@, message@),
{
    let mut prefix = String::from_str("Pod \"");
    prefix.append(pod_name);
    prefix.append("\" is invalid: ");
    proof {
        assert(prefix@ =~= invalid_prefix(pod_name@));
    }
    let trimmed = trim_prefix_all(message, prefix.as_str());
    let mut out = String::from_str("spec.tasks[");
    let d = u64_dec(idx as u64);
    out.append(d.as_str());
    out.append("].template.");
    out.append(trimmed.as_str());
    proof {
        assert(out@ =~= template_error_message(idx as nat, pod_name@, message@));
    }
    out
}

} // verus!
