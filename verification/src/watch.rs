//! The decisions of following a deployment until it settles, and of picking
//! a service from a numbered list.

use vstd::prelude::*;

use crate::model::{Deployment, DeploymentStatus, Project, Service};
use crate::text::{
    chars_of, decimal, parse_decimal_law, parse_u64, parse_u64_spec, push_decimal, push_str,
    string_of, trim, trim_chars,
};

verus! {

// ---------------------------------------------------------------------------
// Following a deployment
// ---------------------------------------------------------------------------

/// How a followed deployment ended.
#[derive(Clone, Copy, Debug, PartialEq, Eq, Structural)]
pub enum Outcome {
    /// It succeeded; its address is shown.
    Succeeded,
    /// It failed or crashed; a hint to read its logs is shown.
    Failed,
    /// It ended in this other status.
    Finished(DeploymentStatus),
}

/// What to do next while following a deployment.
#[derive(Clone, Copy, Debug, PartialEq, Eq, Structural)]
pub enum WatchStep {
    /// Stop: the deployment has settled.
    Done(Outcome),
    /// Wait one interval, then fetch the deployment again.
    Wait,
}

/// The report for a final status.
pub open spec fn outcome_of(s: DeploymentStatus) -> Outcome {
    match s {
        DeploymentStatus::Success => Outcome::Succeeded,
        DeploymentStatus::Failed | DeploymentStatus::Crashed => Outcome::Failed,
        other => Outcome::Finished(other),
    }
}

/// The step for a status: stop with its report once it is terminal,
/// otherwise wait and poll again.
pub open spec fn step_of(s: DeploymentStatus) -> WatchStep {
    if s.terminal() {
        WatchStep::Done(outcome_of(s))
    } else {
        WatchStep::Wait
    }
}

/// The report for a final status.
pub fn outcome(status: DeploymentStatus) -> (o: Outcome)
    ensures
        o == outcome_of(status),
{
    match status {
        DeploymentStatus::Success => Outcome::Succeeded,
        DeploymentStatus::Failed | DeploymentStatus::Crashed => Outcome::Failed,
        other => Outcome::Finished(other),
    }
}

/// What to do next for the deployment being followed.
pub fn watch_step(current: &Deployment) -> (w: WatchStep)
    ensures
        w == step_of(current.status),
{
    if current.status.is_terminal() {
        WatchStep::Done(outcome(current.status))
    } else {
        WatchStep::Wait
    }
}

/// The deployment followed after a poll: the fetched one, or the same one
/// when fetching failed (the failure is only reported).
pub fn after_poll(current: Deployment, fetched: Option<Deployment>) -> (d: Deployment)
    ensures
        d == match fetched {
            Some(n) => n,
            None => current,
        },
{
    match fetched {
        Some(next) => next,
        None => current,
    }
}

/// The wait between polls in seconds: as asked, but at least one.
pub fn poll_interval(secs: u64) -> (r: u64)
    ensures
        r == if secs >= 1 {
            secs
        } else {
            1
        },
{
    if secs >= 1 {
        secs
    } else {
        1
    }
}

/// Following stops exactly at a terminal status; a stop reports success
/// only for `SUCCESS`, failure only for `FAILED` and `CRASHED`, and any
/// other stop is at `REMOVED` or `SKIPPED` (`REMOVING` and `UNKNOWN` keep
/// the follow going).
pub proof fn watch_law(s: DeploymentStatus)
    ensures
        step_of(s) is Done <==> s.terminal(),
        step_of(s) == WatchStep::Done(Outcome::Succeeded) <==> s == DeploymentStatus::Success,
        step_of(s) == WatchStep::Done(Outcome::Failed) <==> (s == DeploymentStatus::Failed || s
            == DeploymentStatus::Crashed),
        step_of(s) matches WatchStep::Done(Outcome::Finished(f)) ==> f == s && (s
            == DeploymentStatus::Removed || s == DeploymentStatus::Skipped),
{
}

// ---------------------------------------------------------------------------
// Picking a service
// ---------------------------------------------------------------------------

/// One entry of the service list: its label and the service id.
pub type ServiceOption = (String, String);

/// The label of a service: `"{project}  ›  {service}"`.
pub open spec fn option_label(p: Project, s: Service) -> Seq<char> {
    p.name@ + "  ›  "@ + s.name@
}

/// The (label, id) entries of the services of one project, in order.
pub open spec fn project_options(p: Project, svcs: Seq<Service>) -> Seq<(Seq<char>, Seq<char>)>
    decreases svcs.len(),
{
    if svcs.len() == 0 {
        Seq::empty()
    } else {
        project_options(p, svcs.drop_last()).push((option_label(p, svcs.last()), svcs.last().id@))
    }
}

/// Every service of every project, project by project.
pub open spec fn all_options(ps: Seq<Project>) -> Seq<(Seq<char>, Seq<char>)>
    decreases ps.len(),
{
    if ps.len() == 0 {
        Seq::empty()
    } else {
        all_options(ps.drop_last()) + project_options(ps.last(), ps.last().service_seq())
    }
}

/// The picker lists the services project by project and, within a
/// project, in order: splitting the project list or a project's service
/// list anywhere splits the entries the same way, and one service gives
/// one entry, labelled `"{project}  ›  {service}"` and carrying its id.
pub proof fn options_law(
    a: Seq<Project>,
    b: Seq<Project>,
    p: Project,
    x: Seq<Service>,
    y: Seq<Service>,
    s: Service,
)
    ensures
        all_options(a + b) == all_options(a) + all_options(b),
        all_options(seq![p]) == project_options(p, p.service_seq()),
        project_options(p, x + y) == project_options(p, x) + project_options(p, y),
        project_options(p, seq![s]) == seq![(p.name@ + "  ›  "@ + s.name@, s.id@)],
    decreases b.len() + y.len(),
{
    if b.len() > 0 {
        options_law(a, b.drop_last(), p, x, Seq::empty(), s);
        assert((a + b).drop_last() =~= a + b.drop_last());
        assert((a + b).last() == b.last());
        assert(all_options(a + b) =~= all_options(a) + all_options(b));
    } else {
        assert(a + b =~= a);
        assert(all_options(a + b) =~= all_options(a) + all_options(b));
    }
    if y.len() > 0 {
        options_law(a, Seq::empty(), p, x, y.drop_last(), s);
        assert((x + y).drop_last() =~= x + y.drop_last());
        assert((x + y).last() == y.last());
        assert(project_options(p, x + y) =~= project_options(p, x) + project_options(p, y));
    } else {
        assert(x + y =~= x);
        assert(project_options(p, x + y) =~= project_options(p, x) + project_options(p, y));
    }
    assert(seq![p].drop_last() =~= Seq::<Project>::empty());
    assert(seq![p].last() == p);
    assert(all_options(Seq::<Project>::empty()) == Seq::<(Seq<char>, Seq<char>)>::empty());
    assert(all_options(seq![p]) =~= project_options(p, p.service_seq()));
    assert(seq![s].drop_last() =~= Seq::<Service>::empty());
    assert(seq![s].last() == s);
    assert(project_options(p, Seq::<Service>::empty()) == Seq::<(Seq<char>, Seq<char>)>::empty());
    assert(option_label(p, s) == p.name@ + "  ›  "@ + s.name@);
    assert(project_options(p, seq![s]) =~= seq![(p.name@ + "  ›  "@ + s.name@, s.id@)]);
}

/// The entries as plain texts.
pub open spec fn options_view(v: Seq<ServiceOption>) -> Seq<(Seq<char>, Seq<char>)> {
    v.map_values(|o: ServiceOption| (o.0@, o.1@))
}

/// The numbered list the picker shows.
pub fn service_options(projects: &[Project]) -> (r: Vec<ServiceOption>)
    ensures
        options_view(r@) == all_options(projects@),
{
    let mut r: Vec<ServiceOption> = Vec::new();
    let mut i: usize = 0;
    while i < projects.len()
        invariant
            i <= projects.len(),
            options_view(r@) == all_options(projects@.take(i as int)),
        decreases projects.len() - i,
    {
        let p = &projects[i];
        let svcs = p.services();
        let ghost ss = p.service_seq();
        let ghost base = options_view(r@);
        let mut j: usize = 0;
        assert(base + project_options(*p, ss.take(0)) =~= base);
        while j < svcs.len()
            invariant
                j <= svcs.len(),
                ss == p.service_seq(),
                svcs@.len() == ss.len(),
                forall|k: int| 0 <= k < svcs@.len() ==> *svcs@[k] == ss[k],
                options_view(r@) == base + project_options(*p, ss.take(j as int)),
            decreases svcs.len() - j,
        {
            let s = svcs[j];
            let mut label: Vec<char> = Vec::new();
            push_str(&mut label, p.name.as_str());
            push_str(&mut label, "  ›  ");
            push_str(&mut label, s.name.as_str());
            let entry = (string_of(label.as_slice()), s.id.clone());
            let ghost before = options_view(r@);
            r.push(entry);
            assert(ss.take(j + 1).drop_last() =~= ss.take(j as int));
            assert(ss.take(j + 1).last() == *s);
            assert(options_view(r@) =~= before.push((option_label(*p, *s), s.id@)));
            j = j + 1;
        }
        assert(ss.take(ss.len() as int) =~= ss);
        assert(projects@.take(i + 1).drop_last() =~= projects@.take(i as int));
        assert(projects@.take(i + 1).last() == *p);
        i = i + 1;
    }
    assert(projects@.take(projects.len() as int) =~= projects@);
    r
}

/// Why an answer picks no entry.
pub enum SelectError {
    /// The answer is not a number; the list has `count` entries.
    NotANumber { count: usize },
    /// The number is not the number of an entry.
    OutOfRange,
}

/// `str::parse::<usize>`.
pub open spec fn parse_usize_spec(s: Seq<char>) -> Option<usize> {
    match parse_u64_spec(s) {
        Some(n) => if n <= usize::MAX {
            Some(n as usize)
        } else {
            None
        },
        None => None,
    }
}

/// The entry an answer picks: the trimmed answer read as a number `n`
/// from 1 to `count` picks entry `n - 1`.
pub open spec fn select_spec(count: nat, input: Seq<char>) -> Result<nat, SelectError> {
    match parse_usize_spec(trim(input)) {
        None => Err(SelectError::NotANumber { count: count as usize }),
        Some(n) => if 1 <= n && n <= count {
            Ok((n - 1) as nat)
        } else {
            Err(SelectError::OutOfRange)
        },
    }
}

/// The position of the entry the answer picks in a list of `count`.
pub fn select_option(count: usize, input: &str) -> (r: Result<usize, SelectError>)
    ensures
        r matches Ok(k) ==> select_spec(count as nat, input@) == Ok::<nat, SelectError>(k as nat),
        r matches Err(SelectError::NotANumber { count: c }) ==> select_spec(count as nat, input@)
            == Err::<nat, SelectError>(SelectError::NotANumber { count: c }) && c == count,
        r matches Err(SelectError::OutOfRange) ==> select_spec(count as nat, input@) == Err::<
            nat,
            SelectError,
        >(SelectError::OutOfRange),
{
    let ic = chars_of(input);
    let t = trim_chars(ic.as_slice());
    let n: usize = match parse_u64(t.as_slice()) {
        Some(n) => {
            if n <= usize::MAX as u64 {
                n as usize
            } else {
                return Err(SelectError::NotANumber { count });
            }
        },
        None => {
            return Err(SelectError::NotANumber { count });
        },
    };
    let k = n.wrapping_sub(1);
    if k < count {
        Ok(k)
    } else {
        Err(SelectError::OutOfRange)
    }
}

/// Answering with the number of an entry, written in decimal, picks that
/// entry: for a list of `count` entries, `n` from 1 to `count` (the last
/// included) gives position `n - 1`, and any other number is out of range.
pub proof fn select_number_law(count: nat, n: nat)
    requires
        n <= usize::MAX,
    ensures
        1 <= n <= count ==> select_spec(count, decimal(n)) == Ok::<nat, SelectError>(
            (n - 1) as nat,
        ),
        (n == 0 || n > count) ==> select_spec(count, decimal(n)) == Err::<nat, SelectError>(
            SelectError::OutOfRange,
        ),
{
    parse_decimal_law(n);
}

impl SelectError {
    /// The message shown for the error.
    pub fn message(&self) -> (r: String)
        ensures
            r@ == match self {
                SelectError::NotANumber { count } => "enter a number between 1 and "@ + decimal(
                    *count as nat,
                ),
                SelectError::OutOfRange => "selection out of range"@,
            },
    {
        let mut v: Vec<char> = Vec::new();
        match self {
            SelectError::NotANumber { count } => {
                push_str(&mut v, "enter a number between 1 and ");
                push_decimal(&mut v, *count);
            },
            SelectError::OutOfRange => {
                push_str(&mut v, "selection out of range");
            },
        }
        string_of(v.as_slice())
    }
}

} // verus!
