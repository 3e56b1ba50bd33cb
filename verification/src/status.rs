//! The health summary: how many services are up, which are broken and
//! which are still on their way.

use vstd::prelude::*;

use crate::model::{DeploymentStatus, Project, Service};
use crate::search::{
    keep, lemma_keep_disjoint, lemma_keep_empty, lemma_keep_ext, lemma_keep_len, lemma_keep_step,
};
use crate::text::{
    chars_of, contains_chars, contains_seq, lower_chars, lower_seq, nonblank, nonblank_chars,
    opt_seq, push_str, string_of, trim,
};

verus! {

/// The latest deployment status of one service.
pub struct ServiceStatus {
    pub project: String,
    pub service: String,
    pub status: DeploymentStatus,
}

/// A [`ServiceStatus`] as plain values.
pub type Entry = (Seq<char>, Seq<char>, DeploymentStatus);

impl View for ServiceStatus {
    type V = Entry;

    open spec fn view(&self) -> Entry {
        (self.project@, self.service@, self.status)
    }
}

impl ServiceStatus {
    /// A copy.
    pub fn copy(&self) -> (r: ServiceStatus)
        ensures
            r@ == self@,
    {
        ServiceStatus {
            project: self.project.clone(),
            service: self.service.clone(),
            status: self.status,
        }
    }
}

/// The counts and lists the summary prints.
pub struct StatusSummary {
    /// Services whose latest deployment succeeded.
    pub up: usize,
    /// Services that have a deployment at all.
    pub total: usize,
    /// Services whose latest deployment failed or crashed.
    pub broken: Vec<ServiceStatus>,
    /// Services whose latest deployment is queued, building or deploying.
    pub in_progress: Vec<ServiceStatus>,
}

/// Why there is nothing to summarize.
pub enum StatusError {
    /// No project name contains the query.
    NoProjectMatch { query: String },
}

/// The statuses counted as up.
pub open spec fn is_up(s: DeploymentStatus) -> bool {
    s == DeploymentStatus::Success
}

/// The statuses counted as broken.
pub open spec fn is_broken(s: DeploymentStatus) -> bool {
    s == DeploymentStatus::Failed || s == DeploymentStatus::Crashed
}

/// The statuses counted as in progress.
pub open spec fn is_pending(s: DeploymentStatus) -> bool {
    s == DeploymentStatus::Building || s == DeploymentStatus::Deploying || s
        == DeploymentStatus::Queued || s == DeploymentStatus::Initializing || s
        == DeploymentStatus::Waiting
}

pub open spec fn up_entry() -> spec_fn(Entry) -> bool {
    |e: Entry| is_up(e.2)
}

pub open spec fn broken_entry() -> spec_fn(Entry) -> bool {
    |e: Entry| is_broken(e.2)
}

pub open spec fn pending_entry() -> spec_fn(Entry) -> bool {
    |e: Entry| is_pending(e.2)
}

/// The services of one project that have a deployment, in order.
pub open spec fn service_entries(project: Seq<char>, svcs: Seq<Service>) -> Seq<Entry>
    decreases svcs.len(),
{
    if svcs.len() == 0 {
        Seq::empty()
    } else {
        let r = service_entries(project, svcs.drop_last());
        match svcs.last().latest() {
            Some(d) => r.push((project, svcs.last().name@, d.status)),
            None => r,
        }
    }
}

/// The services of all the projects that have a deployment, project by project.
pub open spec fn project_entries(ps: Seq<Project>) -> Seq<Entry>
    decreases ps.len(),
{
    if ps.len() == 0 {
        Seq::empty()
    } else {
        project_entries(ps.drop_last()) + service_entries(ps.last().name@, ps.last().service_seq())
    }
}

/// The predicate "the name contains `q`, ignoring ASCII case".
pub open spec fn name_matches(q: Seq<char>) -> spec_fn(Project) -> bool {
    |p: Project| contains_seq(lower_seq(p.name@), lower_seq(q))
}

/// The projects a query selects: all of them without a (non-blank) query;
/// otherwise those whose name contains it ignoring ASCII case, and an error
/// carrying the trimmed query when there is none.
pub open spec fn select_spec(ps: Seq<Project>, query: Option<Seq<char>>) -> Result<
    Seq<Project>,
    Seq<char>,
> {
    match nonblank(query) {
        None => Ok(ps),
        Some(q) => {
            let m = keep(ps, name_matches(q));
            if m.len() == 0 {
                Err(q)
            } else {
                Ok(m)
            }
        },
    }
}

/// The summary of a list of service statuses.
pub open spec fn summarizes(s: StatusSummary, es: Seq<Entry>) -> bool {
    &&& s.total == es.len()
    &&& s.up == keep(es, up_entry()).len()
    &&& s.broken@.map_values(|x: ServiceStatus| x@) == keep(es, broken_entry())
    &&& s.in_progress@.map_values(|x: ServiceStatus| x@) == keep(es, pending_entry())
}

/// The projects as values.
pub open spec fn deref_all(v: Seq<&Project>) -> Seq<Project> {
    v.map_values(|p: &Project| *p)
}

/// The projects the query selects (see [`select_spec`]).
pub fn select_projects<'a>(projects: &'a [Project], query: Option<&str>) -> (r: Result<
    Vec<&'a Project>,
    StatusError,
>)
    ensures
        r matches Ok(v) ==> select_spec(projects@, opt_seq(query)) == Ok::<Seq<Project>, Seq<char>>(
            deref_all(v@),
        ),
        r matches Err(StatusError::NoProjectMatch { query: q }) ==> select_spec(
            projects@,
            opt_seq(query),
        ) == Err::<Seq<Project>, Seq<char>>(q@),
{
    let mut v: Vec<&'a Project> = Vec::new();
    match nonblank_chars(query) {
        None => {
            let mut i: usize = 0;
            while i < projects.len()
                invariant
                    i <= projects.len(),
                    deref_all(v@) == projects@.take(i as int),
                decreases projects.len() - i,
            {
                let ghost before = v@;
                let pr = &projects[i];
                v.push(pr);
                assert(deref_all(v@) =~= deref_all(before).push(projects@[i as int]));
                assert(projects@.take(i + 1) =~= projects@.take(i as int).push(projects@[i as int]));
                i = i + 1;
            }
            assert(projects@.take(projects.len() as int) =~= projects@);
            Ok(v)
        },
        Some(q) => {
            let ql = lower_chars(q.as_slice());
            let ghost f = name_matches(q@);
            let mut i: usize = 0;
            assert(deref_all(v@) =~= keep(projects@.take(0), f));
            while i < projects.len()
                invariant
                    i <= projects.len(),
                    f == name_matches(q@),
                    ql@ == lower_seq(q@),
                    deref_all(v@) == keep(projects@.take(i as int), f),
                decreases projects.len() - i,
            {
                let nc = chars_of(projects[i].name.as_str());
                let nl = lower_chars(nc.as_slice());
                let hit = contains_chars(nl.as_slice(), ql.as_slice());
                proof {
                    lemma_keep_step(projects@, f, i as int);
                }
                if hit {
                    v.push(&projects[i]);
                }
                i = i + 1;
                assert(deref_all(v@) =~= keep(projects@.take(i as int), f));
            }
            assert(projects@.take(projects.len() as int) =~= projects@);
            if v.len() == 0 {
                Err(StatusError::NoProjectMatch { query: string_of(q.as_slice()) })
            } else {
                Ok(v)
            }
        },
    }
}

/// The statuses of the services of the projects, project by project.
pub fn collect_entries(projects: &Vec<&Project>) -> (r: Vec<ServiceStatus>)
    ensures
        r@.map_values(|x: ServiceStatus| x@) == project_entries(deref_all(projects@)),
{
    let ghost ps = deref_all(projects@);
    let mut r: Vec<ServiceStatus> = Vec::new();
    let mut i: usize = 0;
    while i < projects.len()
        invariant
            i <= projects.len(),
            ps == deref_all(projects@),
            r@.map_values(|x: ServiceStatus| x@) == project_entries(ps.take(i as int)),
        decreases projects.len() - i,
    {
        let p = projects[i];
        let svcs = p.services();
        let ghost ss = p.service_seq();
        let ghost base = r@.map_values(|x: ServiceStatus| x@);
        let mut j: usize = 0;
        assert(service_entries(p.name@, ss.take(0)) =~= Seq::<Entry>::empty());
        assert(base + service_entries(p.name@, ss.take(0)) =~= base);
        while j < svcs.len()
            invariant
                j <= svcs.len(),
                ss == p.service_seq(),
                svcs@.len() == ss.len(),
                forall|k: int| 0 <= k < svcs@.len() ==> *svcs@[k] == ss[k],
                r@.map_values(|x: ServiceStatus| x@) == base + service_entries(
                    p.name@,
                    ss.take(j as int),
                ),
            decreases svcs.len() - j,
        {
            let s = svcs[j];
            assert(ss.take(j + 1).drop_last() =~= ss.take(j as int));
            assert(ss.take(j + 1).last() == *s);
            match s.latest_deployment() {
                Some(d) => {
                    let e = ServiceStatus {
                        project: p.name.clone(),
                        service: s.name.clone(),
                        status: d.status,
                    };
                    let ghost before = r@.map_values(|x: ServiceStatus| x@);
                    r.push(e);
                    assert(r@.map_values(|x: ServiceStatus| x@) =~= before.push(e@));
                },
                None => {},
            }
            j = j + 1;
        }
        assert(ss.take(ss.len() as int) =~= ss);
        assert(ps.take(i + 1).drop_last() =~= ps.take(i as int));
        assert(ps.take(i + 1).last() == *p);
        i = i + 1;
    }
    assert(ps.take(ps.len() as int) =~= ps);
    r
}

/// Counts and sorts the statuses.
pub fn tally(entries: &Vec<ServiceStatus>) -> (s: StatusSummary)
    ensures
        summarizes(s, entries@.map_values(|x: ServiceStatus| x@)),
{
    let ghost es = entries@.map_values(|x: ServiceStatus| x@);
    let mut s = StatusSummary { up: 0, total: 0, broken: Vec::new(), in_progress: Vec::new() };
    let mut i: usize = 0;
    assert(es.take(0) =~= Seq::<Entry>::empty());
    assert(s.broken@.map_values(|x: ServiceStatus| x@) =~= keep(es.take(0), broken_entry()));
    assert(s.in_progress@.map_values(|x: ServiceStatus| x@) =~= keep(es.take(0), pending_entry()));
    while i < entries.len()
        invariant
            i <= entries.len(),
            es == entries@.map_values(|x: ServiceStatus| x@),
            summarizes(s, es.take(i as int)),
        decreases entries.len() - i,
    {
        let e = &entries[i];
        proof {
            lemma_keep_step(es, up_entry(), i as int);
            lemma_keep_step(es, broken_entry(), i as int);
            lemma_keep_step(es, pending_entry(), i as int);
            lemma_keep_len(es.take(i as int), up_entry());
            assert(es[i as int] == e@);
        }
        s.total = s.total + 1;
        match e.status {
            DeploymentStatus::Success => {
                s.up = s.up + 1;
            },
            DeploymentStatus::Failed | DeploymentStatus::Crashed => {
                let ghost before = s.broken@.map_values(|x: ServiceStatus| x@);
                s.broken.push(e.copy());
                assert(s.broken@.map_values(|x: ServiceStatus| x@) =~= before.push(e@));
            },
            DeploymentStatus::Building | DeploymentStatus::Deploying | DeploymentStatus::Queued
            | DeploymentStatus::Initializing | DeploymentStatus::Waiting => {
                let ghost before = s.in_progress@.map_values(|x: ServiceStatus| x@);
                s.in_progress.push(e.copy());
                assert(s.in_progress@.map_values(|x: ServiceStatus| x@) =~= before.push(e@));
            },
            _ => {},
        }
        i = i + 1;
    }
    assert(es.take(entries.len() as int) =~= es);
    s
}

/// The summary of the selected projects: every service of theirs with a
/// deployment, counted and sorted by its latest status.
pub open spec fn summary_spec(ps: Seq<Project>, query: Option<Seq<char>>) -> Result<
    Seq<Entry>,
    Seq<char>,
> {
    match select_spec(ps, query) {
        Ok(sel) => Ok(project_entries(sel)),
        Err(q) => Err(q),
    }
}

/// Summarizes the projects the query selects.
pub fn summarize(projects: &[Project], query: Option<&str>) -> (r: Result<StatusSummary, StatusError>)
    ensures
        r matches Ok(s) ==> summary_spec(projects@, opt_seq(query)) matches Ok(es) && summarizes(
            s,
            es,
        ),
        r matches Err(StatusError::NoProjectMatch { query: q }) ==> summary_spec(
            projects@,
            opt_seq(query),
        ) == Err::<Seq<Entry>, Seq<char>>(q@),
{
    match select_projects(projects, query) {
        Ok(sel) => {
            let entries = collect_entries(&sel);
            Ok(tally(&entries))
        },
        Err(e) => Err(e),
    }
}

/// The services counted for a list of projects are those counted for its
/// parts, in order, and likewise for a list of services of one project:
/// splitting a list anywhere splits what is counted the same way.
pub proof fn entries_concat_law(
    a: Seq<Project>,
    b: Seq<Project>,
    name: Seq<char>,
    x: Seq<Service>,
    y: Seq<Service>,
)
    ensures
        project_entries(a + b) == project_entries(a) + project_entries(b),
        service_entries(name, x + y) == service_entries(name, x) + service_entries(name, y),
    decreases b.len() + y.len(),
{
    if b.len() > 0 {
        entries_concat_law(a, b.drop_last(), name, x, Seq::empty());
        assert((a + b).drop_last() =~= a + b.drop_last());
        assert((a + b).last() == b.last());
        assert(project_entries(a + b) =~= project_entries(a) + project_entries(b));
    } else {
        assert(a + b =~= a);
        assert(project_entries(a + b) =~= project_entries(a) + project_entries(b));
    }
    if y.len() > 0 {
        entries_concat_law(a, Seq::empty(), name, x, y.drop_last());
        assert((x + y).drop_last() =~= x + y.drop_last());
        assert((x + y).last() == y.last());
        assert(service_entries(name, x + y) =~= service_entries(name, x) + service_entries(
            name,
            y,
        ));
    } else {
        assert(x + y =~= x);
        assert(service_entries(name, x + y) =~= service_entries(name, x) + service_entries(
            name,
            y,
        ));
    }
}

/// One project counts what its services count, under its own name; one
/// service is counted, with the status of the first deployment listed (its
/// latest), exactly when it has a deployment.
pub proof fn entries_single_law(p: Project, name: Seq<char>, s: Service)
    ensures
        project_entries(seq![p]) == service_entries(p.name@, p.service_seq()),
        service_entries(name, seq![s]) == if s.deployment_seq().len() > 0 {
            seq![(name, s.name@, s.deployment_seq()[0].status)]
        } else {
            Seq::<Entry>::empty()
        },
{
    assert(seq![p].drop_last() =~= Seq::<Project>::empty());
    assert(seq![p].last() == p);
    assert(project_entries(Seq::<Project>::empty()) == Seq::<Entry>::empty());
    assert(Seq::<Entry>::empty() + service_entries(p.name@, p.service_seq()) =~= service_entries(
        p.name@,
        p.service_seq(),
    ));
    assert(seq![s].drop_last() =~= Seq::<Service>::empty());
    assert(seq![s].last() == s);
    assert(service_entries(name, Seq::<Service>::empty()) == Seq::<Entry>::empty());
    assert(service_entries(name, seq![s]) =~= if s.deployment_seq().len() > 0 {
        seq![(name, s.name@, s.deployment_seq()[0].status)]
    } else {
        Seq::<Entry>::empty()
    });
}

/// Without a query, or with a blank one, every project is summarized. With
/// a query, the projects whose names contain the trimmed query, ignoring
/// ASCII case, are summarized, in order; when no name contains it, the
/// command fails with the trimmed query.
pub proof fn project_query_law(ps: Seq<Project>, query: Option<Seq<char>>)
    ensures
        match query {
            None => select_spec(ps, query) == Ok::<Seq<Project>, Seq<char>>(ps),
            Some(q) => if trim(q).len() == 0 {
                select_spec(ps, query) == Ok::<Seq<Project>, Seq<char>>(ps)
            } else if exists|i: int|
                0 <= i < ps.len() && contains_seq(
                    lower_seq((#[trigger] ps[i]).name@),
                    lower_seq(trim(q)),
                ) {
                select_spec(ps, query) == Ok::<Seq<Project>, Seq<char>>(
                    keep(ps, |p: Project| contains_seq(lower_seq(p.name@), lower_seq(trim(q)))),
                )
            } else {
                select_spec(ps, query) == Err::<Seq<Project>, Seq<char>>(trim(q))
            },
        },
{
    if let Some(q) = query {
        if trim(q).len() > 0 {
            let f = name_matches(trim(q));
            let g = |p: Project| contains_seq(lower_seq(p.name@), lower_seq(trim(q)));
            lemma_keep_ext(ps, f, g);
            lemma_keep_empty(ps, f);
            if exists|i: int|
                0 <= i < ps.len() && contains_seq(
                    lower_seq((#[trigger] ps[i]).name@),
                    lower_seq(trim(q)),
                ) {
                let i = choose|i: int|
                    0 <= i < ps.len() && contains_seq(
                        lower_seq((#[trigger] ps[i]).name@),
                        lower_seq(trim(q)),
                    );
                assert(f(ps[i]));
            }
        }
    }
}

/// Every counted service is in exactly one group at most: the up, broken
/// and in-progress services together never outnumber the services counted,
/// and no service is up unless its deployment succeeded.
pub proof fn summary_law(s: StatusSummary, es: Seq<Entry>)
    requires
        summarizes(s, es),
    ensures
        s.up + s.broken@.len() + s.in_progress@.len() <= s.total,
        forall|j: int| 0 <= j < s.broken@.len() ==> is_broken(#[trigger] s.broken@[j].status),
        forall|j: int| 0 <= j < s.in_progress@.len() ==> is_pending(
            #[trigger] s.in_progress@[j].status,
        ),
{
    lemma_keep_disjoint(es, up_entry(), broken_entry(), pending_entry());
    lemma_keep_all(es, broken_entry());
    lemma_keep_all(es, pending_entry());
    assert forall|j: int| 0 <= j < s.broken@.len() implies is_broken(
        #[trigger] s.broken@[j].status,
    ) by {
        assert(s.broken@.map_values(|x: ServiceStatus| x@)[j] == s.broken@[j]@);
    }
    assert forall|j: int| 0 <= j < s.in_progress@.len() implies is_pending(
        #[trigger] s.in_progress@[j].status,
    ) by {
        assert(s.in_progress@.map_values(|x: ServiceStatus| x@)[j] == s.in_progress@[j]@);
    }
}

/// `keep` depends only on which elements satisfy the predicate.
pub proof fn lemma_keep_same(es: Seq<Entry>, f: spec_fn(Entry) -> bool, g: spec_fn(Entry) -> bool)
    requires
        forall|e: Entry| #[trigger] f(e) == g(e),
    ensures
        keep(es, f) == keep(es, g),
    decreases es.len(),
{
    if es.len() > 0 {
        lemma_keep_same(es.drop_last(), f, g);
    }
}

/// The groups of a summary, stated on the statuses themselves: the up count
/// is the number of services whose latest deployment is SUCCESS; `broken`
/// lists, in order, exactly the services whose latest deployment is FAILED
/// or CRASHED; `in_progress` exactly those QUEUED, INITIALIZING, WAITING,
/// BUILDING or DEPLOYING; and every service with a deployment is counted.
pub proof fn summary_groups_law(s: StatusSummary, es: Seq<Entry>)
    requires
        summarizes(s, es),
    ensures
        s.total == es.len(),
        s.up == keep(es, |e: Entry| e.2 == DeploymentStatus::Success).len(),
        s.broken@.map_values(|x: ServiceStatus| x@) == keep(
            es,
            |e: Entry| e.2 == DeploymentStatus::Failed || e.2 == DeploymentStatus::Crashed,
        ),
        s.in_progress@.map_values(|x: ServiceStatus| x@) == keep(
            es,
            |e: Entry|
                e.2 == DeploymentStatus::Queued || e.2 == DeploymentStatus::Initializing || e.2
                    == DeploymentStatus::Waiting || e.2 == DeploymentStatus::Building || e.2
                    == DeploymentStatus::Deploying,
        ),
{
    lemma_keep_same(es, up_entry(), |e: Entry| e.2 == DeploymentStatus::Success);
    lemma_keep_same(
        es,
        broken_entry(),
        |e: Entry| e.2 == DeploymentStatus::Failed || e.2 == DeploymentStatus::Crashed,
    );
    lemma_keep_same(
        es,
        pending_entry(),
        |e: Entry|
            e.2 == DeploymentStatus::Queued || e.2 == DeploymentStatus::Initializing || e.2
                == DeploymentStatus::Waiting || e.2 == DeploymentStatus::Building || e.2
                == DeploymentStatus::Deploying,
    );
}

/// A service whose latest deployment failed or crashed is always reported:
/// some entry of `broken` names it.
pub proof fn failure_reported_law(s: StatusSummary, es: Seq<Entry>, i: int)
    requires
        summarizes(s, es),
        0 <= i < es.len(),
        es[i].2 == DeploymentStatus::Failed || es[i].2 == DeploymentStatus::Crashed,
    ensures
        exists|j: int| 0 <= j < s.broken@.len() && (#[trigger] s.broken@[j])@ == es[i],
        s.broken@.len() > 0,
{
    summary_groups_law(s, es);
    let f = |e: Entry| e.2 == DeploymentStatus::Failed || e.2 == DeploymentStatus::Crashed;
    let j = lemma_keep_contains(es, f, i);
    assert(s.broken@.map_values(|x: ServiceStatus| x@)[j] == s.broken@[j]@);
}

/// An element that satisfies the predicate is kept, at some position.
pub proof fn lemma_keep_contains(es: Seq<Entry>, f: spec_fn(Entry) -> bool, i: int) -> (j: int)
    requires
        0 <= i < es.len(),
        f(es[i]),
    ensures
        0 <= j < keep(es, f).len(),
        keep(es, f)[j] == es[i],
    decreases es.len(),
{
    if i == es.len() - 1 {
        keep(es.drop_last(), f).len() as int
    } else {
        assert(es.drop_last()[i] == es[i]);
        lemma_keep_contains(es.drop_last(), f, i)
    }
}

/// Everything `keep` keeps satisfies the predicate.
pub proof fn lemma_keep_all(es: Seq<Entry>, f: spec_fn(Entry) -> bool)
    ensures
        forall|j: int| 0 <= j < keep(es, f).len() ==> f(#[trigger] keep(es, f)[j]),
    decreases es.len(),
{
    if es.len() > 0 {
        lemma_keep_all(es.drop_last(), f);
        let prev = keep(es.drop_last(), f);
        if f(es.last()) {
            assert forall|j: int| 0 <= j < keep(es, f).len() implies f(#[trigger] keep(es, f)[j]) by {
                if j < prev.len() {
                    assert(keep(es, f)[j] == prev[j]);
                }
            }
        }
    }
}

impl StatusError {
    /// The message shown for the error.
    pub fn message(&self) -> (r: String)
        ensures
            r@ == match self {
                StatusError::NoProjectMatch { query } => "no project matches '"@ + query@ + "'"@,
            },
    {
        let mut v: Vec<char> = Vec::new();
        match self {
            StatusError::NoProjectMatch { query } => {
                push_str(&mut v, "no project matches '");
                push_str(&mut v, query.as_str());
                push_str(&mut v, "'");
            },
        }
        string_of(v.as_slice())
    }
}

} // verus!
