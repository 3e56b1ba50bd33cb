//! Where a service lives: the project that holds it, the environment a
//! command acts on, and the dashboard address of that service.

use vstd::prelude::*;

use crate::model::{env_has_id, DeploymentCtx, Environment, Project, Service};
use crate::search::{
    first_match, lemma_first_match_first, lemma_first_match_found, lemma_first_match_none,
    lemma_first_match_none_inv, lemma_first_match_sat, lemma_first_match_some,
};
use crate::text::{
    chars_of, eq_ignore_ascii_case, eq_ignore_case, join, join_strings, push_chars, push_str,
    opt_seq, same_text, string_of, strip_end, strip_end_chars, views,
};

verus! {

// ---------------------------------------------------------------------------
// Locating a service
// ---------------------------------------------------------------------------

/// The predicate "is the service with id `id`".
pub open spec fn service_has_id(id: Seq<char>) -> spec_fn(Service) -> bool {
    |s: Service| s.id@ == id
}

/// The predicate "holds a service with id `id`".
pub open spec fn project_has_service(id: Seq<char>) -> spec_fn(Project) -> bool {
    |p: Project| first_match(p.service_seq(), service_has_id(id)) is Some
}

/// Where the service `id` is found when the projects are scanned in order,
/// and each project's services in order: (project index, service index).
pub open spec fn locate(projects: Seq<Project>, id: Seq<char>) -> Option<(int, int)> {
    match first_match(projects, project_has_service(id)) {
        Some(i) => Some((i, first_match(projects[i].service_seq(), service_has_id(id))->0)),
        None => None,
    }
}

/// Finds the service `service_id` among the projects.
pub fn locate_service(projects: &[Project], service_id: &str) -> (r: Option<(usize, usize)>)
    ensures
        r matches Some((i, j)) ==> locate(projects@, service_id@) == Some((i as int, j as int)),
        r is None <==> locate(projects@, service_id@) is None,
        r matches Some((i, j)) ==> i < projects@.len() && j < projects@[i as int].service_seq().len(),
{
    let ghost pp = project_has_service(service_id@);
    let ghost ps = service_has_id(service_id@);
    let mut i: usize = 0;
    while i < projects.len()
        invariant
            i <= projects.len(),
            pp == project_has_service(service_id@),
            ps == service_has_id(service_id@),
            forall|k: int| 0 <= k < i ==> !pp(#[trigger] projects@[k]),
        decreases projects.len() - i,
    {
        let svcs = projects[i].services();
        let ghost ss = projects@[i as int].service_seq();
        let mut j: usize = 0;
        while j < svcs.len()
            invariant
                j <= svcs.len(),
                i < projects.len(),
                ss == projects@[i as int].service_seq(),
                svcs@.len() == ss.len(),
                forall|k: int| 0 <= k < svcs@.len() ==> *svcs@[k] == ss[k],
                pp == project_has_service(service_id@),
                ps == service_has_id(service_id@),
                forall|k: int| 0 <= k < i ==> !pp(#[trigger] projects@[k]),
                forall|k: int| 0 <= k < j ==> !ps(#[trigger] ss[k]),
            decreases svcs.len() - j,
        {
            if same_text(svcs[j].id.as_str(), service_id) {
                proof {
                    lemma_first_match_found(ss, ps, j as int);
                    lemma_first_match_found(projects@, pp, i as int);
                }
                return Some((i, j));
            }
            j = j + 1;
        }
        proof {
            lemma_first_match_none(ss, ps);
        }
        i = i + 1;
    }
    proof {
        lemma_first_match_none(projects@, pp);
    }
    None
}

// ---------------------------------------------------------------------------
// The context of a command
// ---------------------------------------------------------------------------

/// The project, service and environment a command acts on.
pub struct Ctx {
    pub project_id: String,
    pub project_name: String,
    pub service_name: String,
    pub env_id: Option<String>,
    pub env_name: Option<String>,
}

/// Why no context could be found.
pub enum CtxError {
    /// No accessible project holds a service with this id.
    ServiceNotFound { service_id: String },
    /// The project of the service has no environment of the requested name;
    /// `available` lists the names it has.
    NoSuchEnvironment { project: String, requested: String, available: Vec<String> },
}

/// [`Ctx`] as plain texts.
pub struct CtxView {
    pub project_id: Seq<char>,
    pub project_name: Seq<char>,
    pub service_name: Seq<char>,
    pub env_id: Option<Seq<char>>,
    pub env_name: Option<Seq<char>>,
}

/// [`CtxError`] as plain texts.
pub enum CtxErrorView {
    ServiceNotFound { service_id: Seq<char> },
    NoSuchEnvironment { project: Seq<char>, requested: Seq<char>, available: Seq<Seq<char>> },
}

/// The text of an optional string.
pub open spec fn opt_view(o: Option<String>) -> Option<Seq<char>> {
    match o {
        Some(s) => Some(s@),
        None => None,
    }
}

impl View for Ctx {
    type V = CtxView;

    open spec fn view(&self) -> CtxView {
        CtxView {
            project_id: self.project_id@,
            project_name: self.project_name@,
            service_name: self.service_name@,
            env_id: opt_view(self.env_id),
            env_name: opt_view(self.env_name),
        }
    }
}

impl View for CtxError {
    type V = CtxErrorView;

    open spec fn view(&self) -> CtxErrorView {
        match self {
            CtxError::ServiceNotFound { service_id } => CtxErrorView::ServiceNotFound {
                service_id: service_id@,
            },
            CtxError::NoSuchEnvironment { project, requested, available } =>
                CtxErrorView::NoSuchEnvironment {
                project: project@,
                requested: requested@,
                available: views(available@),
            },
        }
    }
}

/// The predicate "is named `name`, ignoring ASCII case".
pub open spec fn env_named(name: Seq<char>) -> spec_fn(Environment) -> bool {
    |e: Environment| eq_ignore_case(e.name@, name)
}

/// The names of a list of environments.
pub open spec fn env_names(envs: Seq<Environment>) -> Seq<Seq<char>> {
    envs.map_values(|e: Environment| e.name@)
}

/// The environment id of a service's latest deployment.
pub open spec fn latest_env_id(s: Service) -> Option<Seq<char>> {
    match s.latest() {
        Some(d) => opt_view(d.environment_id),
        None => None,
    }
}

/// The context of service `sid`: the first project (in order) that holds it
/// and that project's first service with that id. With an environment name,
/// the first environment of the project whose name equals it ignoring ASCII
/// case, or an error listing the names there are; without one, the
/// environment of the service's latest deployment and that environment's
/// name in the project.
pub open spec fn ctx_spec(projects: Seq<Project>, sid: Seq<char>, env: Option<Seq<char>>) -> Result<
    CtxView,
    CtxErrorView,
> {
    match locate(projects, sid) {
        None => Err(CtxErrorView::ServiceNotFound { service_id: sid }),
        Some((i, j)) => {
            let p = projects[i];
            let s = p.service_seq()[j];
            match env {
                Some(name) => match first_match(p.env_seq(), env_named(name)) {
                    Some(k) => Ok(
                        CtxView {
                            project_id: p.id@,
                            project_name: p.name@,
                            service_name: s.name@,
                            env_id: Some(p.env_seq()[k].id@),
                            env_name: Some(p.env_seq()[k].name@),
                        },
                    ),
                    None => Err(
                        CtxErrorView::NoSuchEnvironment {
                            project: p.name@,
                            requested: name,
                            available: env_names(p.env_seq()),
                        },
                    ),
                },
                None => {
                    let eid = latest_env_id(s);
                    Ok(
                        CtxView {
                            project_id: p.id@,
                            project_name: p.name@,
                            service_name: s.name@,
                            env_id: eid,
                            env_name: match eid {
                                Some(id) => p.env_name_of(id),
                                None => None,
                            },
                        },
                    )
                },
            }
        },
    }
}

/// A copy of an optional text.
fn opt_string(o: Option<&str>) -> (r: Option<String>)
    ensures
        opt_view(r) == opt_seq(o),
{
    match o {
        Some(s) => Some(s.to_owned()),
        None => None,
    }
}

/// The names of the project's environments, in order.
fn collect_env_names(p: &Project) -> (r: Vec<String>)
    ensures
        views(r@) == env_names(p.env_seq()),
{
    let envs = p.environments();
    let ghost es = p.env_seq();
    let mut r: Vec<String> = Vec::new();
    let mut i: usize = 0;
    while i < envs.len()
        invariant
            i <= envs.len(),
            es == p.env_seq(),
            envs@.len() == es.len(),
            forall|x: int| 0 <= x < envs@.len() ==> *envs@[x] == es[x],
            views(r@) == env_names(es.take(i as int)),
        decreases envs.len() - i,
    {
        let e = envs[i];
        let nm = e.name.clone();
        assert(nm@ == es[i as int].name@);
        let ghost before = r@;
        r.push(nm);
        assert(views(r@) == views(before).push(nm@));
        assert(env_names(es.take(i + 1)) =~= env_names(es.take(i as int)).push(es[i as int].name@));
        i = i + 1;
    }
    assert(es.take(es.len() as int) =~= es);
    r
}

/// Finds the project, service and environment a command on service
/// `service_id` acts on (see [`ctx_spec`]).
#[verifier::loop_isolation(false)]
pub fn find_ctx(projects: &[Project], service_id: &str, env_name: Option<&str>) -> (r: Result<
    Ctx,
    CtxError,
>)
    ensures
        r matches Ok(c) ==> ctx_spec(projects@, service_id@, opt_seq(env_name)) == Ok::<
            CtxView,
            CtxErrorView,
        >(c@),
        r matches Err(e) ==> ctx_spec(projects@, service_id@, opt_seq(env_name)) == Err::<
            CtxView,
            CtxErrorView,
        >(e@),
{
    let found = locate_service(projects, service_id);
    let (i, j) = match found {
        None => {
            return Err(CtxError::ServiceNotFound { service_id: service_id.to_owned() });
        },
        Some(ij) => ij,
    };
    let p = &projects[i];
    let svcs = p.services();
    let s = svcs[j];
    let ghost sp = p.service_seq()[j as int];
    assert(*s == sp);
    match env_name {
        Some(name) => {
            let envs = p.environments();
            let ghost es = p.env_seq();
            let ghost pe = env_named(name@);
            let mut k: usize = 0;
            while k < envs.len()
                invariant
                    k <= envs.len(),
                    es == p.env_seq(),
                    envs@.len() == es.len(),
                    forall|x: int| 0 <= x < envs@.len() ==> *envs@[x] == es[x],
                    pe == env_named(name@),
                    forall|x: int| 0 <= x < k ==> !pe(#[trigger] es[x]),
                decreases envs.len() - k,
            {
                let e = envs[k];
                if eq_ignore_ascii_case(e.name.as_str(), name) {
                    proof {
                        lemma_first_match_found(es, pe, k as int);
                    }
                    return Ok(
                        Ctx {
                            project_id: p.id.clone(),
                            project_name: p.name.clone(),
                            service_name: s.name.clone(),
                            env_id: Some(e.id.clone()),
                            env_name: Some(e.name.clone()),
                        },
                    );
                }
                k = k + 1;
            }
            proof {
                lemma_first_match_none(es, pe);
            }
            let available = collect_env_names(p);
            Err(
                CtxError::NoSuchEnvironment {
                    project: p.name.clone(),
                    requested: name.to_owned(),
                    available,
                },
            )
        },
        None => {
            let eid: Option<String> = match s.latest_deployment() {
                Some(d) => match &d.environment_id {
                    Some(x) => Some(x.clone()),
                    None => None,
                },
                None => None,
            };
            let ename: Option<String> = match &eid {
                Some(id) => opt_string(p.env_name(id.as_str())),
                None => None,
            };
            Ok(
                Ctx {
                    project_id: p.id.clone(),
                    project_name: p.name.clone(),
                    service_name: s.name.clone(),
                    env_id: eid,
                    env_name: ename,
                },
            )
        },
    }
}

/// Finds the project id, project name, service name and environment id for
/// service `service_id`: the same lookup as [`find_ctx`], keeping those four.
pub fn find_service_context(projects: &[Project], service_id: &str, env_name: Option<&str>) -> (r:
    Result<(String, String, String, Option<String>), CtxError>)
    ensures
        r matches Ok((pid, pname, sname, eid)) ==> ctx_spec(
            projects@,
            service_id@,
            opt_seq(env_name),
        ) matches Ok(c) && c.project_id == pid@ && c.project_name == pname@ && c.service_name
            == sname@ && c.env_id == opt_view(eid),
        r matches Err(e) ==> ctx_spec(projects@, service_id@, opt_seq(env_name)) == Err::<
            CtxView,
            CtxErrorView,
        >(e@),
{
    match find_ctx(projects, service_id, env_name) {
        Ok(c) => Ok((c.project_id, c.project_name, c.service_name, c.env_id)),
        Err(e) => Err(e),
    }
}

/// A context is always that of the service asked for: its service and
/// project are a project of the list and one of that project's services with
/// the requested id; and an environment asked for by name is one of that
/// project's environments whose name equals it ignoring ASCII case.
pub proof fn ctx_law(projects: Seq<Project>, sid: Seq<char>, env: Option<Seq<char>>)
    ensures
        ctx_spec(projects, sid, env) matches Ok(c) ==> exists|i: int, j: int|
            0 <= i < projects.len() && 0 <= j < projects[i].service_seq().len()
                && #[trigger] projects[i].service_seq()[j].id@ == sid && c.project_id
                == projects[i].id@ && c.service_name == projects[i].service_seq()[j].name@,
        env matches Some(name) ==> (ctx_spec(projects, sid, env) matches Ok(c) ==> (
        c.env_name matches Some(n) && eq_ignore_case(n, name))),
        ctx_spec(projects, sid, env) matches Err(CtxErrorView::ServiceNotFound { .. }) ==> forall|
            i: int,
            j: int,
        |
            0 <= i < projects.len() && 0 <= j < projects[i].service_seq().len() ==> #[trigger] projects[i].service_seq()[j].id@
                != sid,
{
    lemma_first_match_sat(projects, project_has_service(sid));
    if let Some(i) = first_match(projects, project_has_service(sid)) {
        let p = projects[i];
        lemma_first_match_sat(p.service_seq(), service_has_id(sid));
        let j = first_match(p.service_seq(), service_has_id(sid))->0;
        assert(p.service_seq()[j].id@ == sid);
        if let Some(name) = env {
            lemma_first_match_sat(p.env_seq(), env_named(name));
            if let Some(k) = first_match(p.env_seq(), env_named(name)) {
                assert(env_named(name)(p.env_seq()[k]));
                assert(eq_ignore_case(p.env_seq()[k].name@, name));
            }
        }
    } else {
        assert forall|i: int, j: int|
            0 <= i < projects.len() && 0 <= j < projects[i].service_seq().len() implies #[trigger] projects[i].service_seq()[j].id@
                != sid by {
            lemma_first_match_none_inv(projects, project_has_service(sid), i);
            if projects[i].service_seq()[j].id@ == sid {
                lemma_first_match_some(projects[i].service_seq(), service_has_id(sid), j);
            }
        }
    }
}

/// `name` is what the environments `envs` call the environment `id`: the
/// name of the first environment whose id is `id`; nothing when there is no
/// id, or when no environment has it.
pub open spec fn names_environment(
    envs: Seq<Environment>,
    id: Option<Seq<char>>,
    name: Option<Seq<char>>,
) -> bool {
    match id {
        None => name is None,
        Some(e) => match name {
            Some(n) => exists|k: int|
                #![trigger envs[k]]
                0 <= k < envs.len() && envs[k].id@ == e && envs[k].name@ == n && forall|x: int|
                    0 <= x < k ==> #[trigger] envs[x].id@ != e,
            None => forall|k: int| 0 <= k < envs.len() ==> #[trigger] envs[k].id@ != e,
        },
    }
}

/// Without an environment name, the context of a service comes from the
/// first project (in order) that holds a service with its id, and from that
/// project's first such service: it names that project and service, its
/// environment is the one the service's latest deployment ran in (none when
/// the service has no deployment or the deployment names none), and the
/// environment's name is the one the project gives that environment.
pub proof fn ctx_without_env_law(projects: Seq<Project>, sid: Seq<char>, i: int, j: int)
    requires
        0 <= i < projects.len(),
        0 <= j < projects[i].service_seq().len(),
        projects[i].service_seq()[j].id@ == sid,
        forall|a: int, b: int|
            0 <= a < i && 0 <= b < projects[a].service_seq().len()
                ==> #[trigger] projects[a].service_seq()[b].id@ != sid,
        forall|b: int| 0 <= b < j ==> #[trigger] projects[i].service_seq()[b].id@ != sid,
    ensures
        ctx_spec(projects, sid, None) matches Ok(c) && c.project_id == projects[i].id@
            && c.project_name == projects[i].name@ && c.service_name
            == projects[i].service_seq()[j].name@ && c.env_id == (if projects[i].service_seq()[j].deployment_seq().len()
            > 0 {
            opt_view(projects[i].service_seq()[j].deployment_seq()[0].environment_id)
        } else {
            None
        }) && names_environment(projects[i].env_seq(), c.env_id, c.env_name),
{
    let p = projects[i];
    let ss = p.service_seq();
    let ps = service_has_id(sid);
    let pp = project_has_service(sid);
    lemma_first_match_found(ss, ps, j);
    assert forall|a: int| 0 <= a < i implies !pp(#[trigger] projects[a]) by {
        lemma_first_match_sat(projects[a].service_seq(), ps);
    }
    lemma_first_match_found(projects, pp, i);
    assert(locate(projects, sid) == Some((i, j)));
    if let Some(e) = latest_env_id(ss[j]) {
        env_name_law(p, e);
    }
}

/// The name a project gives an environment id is the name of its first
/// environment with that id, and nothing when none has it.
pub proof fn env_name_law(p: Project, id: Seq<char>)
    ensures
        names_environment(p.env_seq(), Some(id), p.env_name_of(id)),
{
    let es = p.env_seq();
    let pe = env_has_id(id);
    lemma_first_match_sat(es, pe);
    match first_match(es, pe) {
        Some(k) => {
            assert forall|x: int| 0 <= x < k implies #[trigger] es[x].id@ != id by {
                lemma_first_match_first(es, pe, x);
            }
            assert(es[k].id@ == id);
        },
        None => {
            assert forall|x: int| 0 <= x < es.len() implies #[trigger] es[x].id@ != id by {
                lemma_first_match_none_inv(es, pe, x);
            }
        },
    }
}

/// With an environment name, the context of a service found first at
/// project `i`, service `j` uses the first environment of that project whose
/// name equals the requested one ignoring ASCII case; when none does, the
/// error names the project, the request, and every environment name of the
/// project in order.
pub proof fn ctx_with_env_law(
    projects: Seq<Project>,
    sid: Seq<char>,
    i: int,
    j: int,
    name: Seq<char>,
)
    requires
        0 <= i < projects.len(),
        0 <= j < projects[i].service_seq().len(),
        projects[i].service_seq()[j].id@ == sid,
        forall|a: int, b: int|
            0 <= a < i && 0 <= b < projects[a].service_seq().len()
                ==> #[trigger] projects[a].service_seq()[b].id@ != sid,
        forall|b: int| 0 <= b < j ==> #[trigger] projects[i].service_seq()[b].id@ != sid,
    ensures
        ({
            let p = projects[i];
            let es = p.env_seq();
            match ctx_spec(projects, sid, Some(name)) {
                Ok(c) => exists|k: int|
                    #![trigger es[k]]
                    0 <= k < es.len() && eq_ignore_case(es[k].name@, name) && (forall|x: int|
                        0 <= x < k ==> !eq_ignore_case(#[trigger] es[x].name@, name))
                        && c.project_id == p.id@ && c.project_name == p.name@ && c.service_name
                        == p.service_seq()[j].name@ && c.env_id == Some(es[k].id@) && c.env_name
                        == Some(es[k].name@),
                Err(e) => {
                    &&& forall|x: int|
                        0 <= x < es.len() ==> !eq_ignore_case(#[trigger] es[x].name@, name)
                    &&& e is NoSuchEnvironment
                    &&& e->project == p.name@
                    &&& e->requested == name
                    &&& e->available.len() == es.len()
                    &&& forall|x: int|
                        0 <= x < es.len() ==> #[trigger] e->available[x] == es[x].name@
                },
            }
        }),
{
    let p = projects[i];
    let ss = p.service_seq();
    let ps = service_has_id(sid);
    let pp = project_has_service(sid);
    lemma_first_match_found(ss, ps, j);
    assert forall|a: int| 0 <= a < i implies !pp(#[trigger] projects[a]) by {
        lemma_first_match_sat(projects[a].service_seq(), ps);
    }
    lemma_first_match_found(projects, pp, i);
    assert(locate(projects, sid) == Some((i, j)));
    let es = p.env_seq();
    let pe = env_named(name);
    lemma_first_match_sat(es, pe);
    match first_match(es, pe) {
        Some(k) => {
            assert forall|x: int| 0 <= x < k implies !eq_ignore_case(
                #[trigger] es[x].name@,
                name,
            ) by {
                lemma_first_match_first(es, pe, x);
            }
            assert(eq_ignore_case(es[k].name@, name));
        },
        None => {
            assert forall|x: int| 0 <= x < es.len() implies !eq_ignore_case(
                #[trigger] es[x].name@,
                name,
            ) by {
                lemma_first_match_none_inv(es, pe, x);
            }
        },
    }
}

// ---------------------------------------------------------------------------
// Messages
// ---------------------------------------------------------------------------

/// What an error says.
pub open spec fn ctx_error_text(e: CtxErrorView) -> Seq<char> {
    match e {
        CtxErrorView::ServiceNotFound { service_id } => "service "@ + service_id
            + " not found in accessible projects"@,
        CtxErrorView::NoSuchEnvironment { project, requested, available } => "project '"@ + project
            + "' has no environment named '"@ + requested + "' (available: "@ + (if available.len()
            == 0 {
            "(none)"@
        } else {
            join(available, ", "@)
        }) + ")"@,
    }
}

impl CtxError {
    /// The message shown for the error.
    pub fn message(&self) -> (r: String)
        ensures
            r@ == ctx_error_text(self@),
    {
        let mut v: Vec<char> = Vec::new();
        match self {
            CtxError::ServiceNotFound { service_id } => {
                push_str(&mut v, "service ");
                push_str(&mut v, service_id.as_str());
                push_str(&mut v, " not found in accessible projects");
            },
            CtxError::NoSuchEnvironment { project, requested, available } => {
                push_str(&mut v, "project '");
                push_str(&mut v, project.as_str());
                push_str(&mut v, "' has no environment named '");
                push_str(&mut v, requested.as_str());
                push_str(&mut v, "' (available: ");
                if available.len() == 0 {
                    push_str(&mut v, "(none)");
                } else {
                    let joined = join_strings(available, ", ");
                    push_chars(&mut v, joined.as_slice());
                }
                push_str(&mut v, ")");
            },
        }
        string_of(v.as_slice())
    }
}

// ---------------------------------------------------------------------------
// Latest deployment of a service
// ---------------------------------------------------------------------------

/// Looks up service `service_id` (see [`locate`]) and returns its latest
/// deployment with the project name, the service name and the name of the
/// deployment's environment in that project; `None` when the service is not
/// found or has no deployment.
pub fn latest_deployment_in(projects: &[Project], service_id: &str) -> (r: Option<DeploymentCtx>)
    ensures
        match locate(projects@, service_id@) {
            None => r is None,
            Some((i, j)) => {
                let p = projects@[i];
                let s = p.service_seq()[j];
                match s.latest() {
                    None => r is None,
                    Some(d) => r matches Some(c) && c.deployment.same_as(d) && c.project_name@
                        == p.name@ && c.service_name@ == s.name@ && opt_view(c.env_name) == match d.environment_id {
                        Some(eid) => p.env_name_of(eid@),
                        None => None,
                    },
                }
            },
        },
{
    let (i, j) = match locate_service(projects, service_id) {
        None => {
            return None;
        },
        Some(ij) => ij,
    };
    let p = &projects[i];
    let svcs = p.services();
    let s = svcs[j];
    let dep = match s.latest_deployment() {
        None => {
            return None;
        },
        Some(d) => d.duplicate(),
    };
    let env_name: Option<String> = match &dep.environment_id {
        Some(eid) => opt_string(p.env_name(eid.as_str())),
        None => None,
    };
    Some(
        DeploymentCtx {
            deployment: dep,
            env_name,
            project_name: p.name.clone(),
            service_name: s.name.clone(),
        },
    )
}

// ---------------------------------------------------------------------------
// Dashboard address
// ---------------------------------------------------------------------------

/// The dashboard page of a service: `{base}/project/{project}?service={service}`
/// with trailing slashes of `base` removed, followed by
/// `&environmentId={env}` when an environment is known.
pub open spec fn dashboard_url_text(
    base: Seq<char>,
    project_id: Seq<char>,
    service_id: Seq<char>,
    env_id: Option<Seq<char>>,
) -> Seq<char> {
    strip_end(base, '/') + "/project/"@ + project_id + "?service="@ + service_id + match env_id {
        Some(e) => "&environmentId="@ + e,
        None => Seq::empty(),
    }
}

/// The dashboard address opened for a service.
pub fn dashboard_url(base: &str, project_id: &str, service_id: &str, env_id: Option<&str>) -> (r:
    String)
    ensures
        r@ == dashboard_url_text(base@, project_id@, service_id@, opt_seq(env_id)),
{
    let b = chars_of(base);
    let mut v = strip_end_chars(b.as_slice(), '/');
    push_str(&mut v, "/project/");
    push_str(&mut v, project_id);
    push_str(&mut v, "?service=");
    push_str(&mut v, service_id);
    match env_id {
        Some(e) => {
            push_str(&mut v, "&environmentId=");
            push_str(&mut v, e);
        },
        None => {
            assert(v@ =~= v@ + Seq::<char>::empty());
        },
    }
    string_of(v.as_slice())
}

} // verus!
