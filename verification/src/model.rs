//! The Railway API objects the commands read: projects, their environments
//! and services, deployments and log lines.

use vstd::prelude::*;

use crate::search::{
    first_match, lemma_first_match_first, lemma_first_match_found, lemma_first_match_none,
    lemma_first_match_none_inv, lemma_first_match_sat,
};
use crate::text::same_text;

verus! {

// ---------------------------------------------------------------------------
// Connections
// ---------------------------------------------------------------------------

/// A GraphQL connection: a list of edges, each holding one node.
pub struct Connection<T> {
    pub edges: Vec<Edge<T>>,
}

/// One edge of a [`Connection`].
pub struct Edge<T> {
    pub node: T,
}

/// The nodes of a list of edges, in order.
pub open spec fn edge_nodes<T>(edges: Seq<Edge<T>>) -> Seq<T> {
    edges.map_values(|e: Edge<T>| e.node)
}

/// The nodes of an optional connection (none when it is absent).
pub open spec fn conn_nodes<T>(c: Option<Connection<T>>) -> Seq<T> {
    match c {
        Some(c) => edge_nodes(c.edges@),
        None => Seq::empty(),
    }
}

impl<T> Connection<T> {
    /// The nodes of the connection, in order.
    pub open spec fn nodes(self) -> Seq<T> {
        edge_nodes(self.edges@)
    }

    /// The nodes, in the order of the edges.
    pub fn into_vec(self) -> (v: Vec<T>)
        ensures
            v@ == self.nodes(),
    {
        let ghost all = self.edges@;
        let mut v: Vec<T> = Vec::new();
        for e in it: self.edges
            invariant
                it.seq() == all,
                v@.len() == it.index(),
                forall|k: int| 0 <= k < v@.len() ==> v@[k] == all[k].node,
        {
            v.push(e.node);
        }
        assert(v@ =~= edge_nodes(all));
        v
    }
}

/// References to the nodes of an optional connection, in order.
fn node_refs<T>(c: &Option<Connection<T>>) -> (r: Vec<&T>)
    ensures
        r@.len() == conn_nodes(*c).len(),
        forall|i: int| 0 <= i < r@.len() ==> *r@[i] == conn_nodes(*c)[i],
{
    let mut r: Vec<&T> = Vec::new();
    match c {
        Some(conn) => {
            let mut i: usize = 0;
            while i < conn.edges.len()
                invariant
                    *c == Some(*conn),
                    i <= conn.edges.len(),
                    r@.len() == i,
                    forall|k: int| 0 <= k < i ==> *r@[k] == conn.edges@[k].node,
                decreases conn.edges.len() - i,
            {
                r.push(&conn.edges[i].node);
                i = i + 1;
            }
        },
        None => {},
    }
    r
}

// ---------------------------------------------------------------------------
// Deployment status
// ---------------------------------------------------------------------------

/// The state of a deployment as the API reports it.
#[derive(Clone, Copy, Debug, PartialEq, Eq, Structural)]
pub enum DeploymentStatus {
    Queued,
    Initializing,
    Waiting,
    Building,
    Deploying,
    Success,
    Failed,
    Crashed,
    Removed,
    Removing,
    Skipped,
    Unknown,
}

impl DeploymentStatus {
    /// The statuses after which a deployment no longer changes.
    pub open spec fn terminal(self) -> bool {
        match self {
            DeploymentStatus::Success | DeploymentStatus::Failed | DeploymentStatus::Crashed
            | DeploymentStatus::Removed | DeploymentStatus::Skipped => true,
            _ => false,
        }
    }

    /// The wire name of each status.
    pub open spec fn label_text(self) -> Seq<char> {
        match self {
            DeploymentStatus::Queued => "QUEUED"@,
            DeploymentStatus::Initializing => "INITIALIZING"@,
            DeploymentStatus::Waiting => "WAITING"@,
            DeploymentStatus::Building => "BUILDING"@,
            DeploymentStatus::Deploying => "DEPLOYING"@,
            DeploymentStatus::Success => "SUCCESS"@,
            DeploymentStatus::Failed => "FAILED"@,
            DeploymentStatus::Crashed => "CRASHED"@,
            DeploymentStatus::Removed => "REMOVED"@,
            DeploymentStatus::Removing => "REMOVING"@,
            DeploymentStatus::Skipped => "SKIPPED"@,
            DeploymentStatus::Unknown => "UNKNOWN"@,
        }
    }

    /// Whether the deployment has reached a final state.
    pub fn is_terminal(self) -> (b: bool)
        ensures
            b == self.terminal(),
    {
        match self {
            DeploymentStatus::Success | DeploymentStatus::Failed | DeploymentStatus::Crashed
            | DeploymentStatus::Removed | DeploymentStatus::Skipped => true,
            _ => false,
        }
    }

    /// The upper-case name of the status.
    pub fn label(self) -> (s: &'static str)
        ensures
            s@ == self.label_text(),
    {
        match self {
            DeploymentStatus::Queued => "QUEUED",
            DeploymentStatus::Initializing => "INITIALIZING",
            DeploymentStatus::Waiting => "WAITING",
            DeploymentStatus::Building => "BUILDING",
            DeploymentStatus::Deploying => "DEPLOYING",
            DeploymentStatus::Success => "SUCCESS",
            DeploymentStatus::Failed => "FAILED",
            DeploymentStatus::Crashed => "CRASHED",
            DeploymentStatus::Removed => "REMOVED",
            DeploymentStatus::Removing => "REMOVING",
            DeploymentStatus::Skipped => "SKIPPED",
            DeploymentStatus::Unknown => "UNKNOWN",
        }
    }
}

/// The status a wire name denotes; any name not listed is `UNKNOWN`.
pub open spec fn status_from_text(s: Seq<char>) -> DeploymentStatus {
    if s == DeploymentStatus::Queued.label_text() {
        DeploymentStatus::Queued
    } else if s == DeploymentStatus::Initializing.label_text() {
        DeploymentStatus::Initializing
    } else if s == DeploymentStatus::Waiting.label_text() {
        DeploymentStatus::Waiting
    } else if s == DeploymentStatus::Building.label_text() {
        DeploymentStatus::Building
    } else if s == DeploymentStatus::Deploying.label_text() {
        DeploymentStatus::Deploying
    } else if s == DeploymentStatus::Success.label_text() {
        DeploymentStatus::Success
    } else if s == DeploymentStatus::Failed.label_text() {
        DeploymentStatus::Failed
    } else if s == DeploymentStatus::Crashed.label_text() {
        DeploymentStatus::Crashed
    } else if s == DeploymentStatus::Removed.label_text() {
        DeploymentStatus::Removed
    } else if s == DeploymentStatus::Removing.label_text() {
        DeploymentStatus::Removing
    } else if s == DeploymentStatus::Skipped.label_text() {
        DeploymentStatus::Skipped
    } else {
        DeploymentStatus::Unknown
    }
}

impl DeploymentStatus {
    /// The status the API's name for it denotes (names it does not know
    /// become `Unknown`).
    pub fn from_label(s: &str) -> (r: DeploymentStatus)
        ensures
            r == status_from_text(s@),
    {
        if same_text(s, "QUEUED") {
            DeploymentStatus::Queued
        } else if same_text(s, "INITIALIZING") {
            DeploymentStatus::Initializing
        } else if same_text(s, "WAITING") {
            DeploymentStatus::Waiting
        } else if same_text(s, "BUILDING") {
            DeploymentStatus::Building
        } else if same_text(s, "DEPLOYING") {
            DeploymentStatus::Deploying
        } else if same_text(s, "SUCCESS") {
            DeploymentStatus::Success
        } else if same_text(s, "FAILED") {
            DeploymentStatus::Failed
        } else if same_text(s, "CRASHED") {
            DeploymentStatus::Crashed
        } else if same_text(s, "REMOVED") {
            DeploymentStatus::Removed
        } else if same_text(s, "REMOVING") {
            DeploymentStatus::Removing
        } else if same_text(s, "SKIPPED") {
            DeploymentStatus::Skipped
        } else {
            DeploymentStatus::Unknown
        }
    }
}

/// Different statuses have different names.
pub proof fn lemma_label_injective(a: DeploymentStatus, b: DeploymentStatus)
    requires
        a != b,
    ensures
        a.label_text() != b.label_text(),
{
    reveal_strlit("QUEUED");
    reveal_strlit("INITIALIZING");
    reveal_strlit("WAITING");
    reveal_strlit("BUILDING");
    reveal_strlit("DEPLOYING");
    reveal_strlit("SUCCESS");
    reveal_strlit("FAILED");
    reveal_strlit("CRASHED");
    reveal_strlit("REMOVED");
    reveal_strlit("REMOVING");
    reveal_strlit("SKIPPED");
    reveal_strlit("UNKNOWN");
    assert(a.label_text().len() != b.label_text().len() || a.label_text()[0] != b.label_text()[0]
        || a.label_text()[1] != b.label_text()[1]);
}

/// Reading back the name of a status gives that status: every status has
/// its own name.
pub proof fn label_roundtrip(st: DeploymentStatus)
    ensures
        status_from_text(st.label_text()) == st,
{
    assert forall|o: DeploymentStatus| o != st implies #[trigger] o.label_text() != st.label_text() by {
        lemma_label_injective(o, st);
    }
}

// ---------------------------------------------------------------------------
// Objects
// ---------------------------------------------------------------------------

/// The account a token belongs to.
pub struct Me {
    pub id: String,
    pub name: Option<String>,
    pub email: Option<String>,
}

/// An environment of a project.
pub struct Environment {
    pub id: String,
    pub name: String,
}

/// One deployment. `meta` holds the string-valued members of the
/// deployment's metadata object (`commitHash`, `commitMessage`, ...), in
/// the order the API sent them; it is `None` when the API sent no metadata.
pub struct Deployment {
    pub id: String,
    pub status: DeploymentStatus,
    pub created_at: Option<String>,
    pub static_url: Option<String>,
    pub meta: Option<Vec<(String, String)>>,
    pub environment_id: Option<String>,
}

/// A service and (at most) its latest deployment.
pub struct Service {
    pub id: String,
    pub name: String,
    pub deployments: Option<Connection<Deployment>>,
}

/// A project with its environments and services.
pub struct Project {
    pub id: String,
    pub name: String,
    pub services: Option<Connection<Service>>,
    pub environments: Option<Connection<Environment>>,
}

/// The latest deployment of a service with the names of where it runs.
pub struct DeploymentCtx {
    pub deployment: Deployment,
    pub env_name: Option<String>,
    pub project_name: String,
    pub service_name: String,
}

/// One line of build or deploy output.
pub struct LogLine {
    pub message: String,
    pub timestamp: Option<String>,
    pub severity: Option<String>,
}

// ---------------------------------------------------------------------------
// Copies with a contract
// ---------------------------------------------------------------------------

/// A copy of an optional text.
pub fn copy_opt(s: &Option<String>) -> (r: Option<String>)
    ensures
        r == *s,
{
    match s {
        Some(t) => Some(t.clone()),
        None => None,
    }
}

/// A copy of a list of key/value texts.
pub fn copy_pairs(v: &Vec<(String, String)>) -> (r: Vec<(String, String)>)
    ensures
        r@ == v@,
{
    let mut r: Vec<(String, String)> = Vec::new();
    let mut i: usize = 0;
    while i < v.len()
        invariant
            i <= v.len(),
            r@ == v@.take(i as int),
        decreases v.len() - i,
    {
        let k = v[i].0.clone();
        let x = v[i].1.clone();
        r.push((k, x));
        i = i + 1;
        assert(r@ =~= v@.take(i as int));
    }
    assert(v@.take(v.len() as int) =~= v@);
    r
}

impl Deployment {
    /// The same deployment: equal fields, metadata compared by content.
    pub open spec fn same_as(self, other: Deployment) -> bool {
        &&& self.id == other.id
        &&& self.status == other.status
        &&& self.created_at == other.created_at
        &&& self.static_url == other.static_url
        &&& self.meta_seq() == other.meta_seq()
        &&& self.environment_id == other.environment_id
    }

    /// A field-by-field copy.
    pub fn duplicate(&self) -> (r: Deployment)
        ensures
            r.same_as(*self),
    {
        let meta = match &self.meta {
            Some(m) => Some(copy_pairs(m)),
            None => None,
        };
        Deployment {
            id: self.id.clone(),
            status: self.status,
            created_at: copy_opt(&self.created_at),
            static_url: copy_opt(&self.static_url),
            meta,
            environment_id: copy_opt(&self.environment_id),
        }
    }
}

// ---------------------------------------------------------------------------
// Metadata
// ---------------------------------------------------------------------------

/// The predicate "is the member named `key`".
pub open spec fn key_is(key: Seq<char>) -> spec_fn((String, String)) -> bool {
    |e: (String, String)| e.0@ == key
}

/// The value the metadata holds under `key`, if it holds a text there.
pub open spec fn meta_get(meta: Option<Seq<(String, String)>>, key: Seq<char>) -> Option<Seq<char>> {
    match meta {
        Some(m) => match first_match(m, key_is(key)) {
            Some(i) => Some(m[i].1@),
            None => None,
        },
        None => None,
    }
}

/// A metadata lookup gives the value of the first member with that name,
/// and nothing when no member has it or there is no metadata at all.
pub proof fn meta_get_law(m: Seq<(String, String)>, key: Seq<char>)
    ensures
        meta_get(None, key) is None,
        meta_get(Some(m), key) is None <==> forall|i: int| 0 <= i < m.len() ==> (#[trigger] m[i]).0@
            != key,
        meta_get(Some(m), key) matches Some(v) ==> exists|k: int|
            #![trigger m[k]]
            0 <= k < m.len() && m[k].0@ == key && v == m[k].1@ && forall|x: int|
                0 <= x < k ==> (#[trigger] m[x]).0@ != key,
{
    let f = key_is(key);
    lemma_first_match_sat(m, f);
    match first_match(m, f) {
        Some(k) => {
            assert forall|x: int| 0 <= x < k implies (#[trigger] m[x]).0@ != key by {
                lemma_first_match_first(m, f, x);
            }
            assert(m[k].0@ == key);
        },
        None => {
            assert forall|i: int| 0 <= i < m.len() implies (#[trigger] m[i]).0@ != key by {
                lemma_first_match_none_inv(m, f, i);
            }
        },
    }
}

impl Deployment {
    /// The metadata of the deployment as a sequence.
    pub open spec fn meta_seq(self) -> Option<Seq<(String, String)>> {
        match self.meta {
            Some(m) => Some(m@),
            None => None,
        }
    }

    /// The text the metadata holds under `key`.
    pub fn meta_str(&self, key: &str) -> (r: Option<&str>)
        ensures
            r matches Some(t) ==> meta_get(self.meta_seq(), key@) == Some(t@),
            r is None <==> meta_get(self.meta_seq(), key@) is None,
    {
        match &self.meta {
            None => None,
            Some(m) => {
                let ghost p = key_is(key@);
                let mut i: usize = 0;
                while i < m.len()
                    invariant
                        i <= m.len(),
                        p == key_is(key@),
                        self.meta_seq() == Some(m@),
                        forall|j: int| 0 <= j < i ==> !p(#[trigger] m@[j]),
                    decreases m.len() - i,
                {
                    if same_text(m[i].0.as_str(), key) {
                        proof {
                            lemma_first_match_found(m@, p, i as int);
                        }
                        return Some(m[i].1.as_str());
                    }
                    i = i + 1;
                }
                proof {
                    lemma_first_match_none(m@, p);
                }
                None
            },
        }
    }

    /// The commit hash the deployment was built from.
    pub fn commit_hash(&self) -> (r: Option<&str>)
        ensures
            r matches Some(t) ==> meta_get(self.meta_seq(), "commitHash"@) == Some(t@),
            r is None <==> meta_get(self.meta_seq(), "commitHash"@) is None,
    {
        self.meta_str("commitHash")
    }

    /// The message of that commit.
    pub fn commit_message(&self) -> (r: Option<&str>)
        ensures
            r matches Some(t) ==> meta_get(self.meta_seq(), "commitMessage"@) == Some(t@),
            r is None <==> meta_get(self.meta_seq(), "commitMessage"@) is None,
    {
        self.meta_str("commitMessage")
    }

    /// The author of that commit.
    pub fn commit_author(&self) -> (r: Option<&str>)
        ensures
            r matches Some(t) ==> meta_get(self.meta_seq(), "commitAuthor"@) == Some(t@),
            r is None <==> meta_get(self.meta_seq(), "commitAuthor"@) is None,
    {
        self.meta_str("commitAuthor")
    }

    /// The image the deployment runs, for image-based services.
    pub fn image(&self) -> (r: Option<&str>)
        ensures
            r matches Some(t) ==> meta_get(self.meta_seq(), "image"@) == Some(t@),
            r is None <==> meta_get(self.meta_seq(), "image"@) is None,
    {
        self.meta_str("image")
    }
}

// ---------------------------------------------------------------------------
// Projects and services
// ---------------------------------------------------------------------------

impl Service {
    /// The deployments listed for the service, newest first.
    pub open spec fn deployment_seq(self) -> Seq<Deployment> {
        conn_nodes(self.deployments)
    }

    /// The latest deployment: the first one listed.
    pub open spec fn latest(self) -> Option<Deployment> {
        if self.deployment_seq().len() > 0 {
            Some(self.deployment_seq()[0])
        } else {
            None
        }
    }

    /// The latest deployment of the service, if it has one.
    pub fn latest_deployment(&self) -> (r: Option<&Deployment>)
        ensures
            r matches Some(d) ==> self.latest() == Some(*d),
            r is None <==> self.latest() is None,
    {
        match &self.deployments {
            Some(c) => {
                if c.edges.len() > 0 {
                    Some(&c.edges[0].node)
                } else {
                    None
                }
            },
            None => None,
        }
    }
}

/// The predicate "has this id".
pub open spec fn env_has_id(id: Seq<char>) -> spec_fn(Environment) -> bool {
    |e: Environment| e.id@ == id
}

impl Project {
    /// The services of the project, in order.
    pub open spec fn service_seq(self) -> Seq<Service> {
        conn_nodes(self.services)
    }

    /// The environments of the project, in order.
    pub open spec fn env_seq(self) -> Seq<Environment> {
        conn_nodes(self.environments)
    }

    /// The name of the first environment with id `id`.
    pub open spec fn env_name_of(self, id: Seq<char>) -> Option<Seq<char>> {
        match first_match(self.env_seq(), env_has_id(id)) {
            Some(i) => Some(self.env_seq()[i].name@),
            None => None,
        }
    }

    /// The services of the project (none if the API sent no list).
    pub fn services(&self) -> (r: Vec<&Service>)
        ensures
            r@.len() == self.service_seq().len(),
            forall|i: int| 0 <= i < r@.len() ==> *r@[i] == self.service_seq()[i],
    {
        node_refs(&self.services)
    }

    /// The environments of the project (none if the API sent no list).
    pub fn environments(&self) -> (r: Vec<&Environment>)
        ensures
            r@.len() == self.env_seq().len(),
            forall|i: int| 0 <= i < r@.len() ==> *r@[i] == self.env_seq()[i],
    {
        node_refs(&self.environments)
    }

    /// The name of the environment with id `id`.
    pub fn env_name(&self, id: &str) -> (r: Option<&str>)
        ensures
            r matches Some(n) ==> self.env_name_of(id@) == Some(n@),
            r is None <==> self.env_name_of(id@) is None,
    {
        let envs = self.environments();
        let ghost p = env_has_id(id@);
        let mut i: usize = 0;
        while i < envs.len()
            invariant
                i <= envs.len(),
                envs@.len() == self.env_seq().len(),
                forall|k: int| 0 <= k < envs@.len() ==> *envs@[k] == self.env_seq()[k],
                p == env_has_id(id@),
                forall|j: int| 0 <= j < i ==> !p(#[trigger] self.env_seq()[j]),
            decreases envs.len() - i,
        {
            let e = envs[i];
            if same_text(e.id.as_str(), id) {
                proof {
                    lemma_first_match_found(self.env_seq(), p, i as int);
                }
                return Some(e.name.as_str());
            }
            i = i + 1;
        }
        proof {
            lemma_first_match_none(self.env_seq(), p);
        }
        None
    }
}

} // verus!
