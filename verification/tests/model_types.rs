use rlwy::model::DeploymentStatus::{
    Building, Crashed, Deploying, Failed, Initializing, Queued, Removed, Removing, Skipped,
    Success, Unknown, Waiting,
};
use rlwy::model::{
    Connection, Deployment, DeploymentStatus, Edge, Environment, Me, Project, Service,
};

fn dep(id: &str, status: DeploymentStatus, env: Option<&str>, meta: &[(&str, &str)]) -> Deployment {
    Deployment {
        id: id.to_string(),
        status,
        created_at: None,
        static_url: None,
        meta: if meta.is_empty() {
            None
        } else {
            Some(meta.iter().map(|(k, v)| (k.to_string(), v.to_string())).collect())
        },
        environment_id: env.map(str::to_string),
    }
}

#[test]
fn into_vec_keeps_edge_order() {
    let c = Connection { edges: vec![Edge { node: 1 }, Edge { node: 2 }, Edge { node: 3 }] };
    assert_eq!(c.into_vec(), vec![1, 2, 3]);
}

#[test]
fn terminal_statuses_are_exactly_the_final_ones() {
    for st in [Success, Failed, Crashed, Removed, Skipped] {
        assert!(st.is_terminal());
    }
    for st in [Queued, Initializing, Waiting, Building, Deploying, Removing, Unknown] {
        assert!(!st.is_terminal());
    }
}

#[test]
fn labels_and_their_reading() {
    let all = [
        Queued, Initializing, Waiting, Building, Deploying, Success, Failed, Crashed, Removed,
        Removing, Skipped, Unknown,
    ];
    let names = [
        "QUEUED", "INITIALIZING", "WAITING", "BUILDING", "DEPLOYING", "SUCCESS", "FAILED",
        "CRASHED", "REMOVED", "REMOVING", "SKIPPED", "UNKNOWN",
    ];
    for (st, name) in all.iter().zip(names) {
        assert_eq!(st.label(), name);
        assert_eq!(DeploymentStatus::from_label(name), *st);
    }
    assert_eq!(DeploymentStatus::from_label("SLEEPING"), Unknown);
    assert_eq!(DeploymentStatus::from_label("success"), Unknown);
}

#[test]
fn metadata_lookups() {
    let d = dep(
        "d1",
        DeploymentStatus::Success,
        None,
        &[("commitHash", "abc123def"), ("commitMessage", "fix: x\nbody"), ("commitAuthor", "Ann"), ("image", "nginx:1")],
    );
    assert_eq!(d.commit_hash(), Some("abc123def"));
    assert_eq!(d.commit_message(), Some("fix: x\nbody"));
    assert_eq!(d.commit_author(), Some("Ann"));
    assert_eq!(d.image(), Some("nginx:1"));
    let bare = dep("d2", DeploymentStatus::Failed, None, &[]);
    assert_eq!(bare.commit_hash(), None);
    assert_eq!(bare.image(), None);
    let dup = d.duplicate();
    assert_eq!(dup.id, "d1");
    assert_eq!(dup.commit_hash(), Some("abc123def"));
}

#[test]
fn project_services_environments_and_env_name() {
    let p = Project {
        id: "p1".into(),
        name: "shop".into(),
        services: Some(Connection {
            edges: vec![
                Edge { node: Service { id: "s1".into(), name: "web".into(), deployments: None } },
                Edge {
                    node: Service {
                        id: "s2".into(),
                        name: "api".into(),
                        deployments: Some(Connection {
                            edges: vec![
                                Edge { node: dep("new", DeploymentStatus::Building, Some("e1"), &[]) },
                                Edge { node: dep("old", DeploymentStatus::Success, Some("e1"), &[]) },
                            ],
                        }),
                    },
                },
            ],
        }),
        environments: Some(Connection {
            edges: vec![
                Edge { node: Environment { id: "e1".into(), name: "production".into() } },
                Edge { node: Environment { id: "e2".into(), name: "staging".into() } },
            ],
        }),
    };
    let svcs = p.services();
    assert_eq!(svcs.len(), 2);
    assert_eq!(svcs[1].name, "api");
    assert!(svcs[0].latest_deployment().is_none());
    assert_eq!(svcs[1].latest_deployment().map(|d| d.id.as_str()), Some("new"));
    assert_eq!(p.environments().len(), 2);
    assert_eq!(p.env_name("e2"), Some("staging"));
    assert_eq!(p.env_name("e9"), None);
    let empty = Project { id: "p".into(), name: "n".into(), services: None, environments: None };
    assert!(empty.services().is_empty());
    assert!(empty.environments().is_empty());
    let me = Me { id: "u1".into(), name: None, email: None };
    assert_eq!(me.id, "u1");
}
