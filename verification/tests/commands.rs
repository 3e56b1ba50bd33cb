use rlwy::context::{dashboard_url, find_ctx, find_service_context, latest_deployment_in, CtxError};
use rlwy::deployments::{author_cell, commit_cell, message_cell, short_time, truncate};
use rlwy::env::truncate_value;
use rlwy::model::{Connection, Deployment, DeploymentStatus, Edge, Environment, Project, Service};

fn dep(id: &str, status: DeploymentStatus, env: Option<&str>, meta: &[(&str, &str)]) -> Deployment {
    Deployment {
        id: id.to_string(),
        status,
        created_at: Some("2024-05-01T10:20:30.123Z".to_string()),
        static_url: None,
        meta: Some(meta.iter().map(|(k, v)| (k.to_string(), v.to_string())).collect()),
        environment_id: env.map(str::to_string),
    }
}

fn svc(id: &str, name: &str, deps: Vec<Deployment>) -> Service {
    Service {
        id: id.into(),
        name: name.into(),
        deployments: Some(Connection { edges: deps.into_iter().map(|d| Edge { node: d }).collect() }),
    }
}

fn project(id: &str, name: &str, services: Vec<Service>, envs: &[(&str, &str)]) -> Project {
    Project {
        id: id.into(),
        name: name.into(),
        services: Some(Connection { edges: services.into_iter().map(|s| Edge { node: s }).collect() }),
        environments: Some(Connection {
            edges: envs
                .iter()
                .map(|(i, n)| Edge { node: Environment { id: i.to_string(), name: n.to_string() } })
                .collect(),
        }),
    }
}

fn fleet() -> Vec<Project> {
    vec![
        project("p1", "shop", vec![svc("s1", "web", vec![dep("d1", DeploymentStatus::Success, Some("e1"), &[])])], &[("e1", "production"), ("e2", "Staging")]),
        project("p2", "blog", vec![svc("s2", "cms", vec![]), svc("s1", "dup", vec![])], &[]),
    ]
}

#[test]
fn find_ctx_uses_latest_deployment_environment() {
    let ps = fleet();
    let c = find_ctx(&ps, "s1", None).ok().unwrap();
    assert_eq!(c.project_id, "p1");
    assert_eq!(c.project_name, "shop");
    assert_eq!(c.service_name, "web");
    assert_eq!(c.env_id.as_deref(), Some("e1"));
    assert_eq!(c.env_name.as_deref(), Some("production"));
}

#[test]
fn find_ctx_matches_environment_name_ignoring_case() {
    let ps = fleet();
    let c = find_ctx(&ps, "s1", Some("staging")).ok().unwrap();
    assert_eq!(c.env_id.as_deref(), Some("e2"));
    assert_eq!(c.env_name.as_deref(), Some("Staging"));
}

#[test]
fn find_ctx_errors_name_the_missing_piece() {
    let ps = fleet();
    match find_ctx(&ps, "s1", Some("dev")) {
        Err(e @ CtxError::NoSuchEnvironment { .. }) => assert_eq!(
            e.message(),
            "project 'shop' has no environment named 'dev' (available: production, Staging)"
        ),
        _ => panic!("expected a missing environment"),
    }
    match find_ctx(&ps, "s2", Some("dev")) {
        Err(e) => assert_eq!(
            e.message(),
            "project 'blog' has no environment named 'dev' (available: (none))"
        ),
        Ok(_) => panic!("expected an error"),
    }
    match find_ctx(&ps, "zz", None) {
        Err(e) => assert_eq!(e.message(), "service zz not found in accessible projects"),
        Ok(_) => panic!("expected an error"),
    }
}

#[test]
fn find_service_context_agrees_with_find_ctx() {
    let ps = fleet();
    let (pid, pname, sname, eid) = find_service_context(&ps, "s2", None).ok().unwrap();
    assert_eq!((pid.as_str(), pname.as_str(), sname.as_str()), ("p2", "blog", "cms"));
    assert_eq!(eid, None);
    let (_, _, _, eid) = find_service_context(&ps, "s1", Some("PRODUCTION")).ok().unwrap();
    assert_eq!(eid.as_deref(), Some("e1"));
}

#[test]
fn latest_deployment_lookup() {
    let ps = fleet();
    let c = latest_deployment_in(&ps, "s1").unwrap();
    assert_eq!(c.deployment.id, "d1");
    assert_eq!(c.env_name.as_deref(), Some("production"));
    assert_eq!(c.project_name, "shop");
    assert_eq!(c.service_name, "web");
    assert!(latest_deployment_in(&ps, "s2").is_none());
    assert!(latest_deployment_in(&ps, "nope").is_none());
}

#[test]
fn dashboard_address() {
    assert_eq!(
        dashboard_url("https://railway.com//", "p1", "s1", Some("e1")),
        "https://railway.com/project/p1?service=s1&environmentId=e1"
    );
    assert_eq!(dashboard_url("https://railway.com", "p1", "s1", None), "https://railway.com/project/p1?service=s1");
}

#[test]
fn truncate_shortens_with_ellipsis() {
    assert_eq!(truncate("hello", 5), "hello");
    assert_eq!(truncate("hello world", 5), "hell…");
    assert_eq!(truncate("héllo wörld", 6), "héllo…");
    assert_eq!(truncate("", 0), "");
    assert_eq!(truncate(&truncate("abcdefgh", 4), 4), "abc…");
}

#[test]
fn short_time_compacts_iso_timestamps() {
    assert_eq!(short_time("2024-05-01T10:20:30.123Z"), "2024-05-01 10:20:30");
    assert_eq!(short_time("2024-05-01T10:20:30Z"), "2024-05-01 10:20:30");
    assert_eq!(short_time("yesterday"), "yesterday");
}

#[test]
fn table_cells() {
    let d = dep(
        "d",
        DeploymentStatus::Success,
        None,
        &[
            ("commitHash", "0123456789abcdef"),
            ("commitAuthor", "  A Very Long Author Name Indeed "),
            ("commitMessage", "  feat: add the thing\n\nlonger body"),
        ],
    );
    assert_eq!(commit_cell(&d).as_deref(), Some("0123456"));
    assert_eq!(author_cell(&d).as_deref(), Some("A Very Long Autho…"));
    assert_eq!(message_cell(&d).as_deref(), Some("feat: add the thing"));
    let blank = dep("b", DeploymentStatus::Failed, None, &[("commitHash", ""), ("commitAuthor", "   "), ("commitMessage", "\n")]);
    assert_eq!(commit_cell(&blank), None);
    assert_eq!(author_cell(&blank), None);
    assert_eq!(message_cell(&blank), None);
    let none = dep("n", DeploymentStatus::Failed, None, &[]);
    assert_eq!(commit_cell(&none), None);
}

#[test]
fn variable_values_show_first_line_trimmed() {
    assert_eq!(truncate_value("  secret  \nsecond"), "secret");
    assert_eq!(truncate_value(""), "");
    let long = "x".repeat(150);
    let shown = truncate_value(&long);
    assert_eq!(shown.chars().count(), 100);
    assert!(shown.ends_with('…'));
}
