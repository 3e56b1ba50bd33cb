use std::cmp::Ordering;

use rlwy::api::{graphql_result, http_success, GraphqlError};
use rlwy::config::{login_token, token_from_env, Config};
use rlwy::login::{identity_label, team_token_label};
use rlwy::model::{Connection, Deployment, DeploymentStatus, Edge, Me, Project, Service};
use rlwy::rollback::{choose_target, item_label, Target, TargetError};
use rlwy::semver::compare_semver;
use rlwy::status::{summarize, StatusError};
use rlwy::ui::{severity_tone, status_tone, SeverityTone, Tone};
use rlwy::upgrade::{
    asset_name, detect_target, download_url, is_dev_build, release_notes, release_version,
};
use rlwy::watch::{
    after_poll, outcome, poll_interval, select_option, service_options, watch_step, Outcome,
    SelectError, WatchStep,
};

fn dep(id: &str, status: DeploymentStatus, meta: &[(&str, &str)]) -> Deployment {
    Deployment {
        id: id.to_string(),
        status,
        created_at: None,
        static_url: None,
        meta: Some(meta.iter().map(|(k, v)| (k.to_string(), v.to_string())).collect()),
        environment_id: None,
    }
}

fn svc(id: &str, name: &str, latest: Option<DeploymentStatus>) -> Service {
    Service {
        id: id.into(),
        name: name.into(),
        deployments: latest.map(|st| Connection { edges: vec![Edge { node: dep("x", st, &[]) }] }),
    }
}

fn project(name: &str, services: Vec<Service>) -> Project {
    Project {
        id: format!("id-{name}"),
        name: name.into(),
        services: Some(Connection { edges: services.into_iter().map(|s| Edge { node: s }).collect() }),
        environments: None,
    }
}

fn history() -> Vec<Deployment> {
    vec![
        dep("cur", DeploymentStatus::Success, &[("commitHash", "aaaaaaa111"), ("commitMessage", "now")]),
        dep("d2", DeploymentStatus::Failed, &[("commitHash", "bbbbbbb222")]),
        dep("d3", DeploymentStatus::Success, &[("commitHash", "ccccccc333"), ("commitMessage", " fix login \nmore")]),
        dep("d4", DeploymentStatus::Success, &[]),
    ]
}

#[test]
fn rollback_explicit_id_then_hash_prefix() {
    let h = history();
    assert!(matches!(choose_target(&h, Some(" d3 ")), Ok(Target::Chosen(2))));
    assert!(matches!(choose_target(&h, Some("bbbb")), Ok(Target::Chosen(1))));
    match choose_target(&h, Some("zzz")) {
        Err(e @ TargetError::NoMatch { .. }) => assert_eq!(e.message(), "no deployment in the last 4 matched 'zzz'"),
        _ => panic!("expected no match"),
    }
}

#[test]
fn rollback_default_offers_earlier_successes() {
    let h = history();
    match choose_target(&h, None) {
        Ok(Target::Ask { candidates, items }) => {
            assert_eq!(candidates, vec![2, 3]);
            assert_eq!(items, vec!["ccccccc  fix login".to_string(), "—  (no commit message)".to_string()]);
        }
        _ => panic!("expected a question"),
    }
    let two = vec![history().remove(0), dep("ok", DeploymentStatus::Success, &[])];
    assert!(matches!(choose_target(&two, Some("  ")), Ok(Target::Chosen(1))));
    let none = vec![dep("only", DeploymentStatus::Success, &[])];
    match choose_target(&none, None) {
        Err(e) => assert_eq!(
            e.message(),
            "no earlier SUCCESS deployment found in the last 1 — pass --to <id|sha> to pick one explicitly"
        ),
        Ok(_) => panic!("expected an error"),
    }
    assert_eq!(item_label(&dep("e", DeploymentStatus::Success, &[("commitMessage", "")])), "—  (no commit message)");
}

#[test]
fn status_summary_counts_and_groups() {
    let ps = vec![
        project("Shop", vec![svc("a", "web", Some(DeploymentStatus::Success)), svc("b", "worker", Some(DeploymentStatus::Crashed)), svc("c", "idle", None)]),
        project("blog", vec![svc("d", "cms", Some(DeploymentStatus::Building)), svc("e", "old", Some(DeploymentStatus::Removed))]),
    ];
    let s = summarize(&ps, None).ok().unwrap();
    assert_eq!((s.up, s.total), (1, 4));
    assert_eq!(s.broken.len(), 1);
    assert_eq!((s.broken[0].project.as_str(), s.broken[0].service.as_str()), ("Shop", "worker"));
    assert_eq!(s.broken[0].status, DeploymentStatus::Crashed);
    assert_eq!(s.in_progress.len(), 1);
    assert_eq!(s.in_progress[0].service, "cms");
    let only_shop = summarize(&ps, Some(" sHo ")).ok().unwrap();
    assert_eq!((only_shop.up, only_shop.total), (1, 2));
    match summarize(&ps, Some("nothing")) {
        Err(e @ StatusError::NoProjectMatch { .. }) => assert_eq!(e.message(), "no project matches 'nothing'"),
        Ok(_) => panic!("expected no match"),
    }
}

#[test]
fn semver_ordering() {
    assert_eq!(compare_semver("0.1.2", "0.1.2"), Ordering::Equal);
    assert_eq!(compare_semver("0.2.0", "0.1.9"), Ordering::Greater);
    assert_eq!(compare_semver("0.1.10", "0.1.9"), Ordering::Greater);
    assert_eq!(compare_semver("1.0", "1.0.0"), Ordering::Less);
    assert_eq!(compare_semver("1.2.0-beta", "1.2.0"), Ordering::Equal);
    assert_eq!(compare_semver("x.1", "1"), Ordering::Equal);
    assert_eq!(compare_semver("", "0"), Ordering::Less);
}

#[test]
fn upgrade_paths_and_assets() {
    assert!(is_dev_build("/home/u/rlwy/target/release/rlwy", false));
    assert!(is_dev_build("C:\\src\\target\\debug\\rlwy.exe", true));
    assert!(!is_dev_build("/usr/local/bin/rlwy", false));
    assert!(!is_dev_build("/x/target/release/rlwy", true));
    assert_eq!(detect_target("linux", "x86_64").ok(), Some("x86_64-unknown-linux-gnu"));
    assert_eq!(detect_target("macos", "aarch64").ok(), Some("aarch64-apple-darwin"));
    assert_eq!(detect_target("windows", "x86_64").ok(), Some("x86_64-pc-windows-msvc"));
    match detect_target("freebsd", "x86_64") {
        Err(e) => assert_eq!(e.message(), "no prebuilt binary for freebsd/x86_64"),
        Ok(_) => panic!("expected unsupported"),
    }
    assert_eq!(release_version("v0.2.0"), "0.2.0");
    assert_eq!(release_version("0.2.0"), "0.2.0");
    let a = asset_name("0.2.0", "x86_64-pc-windows-msvc", true);
    assert_eq!(a, "rlwy-v0.2.0-x86_64-pc-windows-msvc.exe");
    assert_eq!(asset_name("0.2.0", "aarch64-apple-darwin", false), "rlwy-v0.2.0-aarch64-apple-darwin");
    assert_eq!(
        download_url("0.2.0", "rlwy-v0.2.0-aarch64-apple-darwin"),
        "https://github.com/opensource-com/rlwy/releases/download/v0.2.0/rlwy-v0.2.0-aarch64-apple-darwin"
    );
}

#[test]
fn watching_stops_at_terminal_statuses() {
    assert_eq!(watch_step(&dep("a", DeploymentStatus::Building, &[])), WatchStep::Wait);
    assert_eq!(watch_step(&dep("a", DeploymentStatus::Removing, &[])), WatchStep::Wait);
    assert_eq!(watch_step(&dep("a", DeploymentStatus::Success, &[])), WatchStep::Done(Outcome::Succeeded));
    assert_eq!(watch_step(&dep("a", DeploymentStatus::Crashed, &[])), WatchStep::Done(Outcome::Failed));
    assert_eq!(watch_step(&dep("a", DeploymentStatus::Skipped, &[])), WatchStep::Done(Outcome::Finished(DeploymentStatus::Skipped)));
    assert_eq!(outcome(DeploymentStatus::Failed), Outcome::Failed);
    assert_eq!(after_poll(dep("a", DeploymentStatus::Queued, &[]), None).status, DeploymentStatus::Queued);
    assert_eq!(after_poll(dep("a", DeploymentStatus::Queued, &[]), Some(dep("a", DeploymentStatus::Deploying, &[]))).status, DeploymentStatus::Deploying);
    assert_eq!(poll_interval(0), 1);
    assert_eq!(poll_interval(3), 3);
}

#[test]
fn service_picker_lists_and_selects() {
    let ps = vec![project("shop", vec![svc("s1", "web", None), svc("s2", "api", None)]), project("blog", vec![svc("s3", "cms", None)])];
    let opts = service_options(&ps);
    assert_eq!(opts.len(), 3);
    assert_eq!(opts[0], ("shop  ›  web".to_string(), "s1".to_string()));
    assert_eq!(opts[2], ("blog  ›  cms".to_string(), "s3".to_string()));
    assert!(matches!(select_option(3, " 2\n"), Ok(1)));
    assert!(matches!(select_option(3, "0"), Err(SelectError::OutOfRange)));
    assert!(matches!(select_option(3, "4"), Err(SelectError::OutOfRange)));
    match select_option(3, "two") {
        Err(e @ SelectError::NotANumber { .. }) => assert_eq!(e.message(), "enter a number between 1 and 3"),
        _ => panic!("expected not a number"),
    }
    assert_eq!(SelectError::OutOfRange.message(), "selection out of range");
}

#[test]
fn graphql_replies() {
    assert!(http_success(200) && http_success(299));
    assert!(!http_success(199) && !http_success(404));
    assert!(matches!(graphql_result::<u8>(None, Some(5)), Ok(5)));
    match graphql_result::<u8>(Some(vec!["bad".into(), "worse".into()]), Some(5)) {
        Err(e @ GraphqlError::Api { .. }) => assert_eq!(e.message(), "Railway API error: bad; worse"),
        _ => panic!("errors win over data"),
    }
    match graphql_result::<u8>(None, None) {
        Err(e) => assert_eq!(e.message(), "empty GraphQL response"),
        Ok(_) => panic!("expected empty"),
    }
}

#[test]
fn identity_and_tokens() {
    let full = Me { id: "u".into(), name: Some("Ann".into()), email: Some("a@x.io".into()) };
    assert_eq!(identity_label(&full), "a@x.io");
    let named = Me { id: "u".into(), name: Some("Ann".into()), email: None };
    assert_eq!(identity_label(&named), "Ann");
    let bare = Me { id: "u".into(), name: None, email: None };
    assert_eq!(identity_label(&bare), "u");
    assert_eq!(team_token_label(12), "team token · 12 projects visible");
    assert_eq!(token_from_env(Some("  t1 "), Some("t2")), Some("t1".to_string()));
    assert_eq!(token_from_env(Some("   "), Some(" t2")), Some("t2".to_string()));
    assert_eq!(token_from_env(None, Some("")), None);
    assert_eq!(login_token("  abc\n"), Some("abc".to_string()));
    assert_eq!(login_token(" \t"), None);
    assert!(Config::default().token.is_none());
}

#[test]
fn highlights() {
    assert_eq!(status_tone(DeploymentStatus::Success), Tone::Good);
    assert_eq!(status_tone(DeploymentStatus::Crashed), Tone::Bad);
    assert_eq!(status_tone(DeploymentStatus::Deploying), Tone::Active);
    assert_eq!(status_tone(DeploymentStatus::Waiting), Tone::Pending);
    assert_eq!(status_tone(DeploymentStatus::Removing), Tone::Muted);
    assert_eq!(status_tone(DeploymentStatus::Unknown), Tone::Plain);
    assert_eq!(severity_tone("ERROR"), SeverityTone::Error);
    assert_eq!(severity_tone("Warning"), SeverityTone::Warn);
    assert_eq!(severity_tone("info"), SeverityTone::Info);
    assert_eq!(severity_tone("debug"), SeverityTone::Debug);
    assert_eq!(severity_tone("trace"), SeverityTone::Plain);
    assert_eq!(severity_tone(""), SeverityTone::Plain);
}

#[test]
fn release_notes_are_the_lines_of_the_trimmed_body() {
    assert_eq!(release_notes(None), None);
    assert_eq!(release_notes(Some("  \n ")), None);
    assert_eq!(
        release_notes(Some("\n## Changes\r\n- faster\n\n- safer\n")),
        Some(vec!["## Changes".to_string(), "- faster".to_string(), "".to_string(), "- safer".to_string()])
    );
}
