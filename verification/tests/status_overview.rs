use yard::config::{
    BackupConfig, ComposeConfig, DeploymentConfig, ImageConfig, ProjectConfig, ServiceProbe,
};
use yard::error::YardError;
use yard::monitor::{judge, manifest_is_monitor, Monitor};
use yard::service_health::{Health, ServiceHealth};
use yard::state::{BackupAttempt, BackupResult, ProjectState, Release, ReleaseService};
use yard::status::{
    cut_listing, drift, drifts, expected_finished_migration, line_of, not_inspectable, overview,
    overview_of, project_disk, report, unreadable_state, ComposeService, Entry, Facts, Found,
    Listing,
};
use yard::table::Table;

fn text(value: &str) -> String {
    value.to_owned()
}

fn config() -> ProjectConfig {
    ProjectConfig {
        repo: text("/srv/demo/repo"),
        branch: text("main"),
        remote: text("origin"),
        compose: ComposeConfig {
            directory: text("/srv/demo"),
            file: text("compose.yml"),
            env_file: text(".env"),
            services: vec![text("api")],
        },
        image: ImageConfig { name: text("app"), tag_env: text("APP_TAG") },
        deployment: DeploymentConfig::default(),
        service_health: Table::new(),
        backup: None,
    }
}

fn release(tag: &str, stamp: u64, status: &str, recorded: bool) -> Release {
    Release {
        revision: text(tag),
        tag: text(tag),
        deployed_at_unix: stamp,
        services: if recorded {
            vec![ReleaseService { name: text("api"), image: format!("app:{tag}") }]
        } else {
            Vec::new()
        },
        status: text(status),
    }
}

fn full_state() -> ProjectState {
    ProjectState {
        current: Some(release("current", 42, "active", true)),
        previous: Some(release("previous", 21, "superseded", true)),
        pending: None,
        last_backup: Some(BackupAttempt {
            started_at_unix: 42,
            duration_ms: 12,
            result: BackupResult::Success,
            destination: Some(text("/backup")),
        }),
        last_offsite: Some(BackupAttempt {
            started_at_unix: 43,
            duration_ms: 13,
            result: BackupResult::Failure,
            destination: Some(text("remote")),
        }),
    }
}

fn legacy_state() -> ProjectState {
    ProjectState {
        current: Some(release("current", 42, "active", false)),
        ..ProjectState::default()
    }
}

fn row(state: &str, image: &str) -> ComposeService {
    ComposeService {
        service: text("api"),
        name: text("demo-api-1"),
        state: text(state),
        health: if state == "running" { text("healthy") } else { String::new() },
        image: text(image),
        exit_code: None,
    }
}

fn health(status: Health, age: Option<u64>, message: Option<&'static str>) -> ServiceHealth {
    ServiceHealth {
        project: text("demo"),
        service: text("api"),
        status,
        kind: Some("heartbeat"),
        latency_ms: None,
        age_seconds: age,
        heartbeat_at_unix: None,
        max_age_seconds: Some(30),
        crit_multiplier: Some(2),
        message,
    }
}

fn facts(state: ProjectState, image: &str, healths: Vec<ServiceHealth>) -> Facts {
    Facts {
        name: text("demo"),
        state,
        head: text("0123456789abcdef"),
        branch: text("main"),
        env_tag: Some(text("current")),
        listing: Ok(format!(
            "{{\"Service\":\"api\",\"State\":\"running\",\"Health\":\"healthy\",\"Image\":\"{image}\"}}"
        )),
        rows: Some(vec![row("running", image)]),
        healths,
        measured_at_unix: 50,
        now: 60,
        disk: Some(4096),
    }
}

fn shown(config: &ProjectConfig, facts: &Facts) -> String {
    let (lines, result) = report(config, facts);
    result.unwrap();
    lines.join("\n")
}

#[test]
fn complete_project_keeps_all_existing_fields_and_adds_deployment_health_and_disk() {
    let mut config = config();
    config.backup = Some(BackupConfig {
        command: vec![text("true")],
        directory: None,
        extension: None,
        offsite_command: Some(vec![text("true")]),
        offsite_destination: None,
    });
    config.service_health.insert(
        text("api"),
        ServiceProbe::Heartbeat {
            path: text("/run/beat"),
            max_age_seconds: 30,
            deployment_gate: false,
        },
    );
    let facts = facts(full_state(), "app:current", vec![health(Health::Unhealthy, Some(90), None)]);
    let text = shown(&config, &facts);
    for field in [
        "Project: demo",
        "Branch:  main",
        "HEAD:    0123456789ab",
        "Release",
        "  current   current  current (active)",
        "    api  app:current",
        "  previous  previous  previous (superseded)",
        "  pending   none",
        "  env       current",
        "  Docker: matched — api: app:current (running, expected app:current)",
        "Backup",
        "  Local: success — 18s ago — /backup (12 ms) [started 1970-01-01 00:00:42 UTC]",
        "  Off-site: failure — 17s ago — remote (13 ms) [started 1970-01-01 00:00:43 UTC]",
        "Docker Compose",
        "  api      healthy  app:current",
        "  Last deployment: 1970-01-01 00:00:42 UTC (active)",
        "Project service health (measured 1970-01-01 00:00:50 UTC)",
        "  api: Unhealthy — measured 10s ago (heartbeat age: 90 s)",
        "Disk (repo): 4096 bytes",
    ] {
        assert!(text.contains(field), "missing {field}: {text}");
    }
    assert!(!text.contains("DRIFT"));
}

fn summary(state: &ProjectState, rows: Option<Vec<ComposeService>>, healths: &Vec<ServiceHealth>) -> String {
    overview(&config(), "demo", state, &rows, healths, 60, Some(4096))
}

#[test]
fn previous_image_is_not_drift() {
    let text = shown(&config(), &facts(full_state(), "app:previous", Vec::new()));
    assert!(!text.contains("DRIFT"), "{text}");
    assert!(text.contains("Docker: MISMATCH"), "{text}");
}

#[test]
fn legacy_release_without_service_images_uses_its_recorded_tag() {
    let text = shown(&config(), &facts(legacy_state(), "app:current", Vec::new()));
    assert!(!text.contains("DRIFT"), "{text}");
}

#[test]
fn legacy_release_does_not_accept_an_unrelated_image_with_the_same_tag() {
    let detail = shown(&config(), &facts(legacy_state(), "other:current", Vec::new()));
    assert!(detail.contains("DRIFT") && detail.contains("other:current"), "{detail}");
    let line = summary(&legacy_state(), Some(vec![row("running", "other:current")]), &Vec::new());
    assert!(line.contains("ALERT demo") && line.contains("DRIFT"), "{line}");
}

#[test]
fn unreadable_or_future_heartbeat_is_an_overview_alert() {
    let mut config = config();
    config.service_health.insert(
        text("api"),
        ServiceProbe::Heartbeat {
            path: text("/run/beat"),
            max_age_seconds: 30,
            deployment_gate: false,
        },
    );
    let message = "Heartbeat missing, unreadable or in the future";
    let healths = vec![health(Health::Unknown, None, Some(message))];
    let rows = Some(vec![row("running", "app:current")]);
    let line = overview(&config, "demo", &full_state(), &rows, &healths, 60, None);
    assert!(line.contains("ALERT demo") && line.contains("api=Unknown"), "{line}");
    let detail = shown(&config, &facts(full_state(), "app:current", healths));
    assert!(detail.contains(message), "{detail}");
}

fn loaded(state: ProjectState) -> Found {
    let rows = Some(vec![row("running", "app:current")]);
    Found::Loaded { config: config(), state, rows, now: 60, disk: Some(4096) }
}

#[test]
fn unreadable_state_is_never_reported_as_no_deployment_or_healthy() {
    let line = line_of("demo", &Found::StateUnreadable, &Vec::new());
    assert_eq!(line, "ALERT demo: state unreadable");
    assert!(!line.contains("no deployment") && !line.contains("healthy"), "{line}");
    let missing = line_of("demo", &loaded(ProjectState::default()), &Vec::new());
    assert!(missing.contains("no deployment recorded"), "{missing}");
    let detail = unreadable_state("demo", &YardError::Json(text("expected ident")));
    assert_eq!(
        detail.message(),
        "configuration error: demo: state unreadable: invalid state file: expected ident"
    );
}

#[test]
fn invalid_project_manifest_is_reported_without_hiding_other_projects() {
    let broken = || Found::NotInspectable(YardError::Toml(text("expected `=`")));
    let entries = vec![
        Entry { name: text("broken"), found: broken() },
        Entry { name: text("demo"), found: loaded(full_state()) },
        Entry {
            name: text("site"),
            found: Found::Monitor { url: text("https://example.org/"), status: Some(204) },
        },
    ];
    let lines = overview_of(&entries, &Vec::new());
    assert_eq!(lines.len(), 3);
    assert_eq!(lines[0], "ALERT broken: project not inspectable (invalid TOML: expected `=`)");
    assert_eq!(lines[0], not_inspectable("broken", &YardError::Toml(text("expected `=`"))));
    assert!(lines[1].contains("demo: current (previous previous)"), "{}", lines[1]);
    assert_eq!(lines[1], summary(&full_state(), Some(vec![row("running", "app:current")]), &Vec::new()));
    assert_eq!(lines[2], "OK site: HTTP 204; https://example.org/");
    assert_eq!(overview_of(&Vec::new(), &Vec::new()), ["No projects configured"]);
}

#[test]
fn project_without_backup_is_explicit() {
    let text = shown(&config(), &facts(ProjectState::default(), "app:current", Vec::new()));
    assert!(
        text.contains("No backup recorded") && text.contains("Off-site: not configured"),
        "{text}"
    );
    assert!(text.contains("  Last deployment: none recorded"), "{text}");
}

#[test]
fn running_image_outside_current_and_previous_is_drift() {
    let text = shown(&config(), &facts(full_state(), "app:rogue", Vec::new()));
    assert!(
        text.contains("DRIFT") && text.contains("app:rogue") && text.contains("Docker: MISMATCH"),
        "{text}"
    );
    let line = summary(&full_state(), Some(vec![row("running", "app:rogue")]), &Vec::new());
    assert!(line.contains("ALERT") && line.contains("DRIFT"), "{line}");
}

#[test]
fn overview_has_one_line_per_project_with_alert_for_stopped_service() {
    let line = summary(&full_state(), Some(vec![row("exited", "app:current")]), &Vec::new());
    assert!(line.starts_with("ALERT demo: current (previous previous)"), "{line}");
    assert!(!line.contains('\n'));
    let line = summary(&full_state(), Some(vec![row("running", "app:current")]), &Vec::new());
    assert_eq!(
        line,
        "OK demo: current (previous previous); deployment active @ 1970-01-01 00:00:42 UTC; 1 running / 1 containers; probes ; backup success @ 1970-01-01 00:00:42 UTC, off-site failure @ 1970-01-01 00:00:43 UTC; repo 4096 bytes; "
    );
    let line = summary(&full_state(), None, &Vec::new());
    assert!(line.starts_with("ALERT") && line.contains("containers unavailable"), "{line}");
}

#[test]
fn interrupted_activation_is_visible() {
    let mut state = full_state();
    state.pending = Some(release("next", 50, "activating", true));
    let text = shown(&config(), &facts(state.clone(), "app:current", Vec::new()));
    assert!(text.contains("  WARNING: activating release not yet active; rollback to recover"));
    assert!(text.contains("Docker: MISMATCH"), "{text}");
    let line = summary(&state, Some(vec![row("running", "app:current")]), &Vec::new());
    assert!(line.starts_with("ALERT") && line.contains("pending release; "), "{line}");
}

#[test]
fn listings_that_failed_end_the_report_with_their_error() {
    let mut facts = facts(full_state(), "app:current", Vec::new());
    facts.listing = Err(YardError::Io(text("docker: not found")));
    facts.rows = None;
    let (_, result) = report(&config(), &facts);
    assert_eq!(
        result.unwrap_err().message(),
        "configuration error: Compose unavailable: I/O error: docker: not found"
    );
}

#[test]
fn finished_migrations_are_expected() {
    let mut config = config();
    config.deployment.migration_service = Some(text("migrate"));
    let mut done = row("exited", "app:current");
    done.service = text("migrate");
    done.exit_code = Some(0);
    assert!(expected_finished_migration(&config, &done));
    done.exit_code = Some(1);
    assert!(!expected_finished_migration(&config, &done));
    assert_eq!(drift(&config, &full_state(), &done), None);
    let rows = vec![row("running", ""), row("running", "app:current")];
    assert_eq!(drifts(&config, &full_state(), &rows), ["api has an unknown running image"]);
    assert_eq!(
        drift(&config, &ProjectState::default(), &rows[1]).unwrap(),
        "api runs app:current without a recorded release"
    );
    let bare = ComposeService {
        service: String::new(),
        health: String::new(),
        image: String::new(),
        ..row("running", "x")
    };
    assert_eq!(
        (bare.display_name(), bare.display_status(), bare.display_image()),
        ("demo-api-1", "running", "-")
    );
}

#[test]
fn disk_use_is_a_saturating_sum_of_blocks() {
    assert_eq!(project_disk(&Vec::new()), 0);
    assert_eq!(project_disk(&vec![8, 16, 0]), 24 * 512);
    assert_eq!(project_disk(&vec![u64::MAX, 1]), u64::MAX);
    assert_eq!(project_disk(&vec![u64::MAX / 512, 1]), u64::MAX);
}

#[test]
fn url_monitors_have_nothing_but_a_url() {
    assert!(manifest_is_monitor("[deployment]\nhealth_url = 'https://x.test'\n").unwrap());
    assert!(!manifest_is_monitor("[deployment]\n[image]\n").unwrap());
    assert!(!manifest_is_monitor("[image]\n").unwrap());
    assert!(!manifest_is_monitor("").unwrap());
    assert!(matches!(manifest_is_monitor("not toml ="), Err(YardError::Toml(_))));
    let monitor = Monitor::new(text("https://x.test/health")).unwrap();
    assert_eq!(monitor.url(), "https://x.test/health");
    assert_eq!(
        Monitor::new(text("x.test")).unwrap_err().message(),
        "configuration error: deployment.health_url must be an HTTP(S) URL"
    );
    for url in ["ftp://x.test", "https://user@x.test", "https://:pw@x.test"] {
        assert_eq!(
            Monitor::new(text(url)).unwrap_err().message(),
            "configuration error: deployment.health_url must be an HTTP(S) URL without credentials"
        );
    }
    assert_eq!(judge(Some(204)), (true, text("HTTP 204")));
    assert_eq!(judge(Some(302)), (false, text("HTTP 302")));
    assert_eq!(judge(None), (false, text("HTTP request failed or timed out")));
    assert_eq!(
        yard::monitor::overview("site", "https://x.test", Some(200)),
        "OK site: HTTP 200; https://x.test"
    );
    assert_eq!(
        yard::monitor::report("site", "https://x.test", None).2,
        "Status: ALERT HTTP request failed or timed out"
    );
}

#[test]
fn listings_are_cut_into_rows() {
    assert_eq!(cut_listing(" \n\t"), Listing::Empty);
    assert_eq!(
        cut_listing("\n [{\"Service\":\"api\"}]\n"),
        Listing::Rows {
            whole: text("[{\"Service\":\"api\"}]"),
            lines: vec![text("[{\"Service\":\"api\"}]")],
        }
    );
    assert_eq!(
        cut_listing("{}\r\n  \n{\"Name\":\"x\"}\n\n"),
        Listing::Rows {
            whole: text("{}\r\n  \n{\"Name\":\"x\"}"),
            lines: vec![text("{}"), text("{\"Name\":\"x\"}")],
        }
    );
}

#[test]
fn legacy_state_and_unconfigured_offsite_remain_explicit() {
    let state = ProjectState {
        current: None,
        previous: None,
        pending: None,
        last_backup: None,
        last_offsite: None,
    };
    let output = shown(&config(), &facts(state, "app:current", Vec::new()));
    assert!(output.contains("No backup recorded"), "{output}");
    assert!(output.contains("Off-site: not configured"), "{output}");
}

#[test]
fn reads_v1_state_without_losing_previous_revision() {
    let state = ProjectState {
        current: Some(release("abc123", 42, "active", false)),
        previous: Some(release("def456", 21, "superseded", false)),
        pending: None,
        last_backup: None,
        last_offsite: None,
    };
    let facts = facts(state, "app:abc123", Vec::new());
    let output = shown(&config(), &facts);
    assert!(output.contains("abc123") && output.contains("def456"));
    assert_eq!(facts.state.previous.as_ref().map(|release| release.deployed_at_unix), Some(21));
}
