use yard::http::{
    check_alive, head, read_header, read_line, route, Asset, Fixed, Reading, Route,
};
use yard::json::Json;
use yard::service_health::Health;
use yard::web::{
    age_all, apply_service_snapshot, describe, judge_snapshot, load_releases, manifests,
    overall_status, prepare, record_check, service_project_status, BackupRecord, HostVerdict,
    Manifest, Measured, ProjectStatus, Records, Standing, WebProject,
};

fn no_records() -> Records {
    load_releases("test", None)
}

fn project(status: Standing) -> ProjectStatus {
    ProjectStatus {
        name: "test".to_owned(),
        health_url: None,
        services: vec![],
        uses_service_probes: false,
        records: no_records(),
        config_error: None,
        checked_at: "2026-01-01T00:00:00Z".to_owned(),
        latency_ms: None,
        http_status: None,
        status,
        error: None,
    }
}

fn bare(name: &str) -> WebProject {
    WebProject {
        name: name.to_owned(),
        health_url: None,
        has_service_probes: false,
        service_names: vec![],
        records: no_records(),
        config_error: None,
    }
}

fn now() -> String {
    "2026-01-01T00:00:00Z".to_owned()
}

#[test]
fn loads_health_url_and_current_release() {
    let files: Vec<String> = vec!["hello.toml".to_owned()];
    let names = manifests(&files);
    assert_eq!(names.len(), 1);
    let manifest = Manifest {
        health_url: Some("https://example.test/health".to_owned()),
        probes: None,
        services: None,
        service: None,
    };
    let records = load_releases(
        &names[0],
        Some(r#"{"current":{"revision":"abcdef1234567890","tag":"abcdef123456","deployed_at_unix":123},"previous":null}"#),
    );
    let loaded = describe(names[0].clone(), Ok(manifest), records);
    assert_eq!(loaded.name, "hello");
    assert_eq!(loaded.health_url.as_deref(), Some("https://example.test/health"));
    let release = loaded.records.release.unwrap();
    assert_eq!(release.member_text("tag").unwrap(), "abcdef123456");
    assert!(loaded.records.pending_release.is_none());
}

#[test]
fn exposes_pending_release_alongside_active_release() {
    let records = load_releases("demo", Some(r#"{"current":{"tag":"old"},"pending":{"tag":"new","status":"activating","services":[{"name":"api","image":"api:new"}]}}"#));
    let checked = prepare(describe("demo".to_owned(), Ok(empty_manifest()), records), now());
    assert_eq!(checked.records.release.unwrap().member_text("tag").unwrap(), "old");
    let pending = checked.records.pending_release.unwrap();
    match pending.member("services").unwrap() {
        Json::List(services) => {
            assert_eq!(services[0].member_text("image").unwrap(), "api:new")
        }
        other => panic!("{other:?}"),
    }
}

fn empty_manifest() -> Manifest {
    Manifest { health_url: None, probes: None, services: None, service: None }
}

#[test]
fn project_without_health_url_is_unknown() {
    let checked = prepare(bare("hello"), now());
    assert_eq!(checked.status.name(), "unknown");
    assert!(checked.error.unwrap().contains("No deployment.health_url"));
}

#[test]
fn config_errors_preserve_the_existing_payload_field() {
    let broken =
        WebProject { config_error: Some("invalid TOML".to_owned()), ..bare("broken") };
    let checked = prepare(broken, now());
    assert_eq!(checked.config_error.as_deref(), Some("invalid TOML"));
    assert_eq!(checked.error.as_deref(), Some("invalid TOML"));
    assert_eq!(checked.status.name(), "unknown");
}

#[test]
fn successful_health_check_is_operational() {
    let hello =
        WebProject { health_url: Some("http://127.0.0.1:8080/health".to_owned()), ..bare("hello") };
    let mut checked = prepare(hello, now());
    assert_eq!(checked.error, None);
    record_check(&mut checked, Ok(200), 3);
    assert_eq!(checked.status.name(), "operational");
    assert_eq!(checked.http_status, Some(200));
    assert!(checked.latency_ms.is_some());
    record_check(&mut checked, Ok(399), 3);
    assert_eq!(checked.status, Standing::Operational);
    record_check(&mut checked, Ok(503), 4);
    assert_eq!(checked.status.name(), "down");
    assert_eq!(checked.error.as_deref(), Some("HTTP 503"));
    record_check(&mut checked, Err("timed out".to_owned()), 5);
    assert_eq!((checked.status, checked.latency_ms), (Standing::Down, Some(5)));
    assert_eq!(checked.error.as_deref(), Some("timed out"));
}

#[test]
fn only_http_urls_are_asked() {
    for url in ["ftp://example.test/", "example.test", "file:///etc/passwd"] {
        let odd = WebProject { health_url: Some(url.to_owned()), ..bare("odd") };
        assert_eq!(
            prepare(odd, now()).error.as_deref(),
            Some("Health URL must use http or https")
        );
    }
}

#[test]
fn overall_status_degrades_when_one_project_is_down() {
    assert_eq!(
        overall_status(&vec![project(Standing::Operational), project(Standing::Down)]).name(),
        "degraded"
    );
}

#[test]
fn overall_status_weighs_all_projects() {
    let of = |list: &[Standing]| overall_status(&list.iter().map(|s| project(*s)).collect()).name();
    assert_eq!(of(&[]), "unknown");
    assert_eq!(of(&[Standing::Operational, Standing::Healthy]), "operational");
    assert_eq!(of(&[Standing::Down, Standing::Unknown]), "down");
    assert_eq!(of(&[Standing::Unhealthy]), "down");
    assert_eq!(of(&[Standing::Healthy, Standing::Degraded]), "degraded");
    assert_eq!(of(&[Standing::Healthy, Standing::Unknown]), "unknown");
}

#[test]
fn missing_malformed_and_unknown_host_snapshots_are_unavailable() {
    assert_eq!(HostVerdict::Missing.status(), "unknown");
    assert_eq!(HostVerdict::Missing.message(), "Host snapshot unavailable");
    assert_eq!(HostVerdict::Invalid.message(), "Host snapshot invalid");
    let loaded = judge_snapshot(99, 1000, 1000, 300);
    assert_eq!(loaded.status(), "unknown");
    assert_eq!(loaded.message(), "Host snapshot version unknown");
    assert!(!loaded.is_available());
    let future = judge_snapshot(1, 1001, 1000, 300);
    assert_eq!(future.message(), "Host snapshot timestamp invalid");
    assert_eq!(future.age_seconds(), None);
}

#[test]
fn host_snapshot_is_fresh_then_stale() {
    let fresh = judge_snapshot(1, 1000, 1300, 300);
    assert_eq!(fresh.status(), "available");
    assert_eq!(fresh.age_seconds(), Some(300));
    assert_eq!(fresh.message(), "");
    let stale = judge_snapshot(1, 1000, 1301, 300);
    assert_eq!(stale.status(), "unknown");
    assert_eq!(stale.age_seconds(), Some(301));
    assert_eq!(stale.message(), "Host snapshot stale");
}

#[test]
fn host_snapshot_cannot_be_loaded_as_a_project_release() {
    let records =
        load_releases("host", Some(r#"{"current":{"tag":"wrong"},"pending":{"tag":"also-wrong"}}"#));
    assert!(records.release.is_none());
    assert!(records.pending_release.is_none());
}

#[test]
fn reserved_host_manifest_is_not_a_project() {
    assert!(manifests(&vec!["host.toml".to_owned()]).is_empty());
}

#[test]
fn projects_are_shown_in_the_order_of_their_files() {
    let files = vec!["a.toml".to_owned(), "a-b.toml".to_owned(), "x.txt".to_owned()];
    assert_eq!(manifests(&files), ["a-b", "a"]);
}

#[test]
fn unreadable_states_record_nothing() {
    let records = load_releases("demo", Some("{"));
    assert!(records.release.is_none());
    assert!(matches!(records.last_backup, BackupRecord::Missing));
    let records = load_releases("demo", Some(r#"{"current":"text","pending":null}"#));
    assert!(records.release.is_none());
    assert!(records.pending_release.is_none());
}

#[test]
fn invalid_backup_records_are_not_taken_for_missing_ones() {
    let records = load_releases(
        "demo",
        Some(r#"{"last_backup":{"started_at_unix":5,"duration_ms":6,"result":"success","destination":"/b","secret":1},"last_offsite":{"result":"garbage"}}"#),
    );
    match records.last_backup {
        BackupRecord::Recorded(attempt) => {
            assert_eq!((attempt.started_at_unix, attempt.duration_ms), (5, 6));
            assert_eq!(attempt.result.label(), "success");
            assert_eq!(attempt.destination.as_deref(), Some("/b"));
        }
        other => panic!("{other:?}"),
    }
    assert!(matches!(records.last_offsite, BackupRecord::Invalid));
    for invalid in [
        r#"{"last_backup":[]}"#,
        r#"{"last_backup":{"started_at_unix":-5,"duration_ms":6,"result":"success"}}"#,
        r#"{"last_backup":{"started_at_unix":5,"duration_ms":1.5,"result":"success"}}"#,
        r#"{"last_backup":{"started_at_unix":5,"duration_ms":6,"result":"failure","destination":7}}"#,
    ] {
        let records = load_releases("demo", Some(invalid));
        assert!(matches!(records.last_backup, BackupRecord::Invalid), "{invalid}");
    }
    let records = load_releases("demo", Some(r#"{"last_backup":null}"#));
    assert!(matches!(records.last_backup, BackupRecord::Missing));
}

fn worker() -> Measured {
    Measured {
        project: "demo".to_owned(),
        service: "worker".to_owned(),
        status: Health::Healthy,
        kind: Some("heartbeat".to_owned()),
        latency_ms: None,
        age_seconds: Some(2),
        heartbeat_at_unix: Some(1000),
        max_age_seconds: Some(30),
        crit_multiplier: Some(3),
        message: None,
    }
}

#[test]
fn heartbeat_age_changes_project_health_without_a_new_cli_snapshot() {
    for (now, expected, age) in [
        (1005, Health::Healthy, 5),
        (1031, Health::Degraded, 31),
        (1091, Health::Unhealthy, 91),
    ] {
        assert!(judge_snapshot(1, 1000, now, 300).is_available());
        let mut services = vec![worker()];
        age_all(&mut services, now);
        assert_eq!(services[0].status, expected);
        assert_eq!(services[0].age_seconds, Some(age));
        let mut projects = vec![ProjectStatus {
            name: "demo".to_owned(),
            uses_service_probes: true,
            ..project(Standing::Unknown)
        }];
        apply_service_snapshot(&mut projects, Some(&services));
        assert_eq!(projects[0].services[0].status, expected);
        assert_eq!(projects[0].error, None);
    }
}

#[test]
fn heartbeats_that_cannot_be_judged_are_not_healthy() {
    let mut services = vec![
        Measured { heartbeat_at_unix: Some(2000), ..worker() },
        Measured { heartbeat_at_unix: None, ..worker() },
        Measured { max_age_seconds: Some(0), ..worker() },
        Measured { crit_multiplier: Some(1), ..worker() },
        Measured { crit_multiplier: None, status: Health::Degraded, ..worker() },
        Measured { kind: Some("http".to_owned()), ..worker() },
    ];
    age_all(&mut services, 1005);
    let states: Vec<Health> = services.iter().map(|service| service.status).collect();
    assert_eq!(
        states,
        [
            Health::Unknown,
            Health::Unknown,
            Health::Unknown,
            Health::Unknown,
            Health::Degraded,
            Health::Healthy,
        ]
    );
    assert_eq!(services[0].age_seconds, None);
}

#[test]
fn without_a_snapshot_probed_services_are_unknown() {
    let manifest = Manifest {
        health_url: Some("  https://example.test ".to_owned()),
        probes: Some(1),
        services: Some(vec![Some("api".to_owned()), None, Some("worker".to_owned())]),
        service: Some("ignored".to_owned()),
    };
    let described = describe("demo".to_owned(), Ok(manifest), no_records());
    assert_eq!(described.service_names, ["api", "worker"]);
    assert_eq!(described.health_url.as_deref(), Some("https://example.test"));
    let mut projects = vec![prepare(described, now())];
    assert_eq!(projects[0].error.as_deref(), Some("Service snapshot unavailable"));
    let overall = apply_service_snapshot(&mut projects, Some(&vec![worker()]));
    assert_eq!(overall, Standing::Operational);
    assert_eq!((projects[0].status, projects[0].services.len()), (Standing::Healthy, 1));
    let overall = apply_service_snapshot(&mut projects, None);
    assert_eq!(overall, Standing::Unknown);
    assert_eq!(projects[0].status, Standing::Unknown);
    assert_eq!(projects[0].services[0].status, Health::Unknown);
    assert_eq!(projects[0].services[0].age_seconds, None);
    assert_eq!(projects[0].error.as_deref(), Some("Service snapshot unavailable"));
}

#[test]
fn a_project_stands_as_its_services_do() {
    let of = |list: &[Health]| {
        let services = list.iter().map(|h| Measured { status: *h, ..worker() }).collect();
        service_project_status(&services).name()
    };
    assert_eq!(of(&[]), "unknown");
    assert_eq!(of(&[Health::Healthy, Health::Healthy]), "healthy");
    assert_eq!(of(&[Health::Unhealthy, Health::Unhealthy]), "unhealthy");
    assert_eq!(of(&[Health::Healthy, Health::Unhealthy]), "degraded");
    assert_eq!(of(&[Health::Unknown, Health::Degraded]), "degraded");
    assert_eq!(of(&[Health::Healthy, Health::Unknown]), "unknown");
}

#[test]
fn single_services_and_blank_urls_are_understood() {
    let manifest = Manifest {
        health_url: Some(" \n".to_owned()),
        probes: Some(0),
        services: None,
        service: Some("api".to_owned()),
    };
    let described = describe("demo".to_owned(), Ok(manifest), no_records());
    assert_eq!(described.service_names, ["api"]);
    assert_eq!(described.health_url, None);
    assert!(!described.has_service_probes);
    let broken = describe("demo".to_owned(), Err("bad".to_owned()), no_records());
    assert_eq!(broken.config_error.as_deref(), Some("bad"));
}

#[test]
fn requests_are_routed_by_method_and_path() {
    assert_eq!(route("GET /healthz HTTP/1.1\r\n"), Route::Fixed(Fixed::Alive));
    assert_eq!(route("GET /api/status?x=1 HTTP/1.1\r\n"), Route::Status);
    assert_eq!(route("GET / HTTP/1.1\r\n"), Route::Asset(Asset::Index));
    assert_eq!(route("GET /index.html HTTP/1.1"), Route::Asset(Asset::Index));
    assert_eq!(route("GET /styles.css HTTP/1.1"), Route::Asset(Asset::Styles));
    assert_eq!(route("GET /app.js HTTP/1.1"), Route::Asset(Asset::Script));
    assert_eq!(route("GET /favicon.svg HTTP/1.1"), Route::Asset(Asset::Icon));
    assert_eq!(route("GET /../etc/passwd HTTP/1.1"), Route::Fixed(Fixed::NotFound));
    assert_eq!(route("GET"), Route::Fixed(Fixed::NotFound));
    assert_eq!(route("POST / HTTP/1.1"), Route::Fixed(Fixed::MethodNotAllowed));
    assert_eq!(route("\r\n"), Route::Fixed(Fixed::MethodNotAllowed));
    assert_eq!(Asset::Icon.file(), "favicon.svg");
    assert_eq!(Asset::Script.content_type(), "text/javascript; charset=utf-8");
}

#[test]
fn large_requests_are_refused() {
    let line = "x".repeat(8_192);
    assert_eq!(read_line(&line), Reading::More { size: 8_192 });
    assert_eq!(read_line(&format!("{line}x")), Reading::Refused(Fixed::LineTooLong));
    assert_eq!(read_line(&"é".repeat(4_097)), Reading::Refused(Fixed::LineTooLong));
    assert_eq!(read_header(10, "\r\n"), Reading::Complete);
    assert_eq!(read_header(10, "\n"), Reading::Complete);
    assert_eq!(read_header(10, ""), Reading::Complete);
    assert_eq!(read_header(10, "a: b\r\n"), Reading::More { size: 16 });
    assert_eq!(read_header(32_762, "a: b\r\n"), Reading::More { size: 32_768 });
    assert_eq!(read_header(32_763, "a: b\r\n"), Reading::Refused(Fixed::HeadersTooLarge));
    assert_eq!(
        (Fixed::LineTooLong.status(), Fixed::HeadersTooLarge.status()),
        (414, 431)
    );
    assert_eq!(Fixed::NotFound.body(), "Not found\n");
}

#[test]
fn responses_have_a_full_head() {
    let text = head(200, Fixed::Alive.content_type(), Fixed::Alive.body().len(), "no-store");
    assert_eq!(
        text,
        "HTTP/1.1 200 OK\r\nContent-Type: application/json; charset=utf-8\r\nContent-Length: 16\r\nCache-Control: no-store\r\nConnection: close\r\nX-Content-Type-Options: nosniff\r\nContent-Security-Policy: default-src 'self'; style-src 'self'; script-src 'self'; connect-src 'self'; img-src 'self'; base-uri 'none'; frame-ancestors 'none'\r\n\r\n"
    );
    assert!(check_alive(&text).is_ok());
    let text = head(404, "text/plain; charset=utf-8", 10, "no-store");
    assert!(text.starts_with("HTTP/1.1 404 Not Found\r\n"));
    assert_eq!(
        check_alive(&text).unwrap_err(),
        "yard-web health check returned a non-success response"
    );
    assert!(head(500, "", 0, "").starts_with("HTTP/1.1 500 Error\r\n"));
}
