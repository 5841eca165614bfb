use yard::config::{
    ComposeConfig, DeploymentConfig, ImageConfig, ProjectConfig, ServiceProbe,
};
use yard::host::parse_containers;
use yard::service_health::{
    collect, heartbeat_health, http_health, needs_reading, render, Health, HttpOutcome, Reading,
    ServiceHealth, Thresholds,
};
use yard::table::Table;

#[test]
fn thresholds_change_both_probe_classifications() {
    let limits = Thresholds::from_settings(Some("25"), Some("50"), Some("3"));
    assert_eq!(http_health(26, limits), Health::Degraded);
    assert_eq!(http_health(51, limits), Health::Unhealthy);
    assert_eq!(heartbeat_health(31, 30, limits), Health::Degraded);
    assert_eq!(heartbeat_health(91, 30, limits), Health::Unhealthy);
    assert_eq!(heartbeat_health(30, 30, limits), Health::Healthy);
}

#[test]
fn invalid_thresholds_fall_back_to_the_defaults() {
    let limits = Thresholds::from_settings(Some("0"), Some("x"), Some("1"));
    assert_eq!(
        (limits.http_warn_ms, limits.http_crit_ms, limits.heartbeat_crit_multiplier),
        (500, 2000, 2)
    );
    let limits = Thresholds::from_settings(Some("3000"), None, None);
    assert_eq!((limits.http_warn_ms, limits.http_crit_ms), (3000, 3000));
    assert_eq!(http_health(500, Thresholds::from_settings(None, None, None)), Health::Healthy);
    assert_eq!(heartbeat_health(u64::MAX, u64::MAX, limits), Health::Healthy);
}

fn config(services: &[&str], probes: Vec<(&str, ServiceProbe)>) -> ProjectConfig {
    let mut service_health = Table::new();
    for (name, probe) in probes {
        service_health.insert(name.to_owned(), probe);
    }
    ProjectConfig {
        repo: "/srv/demo".to_owned(),
        branch: "main".to_owned(),
        remote: "origin".to_owned(),
        compose: ComposeConfig {
            directory: "/srv/demo".to_owned(),
            file: "compose.yml".to_owned(),
            env_file: ".env".to_owned(),
            services: services.iter().map(|name| (*name).to_owned()).collect(),
        },
        image: ImageConfig { name: "demo".to_owned(), tag_env: "APP_TAG".to_owned() },
        deployment: DeploymentConfig::default(),
        service_health,
        backup: None,
    }
}

fn beat() -> ServiceProbe {
    ServiceProbe::Heartbeat {
        path: "/run/yard/heartbeat".to_owned(),
        max_age_seconds: 30,
        deployment_gate: false,
    }
}

fn ask() -> ServiceProbe {
    ServiceProbe::Http {
        url: "http://127.0.0.1/health".to_owned(),
        timeout_ms: 300,
        deployment_gate: false,
    }
}

fn reading(outcome: HttpOutcome, elapsed_ms: u128, stamp: Option<&str>, now: u64) -> Reading {
    Reading { outcome, elapsed_ms, stamp: stamp.map(str::to_owned), now }
}

const ROWS: &str =
    "[{\"Service\":\"worker\",\"State\":\"running\"},{\"Service\":\"other\",\"State\":\"running\"}]";

fn measure(rows: &str, stamp: Option<&str>) -> Vec<ServiceHealth> {
    let config = config(&["worker", "other"], vec![("worker", beat())]);
    let containers = parse_containers("demo", rows);
    let readings = vec![
        reading(HttpOutcome::Failed, 0, stamp, 1_000),
        reading(HttpOutcome::Failed, 0, None, 1_000),
    ];
    collect("demo", &config, &containers, &readings, Thresholds::from_settings(None, None, Some("3")))
}

#[test]
fn heartbeat_age_missing_source_and_stopped_worker_are_not_silent_successes() {
    let fresh = measure(ROWS, Some("995"));
    assert_eq!(fresh[0].status, Health::Healthy);
    assert_eq!(fresh[0].age_seconds, Some(5));
    assert_eq!(fresh[1].status, Health::Unknown);
    let text = render(&fresh);
    assert!(text.contains("demo / other: No service probe configured [Unknown]"));
    assert!(text.contains("demo / worker: 5 s since heartbeat [Healthy]"));
    assert!(text.starts_with("Service health\n"));

    let stale = measure(ROWS, Some("950"));
    assert_eq!(stale[0].status, Health::Degraded);
    assert_eq!(stale[0].age_seconds, Some(50));
    let expired = measure(ROWS, Some("880"));
    assert_eq!(expired[0].status, Health::Unhealthy);
    for stamp in [None, Some("garbage"), Some("99999999999")] {
        let missing = measure(ROWS, stamp);
        assert_eq!(missing[0].status, Health::Unknown);
        assert_eq!(missing[0].age_seconds, None);
        assert_eq!(missing[0].message, Some("Heartbeat missing, unreadable or in the future"));
    }
    let stopped = measure("[{\"Service\":\"worker\",\"State\":\"exited\"}]", None);
    assert_eq!(stopped[0].status, Health::Unhealthy);
    assert_eq!(stopped[0].message, Some("Container stopped"));
    let absent = measure("[]", Some("995"));
    assert_eq!(absent[0].status, Health::Unknown);
    assert_eq!(absent[0].message, Some("Container unavailable"));
}

#[test]
fn http_probe_reports_latency_and_failure_without_docker_health_assumptions() {
    let config = config(&["api"], vec![("api", ask())]);
    let containers = parse_containers("demo", "[{\"Service\":\"api\",\"State\":\"running\"}]");
    let limits = Thresholds::from_settings(None, None, None);
    let one = |outcome, elapsed| {
        let readings = vec![reading(outcome, elapsed, None, 1_000)];
        collect("demo", &config, &containers, &readings, limits).remove(0)
    };
    let healthy = one(HttpOutcome::Success, 12);
    assert_eq!((healthy.status, healthy.latency_ms), (Health::Healthy, Some(12)));
    assert_eq!(one(HttpOutcome::Success, 501).status, Health::Degraded);
    assert_eq!(one(HttpOutcome::Success, 2_001).status, Health::Unhealthy);
    let bad = one(HttpOutcome::OtherStatus, 3);
    assert_eq!(bad.status, Health::Unhealthy);
    assert_eq!(bad.message, Some("HTTP non-success response"));
    let failed = one(HttpOutcome::Failed, 300);
    assert_eq!(failed.status, Health::Unhealthy);
    assert_eq!(failed.latency_ms, Some(300));
    assert_eq!(failed.message, Some("HTTP request failed or timed out"));
    assert_eq!(one(HttpOutcome::Success, u128::MAX).latency_ms, Some(u64::MAX));
}

#[test]
fn only_probes_of_running_containers_are_read() {
    let running = parse_containers("demo", "[{\"Service\":\"api\",\"State\":\"RUNNING\"}]");
    let stopped = parse_containers("demo", "[{\"Service\":\"api\",\"State\":\"exited\"}]");
    let probe = ask();
    assert!(needs_reading(Some(&probe), &running, "api"));
    assert!(!needs_reading(Some(&probe), &stopped, "api"));
    assert!(!needs_reading(Some(&probe), &None, "api"));
    assert!(!needs_reading(None, &running, "api"));
}
