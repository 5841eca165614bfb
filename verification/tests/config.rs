use yard::config::{
    default_remote, join_path, valid_env_name, valid_service_name, BackupConfig, ComposeConfig,
    DeploymentConfig, ImageConfig, ProjectConfig, ServiceProbe,
};
use yard::error::YardError;
use yard::table::Table;

#[test]
fn validates_environment_variable_names() {
    assert!(valid_env_name("APP_IMAGE_TAG"));
    assert!(valid_env_name("_TAG2"));
    assert!(!valid_env_name("2TAG"));
    assert!(!valid_env_name("APP-TAG"));
    assert!(!valid_env_name(""));
}

fn text(value: &toml::Value) -> String {
    value.as_str().unwrap().to_owned()
}

fn number(value: &toml::Value) -> u64 {
    value.as_integer().unwrap() as u64
}

fn read(manifest: &str) -> ProjectConfig {
    let table: toml::Table = toml::from_str(manifest).unwrap();
    let compose = &table["compose"];
    let mut service_health = Table::new();
    if let Some(probes) = table.get("service_health").and_then(toml::Value::as_table) {
        for (name, probe) in probes {
            let probe = match probe["type"].as_str().unwrap() {
                "http" => ServiceProbe::Http {
                    url: text(&probe["url"]),
                    timeout_ms: number(&probe["timeout_ms"]),
                    deployment_gate: false,
                },
                _ => ServiceProbe::Heartbeat {
                    path: text(&probe["path"]),
                    max_age_seconds: number(&probe["max_age_seconds"]),
                    deployment_gate: false,
                },
            };
            service_health.insert(name.clone(), probe);
        }
    }
    ProjectConfig {
        repo: text(&table["repo"]),
        branch: text(&table["branch"]),
        remote: default_remote(),
        compose: ComposeConfig {
            directory: text(&compose["directory"]),
            file: text(&compose["file"]),
            env_file: text(&compose["env_file"]),
            services: compose["services"].as_array().unwrap().iter().map(text).collect(),
        },
        image: ImageConfig {
            name: text(&table["image"]["name"]),
            tag_env: text(&table["image"]["tag_env"]),
        },
        deployment: DeploymentConfig::default(),
        service_health,
        backup: None,
    }
}

const BASE: &str = "repo = '/srv/app'\nbranch = 'main'\n[compose]\ndirectory = '/srv/app'\nfile = 'compose.yml'\nenv_file = '.env'\nservices = ['api', 'worker']\n[image]\nname = 'app'\ntag_env = 'APP_TAG'\n";

#[test]
fn service_probes_are_optional_but_must_target_configured_services() {
    let base = BASE;
    let legacy = read(base);
    legacy.validate().unwrap();
    assert_eq!(legacy.service_health.len(), 0);
    let configured = format!("{base}\n[service_health.api]\ntype = 'http'\nurl = 'http://127.0.0.1:8080/health'\ntimeout_ms = 800\n[service_health.worker]\ntype = 'heartbeat'\npath = '/run/yard/heartbeat'\nmax_age_seconds = 30\n");
    let parsed = read(&configured);
    parsed.validate().unwrap();
    assert_eq!(parsed.service_health.len(), 2);
    for bad in [
        format!("{base}\n[service_health.other]\ntype = 'heartbeat'\npath = '/run/beat'\nmax_age_seconds = 30\n"),
        format!("{base}\n[service_health.worker]\ntype = 'heartbeat'\npath = '../beat'\nmax_age_seconds = 30\n"),
        format!("{base}\n[service_health.api]\ntype = 'http'\nurl = 'file:///etc/passwd'\ntimeout_ms = 800\n"),
    ] {
        let parsed = read(&bad);
        assert!(parsed.validate().is_err());
    }
}

fn fault(change: fn(&mut ProjectConfig)) -> String {
    let mut config = read(BASE);
    change(&mut config);
    match config.validate() {
        Err(YardError::Config(reason)) => reason,
        other => panic!("{other:?}"),
    }
}

#[test]
fn every_fault_of_a_manifest_is_named() {
    assert_eq!(fault(|c| c.branch = " \t".to_owned()), "branch must not be empty");
    assert_eq!(fault(|c| c.remote = String::new()), "remote must not be empty");
    assert_eq!(fault(|c| c.compose.file = " ".to_owned()), "compose.file must not be empty");
    assert_eq!(
        fault(|c| c.compose.env_file = " ".to_owned()),
        "compose.env_file must not be empty"
    );
    assert_eq!(fault(|c| c.image.name = "\n".to_owned()), "image.name must not be empty");
    assert_eq!(
        fault(|c| c.image.tag_env = "APP-TAG".to_owned()),
        "image.tag_env is not a valid environment variable name: APP-TAG"
    );
    assert_eq!(
        fault(|c| c.deployment.health_attempts = 0),
        "deployment.health_attempts must be greater than zero"
    );
    assert_eq!(
        fault(|c| c.deployment.health_interval_seconds = 0),
        "deployment.health_interval_seconds must be greater than zero"
    );
    assert_eq!(
        fault(|c| c.compose.services[1] = ".worker".to_owned()),
        "compose.services contains invalid service name: .worker"
    );
    assert_eq!(
        fault(|c| c.backup = Some(backup(&[" "], None))),
        "backup.command must contain an executable"
    );
    assert_eq!(
        fault(|c| c.backup = Some(backup(&[], None))),
        "backup.command must contain an executable"
    );
    assert_eq!(
        fault(|c| c.backup = Some(backup(&["true"], Some(" ")))),
        "backup.extension must not be empty when configured"
    );
}

fn backup(command: &[&str], extension: Option<&str>) -> BackupConfig {
    BackupConfig {
        command: command.iter().map(|word| (*word).to_owned()).collect(),
        directory: None,
        extension: extension.map(str::to_owned),
        offsite_command: None,
        offsite_destination: None,
    }
}

#[test]
fn probes_need_a_plain_url_or_a_plain_path() {
    let http = |url: &str, timeout_ms: u64| {
        let mut config = read(BASE);
        let url = url.to_owned();
        config
            .service_health
            .insert("api".to_owned(), ServiceProbe::Http { url, timeout_ms, deployment_gate: true });
        config.validate().is_ok()
    };
    assert!(http("https://example.test/health", 1));
    assert!(!http("https://example.test/health", 0));
    assert!(!http("https://user@example.test/health", 1));
    assert!(!http("https://:secret@example.test/health", 1));
    assert!(!http("ftp://example.test/health", 1));
    assert!(!http("/health", 1));
    let heartbeat = |path: &str, max_age_seconds: u64| {
        let mut config = read(BASE);
        let path = path.to_owned();
        config.service_health.insert(
            "worker".to_owned(),
            ServiceProbe::Heartbeat { path, max_age_seconds, deployment_gate: false },
        );
        config.validate().is_ok()
    };
    assert!(heartbeat("/run/beat", 30));
    assert!(heartbeat("/run/..beat", 30));
    assert!(!heartbeat("/run/beat", 0));
    assert!(!heartbeat("/run/../beat", 30));
    assert!(!heartbeat("run/beat", 30));
}

#[test]
fn service_names_are_compose_identifiers() {
    assert!(valid_service_name("api-2_b.c"));
    assert!(valid_service_name("0"));
    assert!(!valid_service_name(""));
    assert!(!valid_service_name("-api"));
    assert!(!valid_service_name("café"));
}

#[test]
fn paths_are_joined_like_directories_and_files() {
    let config = read(BASE);
    assert_eq!(config.compose_file_path(), "/srv/app/compose.yml");
    assert_eq!(config.compose_env_path(), "/srv/app/.env");
    assert_eq!(join_path("/srv/app/", "compose.yml"), "/srv/app/compose.yml");
    assert_eq!(join_path("/srv/app", "/etc/env"), "/etc/env");
    assert_eq!(join_path("", "compose.yml"), "compose.yml");
}

#[test]
fn defaults_are_thirty_attempts_two_seconds_apart() {
    let deployment = DeploymentConfig::default();
    assert_eq!((deployment.health_attempts, deployment.health_interval_seconds), (30, 2));
    assert_eq!((deployment.gate_attempts, deployment.gate_interval_seconds), (30, 2));
    assert_eq!(default_remote(), "origin");
}

#[test]
fn a_table_keeps_its_names_in_order_and_once() {
    let mut table = Table::new();
    table.insert("worker".to_owned(), 1);
    table.insert("api".to_owned(), 2);
    table.insert("worker".to_owned(), 3);
    assert_eq!(table.len(), 2);
    assert_eq!((table.name(0).as_str(), *table.value(0)), ("api", 2));
    assert_eq!((table.name(1).as_str(), *table.value(1)), ("worker", 3));
    assert_eq!(table.get("worker"), Some(&3));
    assert_eq!(table.get("other"), None);
}
