use yard::cli::{Cli, Command};
use yard::command::{checked, format_command, inherit, is_command_failure};
use yard::config::{ComposeConfig, DeploymentConfig, ImageConfig, ProjectConfig};
use yard::error::YardError;
use yard::project::{
    check_name, git_branch, git_changes, git_head, git_resolve, image_exists, image_inspect,
    Project,
};
use yard::table::Table;

fn project() -> Project {
    Project {
        name: "demo".to_owned(),
        config: ProjectConfig {
            repo: "/srv/demo/repo".to_owned(),
            branch: "main".to_owned(),
            remote: "origin".to_owned(),
            compose: ComposeConfig {
                directory: "/srv/demo".to_owned(),
                file: "compose.yml".to_owned(),
                env_file: ".env".to_owned(),
                services: vec!["api".to_owned(), "worker".to_owned()],
            },
            image: ImageConfig { name: "demo".to_owned(), tag_env: "APP_TAG".to_owned() },
            deployment: DeploymentConfig::default(),
            service_health: Table::new(),
            backup: None,
        },
        state_path: "/var/lib/yard/demo.json".to_owned(),
    }
}

fn expected(args: &[&str]) -> Vec<String> {
    ["compose", "--env-file", "/srv/demo/.env", "-f", "/srv/demo/compose.yml"]
        .iter()
        .chain(args)
        .map(|word| (*word).to_owned())
        .collect()
}

fn logs(tail: u32, follow: bool, no_follow: bool, service: Option<&str>, since: Option<&str>) -> Vec<String> {
    let command = Command::Logs {
        project: "demo".to_owned(),
        tail,
        service: service.map(str::to_owned),
        since: since.map(str::to_owned),
        follow,
        no_follow,
    };
    project().compose_logs(tail, command.follows(), service, since).unwrap()
}

#[test]
fn default_logs_keep_exact_existing_docker_arguments() {
    assert_eq!(
        logs(200, false, false, None, None),
        expected(&["logs", "--tail", "200", "--follow", "api", "worker"])
    );
    assert_eq!(
        logs(50, false, true, None, None),
        expected(&["logs", "--tail", "50", "api", "worker"])
    );
}

#[test]
fn service_logs_only_request_exactly_that_service() {
    assert_eq!(
        logs(12, false, true, Some("api"), None),
        expected(&["logs", "--tail", "12", "api"])
    );
    assert_eq!(
        logs(200, true, false, Some("worker"), None),
        expected(&["logs", "--tail", "200", "--follow", "worker"])
    );
}

#[test]
fn unknown_service_reports_valid_names_without_invoking_docker() {
    for name in ["absent", "API", "api-extra"] {
        let error = project().compose_logs(200, true, Some(name), None).unwrap_err().message();
        assert!(
            error.contains(name) && error.contains("api") && error.contains("worker"),
            "{error}"
        );
    }
}

#[test]
fn since_is_passed_as_a_separate_argument_with_its_original_value() {
    for since in ["2h", "2026-09-24T08:00:00Z"] {
        assert_eq!(
            logs(200, false, true, Some("api"), Some(since)),
            expected(&["logs", "--tail", "200", "--since", since, "api"])
        );
    }
    assert_eq!(
        logs(200, false, false, None, Some("1h")),
        expected(&["logs", "--tail", "200", "--follow", "--since", "1h", "api", "worker"])
    );
}

#[test]
fn failed_commands_tell_their_words_status_and_errors() {
    let args = vec!["compose".to_owned(), "ps".to_owned()];
    assert_eq!(format_command("docker", &args), "docker compose ps");
    assert_eq!(checked("docker", &args, true, Some(0), "  out \n", "").unwrap(), "out");
    let error = checked("docker", &args, false, Some(17), "", " docker failed\n").unwrap_err();
    assert!(is_command_failure(&error));
    assert_eq!(
        error.message(),
        "command failed: docker compose ps exited with status 17\ndocker failed"
    );
    match inherit("docker", &args, false, None) {
        Err(YardError::CommandFailed { status, stderr, .. }) => {
            assert_eq!((status, stderr.as_str()), (1, ""))
        }
        other => panic!("{other:?}"),
    }
    assert!(inherit("docker", &args, true, Some(0)).is_ok());
}

#[test]
fn git_and_compose_commands_are_exact() {
    let project = project();
    assert_eq!(git_changes(), ["status", "--porcelain", "--untracked-files=no"]);
    assert_eq!(git_head(), ["rev-parse", "HEAD"]);
    assert_eq!(git_branch(), ["branch", "--show-current"]);
    assert_eq!(git_resolve("v1"), ["rev-parse", "v1^{commit}"]);
    assert_eq!(project.git_switch(), ["switch", "main"]);
    assert_eq!(project.git_fetch(), ["fetch", "origin", "main"]);
    assert_eq!(project.git_merge(), ["merge", "--ff-only", "origin/main"]);
    assert_eq!(project.compose_config(), expected(&["config", "--format", "json"]));
    assert_eq!(project.compose_ps(), expected(&["ps", "--all", "--format", "json"]));
    assert_eq!(
        project.compose_stat("worker", "/run/beat"),
        expected(&["exec", "-T", "worker", "stat", "-c", "%Y", "--", "/run/beat"])
    );
    assert_eq!(project.compose_migrate(), None);
    assert_eq!(project.tag_env("abc"), ("APP_TAG".to_owned(), "abc".to_owned()));
    assert_eq!(image_inspect("demo:abc"), ["image", "inspect", "demo:abc"]);
    assert!(project.check_clean(" \n").is_ok());
    assert_eq!(
        project.check_clean(" M app").unwrap_err().message(),
        "configuration error: /srv/demo/repo has tracked local changes; refusing to deploy"
    );
}

#[test]
fn images_are_missing_only_where_docker_says_so() {
    let failed = YardError::CommandFailed {
        program: "docker".to_owned(),
        status: 1,
        stderr: String::new(),
    };
    assert!(!image_exists(Err(failed)).unwrap());
    assert!(image_exists(Ok("[]".to_owned())).unwrap());
    assert!(image_exists(Err(YardError::Io("not found".to_owned()))).is_err());
}

#[test]
fn projects_are_listed_by_name_without_the_host_snapshot() {
    let files: Vec<String> = ["b.toml", "host.toml", "a.toml", "notes.md", ".toml", "x.y.toml"]
        .iter()
        .map(|name| (*name).to_owned())
        .collect();
    assert_eq!(Project::list(&files), ["a", "b", "x.y"]);
    assert_eq!(
        check_name("host", true).unwrap_err().message(),
        "configuration error: project name 'host' is reserved for the host snapshot"
    );
    assert_eq!(check_name("demo", false).unwrap_err().message(), "project not found: demo");
    assert!(check_name("demo", true).is_ok());
}

#[test]
fn tags_are_the_first_twelve_characters() {
    assert_eq!(Project::tag_for_revision("0123456789abcdef"), "0123456789ab");
    assert_eq!(Project::tag_for_revision("012"), "012");
}

#[test]
fn directories_come_from_the_flag_then_the_environment() {
    let mut cli = Cli { projects_dir: None, state_dir: None, command: Command::List };
    let environment = Some("/env".to_owned());
    assert_eq!(cli.projects_directory(&None), "/etc/yard/projects");
    assert_eq!(cli.state_directory(&None), "/var/lib/yard");
    assert_eq!(cli.projects_directory(&environment), "/env");
    cli.state_dir = Some("/flag".to_owned());
    assert_eq!(cli.state_directory(&environment), "/flag");
    assert!(!cli.command.follows());
    assert!(Command::Images { prune: true, yes: true }.removes_images());
    assert!(!Command::Images { prune: true, yes: false }.removes_images());
}

#[test]
fn errors_are_told_in_words() {
    let inner = Box::new(YardError::HealthCheck("http://x".to_owned()));
    for (error, message) in [
        (YardError::Toml("t".to_owned()), "invalid TOML: t"),
        (YardError::Http("h".to_owned()), "HTTP error: h"),
        (
            YardError::NoPreviousRelease("demo".to_owned()),
            "no previous deployment is recorded for demo",
        ),
        (
            YardError::ImageMissing("demo:1".to_owned()),
            "image is not available locally: demo:1",
        ),
        (
            YardError::Service { service: "api".to_owned(), source: inner },
            "service api: health check failed for http://x",
        ),
    ] {
        assert_eq!(error.message(), message);
    }
}
