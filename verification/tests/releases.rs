use yard::activation::{Activation, ActivationAction, ActivationReply};
use yard::backup::{command_parts, Backup, BackupAction, BackupReply};
use yard::config::{
    choose_services, BackupConfig, ComposeConfig, DeploymentConfig, ImageConfig, ProjectConfig,
    ServiceProbe,
};
use yard::deploy::{runtime_line, Deployment};
use yard::envfile;
use yard::error::YardError;
use yard::journal;
use yard::json;
use yard::operation::{Action, Reply};
use yard::points;
use yard::project::{image_exists, Project};
use yard::restore::{Request, Restore};
use yard::service_health::{Health, ServiceHealth};
use yard::state::{BackupAttempt, BackupResult, ProjectState, Release, ReleaseService};
use yard::status;
use yard::table::Table;

const FIRST: &str = "1111111111111111111111111111111111111111";
const SECOND: &str = "2222222222222222222222222222222222222222";

fn text(value: &str) -> String {
    value.to_owned()
}

fn texts(values: &[&str]) -> Vec<String> {
    values.iter().map(|value| text(value)).collect()
}

fn config(services: &[&str]) -> ProjectConfig {
    ProjectConfig {
        repo: text("/srv/demo/repo"),
        branch: text("main"),
        remote: text("origin"),
        compose: ComposeConfig {
            directory: text("/srv/demo"),
            file: text("compose.yml"),
            env_file: text(".env"),
            services: texts(services),
        },
        image: ImageConfig { name: text("demo"), tag_env: text("IMAGE_TAG") },
        deployment: DeploymentConfig::default(),
        service_health: Table::new(),
        backup: None,
    }
}

fn backup(offsite: bool) -> BackupConfig {
    BackupConfig {
        command: texts(&["/usr/local/bin/local-backup"]),
        directory: Some(text("/srv/archives")),
        extension: None,
        offsite_command: if offsite { Some(texts(&["/usr/local/bin/offsite-backup"])) } else { None },
        offsite_destination: if offsite { Some(text("remote:test")) } else { None },
    }
}

fn failed(program: &str) -> YardError {
    YardError::CommandFailed { program: text(program), status: 9, stderr: String::new() }
}

/// A project with its files, its checkout and its containers, all in memory.
struct World {
    project: Project,
    state: Option<ProjectState>,
    env: String,
    env_is_link: bool,
    planted: bool,
    head: String,
    upstream: String,
    running: Vec<(String, String)>,
    log: Vec<String>,
    journal: Vec<String>,
    printed: Vec<String>,
    copies: usize,
    missing_worker: bool,
    fail: Option<(String, String, String)>,
    fail_once: bool,
    healthy_image: Option<String>,
    requests: usize,
    sleeps: Vec<u64>,
    gate: Vec<Vec<ServiceHealth>>,
    fail_local: bool,
    fail_offsite: bool,
    offsite_ran: bool,
    unsaved: usize,
    now: u64,
}

impl World {
    fn new(services: &[&str]) -> World {
        World {
            project: Project {
                name: text("demo"),
                config: config(services),
                state_path: text("/var/lib/yard/demo.json"),
            },
            state: None,
            env: text("IMAGE_TAG=old\n"),
            env_is_link: false,
            planted: false,
            head: text(FIRST),
            upstream: text(FIRST),
            running: Vec::new(),
            log: Vec::new(),
            journal: Vec::new(),
            printed: Vec::new(),
            copies: 0,
            missing_worker: false,
            fail: None,
            fail_once: false,
            healthy_image: None,
            requests: 0,
            sleeps: Vec::new(),
            gate: Vec::new(),
            fail_local: false,
            fail_offsite: false,
            offsite_ran: false,
            unsaved: usize::MAX,
            now: 1_000,
        }
    }

    fn state(&self) -> &ProjectState {
        self.state.as_ref().unwrap()
    }

    fn current(&self) -> &Release {
        self.state().current.as_ref().unwrap()
    }

    fn previous(&self) -> &Release {
        self.state().previous.as_ref().unwrap()
    }

    fn shown(&self) -> String {
        format!("{:?}", self.state)
    }

    fn env_path(&self) -> String {
        self.project.config.compose_env_path()
    }

    fn legacy(&self) -> String {
        format!("/srv/demo/{}", envfile::legacy_temporary(Some(".env")))
    }

    fn docker(&mut self, args: Vec<String>, tag: &str, step: &str, service: &str) -> Result<(), YardError> {
        self.log.push(format!("{} | {tag}", args.join(" ")));
        if let Some((fail_step, fail_service, fail_tag)) = self.fail.clone() {
            if fail_step == step && fail_service == service && fail_tag == tag {
                if self.fail_once {
                    self.fail = None;
                }
                return Err(failed("docker"));
            }
        }
        Ok(())
    }

    fn services(&self, tag: &str) -> Result<Vec<ReleaseService>, YardError> {
        let output = if self.missing_worker {
            format!("{{\"services\":{{\"api\":{{\"image\":\"demo-api:{tag}\"}}}}}}")
        } else {
            format!("{{\"services\":{{\"api\":{{\"image\":\"demo-api:{tag}\"}},\"worker\":{{\"image\":\"demo-worker:{tag}\"}}}}}}")
        };
        self.project.release_services(&output, tag)
    }

    fn listing(&self) -> String {
        self.running
            .iter()
            .map(|(service, image)| {
                format!("{{\"Service\":\"{service}\",\"State\":\"running\",\"Image\":\"{image}\"}}")
            })
            .collect::<Vec<_>>()
            .join("\n")
    }

    fn save(&mut self, state: ProjectState) -> Result<(), YardError> {
        if self.unsaved == 0 {
            return Err(YardError::Io(text("no space left on device")));
        }
        self.unsaved -= 1;
        self.state = Some(state);
        Ok(())
    }

    fn activate(&mut self, release: &Release, gated: bool) -> Result<(), YardError> {
        let mut machine = Activation::start(&self.project.config, release, self.now);
        loop {
            let reply = match machine.action(&self.project.config, release) {
                ActivationAction::Up { tag, service } => {
                    let args = self.project.compose_up(&service);
                    match self.docker(args, &tag, "up", &service) {
                        Ok(()) => {
                            self.running.retain(|(name, _)| *name != service);
                            self.running.push((service.clone(), format!("demo-{service}:{tag}")));
                            ActivationReply::Done
                        }
                        Err(error) => ActivationReply::Failed(error),
                    }
                }
                ActivationAction::Request(_) => {
                    self.requests += 1;
                    let healthy = match &self.healthy_image {
                        Some(image) => self.running.iter().any(|(_, running)| running == image),
                        None => true,
                    };
                    ActivationReply::Healthy(healthy)
                }
                ActivationAction::Sleep(seconds) => {
                    self.sleeps.push(seconds);
                    ActivationReply::Done
                }
                ActivationAction::List => ActivationReply::Listed(self.listing()),
                ActivationAction::Measure => ActivationReply::Measured(if self.gate.is_empty() {
                    Vec::new()
                } else {
                    self.gate.remove(0)
                }),
                ActivationAction::Finish => match machine {
                    Activation::Ended { result } => return result,
                    _ => unreachable!(),
                },
            };
            let now = self.now;
            machine = machine.step(&self.project.config, release, gated, reply, now);
        }
    }

    fn back_up(&mut self, state: ProjectState) -> (ProjectState, Result<(), YardError>) {
        let mut machine = Backup::start(&self.project.config.backup, state);
        loop {
            let action = match &self.project.config.backup {
                Some(backup) => machine.action(backup),
                None => BackupAction::Finish,
            };
            let reply = match action {
                BackupAction::Run(command) => {
                    let (program, _) = command_parts(&command).unwrap();
                    let offsite = program.ends_with("offsite-backup");
                    self.offsite_ran |= offsite;
                    let fails = if offsite { self.fail_offsite } else { self.fail_local };
                    BackupReply::Ran {
                        started_at_unix: self.now,
                        duration_ms: 12,
                        result: if fails { Err(failed(&program)) } else { Ok(()) },
                    }
                }
                BackupAction::Save(state) => match self.save(state) {
                    Ok(()) => BackupReply::Saved,
                    Err(error) => BackupReply::Failed(error),
                },
                BackupAction::Finish => match machine {
                    Backup::Ended { state, result } => return (state, result),
                    _ => unreachable!(),
                },
            };
            let backup = self.project.config.backup.as_ref().unwrap();
            machine = machine.step(backup, reply);
        }
    }

    fn perform(&mut self, action: Action) -> Reply {
        let outcome = self.attempt(action);
        match outcome {
            Ok(reply) => reply,
            Err(error) => Reply::Failed(error),
        }
    }

    fn attempt(&mut self, action: Action) -> Result<Reply, YardError> {
        Ok(match action {
            Action::EnsureClean => {
                self.project.check_clean("")?;
                Reply::Done
            }
            Action::SwitchBranch => Reply::Done,
            Action::LoadState => Reply::State(self.state.clone().unwrap_or_default()),
            Action::CheckTagWritable => {
                envfile::check_writable(
                    &self.env_path(),
                    self.env_is_link,
                    &self.legacy(),
                    self.planted,
                )?;
                Reply::Done
            }
            Action::HeadRevision => Reply::Text(self.head.clone()),
            Action::ReadTag => Reply::Tag(envfile::get(&self.env_path(), &self.env, "IMAGE_TAG")?),
            Action::UpdateBranch => {
                self.head = self.upstream.clone();
                Reply::Done
            }
            Action::ResolveRevision(revision) => {
                if [FIRST, SECOND].contains(&revision.as_str()) {
                    Reply::Text(revision)
                } else {
                    return Err(failed("git"));
                }
            }
            Action::Backup(state) => {
                let (state, result) = self.back_up(state);
                result?;
                Reply::State(state)
            }
            Action::ReleaseServices(tag) => Reply::Services(self.services(&tag)?),
            Action::Build { tag, service } => {
                let args = self.project.compose_build(&service);
                self.docker(args, &tag, "build", &service)?;
                Reply::Done
            }
            Action::Migrate(tag) => {
                if let Some(args) = self.project.compose_migrate() {
                    self.docker(args, &tag, "run", "migrate")?;
                }
                Reply::Done
            }
            Action::ReportRuntime => {
                let line = runtime_line(Ok(self.listing()));
                self.printed.push(line);
                Reply::Done
            }
            Action::ImageExists(_) => Reply::Found(image_exists(Ok(String::new()))?),
            Action::Snapshot => {
                self.copies += 2;
                Reply::Text(text("/var/lib/yard/demo.restore-1.json"))
            }
            Action::Save(state) => {
                self.save(state)?;
                Reply::Done
            }
            Action::PersistTag(tag) => {
                self.env = envfile::set(
                    &self.env_path(),
                    self.env_is_link,
                    &self.env,
                    "IMAGE_TAG",
                    &tag,
                    &self.legacy(),
                    self.planted,
                )?;
                Reply::Done
            }
            Action::Activate { release, gated } => {
                self.activate(&release, gated)?;
                Reply::Done
            }
            Action::Journal { target, result, cause } => {
                self.journal.push(journal::entry(self.now, target.as_deref(), &result, &cause));
                Reply::Done
            }
            Action::Finish => unreachable!(),
        })
    }

    fn deploy(&mut self) -> Result<(), YardError> {
        let mut machine = Deployment::start();
        loop {
            let action = machine.action();
            if let Action::Finish = action {
                match machine {
                    Deployment::Ended { result } => return result,
                    _ => unreachable!(),
                }
            }
            let reply = self.perform(action);
            let mut lines = machine.announce("demo", &self.project.config, &reply);
            self.printed.append(&mut lines);
            let now = self.now;
            machine = machine.step(&self.project.config, reply, now);
        }
    }

    fn restore(&mut self, target: Option<&str>, yes: bool) -> Result<(), YardError> {
        let request = Request { target: target.map(text), yes };
        let mut machine = Restore::start();
        loop {
            let action = machine.action(&request);
            if let Action::Finish = action {
                match machine {
                    Restore::Ended { result } => return result,
                    _ => unreachable!(),
                }
            }
            self.printed.extend(machine.warning());
            let reply = self.perform(action);
            self.printed.extend(machine.announce("demo", &reply));
            let now = self.now;
            machine = machine.step(&self.project.config, &request, reply, now);
        }
    }

    fn roll_back(&mut self) -> Result<(), YardError> {
        let state = self.state();
        let release = if state.pending.is_none() && state.previous.is_some() {
            &state.previous
        } else if state.current.is_some() {
            &state.current
        } else {
            &state.previous
        };
        let target = format!("release:{}", release.as_ref().unwrap().tag);
        self.restore(Some(&target), true)
    }

    fn next_revision(&mut self) -> String {
        self.upstream = text(SECOND);
        Project::tag_for_revision(SECOND)
    }

    fn ups(&self, service: &str) -> usize {
        let part = format!("up -d --no-build --no-deps {service}");
        self.log.iter().filter(|line| line.contains(&part)).count()
    }
}

fn message(result: Result<(), YardError>) -> String {
    result.unwrap_err().message()
}

fn release(revision: &str, tag: &str, services: &[&str], status: &str) -> Release {
    Release {
        revision: text(revision),
        tag: text(tag),
        deployed_at_unix: 42,
        services: services
            .iter()
            .map(|name| ReleaseService { name: text(name), image: format!("demo-{name}:{tag}") })
            .collect(),
        status: text(status),
    }
}

fn interrupted_first_deploy() -> ProjectState {
    ProjectState {
        current: None,
        previous: Some(release("abc123", "old", &["api", "worker"], "superseded")),
        pending: Some(release("def456", "new", &["api", "worker"], "activating")),
        last_backup: None,
        last_offsite: None,
    }
}

#[test]
fn explicit_restore_guards_and_preserves_state() {
    let mut world = World::new(&["api"]);
    world.project.config.backup = Some(backup(false));
    world.deploy().unwrap();
    let before = world.shown();
    let (current, previous) = (world.current().clone(), world.previous().clone());
    let target = format!("release:{}", previous.tag);
    let backups = world.state().last_backup.as_ref().unwrap().started_at_unix;
    world.now = 2_000;
    assert!(world.restore(None, false).is_err());
    assert!(world.restore(None, true).is_err());
    assert!(world.restore(Some(&target), false).is_err());
    assert!(message(world.restore(Some("backup:local"), true)).contains("Data backups cannot"));
    assert_eq!(world.shown(), before);
    assert_eq!(world.copies, 0);
    world.restore(Some(&target), true).unwrap();
    assert_eq!(world.current().revision, previous.revision);
    assert_eq!(world.current().deployed_at_unix, previous.deployed_at_unix);
    assert_eq!(world.previous().revision, current.revision);
    assert!(world.state().pending.is_none());
    assert_eq!(world.copies, 2);
    assert_eq!(world.journal.len(), 10);
    let audit = world.journal.join("\n");
    assert!(audit.contains("Data backups cannot"));
    assert!(audit.contains("\"result\":\"success\""));
    assert_eq!(world.state().last_backup.as_ref().unwrap().started_at_unix, backups);
    assert!(!world.log.iter().any(|line| line.contains(" run --rm ")));
}

#[test]
fn every_restore_adds_two_lines_to_the_journal() {
    let mut world = World::new(&["api"]);
    world.deploy().unwrap();
    let target = format!("release:{}", world.previous().tag);
    let calls = [
        (None, true),
        (Some("backup:local"), true),
        (Some("release:unknown"), true),
        (Some(target.as_str()), false),
        (Some(target.as_str()), true),
    ];
    for (turn, (name, yes)) in calls.into_iter().enumerate() {
        let earlier = world.journal.clone();
        let word = match world.restore(name, yes) {
            Ok(()) => "success",
            Err(_) => "refused_or_failed",
        };
        assert_eq!(word == "success", turn == 4);
        assert_eq!(world.journal.len(), 2 * (turn + 1));
        assert_eq!(world.journal[..2 * turn], earlier[..]);
        assert!(world.journal[2 * turn].contains("\"result\":\"started\""));
        assert!(world.journal[2 * turn + 1].contains(&format!("\"result\":\"{word}\"")));
    }
}

#[test]
fn restoring_back_gives_the_first_record_back() {
    let mut world = World::new(&["api", "worker"]);
    world.deploy().unwrap();
    world.next_revision();
    world.deploy().unwrap();
    let (record, env) = (format!("{:?}", world.state()), world.env.clone());
    let (first, second) = (world.previous().tag.clone(), world.current().tag.clone());
    world.restore(Some(&format!("release:{first}")), true).unwrap();
    assert_ne!(format!("{:?}", world.state()), record);
    assert_eq!(world.env, format!("IMAGE_TAG={first}\n"));
    world.restore(Some(&format!("release:{second}")), true).unwrap();
    assert_eq!(format!("{:?}", world.state()), record);
    assert_eq!(world.env, env);
}

#[test]
fn unknown_restore_target_names_available_releases_without_activation() {
    let mut world = World::new(&["api"]);
    world.deploy().unwrap();
    let before = world.shown();
    let known = format!("release:{}", world.previous().tag);
    let docker = world.log.len();
    for target in ["release:unknown", "not-a-git-revision"] {
        let error = message(world.restore(Some(target), true));
        assert!(error.contains(&known), "{error}");
        assert_eq!(world.shown(), before);
    }
    assert_eq!(world.log.len(), docker);
}

#[test]
fn restore_refuses_recorded_data_service_before_activation_or_snapshot() {
    let mut world = World::new(&["api"]);
    world.deploy().unwrap();
    let tag = world.previous().tag.clone();
    let state = world.state.as_mut().unwrap();
    state.previous.as_mut().unwrap().services =
        vec![ReleaseService { name: text("postgres"), image: format!("demo-postgres:{tag}") }];
    let before = world.shown();
    let docker = world.log.len();
    let error = message(world.restore(Some(&format!("release:{tag}")), true));
    assert!(error.contains("postgres") && error.contains("api"), "{error}");
    assert_eq!(world.shown(), before);
    assert_eq!(world.log.len(), docker);
    assert_eq!(world.copies, 0);
    let audit = world.journal.join("\n");
    assert!(audit.contains("postgres") && audit.contains("refused_or_failed"));
}

#[test]
fn restore_refuses_data_service_in_recovery_release() {
    let mut world = World::new(&["api"]);
    world.deploy().unwrap();
    let target = format!("release:{}", world.previous().tag);
    world.state.as_mut().unwrap().current.as_mut().unwrap().services[0].name = text("postgres");
    let before = world.shown();
    let docker = world.log.len();
    assert!(message(world.restore(Some(&target), true)).contains("postgres"));
    assert_eq!(world.shown(), before);
    assert_eq!(world.log.len(), docker);
}

#[test]
fn restore_refuses_migration_service_even_if_listed_as_application() {
    let mut world = World::new(&["api"]);
    world.deploy().unwrap();
    let target = format!("release:{}", world.previous().tag);
    world.state.as_mut().unwrap().previous.as_mut().unwrap().services[0].name = text("migrate");
    world.project.config.deployment.migration_service = Some(text("migrate"));
    let docker = world.log.len();
    assert!(message(world.restore(Some(&target), true)).contains("migrate"));
    assert_eq!(world.log.len(), docker);
}

#[test]
fn restore_refuses_migration_service_even_when_currently_whitelisted() {
    let mut world = World::new(&["api"]);
    world.deploy().unwrap();
    let before = world.shown();
    let target = format!("release:{}", world.previous().tag);
    world.project.config.deployment.migration_service = Some(text("api"));
    let docker = world.log.len();
    assert!(message(world.restore(Some(&target), true)).contains("migration service: api"));
    assert_eq!(world.shown(), before);
    assert_eq!(world.log.len(), docker);
}

#[test]
fn restore_populates_legacy_release_services_and_preserves_multiple_apps() {
    let mut world = World::new(&["api", "worker"]);
    world.deploy().unwrap();
    let target = format!("release:{}", world.previous().tag);
    world.state.as_mut().unwrap().previous.as_mut().unwrap().services = Vec::new();
    world.restore(Some(&target), true).unwrap();
    assert_eq!(world.current().services.len(), 2);
    let log = world.log.join("\n");
    assert!(log.contains("up -d --no-build --no-deps api | old"));
    assert!(log.contains("up -d --no-build --no-deps worker | old"));
}

#[test]
fn restore_points_report_unreadable_backup_record() {
    points::check_document(r#"{"current":null,"last_backup":{"result":"garbage"}}"#).unwrap();
    let records = points::Records {
        previous: points::Record::Absent,
        current: points::Record::Absent,
        pending: points::Record::Absent,
        last_backup: points::Record::Unreadable,
        last_offsite: points::Record::Absent,
    };
    let lines = points::points("demo", &records, 100);
    assert!(lines.iter().any(|line| line.contains("unreadable")), "{lines:?}");
}

#[test]
fn failed_restore_recovers_original_image_and_journals_failure() {
    let mut world = World::new(&["api"]);
    world.deploy().unwrap();
    world.next_revision();
    world.deploy().unwrap();
    let before = world.shown();
    let target = world.previous().tag.clone();
    world.fail = Some((text("up"), text("api"), target.clone()));
    world.printed.clear();
    assert!(world.restore(Some(&format!("release:{target}")), true).is_err());
    assert_eq!(world.shown(), before);
    assert_eq!(
        world.printed,
        [
            "Application restore demo: 222222222222 -> 111111111111 (snapshot /var/lib/yard/demo.restore-1.json)",
            "Application activation failed: service api: command failed: docker exited with status 9\n; attempting to reactivate 222222222222",
        ]
    );
    assert_eq!(world.env, format!("IMAGE_TAG={}\n", world.current().tag));
    assert!(world.journal.last().unwrap().contains("refused_or_failed"));
}

#[test]
fn failed_recovery_is_journaled_and_keeps_the_pending_marker() {
    let mut world = World::new(&["api"]);
    world.deploy().unwrap();
    world.next_revision();
    world.deploy().unwrap();
    let target = format!("release:{}", world.previous().tag);
    world.healthy_image = Some(text("never-healthy"));
    world.project.config.deployment.health_url = Some(text("http://127.0.0.1/health"));
    world.project.config.deployment.health_attempts = 1;
    let error = message(world.restore(Some(&target), true));
    assert!(error.contains("activation failed (") && error.contains("recovery failed ("), "{error}");
    assert_eq!(world.state().pending.as_ref().unwrap().status, "activating");
    assert!(world.journal.last().unwrap().contains("pending release retained"));
}

#[test]
fn backup_records_local_and_offsite_outcomes_independently() {
    let mut world = World::new(&["api"]);
    world.project.config.backup = Some(backup(true));
    let (state, result) = world.back_up(ProjectState::default());
    result.unwrap();
    let local = state.last_backup.as_ref().unwrap();
    assert_eq!(local.result.label(), "success");
    assert_eq!(local.destination.as_deref(), Some("/srv/archives"));
    assert_eq!((local.started_at_unix, local.duration_ms), (1_000, 12));
    let copy = state.last_offsite.as_ref().unwrap();
    assert_eq!(copy.result.label(), "success");
    assert_eq!(copy.destination.as_deref(), Some("remote:test"));

    world.fail_offsite = true;
    let (state, result) = world.back_up(state);
    assert!(result.is_err());
    assert_eq!(state.last_backup.as_ref().unwrap().result, BackupResult::Success);
    assert_eq!(state.last_offsite.as_ref().unwrap().result, BackupResult::Failure);

    world.fail_offsite = false;
    world.offsite_ran = false;
    world.fail_local = true;
    let (state, result) = world.back_up(state);
    assert!(result.is_err());
    assert_eq!(state.last_backup.as_ref().unwrap().result, BackupResult::Failure);
    assert!(state.last_offsite.is_none());
    assert!(!world.offsite_ran);

    world.fail_local = false;
    let (state, result) = world.back_up(state);
    result.unwrap();
    assert_eq!(state.last_backup.as_ref().unwrap().result, BackupResult::Success);
    assert_eq!(state.last_offsite.as_ref().unwrap().result, BackupResult::Success);
}

#[test]
fn backup_without_offsite_survives_deploy_and_rollback_state_writes() {
    let mut world = World::new(&["api"]);
    world.project.config.backup = Some(backup(false));
    let (state, result) = world.back_up(ProjectState::default());
    result.unwrap();
    assert!(state.last_offsite.is_none());
    world.deploy().unwrap();
    assert_eq!(world.state().last_backup.as_ref().unwrap().result.label(), "success");
    world.roll_back().unwrap();
    assert_eq!(world.state().last_backup.as_ref().unwrap().result.label(), "success");
}

#[test]
fn failed_offsite_copy_stops_deploy_without_marking_local_backup_failed() {
    let mut world = World::new(&["api"]);
    world.project.config.backup = Some(backup(true));
    world.fail_offsite = true;
    let error = message(world.deploy());
    assert!(error.contains("off-site copy failed (local backup succeeded)"), "{error}");
    assert!(!error.contains("configuration error"), "{error}");
    let state = world.state();
    assert_eq!(state.last_backup.as_ref().unwrap().result.label(), "success");
    assert_eq!(state.last_offsite.as_ref().unwrap().result.label(), "failure");
    assert!(state.pending.is_none());
    assert!(state.current.is_none());
}

#[test]
fn rejects_simultaneous_legacy_and_multi_service_keys() {
    let error = choose_services(Some(text("api")), Some(texts(&["api", "worker"]))).unwrap_err();
    assert!(error.contains("compose.service and compose.services"), "{error}");
    assert_eq!(choose_services(Some(text("api")), None).unwrap(), ["api"]);
    assert_eq!(choose_services(None, Some(texts(&["api", "worker"]))).unwrap(), ["api", "worker"]);
    assert_eq!(
        choose_services(None, None).unwrap_err(),
        "compose.service or compose.services is required"
    );
}

#[test]
fn rejects_empty_services_list() {
    let error = message(config(&[]).validate());
    assert!(error.contains("compose.services must not be empty"), "{error}");
}

#[test]
fn rejects_duplicate_and_blank_service_names() {
    for (services, expected) in [
        (["api", "api"], "duplicate service: api"),
        (["api", "  "], "empty name"),
        (["api", "bad name"], "invalid service name"),
    ] {
        let error = message(config(&services).validate());
        assert!(error.contains(expected), "{error}");
    }
}

#[test]
fn deploys_legacy_single_service() {
    let mut world = World::new(&["api"]);
    world.env = text("IMAGE_TAG=old\nAPP_SECRET=synthetic-marker\n");
    world.deploy().unwrap();
    assert!(world.log.iter().any(|line| line.contains("build api")));
    assert_eq!(world.current().services[0].name, "api");
    assert!(!world.shown().contains("synthetic-marker"));
    assert!(!world.printed.join("\n").contains("synthetic-marker"));
    assert_eq!(world.env, "IMAGE_TAG=111111111111\nAPP_SECRET=synthetic-marker\n");
    assert_eq!(
        world.printed,
        [
            "✓ Git update",
            "✓ Backup",
            "",
            "Deploying demo",
            "  from: 111111111111 (old)",
            "    to: 111111111111 (111111111111)",
            "",
            "✓ Build",
            "",
            "Healthy: demo @ 111111111111",
        ]
    );
}

#[test]
fn deploy_rejects_preexisting_env_temp_symlink_without_touching_victim() {
    let mut world = World::new(&["api"]);
    world.planted = true;
    let error = message(world.deploy());
    assert!(error.contains("/srv/demo/..env.yard.tmp"), "{error}");
    assert_eq!(world.env, "IMAGE_TAG=old\n");
    assert!(world.state.is_none());
    world.planted = false;
    world.deploy().unwrap();
    assert!(world.state().pending.is_none());
    world.roll_back().unwrap();
    assert_eq!(world.current().tag, "old");
    assert!(world.state().pending.is_none());
}

#[test]
fn interrupted_release_with_planted_temp_can_recover_after_removal() {
    let mut world = World::new(&["api"]);
    world.deploy().unwrap();
    let current = world.current().clone();
    world.state.as_mut().unwrap().pending = Some(current.marked("activating"));
    world.planted = true;
    let before = world.shown();
    assert!(message(world.roll_back()).contains("/srv/demo/..env.yard.tmp"));
    assert_eq!(world.shown(), before);
    world.planted = false;
    world.roll_back().unwrap();
    assert_eq!(world.current().tag, current.tag);
    assert!(world.state().pending.is_none());
    world.deploy().unwrap();
}

#[test]
fn rejected_deploy_and_rollback_preserve_existing_state() {
    let mut world = World::new(&["api"]);
    world.deploy().unwrap();
    let before = world.shown();
    world.planted = true;
    assert!(message(world.deploy()).contains("/srv/demo/..env.yard.tmp"));
    assert_eq!(world.shown(), before);
    assert!(message(world.roll_back()).contains("/srv/demo/..env.yard.tmp"));
    assert_eq!(world.shown(), before);
    world.planted = false;
    world.deploy().unwrap();
    world.roll_back().unwrap();
    assert!(world.state().pending.is_none());
}

#[test]
fn env_symlink_refusal_does_not_create_pending_or_modify_victim() {
    let mut world = World::new(&["api"]);
    world.env_is_link = true;
    assert!(message(world.deploy()).contains("/srv/demo/.env"));
    assert_eq!(world.env, "IMAGE_TAG=old\n");
    assert!(world.state.is_none());
}

#[test]
fn deploys_two_services_at_one_revision_with_distinct_images() {
    let mut world = World::new(&["api", "worker"]);
    world.deploy().unwrap();
    let tag = world.current().tag.clone();
    assert_eq!(world.current().services[0].image, format!("demo-api:{tag}"));
    assert_eq!(world.current().services[1].image, format!("demo-worker:{tag}"));
    assert_eq!(world.current().status, "active");
    assert!(world.state().pending.is_none());
    let log = world.log.join("\n");
    for part in [
        "build api",
        "build worker",
        "up -d --no-build --no-deps api",
        "up -d --no-build --no-deps worker",
    ] {
        assert!(log.contains(part), "{log}");
    }
}

#[test]
fn declared_service_missing_from_compose_fails_at_deploy_not_load() {
    let mut world = World::new(&["api", "worker"]);
    world.missing_worker = true;
    world.project.config.validate().unwrap();
    let error = message(world.deploy());
    assert!(error.contains("Compose service worker requires an image reference"), "{error}");
    assert!(world.state.is_none());
}

#[test]
fn release_images_must_carry_the_tag() {
    let world = World::new(&["api"]);
    let output = "{\"services\":{\"api\":{\"image\":\"demo-api:latest\"}}}";
    assert_eq!(
        world.project.release_services(output, "abc").unwrap_err().message(),
        "configuration error: Compose service api image demo-api:latest must be tagged with abc"
    );
    assert!(matches!(
        world.project.release_services("no json", "abc"),
        Err(YardError::Json(_))
    ));
}

#[test]
fn logs_pass_both_services_to_docker() {
    let world = World::new(&["api", "worker"]);
    let args = world.project.compose_logs(200, true, None, None).unwrap();
    assert!(args.join(" ").ends_with("logs --tail 200 --follow api worker"), "{args:?}");
}

#[test]
fn healthy_http_endpoint_activates_both_services() {
    let mut world = World::new(&["api", "worker"]);
    world.project.config.deployment.health_url = Some(text("http://127.0.0.1/health"));
    world.project.config.deployment.health_attempts = 1;
    world.deploy().unwrap();
    assert_eq!(world.requests, 1);
    assert_eq!(world.current().status, "active");
    assert!(world.state().pending.is_none());
    assert_eq!((world.ups("api"), world.ups("worker")), (1, 1));
}

#[test]
fn failed_http_health_restores_previous_services_and_clears_pending() {
    let mut world = World::new(&["api", "worker"]);
    world.deploy().unwrap();
    let old = world.current().clone();
    world.next_revision();
    world.healthy_image = Some(old.services[0].image.clone());
    world.project.config.deployment.health_url = Some(text("http://127.0.0.1/health"));
    world.project.config.deployment.health_attempts = 1;
    let error = message(world.deploy());
    assert!(error.contains("service api") && error.contains("health check failed"), "{error}");
    assert_eq!(world.requests, 2);
    assert_eq!(world.current().revision, old.revision);
    assert!(world.state().pending.is_none());
    for service in &old.services {
        assert!(world.running.contains(&(service.name.clone(), service.image.clone())));
    }
}

#[test]
fn unverified_http_health_restoration_preserves_pending_release() {
    let mut world = World::new(&["api", "worker"]);
    world.deploy().unwrap();
    let old = world.current().clone();
    world.next_revision();
    world.healthy_image = Some(text("never-healthy"));
    world.project.config.deployment.health_url = Some(text("http://127.0.0.1/health"));
    world.project.config.deployment.health_attempts = 1;
    assert!(message(world.deploy()).contains("health check failed"));
    assert_eq!(world.requests, 2);
    assert_eq!(world.current().revision, old.revision);
    let pending = world.state().pending.as_ref().unwrap();
    assert_eq!(pending.status, "activating");
    assert_ne!(pending.revision, old.revision);
    assert_eq!(world.ups("api"), 3);
    assert!(world.deploy().is_err());
}

#[test]
fn health_checks_are_repeated_with_pauses() {
    let mut world = World::new(&["api"]);
    world.project.config.deployment.health_url = Some(text("http://127.0.0.1/health"));
    world.project.config.deployment.health_attempts = 3;
    world.project.config.deployment.health_interval_seconds = 7;
    world.healthy_image = Some(text("never-healthy"));
    let wanted = release(FIRST, "111111111111", &["api"], "active");
    assert_eq!(
        message(world.activate(&wanted, false)),
        "service api: health check failed for http://127.0.0.1/health"
    );
    assert_eq!(world.requests, 3);
    assert_eq!(world.sleeps, [7, 7]);
}

#[test]
fn upgrading_v1_state_retains_metadata_and_adds_service_images() {
    let mut world = World::new(&["api"]);
    world.state = Some(ProjectState {
        current: Some(release("abc123", "old", &[], "active")),
        ..ProjectState::default()
    });
    world.deploy().unwrap();
    assert_eq!(world.previous().revision, "abc123");
    assert_eq!(world.previous().deployed_at_unix, 42);
    assert_eq!(world.previous().services[0].image, "demo-api:old");
    assert_eq!(world.current().services[0].name, "api");
}

#[test]
fn second_service_failure_restores_previous_release_and_reports_runtime() {
    let mut world = World::new(&["api", "worker"]);
    world.deploy().unwrap();
    let previous = world.current().clone();
    let next = world.next_revision();
    world.fail = Some((text("up"), text("worker"), next));
    let error = message(world.deploy());
    assert!(error.contains("service worker"), "{error}");
    assert!(world.printed.iter().any(|line| line.contains("Service") && line.contains("api")));
    assert_eq!(world.current().revision, previous.revision);
    assert!(world.state().pending.is_none());
    assert!(world
        .running
        .contains(&(text("api"), previous.services[0].image.clone())));
}

#[test]
fn interrupted_activation_is_visible_and_blocks_another_deploy() {
    let mut world = World::new(&["api", "worker"]);
    world.deploy().unwrap();
    let pending = world.current().marked("activating");
    world.state.as_mut().unwrap().pending = Some(pending);
    assert!(message(world.deploy()).contains("interrupted release"));
}

#[test]
fn rollback_restores_all_services_from_previous_release() {
    let mut world = World::new(&["api", "worker"]);
    world.deploy().unwrap();
    let first = world.current().clone();
    world.next_revision();
    world.deploy().unwrap();
    let second = world.current().clone();
    assert_ne!(first.revision, second.revision);
    assert_eq!(world.previous().status, "superseded");
    world.roll_back().unwrap();
    assert_eq!(world.current().revision, first.revision);
    assert_eq!(world.previous().revision, second.revision);
    assert_eq!(world.previous().status, "superseded");
    assert_eq!(world.current().status, "active");
    for (_, image) in &world.running {
        assert!(image.contains(&first.tag));
    }
    assert!(world.state().pending.is_none());
}

#[test]
fn build_failure_names_service_and_reports_running_release() {
    let mut world = World::new(&["api", "worker"]);
    world.deploy().unwrap();
    let previous = world.current().clone();
    let next = world.next_revision();
    world.fail = Some((text("build"), text("worker"), next));
    let error = message(world.deploy());
    assert!(error.contains("service worker"), "{error}");
    assert!(world.printed.iter().any(|line| line.contains("demo-api:")));
    assert_eq!(world.current().revision, previous.revision);
    assert!(world.state().pending.is_none());
}

#[test]
fn rollback_recovers_interrupted_activation_to_last_active_release() {
    let mut world = World::new(&["api", "worker"]);
    world.deploy().unwrap();
    let current = world.current().clone();
    let next = world.next_revision();
    let mut pending = current.marked("activating");
    pending.tag = next.clone();
    world.state.as_mut().unwrap().pending = Some(pending);
    world.running = vec![(text("api"), format!("demo-api:{next}"))];
    world.roll_back().unwrap();
    assert_eq!(world.current().revision, current.revision);
    assert!(world.state().pending.is_none());
    assert!(world.running.contains(&(text("api"), current.services[0].image.clone())));
}

#[test]
fn first_deploy_interruption_can_recover_previous_images() {
    let mut world = World::new(&["api", "worker"]);
    world.state = Some(interrupted_first_deploy());
    world.running = vec![(text("api"), text("demo-api:new"))];
    world.roll_back().unwrap();
    assert_eq!(world.current().tag, "old");
    assert!(world.state().pending.is_none());
}

#[test]
fn failed_deploy_restores_recorded_tag_when_env_was_stale() {
    let mut world = World::new(&["api", "worker"]);
    world.deploy().unwrap();
    let original = world.current().tag.clone();
    world.env = text("IMAGE_TAG=stale\n");
    let next = world.next_revision();
    world.fail = Some((text("up"), text("worker"), next));
    assert!(world.deploy().is_err());
    assert_eq!(world.env, format!("IMAGE_TAG={original}\n"));
}

#[test]
fn failed_recovery_restores_active_state_after_first_deploy_interruption() {
    let mut world = World::new(&["api", "worker"]);
    world.state = Some(interrupted_first_deploy());
    world.running = vec![(text("api"), text("demo-api:new"))];
    world.fail = Some((text("up"), text("worker"), text("old")));
    world.fail_once = true;
    assert!(world.roll_back().is_err());
    assert_eq!(world.current().tag, "old");
    assert!(world.state().pending.is_none());
}

#[test]
fn unsaved_marker_stops_before_any_change() {
    let mut world = World::new(&["api"]);
    world.unsaved = 0;
    assert_eq!(message(world.deploy()), "I/O error: no space left on device");
    assert_eq!(world.env, "IMAGE_TAG=old\n");
    assert_eq!(world.ups("api"), 0);
}

#[test]
fn unsaved_restore_is_reported_as_activated() {
    let mut world = World::new(&["api"]);
    world.deploy().unwrap();
    let target = format!("release:{}", world.previous().tag);
    world.unsaved = 1;
    let error = message(world.restore(Some(&target), true));
    assert!(error.contains("application activated but state could not be saved"), "{error}");
    assert!(world.journal.last().unwrap().contains("application activated; state save failed"));
}

#[test]
fn migrations_run_after_the_builds() {
    let mut world = World::new(&["api"]);
    world.project.config.deployment.migration_service = Some(text("migrate"));
    world.deploy().unwrap();
    assert!(world.log[0].contains("build api"));
    assert!(world.log[1].contains("run --rm migrate"));
    assert!(world.log[2].contains("up -d"));
    world.fail = Some((text("run"), text("migrate"), text("111111111111")));
    let before = world.shown();
    assert!(message(world.deploy()).starts_with("service migrate: "));
    assert_eq!(world.shown(), before);
}

fn heartbeat(status: Health, stamp: Option<u64>) -> ServiceHealth {
    ServiceHealth {
        project: text("demo"),
        service: text("api"),
        status,
        kind: Some("heartbeat"),
        latency_ms: None,
        age_seconds: Some(1),
        heartbeat_at_unix: stamp,
        max_age_seconds: Some(30),
        crit_multiplier: Some(2),
        message: None,
    }
}

fn gated_world() -> World {
    let mut world = World::new(&["api"]);
    world.project.config.service_health.insert(
        text("api"),
        ServiceProbe::Heartbeat {
            path: text("/run/beat"),
            max_age_seconds: 30,
            deployment_gate: true,
        },
    );
    world.project.config.deployment.gate_attempts = 3;
    world.project.config.deployment.gate_interval_seconds = 5;
    world
}

#[test]
fn gates_open_once_the_heartbeat_is_new_and_healthy() {
    let mut world = gated_world();
    world.gate = vec![
        vec![heartbeat(Health::Unknown, None)],
        vec![heartbeat(Health::Healthy, Some(999))],
        vec![heartbeat(Health::Healthy, Some(1_001))],
    ];
    world.deploy().unwrap();
    assert_eq!(world.sleeps, [5, 5]);
    assert!(world.gate.is_empty());
}

#[test]
fn closed_gates_fail_the_deployment_and_restore_does_not_ask_them() {
    let mut world = gated_world();
    let old = release("abc123", "old", &["api"], "active");
    world.state = Some(ProjectState { current: Some(old), ..ProjectState::default() });
    world.gate = vec![vec![heartbeat(Health::Degraded, Some(1_000))]];
    assert!(world.deploy().is_err());
    assert_eq!(world.current().tag, "old");
    assert!(world.state().pending.is_none());
    assert_eq!(world.env, "IMAGE_TAG=old\n");
    world.sleeps.clear();
    world.restore(Some("release:old"), true).unwrap();
    assert!(world.sleeps.is_empty());
}

#[test]
fn journal_entries_are_single_json_lines() {
    let line = journal::entry(7, Some("release:\"a\nb\""), "success", "line\nbreak");
    assert!(!line.contains('\n'));
    let entry = json::parse(&line).unwrap();
    assert_eq!(entry.member_text("target").unwrap(), "release:\"a\nb\"");
    assert_eq!(entry.member_text("cause").unwrap(), "line\nbreak");
    assert_eq!(entry.member_text("result").unwrap(), "success");
    assert_eq!(
        journal::entry(7, None, "started", "requested"),
        "{\"at_unix\":7,\"cause\":\"requested\",\"result\":\"started\",\"target\":null}"
    );
    assert_eq!(journal::shown(None), "No restore attempts recorded\n");
    assert_eq!(journal::shown(Some(text("x\n"))), "x\n");
}

#[test]
fn restore_points_list_releases_and_backups() {
    let records = points::Records {
        previous: points::Record::Unreadable,
        current: points::Record::Found(release("abc123", "old", &[], "active")),
        pending: points::Record::Absent,
        last_backup: points::Record::Found(BackupAttempt {
            started_at_unix: 40,
            duration_ms: 3,
            result: BackupResult::Failure,
            destination: None,
        }),
        last_offsite: points::Record::Absent,
    };
    assert_eq!(
        points::points("demo", &records, 50),
        [
            "Restore points for demo (application releases only):",
            "  previous: unreadable release record (not absent)",
            "  release:old current revision=abc123 at=42 age=8s result=active destination=old ",
            "  backup:local at=40 age=10s result=failure destination=unknown (data: manual recovery only)",
            "  backup:offsite: no backup recorded",
        ]
    );
    assert_eq!(points::no_points("demo"), "No restore points recorded for demo");
    assert!(points::check_document("[]").unwrap_err().message().contains("expected an object"));
    assert!(points::check_document("{").unwrap_err().message().contains("not absent"));
    assert_eq!(points::snapshot_stem("demo", 12), "demo.restore-12");
}

#[test]
fn new_releases_are_active_and_stamped_with_the_clock() {
    let release = Release::new(text(FIRST), text("111111111111"));
    assert_eq!(release.status, "active");
    assert!(release.services.is_empty());
    assert!(release.deployed_at_unix > 1_600_000_000);
    assert_eq!(
        runtime_line(Err(failed("docker"))),
        "Docker Compose after failure: command failed: docker exited with status 9\n"
    );
}

#[test]
fn backup_needs_a_configured_command() {
    assert_eq!(
        yard::backup::check_configured("demo", &None).unwrap_err().message(),
        "configuration error: demo has no backup command configured"
    );
    assert!(command_parts(&Vec::new()).is_err());
    assert_eq!(
        command_parts(&texts(&["a", "b", "c"])).unwrap(),
        (text("a"), texts(&["b", "c"]))
    );
    assert_eq!(
        status::unreadable_state("demo", &YardError::Json(text("eof"))).message(),
        "configuration error: demo: state unreadable: invalid state file: eof"
    );
}
