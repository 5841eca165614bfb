//! Deploying a release.
//!
//! A deployment is a procedure: it asks for one action at a time and goes on by what came of it.

use vstd::prelude::*;

use crate::command::add_word;
use crate::config::ProjectConfig;
use crate::error::{error_of, message_of, ErrorView, YardError};
use crate::operation::{at_service, failure, failure_of, Action, ActionView, Reply, ReplyView};
use crate::project::{tag_of, Project};
use crate::state::{
    marked, new_release, ProjectState, Release, ReleaseService, ReleaseView, ServiceView,
    StateView,
};
use crate::text::{begins, blank, is_blank, Text};

verus! {

/// What was there before a deployment.
#[derive(Debug)]
pub struct Before {
    pub state: ProjectState,
    pub revision: String,
    pub tag: String,
}

/// A release that is being put in the place of another.
#[derive(Debug)]
pub struct Change {
    pub state: ProjectState,
    pub old: Release,
    pub old_tag: String,
    pub new: Release,
}

/// Where a deployment stands.
#[derive(Debug)]
pub enum Deployment {
    Cleaning,
    Switching,
    Loading,
    CheckingTag { state: ProjectState },
    ReadingHead { state: ProjectState },
    ReadingTag { state: ProjectState, revision: String },
    Updating { before: Before },
    BackingUp { before: Before },
    ReadingNewHead { before: Before },
    Resolving { before: Before, revision: String },
    Building { before: Before, revision: String, services: Vec<ReleaseService>, next: usize },
    Migrating { before: Before, revision: String, services: Vec<ReleaseService> },
    ResolvingOld { before: Before, revision: String, services: Vec<ReleaseService>, old: Release },
    Rechecking { change: Change },
    Marking { change: Change },
    Persisting { change: Change },
    Activating { change: Change },
    Reporting { change: Change, error: YardError },
    PersistingOld { change: Change, error: YardError },
    ActivatingOld { change: Change, error: YardError },
    SavingRestored { change: Change, error: YardError },
    SavingActive { change: Change },
    ReportingFailure { error: YardError },
    Ended { result: Result<(), YardError> },
}

#[verifier::ext_equal]
pub struct BeforeView {
    pub state: StateView,
    pub revision: Text,
    pub tag: Text,
}

#[verifier::ext_equal]
pub struct ChangeView {
    pub state: StateView,
    pub old: ReleaseView,
    pub old_tag: Text,
    pub new: ReleaseView,
}

#[verifier::ext_equal]
pub enum DeploymentPhase {
    Cleaning,
    Switching,
    Loading,
    CheckingTag { state: StateView },
    ReadingHead { state: StateView },
    ReadingTag { state: StateView, revision: Text },
    Updating { before: BeforeView },
    BackingUp { before: BeforeView },
    ReadingNewHead { before: BeforeView },
    Resolving { before: BeforeView, revision: Text },
    Building { before: BeforeView, revision: Text, services: Seq<ServiceView>, next: nat },
    Migrating { before: BeforeView, revision: Text, services: Seq<ServiceView> },
    ResolvingOld {
        before: BeforeView,
        revision: Text,
        services: Seq<ServiceView>,
        old: ReleaseView,
    },
    Rechecking { change: ChangeView },
    Marking { change: ChangeView },
    Persisting { change: ChangeView },
    Activating { change: ChangeView },
    Reporting { change: ChangeView, error: ErrorView },
    PersistingOld { change: ChangeView, error: ErrorView },
    ActivatingOld { change: ChangeView, error: ErrorView },
    SavingRestored { change: ChangeView, error: ErrorView },
    SavingActive { change: ChangeView },
    ReportingFailure { error: ErrorView },
    Ended { outcome: Option<ErrorView> },
}

impl DeepView for Before {
    type V = BeforeView;

    open spec fn deep_view(&self) -> BeforeView {
        BeforeView { state: self.state.deep_view(), revision: self.revision@, tag: self.tag@ }
    }
}

impl DeepView for Change {
    type V = ChangeView;

    open spec fn deep_view(&self) -> ChangeView {
        ChangeView {
            state: self.state.deep_view(),
            old: self.old.deep_view(),
            old_tag: self.old_tag@,
            new: self.new.deep_view(),
        }
    }
}

impl DeepView for Deployment {
    type V = DeploymentPhase;

    open spec fn deep_view(&self) -> DeploymentPhase {
        match self {
            Deployment::Cleaning => DeploymentPhase::Cleaning,
            Deployment::Switching => DeploymentPhase::Switching,
            Deployment::Loading => DeploymentPhase::Loading,
            Deployment::CheckingTag { state } => DeploymentPhase::CheckingTag {
                state: state.deep_view(),
            },
            Deployment::ReadingHead { state } => DeploymentPhase::ReadingHead {
                state: state.deep_view(),
            },
            Deployment::ReadingTag { state, revision } => DeploymentPhase::ReadingTag {
                state: state.deep_view(),
                revision: revision@,
            },
            Deployment::Updating { before } => DeploymentPhase::Updating {
                before: before.deep_view(),
            },
            Deployment::BackingUp { before } => DeploymentPhase::BackingUp {
                before: before.deep_view(),
            },
            Deployment::ReadingNewHead { before } => DeploymentPhase::ReadingNewHead {
                before: before.deep_view(),
            },
            Deployment::Resolving { before, revision } => DeploymentPhase::Resolving {
                before: before.deep_view(),
                revision: revision@,
            },
            Deployment::Building { before, revision, services, next } =>
            DeploymentPhase::Building {
                before: before.deep_view(),
                revision: revision@,
                services: services.deep_view(),
                next: *next as nat,
            },
            Deployment::Migrating { before, revision, services } => DeploymentPhase::Migrating {
                before: before.deep_view(),
                revision: revision@,
                services: services.deep_view(),
            },
            Deployment::ResolvingOld { before, revision, services, old } =>
            DeploymentPhase::ResolvingOld {
                before: before.deep_view(),
                revision: revision@,
                services: services.deep_view(),
                old: old.deep_view(),
            },
            Deployment::Rechecking { change } => DeploymentPhase::Rechecking {
                change: change.deep_view(),
            },
            Deployment::Marking { change } => DeploymentPhase::Marking {
                change: change.deep_view(),
            },
            Deployment::Persisting { change } => DeploymentPhase::Persisting {
                change: change.deep_view(),
            },
            Deployment::Activating { change } => DeploymentPhase::Activating {
                change: change.deep_view(),
            },
            Deployment::Reporting { change, error } => DeploymentPhase::Reporting {
                change: change.deep_view(),
                error: error.deep_view(),
            },
            Deployment::PersistingOld { change, error } => DeploymentPhase::PersistingOld {
                change: change.deep_view(),
                error: error.deep_view(),
            },
            Deployment::ActivatingOld { change, error } => DeploymentPhase::ActivatingOld {
                change: change.deep_view(),
                error: error.deep_view(),
            },
            Deployment::SavingRestored { change, error } => DeploymentPhase::SavingRestored {
                change: change.deep_view(),
                error: error.deep_view(),
            },
            Deployment::SavingActive { change } => DeploymentPhase::SavingActive {
                change: change.deep_view(),
            },
            Deployment::ReportingFailure { error } => DeploymentPhase::ReportingFailure {
                error: error.deep_view(),
            },
            Deployment::Ended { result } => DeploymentPhase::Ended {
                outcome: error_of(*result),
            },
        }
    }
}

// ---------------------------------------------------------------------------------------------
// The procedure
// ---------------------------------------------------------------------------------------------

/// The tag of what was there before: that of the recorded release, else the one in the
/// environment file, else that of the revision.
pub open spec fn tag_before(tag: Option<Text>, revision: Text) -> Text {
    match tag {
        Some(tag) => if is_blank(tag) {
            tag_of(revision)
        } else {
            tag
        },
        None => tag_of(revision),
    }
}

/// The release that was there before; one that was not recorded counts as put there now.
pub open spec fn release_before(before: BeforeView, now: u64) -> ReleaseView {
    match before.state.current {
        Some(current) => current,
        None => new_release(before.revision, before.tag, now),
    }
}

/// The change to a new release. Where no release was recorded, the one before is recorded as the
/// previous one already.
pub open spec fn change_to(
    before: BeforeView,
    old: ReleaseView,
    revision: Text,
    services: Seq<ServiceView>,
    now: u64,
) -> ChangeView {
    ChangeView {
        state: if before.state.current is None {
            StateView { previous: Some(marked(old, "superseded"@)), ..before.state }
        } else {
            before.state
        },
        old,
        old_tag: before.tag,
        new: ReleaseView { services, ..new_release(revision, tag_of(revision), now) },
    }
}

/// The change with its new release marked as being activated.
pub open spec fn with_marker(change: ChangeView) -> ChangeView {
    ChangeView {
        state: StateView {
            pending: Some(marked(change.new, "activating"@)),
            ..change.state
        },
        ..change
    }
}

/// The change undone: nothing is pending, and the old release is the current one.
pub open spec fn undone(change: ChangeView) -> ChangeView {
    ChangeView {
        state: if change.state.current is None {
            StateView { pending: None, current: Some(change.old), previous: None, ..change.state }
        } else {
            StateView { pending: None, ..change.state }
        },
        ..change
    }
}

/// The change completed: the new release is the current one, the old one the previous.
pub open spec fn completed(change: ChangeView) -> ChangeView {
    ChangeView {
        state: StateView {
            current: Some(change.new),
            previous: Some(marked(change.old, "superseded"@)),
            pending: None,
            ..change.state
        },
        ..change
    }
}

/// The failure that refuses a deployment while a release is pending.
pub open spec fn interrupted() -> ErrorView {
    ErrorView::Config(
        "an interrupted release is pending; run yard status and yard rollback first"@,
    )
}

/// What a deployment waits for.
pub open spec fn awaited(phase: DeploymentPhase) -> ActionView {
    match phase {
        DeploymentPhase::Cleaning => ActionView::EnsureClean,
        DeploymentPhase::Switching => ActionView::SwitchBranch,
        DeploymentPhase::Loading => ActionView::LoadState,
        DeploymentPhase::CheckingTag { .. } => ActionView::CheckTagWritable,
        DeploymentPhase::ReadingHead { .. } => ActionView::HeadRevision,
        DeploymentPhase::ReadingTag { .. } => ActionView::ReadTag,
        DeploymentPhase::Updating { .. } => ActionView::UpdateBranch,
        DeploymentPhase::BackingUp { before } => ActionView::Backup(before.state),
        DeploymentPhase::ReadingNewHead { .. } => ActionView::HeadRevision,
        DeploymentPhase::Resolving { revision, .. } => ActionView::ReleaseServices(
            tag_of(revision),
        ),
        DeploymentPhase::Building { revision, services, next, .. } => if next < services.len() {
            ActionView::Build { tag: tag_of(revision), service: services[next as int].name }
        } else {
            ActionView::Finish
        },
        DeploymentPhase::Migrating { revision, .. } => ActionView::Migrate(tag_of(revision)),
        DeploymentPhase::ResolvingOld { old, .. } => ActionView::ReleaseServices(old.tag),
        DeploymentPhase::Rechecking { .. } => ActionView::CheckTagWritable,
        DeploymentPhase::Marking { change } => ActionView::Save(change.state),
        DeploymentPhase::Persisting { change } => ActionView::PersistTag(change.new.tag),
        DeploymentPhase::Activating { change } => ActionView::Activate {
            release: change.new,
            gated: true,
        },
        DeploymentPhase::Reporting { .. } => ActionView::ReportRuntime,
        DeploymentPhase::PersistingOld { change, .. } => ActionView::PersistTag(change.old_tag),
        DeploymentPhase::ActivatingOld { change, .. } => ActionView::Activate {
            release: change.old,
            gated: false,
        },
        DeploymentPhase::SavingRestored { change, .. } => ActionView::Save(change.state),
        DeploymentPhase::SavingActive { change } => ActionView::Save(change.state),
        DeploymentPhase::ReportingFailure { .. } => ActionView::ReportRuntime,
        DeploymentPhase::Ended { .. } => ActionView::Finish,
    }
}

pub open spec fn failed(reply: ReplyView) -> DeploymentPhase {
    DeploymentPhase::Ended { outcome: Some(failure_of(reply)) }
}

/// Where a deployment stands once its images are built and its migrations have run: the service
/// images of a release that was recorded without them are asked for first.
pub open spec fn prepared(
    before: BeforeView,
    revision: Text,
    services: Seq<ServiceView>,
    now: u64,
) -> DeploymentPhase {
    let old = release_before(before, now);
    if old.services.len() == 0 {
        DeploymentPhase::ResolvingOld { before, revision, services, old }
    } else {
        DeploymentPhase::Rechecking { change: change_to(before, old, revision, services, now) }
    }
}

/// Where a deployment stands after a reply, at a time.
pub open spec fn after(
    migration: Option<Text>,
    phase: DeploymentPhase,
    reply: ReplyView,
    now: u64,
) -> DeploymentPhase {
    match phase {
        DeploymentPhase::Cleaning => match reply {
            ReplyView::Done => DeploymentPhase::Switching,
            _ => failed(reply),
        },
        DeploymentPhase::Switching => match reply {
            ReplyView::Done => DeploymentPhase::Loading,
            _ => failed(reply),
        },
        DeploymentPhase::Loading => match reply {
            ReplyView::State(state) => if state.pending is Some {
                DeploymentPhase::Ended { outcome: Some(interrupted()) }
            } else {
                DeploymentPhase::CheckingTag { state }
            },
            _ => failed(reply),
        },
        DeploymentPhase::CheckingTag { state } => match reply {
            ReplyView::Done => DeploymentPhase::ReadingHead { state },
            _ => failed(reply),
        },
        DeploymentPhase::ReadingHead { state } => match reply {
            ReplyView::Text(revision) => match state.current {
                Some(current) => DeploymentPhase::Updating {
                    before: BeforeView { state, revision, tag: current.tag },
                },
                None => DeploymentPhase::ReadingTag { state, revision },
            },
            _ => failed(reply),
        },
        DeploymentPhase::ReadingTag { state, revision } => match reply {
            ReplyView::Tag(tag) => DeploymentPhase::Updating {
                before: BeforeView { state, revision, tag: tag_before(tag, revision) },
            },
            _ => failed(reply),
        },
        DeploymentPhase::Updating { before } => match reply {
            ReplyView::Done => DeploymentPhase::BackingUp { before },
            _ => failed(reply),
        },
        DeploymentPhase::BackingUp { before } => match reply {
            ReplyView::State(state) => DeploymentPhase::ReadingNewHead {
                before: BeforeView { state, ..before },
            },
            _ => failed(reply),
        },
        DeploymentPhase::ReadingNewHead { before } => match reply {
            ReplyView::Text(revision) => DeploymentPhase::Resolving { before, revision },
            _ => failed(reply),
        },
        DeploymentPhase::Resolving { before, revision } => match reply {
            ReplyView::Services(services) => if services.len() == 0 {
                DeploymentPhase::Migrating { before, revision, services }
            } else {
                DeploymentPhase::Building { before, revision, services, next: 0 }
            },
            _ => failed(reply),
        },
        DeploymentPhase::Building { before, revision, services, next } => match reply {
            ReplyView::Done => if next + 1 < services.len() {
                DeploymentPhase::Building { before, revision, services, next: next + 1 }
            } else {
                DeploymentPhase::Migrating { before, revision, services }
            },
            _ => DeploymentPhase::ReportingFailure {
                error: if next < services.len() {
                    at_service(services[next as int].name, failure_of(reply))
                } else {
                    failure_of(reply)
                },
            },
        },
        DeploymentPhase::Migrating { before, revision, services } => match reply {
            ReplyView::Done => prepared(before, revision, services, now),
            _ => DeploymentPhase::ReportingFailure {
                error: at_service(
                    match migration {
                        Some(service) => service,
                        None => Seq::empty(),
                    },
                    failure_of(reply),
                ),
            },
        },
        DeploymentPhase::ResolvingOld { before, revision, services, old } => match reply {
            ReplyView::Services(images) => DeploymentPhase::Rechecking {
                change: change_to(
                    before,
                    ReleaseView { services: images, ..old },
                    revision,
                    services,
                    now,
                ),
            },
            _ => failed(reply),
        },
        DeploymentPhase::Rechecking { change } => match reply {
            ReplyView::Done => DeploymentPhase::Marking { change: with_marker(change) },
            _ => failed(reply),
        },
        DeploymentPhase::Marking { change } => match reply {
            ReplyView::Done => DeploymentPhase::Persisting { change },
            _ => failed(reply),
        },
        DeploymentPhase::Persisting { change } => match reply {
            ReplyView::Done => DeploymentPhase::Activating { change },
            _ => failed(reply),
        },
        DeploymentPhase::Activating { change } => match reply {
            ReplyView::Done => DeploymentPhase::SavingActive { change: completed(change) },
            _ => DeploymentPhase::Reporting { change, error: failure_of(reply) },
        },
        DeploymentPhase::Reporting { change, error } => DeploymentPhase::PersistingOld {
            change,
            error,
        },
        DeploymentPhase::PersistingOld { change, error } => match reply {
            ReplyView::Done => DeploymentPhase::ActivatingOld { change, error },
            _ => DeploymentPhase::Ended { outcome: Some(error) },
        },
        DeploymentPhase::ActivatingOld { change, error } => match reply {
            ReplyView::Done => DeploymentPhase::SavingRestored { change: undone(change), error },
            _ => DeploymentPhase::Ended { outcome: Some(error) },
        },
        DeploymentPhase::SavingRestored { change, error } => match reply {
            ReplyView::Done => DeploymentPhase::Ended { outcome: Some(error) },
            _ => failed(reply),
        },
        DeploymentPhase::SavingActive { .. } => match reply {
            ReplyView::Done => DeploymentPhase::Ended { outcome: None },
            _ => failed(reply),
        },
        DeploymentPhase::ReportingFailure { error } => DeploymentPhase::Ended {
            outcome: Some(error),
        },
        DeploymentPhase::Ended { .. } => phase,
    }
}

fn stop(reply: Reply) -> (r: Deployment)
    ensures
        r.deep_view() == failed(reply.deep_view()),
{
    Deployment::Ended { result: Err(failure(reply)) }
}

fn change(
    before: Before,
    old: Release,
    revision: String,
    services: Vec<ReleaseService>,
    now: u64,
) -> (r: Deployment)
    ensures
        r.deep_view() == (DeploymentPhase::Rechecking {
            change: change_to(
                before.deep_view(),
                old.deep_view(),
                revision@,
                services.deep_view(),
                now,
            ),
        }),
{
    let mut state = before.state;
    if state.current.is_none() {
        state.previous = Some(old.marked("superseded"));
    }
    let tag = Project::tag_for_revision(revision.as_str());
    let new = Release::at(revision, tag, now).with_services(services);
    Deployment::Rechecking { change: Change { state, old, old_tag: before.tag, new } }
}

fn prepare(before: Before, revision: String, services: Vec<ReleaseService>, now: u64) -> (r:
    Deployment)
    ensures
        r.deep_view() == prepared(before.deep_view(), revision@, services.deep_view(), now),
{
    let old = match &before.state.current {
        Some(current) => current.clone(),
        None => Release::at(before.revision.clone(), before.tag.clone(), now),
    };
    if old.services.len() == 0 {
        assert(old.services.deep_view().len() == 0);
        Deployment::ResolvingOld { before, revision, services, old }
    } else {
        assert(old.services.deep_view().len() > 0);
        change(before, old, revision, services, now)
    }
}

impl Deployment {
    /// A deployment that has not begun.
    pub fn start() -> (r: Self)
        ensures
            r.deep_view() == DeploymentPhase::Cleaning,
    {
        Deployment::Cleaning
    }

    /// What the deployment waits for.
    pub fn action(&self) -> (r: Action)
        ensures
            r.deep_view() == awaited(self.deep_view()),
    {
        match self {
            Deployment::Cleaning => Action::EnsureClean,
            Deployment::Switching => Action::SwitchBranch,
            Deployment::Loading => Action::LoadState,
            Deployment::CheckingTag { .. } => Action::CheckTagWritable,
            Deployment::ReadingHead { .. } => Action::HeadRevision,
            Deployment::ReadingTag { .. } => Action::ReadTag,
            Deployment::Updating { .. } => Action::UpdateBranch,
            Deployment::BackingUp { before } => Action::Backup(before.state.clone()),
            Deployment::ReadingNewHead { .. } => Action::HeadRevision,
            Deployment::Resolving { revision, .. } => Action::ReleaseServices(
                Project::tag_for_revision(revision.as_str()),
            ),
            Deployment::Building { revision, services, next, .. } => {
                if *next < services.len() {
                    Action::Build {
                        tag: Project::tag_for_revision(revision.as_str()),
                        service: services[*next].name.clone(),
                    }
                } else {
                    Action::Finish
                }
            },
            Deployment::Migrating { revision, .. } => Action::Migrate(
                Project::tag_for_revision(revision.as_str()),
            ),
            Deployment::ResolvingOld { old, .. } => Action::ReleaseServices(old.tag.clone()),
            Deployment::Rechecking { .. } => Action::CheckTagWritable,
            Deployment::Marking { change } => Action::Save(change.state.clone()),
            Deployment::Persisting { change } => Action::PersistTag(change.new.tag.clone()),
            Deployment::Activating { change } => Action::Activate {
                release: change.new.clone(),
                gated: true,
            },
            Deployment::Reporting { .. } => Action::ReportRuntime,
            Deployment::PersistingOld { change, .. } => Action::PersistTag(change.old_tag.clone()),
            Deployment::ActivatingOld { change, .. } => Action::Activate {
                release: change.old.clone(),
                gated: false,
            },
            Deployment::SavingRestored { change, .. } => Action::Save(change.state.clone()),
            Deployment::SavingActive { change } => Action::Save(change.state.clone()),
            Deployment::ReportingFailure { .. } => Action::ReportRuntime,
            Deployment::Ended { .. } => Action::Finish,
        }
    }

    /// Goes on by what came of the action. `now` is the present time.
    pub fn step(self, config: &ProjectConfig, reply: Reply, now: u64) -> (r: Self)
        ensures
            r.deep_view() == after(
                config.deployment.migration_service.deep_view(),
                self.deep_view(),
                reply.deep_view(),
                now,
            ),
    {
        match self {
            Deployment::Cleaning => match reply {
                Reply::Done => Deployment::Switching,
                _ => stop(reply),
            },
            Deployment::Switching => match reply {
                Reply::Done => Deployment::Loading,
                _ => stop(reply),
            },
            Deployment::Loading => match reply {
                Reply::State(state) => {
                    if state.pending.is_some() {
                        Deployment::Ended {
                            result: Err(
                                YardError::Config(
                                    "an interrupted release is pending; run yard status and yard rollback first".to_owned(),
                                ),
                            ),
                        }
                    } else {
                        Deployment::CheckingTag { state }
                    }
                },
                _ => stop(reply),
            },
            Deployment::CheckingTag { state } => match reply {
                Reply::Done => Deployment::ReadingHead { state },
                _ => stop(reply),
            },
            Deployment::ReadingHead { state } => match reply {
                Reply::Text(revision) => {
                    let recorded = match &state.current {
                        Some(current) => Some(current.tag.clone()),
                        None => None,
                    };
                    match recorded {
                        Some(tag) => Deployment::Updating {
                            before: Before { state, revision, tag },
                        },
                        None => Deployment::ReadingTag { state, revision },
                    }
                },
                _ => stop(reply),
            },
            Deployment::ReadingTag { state, revision } => match reply {
                Reply::Tag(tag) => {
                    let tag = match tag {
                        Some(tag) => if blank(tag.as_str()) {
                            Project::tag_for_revision(revision.as_str())
                        } else {
                            tag
                        },
                        None => Project::tag_for_revision(revision.as_str()),
                    };
                    Deployment::Updating { before: Before { state, revision, tag } }
                },
                _ => stop(reply),
            },
            Deployment::Updating { before } => match reply {
                Reply::Done => Deployment::BackingUp { before },
                _ => stop(reply),
            },
            Deployment::BackingUp { before } => match reply {
                Reply::State(state) => Deployment::ReadingNewHead {
                    before: Before { state, revision: before.revision, tag: before.tag },
                },
                _ => stop(reply),
            },
            Deployment::ReadingNewHead { before } => match reply {
                Reply::Text(revision) => Deployment::Resolving { before, revision },
                _ => stop(reply),
            },
            Deployment::Resolving { before, revision } => match reply {
                Reply::Services(services) => {
                    if services.len() == 0 {
                        Deployment::Migrating { before, revision, services }
                    } else {
                        Deployment::Building { before, revision, services, next: 0 }
                    }
                },
                _ => stop(reply),
            },
            Deployment::Building { before, revision, services, next } => match reply {
                Reply::Done => {
                    if next < services.len() && next + 1 < services.len() {
                        Deployment::Building { before, revision, services, next: next + 1 }
                    } else {
                        Deployment::Migrating { before, revision, services }
                    }
                },
                _ => {
                    let source = failure(reply);
                    let error = if next < services.len() {
                        YardError::Service {
                            service: services[next].name.clone(),
                            source: Box::new(source),
                        }
                    } else {
                        source
                    };
                    Deployment::ReportingFailure { error }
                },
            },
            Deployment::Migrating { before, revision, services } => match reply {
                Reply::Done => prepare(before, revision, services, now),
                _ => {
                    let source = failure(reply);
                    let service = match &config.deployment.migration_service {
                        Some(service) => service.clone(),
                        None => String::new(),
                    };
                    assert(service@ =~= match config.deployment.migration_service.deep_view() {
                        Some(service) => service,
                        None => Seq::empty(),
                    });
                    Deployment::ReportingFailure {
                        error: YardError::Service { service, source: Box::new(source) },
                    }
                },
            },
            Deployment::ResolvingOld { before, revision, services, old } => match reply {
                Reply::Services(images) => change(
                    before,
                    old.with_services(images),
                    revision,
                    services,
                    now,
                ),
                _ => stop(reply),
            },
            Deployment::Rechecking { change } => match reply {
                Reply::Done => {
                    let mut change = change;
                    change.state.pending = Some(change.new.marked("activating"));
                    Deployment::Marking { change }
                },
                _ => stop(reply),
            },
            Deployment::Marking { change } => match reply {
                Reply::Done => Deployment::Persisting { change },
                _ => stop(reply),
            },
            Deployment::Persisting { change } => match reply {
                Reply::Done => Deployment::Activating { change },
                _ => stop(reply),
            },
            Deployment::Activating { change } => match reply {
                Reply::Done => {
                    let mut change = change;
                    change.state.previous = Some(change.old.marked("superseded"));
                    change.state.current = Some(change.new.clone());
                    change.state.pending = None;
                    Deployment::SavingActive { change }
                },
                _ => Deployment::Reporting { change, error: failure(reply) },
            },
            Deployment::Reporting { change, error } => Deployment::PersistingOld { change, error },
            Deployment::PersistingOld { change, error } => match reply {
                Reply::Done => Deployment::ActivatingOld { change, error },
                _ => Deployment::Ended { result: Err(error) },
            },
            Deployment::ActivatingOld { change, error } => match reply {
                Reply::Done => {
                    let mut change = change;
                    change.state.pending = None;
                    if change.state.current.is_none() {
                        change.state.current = Some(change.old.clone());
                        change.state.previous = None;
                    }
                    Deployment::SavingRestored { change, error }
                },
                _ => Deployment::Ended { result: Err(error) },
            },
            Deployment::SavingRestored { change, error } => match reply {
                Reply::Done => Deployment::Ended { result: Err(error) },
                _ => stop(reply),
            },
            Deployment::SavingActive { .. } => match reply {
                Reply::Done => Deployment::Ended { result: Ok(()) },
                _ => stop(reply),
            },
            Deployment::ReportingFailure { error } => Deployment::Ended { result: Err(error) },
            Deployment::Ended { result } => Deployment::Ended { result },
        }
    }
}

// ---------------------------------------------------------------------------------------------
// What is said on the way
// ---------------------------------------------------------------------------------------------

/// A revision and a tag, in words.
pub open spec fn revision_line(label: Text, revision: Text, tag: Text) -> Text {
    label + tag_of(revision) + " ("@ + tag + ")"@
}

/// The lines that tell of a step that went well.
pub open spec fn announced(
    name: Text,
    migration: Option<Text>,
    phase: DeploymentPhase,
    reply: ReplyView,
) -> Seq<Text> {
    match (phase, reply) {
        (DeploymentPhase::Updating { .. }, ReplyView::Done) => seq!["✓ Git update"@],
        (DeploymentPhase::BackingUp { .. }, ReplyView::State(_)) => seq!["✓ Backup"@],
        (DeploymentPhase::ReadingNewHead { before }, ReplyView::Text(revision)) => seq![
            ""@,
            "Deploying "@ + name,
            revision_line("  from: "@, before.revision, before.tag),
            revision_line("    to: "@, revision, tag_of(revision)),
            ""@,
        ],
        (DeploymentPhase::Building { services, next, .. }, ReplyView::Done) => if next + 1
            >= services.len() {
            seq!["✓ Build"@]
        } else {
            Seq::empty()
        },
        (DeploymentPhase::Migrating { .. }, ReplyView::Done) => if migration is Some {
            seq!["✓ Migrations"@]
        } else {
            Seq::empty()
        },
        (DeploymentPhase::SavingActive { change }, ReplyView::Done) => seq![
            ""@,
            "Healthy: "@ + name + " @ "@ + change.new.tag,
        ],
        _ => Seq::empty(),
    }
}

fn show_revision(label: &str, revision: &str, tag: &str) -> (r: String)
    ensures
        r@ == revision_line(label@, revision@, tag@),
{
    let mut out = label.to_owned();
    out.append(Project::tag_for_revision(revision).as_str());
    out.append(" (");
    out.append(tag);
    out.append(")");
    out
}

impl Deployment {
    /// The lines that tell of the step that a reply completes.
    pub fn announce(&self, name: &str, config: &ProjectConfig, reply: &Reply) -> (r: Vec<String>)
        ensures
            r.deep_view() == announced(
                name@,
                config.deployment.migration_service.deep_view(),
                self.deep_view(),
                reply.deep_view(),
            ),
    {
        let mut lines: Vec<String> = Vec::new();
        assert(lines.deep_view() =~= Seq::<Text>::empty());
        let ghost expected = announced(
            name@,
            config.deployment.migration_service.deep_view(),
            self.deep_view(),
            reply.deep_view(),
        );
        match (self, reply) {
            (Deployment::Updating { .. }, Reply::Done) => {
                add_word(&mut lines, "✓ Git update");
            },
            (Deployment::BackingUp { .. }, Reply::State(_)) => {
                add_word(&mut lines, "✓ Backup");
            },
            (Deployment::ReadingNewHead { before }, Reply::Text(revision)) => {
                let new_tag = Project::tag_for_revision(revision.as_str());
                let mut heading = "Deploying ".to_owned();
                heading.append(name);
                let from = show_revision(
                    "  from: ",
                    before.revision.as_str(),
                    before.tag.as_str(),
                );
                let to = show_revision("    to: ", revision.as_str(), new_tag.as_str());
                add_word(&mut lines, "");
                add_word(&mut lines, heading.as_str());
                add_word(&mut lines, from.as_str());
                add_word(&mut lines, to.as_str());
                add_word(&mut lines, "");
            },
            (Deployment::Building { services, next, .. }, Reply::Done) => {
                if *next >= services.len() || *next + 1 >= services.len() {
                    add_word(&mut lines, "✓ Build");
                }
            },
            (Deployment::Migrating { .. }, Reply::Done) => {
                if config.deployment.migration_service.is_some() {
                    add_word(&mut lines, "✓ Migrations");
                }
            },
            (Deployment::SavingActive { change }, Reply::Done) => {
                let mut healthy = "Healthy: ".to_owned();
                healthy.append(name);
                healthy.append(" @ ");
                healthy.append(change.new.tag.as_str());
                add_word(&mut lines, "");
                add_word(&mut lines, healthy.as_str());
            },
            _ => {},
        }
        assert(lines.deep_view() =~= expected);
        lines
    }
}

/// The line that shows the containers after a failure, or why they cannot be shown.
pub fn runtime_line(listing: Result<String, YardError>) -> (r: String)
    ensures
        r@ == "Docker Compose after failure: "@ + (match listing {
            Ok(listing) => listing@,
            Err(error) => message_of(error.deep_view()),
        }),
{
    let mut line = "Docker Compose after failure: ".to_owned();
    match listing {
        Ok(listing) => {
            line.append(listing.as_str());
        },
        Err(error) => {
            line.append(error.message().as_str());
        },
    }
    line
}

// ---------------------------------------------------------------------------------------------
// Laws
// ---------------------------------------------------------------------------------------------

/// Where a deployment stands after replies, each at a time.
pub open spec fn phase_after(
    migration: Option<Text>,
    replies: Seq<(ReplyView, u64)>,
) -> DeploymentPhase
    decreases replies.len(),
{
    if replies.len() == 0 {
        DeploymentPhase::Cleaning
    } else {
        after(
            migration,
            phase_after(migration, replies.drop_last()),
            replies.last().0,
            replies.last().1,
        )
    }
}

/// Whether a deployment stood at a phase before its last reply, and the action of that phase
/// succeeded.
pub open spec fn passed(
    migration: Option<Text>,
    replies: Seq<(ReplyView, u64)>,
    phase: DeploymentPhase,
) -> bool {
    exists|k: int|
        0 <= k < replies.len() && phase_after(migration, #[trigger] replies.take(k)) == phase
            && replies[k].0 is Done
}

/// Whether a deployment has not yet touched the recorded state or the running services.
pub open spec fn is_early(phase: DeploymentPhase) -> bool {
    match phase {
        DeploymentPhase::Marking { .. } => false,
        DeploymentPhase::Persisting { .. } => false,
        DeploymentPhase::Activating { .. } => false,
        DeploymentPhase::Reporting { .. } => false,
        DeploymentPhase::PersistingOld { .. } => false,
        DeploymentPhase::ActivatingOld { .. } => false,
        DeploymentPhase::SavingRestored { .. } => false,
        DeploymentPhase::SavingActive { .. } => false,
        DeploymentPhase::Ended { .. } => false,
        _ => true,
    }
}

/// Whether an action changes the recorded state, the tag of the project or what runs. The backup
/// is not counted: it records its attempts, and no release.
pub open spec fn changes_release(action: ActionView) -> bool {
    action is Save || action is PersistTag || action is Activate
}

/// Whether a phase lies between the recording of the marker and the end of the activation.
pub open spec fn changing(phase: DeploymentPhase) -> Option<ChangeView> {
    match phase {
        DeploymentPhase::Persisting { change } => Some(change),
        DeploymentPhase::Activating { change } => Some(change),
        DeploymentPhase::Reporting { change, .. } => Some(change),
        DeploymentPhase::PersistingOld { change, .. } => Some(change),
        DeploymentPhase::ActivatingOld { change, .. } => Some(change),
        _ => None,
    }
}

proof fn lemma_passed_before(
    migration: Option<Text>,
    replies: Seq<(ReplyView, u64)>,
    phase: DeploymentPhase,
)
    requires
        replies.len() > 0,
        passed(migration, replies.drop_last(), phase),
    ensures
        passed(migration, replies, phase),
{
    let k = choose|k: int|
        0 <= k < replies.drop_last().len() && phase_after(
            migration,
            #[trigger] replies.drop_last().take(k),
        ) == phase && replies.drop_last()[k].0 is Done;
    assert(replies.drop_last().take(k) =~= replies.take(k));
}

proof fn lemma_passed_now(migration: Option<Text>, replies: Seq<(ReplyView, u64)>)
    requires
        replies.len() > 0,
        replies.last().0 is Done,
    ensures
        passed(migration, replies, phase_after(migration, replies.drop_last())),
{
    assert(replies.take(replies.len() - 1) =~= replies.drop_last());
}

/// The tag is not changed, and nothing is activated, before the new release has been recorded as
/// pending: the record carries the new release with the status `activating`.
pub proof fn law_marker_comes_first(migration: Option<Text>, replies: Seq<(ReplyView, u64)>)
    ensures
        changing(phase_after(migration, replies)) matches Some(change) ==> {
            &&& passed(migration, replies, DeploymentPhase::Marking { change })
            &&& change.state.pending == Some(marked(change.new, "activating"@))
        },
        phase_after(migration, replies) matches DeploymentPhase::Marking { change }
            ==> change.state.pending == Some(marked(change.new, "activating"@)),
    decreases replies.len(),
{
    if replies.len() > 0 {
        let shorter = replies.drop_last();
        law_marker_comes_first(migration, shorter);
        if let Some(change) = changing(phase_after(migration, replies)) {
            if changing(phase_after(migration, shorter)) == Some(change) {
                lemma_passed_before(migration, replies, DeploymentPhase::Marking { change });
            } else {
                lemma_passed_now(migration, replies);
            }
        }
    }
}

/// The new release is recorded as current only after it was activated with its gates, and then
/// nothing is pending; the old release is put back on record only after it was activated again.
pub proof fn law_only_activated_releases_are_recorded(
    migration: Option<Text>,
    replies: Seq<(ReplyView, u64)>,
)
    ensures
        match phase_after(migration, replies) {
            DeploymentPhase::SavingActive { change } => {
                &&& change.state.current == Some(change.new)
                &&& change.state.pending is None
                &&& exists|started: ChangeView|
                    #![trigger completed(started)]
                    change == completed(started) && passed(
                        migration,
                        replies,
                        DeploymentPhase::Activating { change: started },
                    )
            },
            DeploymentPhase::SavingRestored { change, error } => {
                &&& change.state.pending is None
                &&& exists|started: ChangeView|
                    #![trigger undone(started)]
                    change == undone(started) && passed(
                        migration,
                        replies,
                        DeploymentPhase::ActivatingOld { change: started, error },
                    )
            },
            _ => true,
        },
{
    if replies.len() > 0 {
        let shorter = replies.drop_last();
        match phase_after(migration, shorter) {
            DeploymentPhase::Activating { change } => {
                if replies.last().0 is Done {
                    lemma_passed_now(migration, replies);
                    assert(phase_after(migration, replies) == DeploymentPhase::SavingActive {
                        change: completed(change),
                    });
                }
            },
            DeploymentPhase::ActivatingOld { change, error } => {
                if replies.last().0 is Done {
                    lemma_passed_now(migration, replies);
                    assert(phase_after(migration, replies) == DeploymentPhase::SavingRestored {
                        change: undone(change),
                        error,
                    });
                }
            },
            _ => {},
        }
    }
}

/// A deployment that ends well has recorded its new release.
pub proof fn law_success_is_recorded(migration: Option<Text>, replies: Seq<(ReplyView, u64)>)
    ensures
        phase_after(migration, replies) == (DeploymentPhase::Ended { outcome: None }) ==> exists|
            change: ChangeView,
        |
            #![trigger completed(change)]
            passed(
                migration,
                replies,
                DeploymentPhase::SavingActive { change: completed(change) },
            ),
    decreases replies.len(),
{
    if replies.len() > 0 {
        let shorter = replies.drop_last();
        law_success_is_recorded(migration, shorter);
        law_only_activated_releases_are_recorded(migration, shorter);
        if phase_after(migration, replies) == (DeploymentPhase::Ended { outcome: None }) {
            match phase_after(migration, shorter) {
                DeploymentPhase::SavingActive { change } => {
                    lemma_passed_now(migration, replies);
                    let started = choose|started: ChangeView|
                        #![trigger completed(started)]
                        change == completed(started) && passed(
                            migration,
                            shorter,
                            DeploymentPhase::Activating { change: started },
                        );
                    assert(change == completed(started));
                },
                _ => {
                    let change = choose|change: ChangeView|
                        #![trigger completed(change)]
                        passed(
                            migration,
                            shorter,
                            DeploymentPhase::SavingActive { change: completed(change) },
                        );
                    lemma_passed_before(
                        migration,
                        replies,
                        DeploymentPhase::SavingActive { change: completed(change) },
                    );
                },
            }
        }
    }
}

/// Up to the recording of the marker nothing of the release is changed, so a failed check, update,
/// backup, build or migration leaves the active release as it was.
pub proof fn law_early_failures_change_nothing(
    migration: Option<Text>,
    replies: Seq<(ReplyView, u64)>,
    at: int,
)
    requires
        is_early(phase_after(migration, replies)),
        0 <= at <= replies.len(),
    ensures
        is_early(phase_after(migration, replies.take(at))),
        !changes_release(awaited(phase_after(migration, replies.take(at)))),
    decreases replies.len(),
{
    if at == replies.len() {
        assert(replies.take(at) =~= replies);
    } else {
        let shorter = replies.drop_last();
        assert(is_early(phase_after(migration, shorter)));
        law_early_failures_change_nothing(migration, shorter, at);
        assert(shorter.take(at) =~= replies.take(at));
    }
}

/// A failed build or migration is followed by nothing but the report of what runs.
pub proof fn law_failed_build_ends(
    migration: Option<Text>,
    phase: DeploymentPhase,
    reply: ReplyView,
    now: u64,
)
    requires
        phase is Building || phase is Migrating,
        !(reply is Done),
    ensures
        after(migration, phase, reply, now) matches DeploymentPhase::ReportingFailure { error }
            && forall|next: ReplyView, later: u64|
            #[trigger] after(migration, after(migration, phase, reply, now), next, later) == (
            DeploymentPhase::Ended { outcome: Some(error) }),
{
}

/// Only the activation of the new release waits for gates; putting the old release back never
/// does.
pub proof fn law_only_the_new_release_is_gated(phase: DeploymentPhase)
    ensures
        awaited(phase) matches ActionView::Activate { release, gated } ==> {
            &&& gated <==> phase is Activating
            &&& phase matches DeploymentPhase::Activating { change } ==> release == change.new
            &&& phase matches DeploymentPhase::ActivatingOld { change, .. } ==> release
                == change.old
        },
{
}

/// While a release is pending, a deployment is refused before anything is touched.
pub proof fn law_pending_release_blocks(migration: Option<Text>, state: StateView, now: u64)
    requires
        state.pending is Some,
    ensures
        after(migration, DeploymentPhase::Loading, ReplyView::State(state), now) == (
        DeploymentPhase::Ended { outcome: Some(interrupted()) }),
{
}

/// How much of a deployment lies behind a phase, in steps; images are counted apart.
pub open spec fn progress(phase: DeploymentPhase) -> (int, int) {
    match phase {
        DeploymentPhase::Cleaning => (0, 0),
        DeploymentPhase::Switching => (1, 0),
        DeploymentPhase::Loading => (2, 0),
        DeploymentPhase::CheckingTag { .. } => (3, 0),
        DeploymentPhase::ReadingHead { .. } => (4, 0),
        DeploymentPhase::ReadingTag { .. } => (5, 0),
        DeploymentPhase::Updating { .. } => (6, 0),
        DeploymentPhase::BackingUp { .. } => (7, 0),
        DeploymentPhase::ReadingNewHead { .. } => (8, 0),
        DeploymentPhase::Resolving { .. } => (9, 0),
        DeploymentPhase::Building { services, next, .. } => (10, next - services.len()),
        DeploymentPhase::Migrating { .. } => (11, 0),
        DeploymentPhase::ResolvingOld { .. } => (12, 0),
        DeploymentPhase::Rechecking { .. } => (13, 0),
        DeploymentPhase::Marking { .. } => (14, 0),
        DeploymentPhase::Persisting { .. } => (15, 0),
        DeploymentPhase::Activating { .. } => (16, 0),
        DeploymentPhase::Reporting { .. } => (17, 0),
        DeploymentPhase::PersistingOld { .. } => (18, 0),
        DeploymentPhase::ActivatingOld { .. } => (19, 0),
        DeploymentPhase::SavingRestored { .. } => (20, 0),
        DeploymentPhase::SavingActive { .. } => (20, 0),
        DeploymentPhase::ReportingFailure { .. } => (20, 0),
        DeploymentPhase::Ended { .. } => (21, 0),
    }
}

/// Every reply moves a deployment forward until it has ended: no phase comes twice, but for one
/// phase for each image that is built.
pub proof fn law_deployment_moves_forward(
    migration: Option<Text>,
    phase: DeploymentPhase,
    reply: ReplyView,
    now: u64,
)
    requires
        !(phase is Ended),
    ensures
        ({
            let from = progress(phase);
            let to = progress(after(migration, phase, reply, now));
            from.0 < to.0 || (from.0 == to.0 && from.1 < to.1 && to.1 < 0)
        }),
{
}

/// After a failed deployment that could be undone, the record is as it was. Where no release was
/// recorded, the one that was there before is recorded now.
pub proof fn law_undone_change_restores_the_record(
    before: BeforeView,
    old: ReleaseView,
    revision: Text,
    services: Seq<ServiceView>,
    now: u64,
)
    requires
        before.state.pending is None,
    ensures
        ({
            let state = undone(with_marker(change_to(before, old, revision, services, now))).state;
            &&& before.state.current is Some ==> state == before.state
            &&& before.state.current is None ==> state == (StateView {
                current: Some(old),
                previous: None,
                ..before.state
            })
        }),
{
}

/// Whether a deployment asked for something and got a reply.
#[verifier::opaque]
pub open spec fn was_told(
    migration: Option<Text>,
    replies: Seq<(ReplyView, u64)>,
    action: ActionView,
    reply: ReplyView,
) -> bool {
    exists|k: int|
        0 <= k < replies.len() && awaited(phase_after(migration, #[trigger] replies.take(k)))
            == action && replies[k].0 == reply
}

proof fn lemma_told(migration: Option<Text>, replies: Seq<(ReplyView, u64)>)
    requires
        replies.len() > 0,
    ensures
        was_told(
            migration,
            replies,
            awaited(phase_after(migration, replies.drop_last())),
            replies.last().0,
        ),
        forall|action: ActionView, reply: ReplyView|
            was_told(migration, replies.drop_last(), action, reply) ==> #[trigger] was_told(
                migration,
                replies,
                action,
                reply,
            ),
{
    reveal(was_told);
    let shorter = replies.drop_last();
    assert(replies.take(replies.len() - 1) =~= shorter);
    assert forall|action: ActionView, reply: ReplyView|
        was_told(migration, shorter, action, reply) implies #[trigger] was_told(
        migration,
        replies,
        action,
        reply,
    ) by {
        let k = choose|k: int|
            0 <= k < shorter.len() && awaited(phase_after(migration, #[trigger] shorter.take(k)))
                == action && shorter[k].0 == reply;
        assert(shorter.take(k) =~= replies.take(k));
    }
}

/// What a deployment is about: the record that was loaded and the one with its backup, the revision
/// to be deployed, and its images.
pub struct PlanView {
    pub loaded: StateView,
    pub backed_up: StateView,
    pub revision: Text,
    pub services: Seq<ServiceView>,
}

/// The first twelve characters of the revision of a plan, or all of a shorter one.
pub open spec fn plan_tag(plan: PlanView) -> Text {
    plan.revision.take(
        if plan.revision.len() < 12 {
            plan.revision.len() as int
        } else {
            12
        },
    )
}

/// The action of building an image of a plan.
pub open spec fn build_of(plan: PlanView, i: int) -> ActionView {
    ActionView::Build { tag: plan_tag(plan), service: plan.services[i].name }
}

/// Whether the record was loaded, with nothing pending, from a clean checkout of the branch, and
/// the environment file could be written.
pub open spec fn was_loaded(
    migration: Option<Text>,
    replies: Seq<(ReplyView, u64)>,
    plan: PlanView,
) -> bool {
    &&& was_told(migration, replies, ActionView::EnsureClean, ReplyView::Done)
    &&& was_told(migration, replies, ActionView::SwitchBranch, ReplyView::Done)
    &&& was_told(migration, replies, ActionView::LoadState, ReplyView::State(plan.loaded))
    &&& plan.loaded.pending is None
    &&& was_told(migration, replies, ActionView::CheckTagWritable, ReplyView::Done)
}

/// Whether the branch was updated and then the project backed up.
pub open spec fn was_updated(
    migration: Option<Text>,
    replies: Seq<(ReplyView, u64)>,
    plan: PlanView,
) -> bool {
    &&& was_loaded(migration, replies, plan)
    &&& was_told(migration, replies, ActionView::UpdateBranch, ReplyView::Done)
    &&& was_told(
        migration,
        replies,
        ActionView::Backup(plan.loaded),
        ReplyView::State(plan.backed_up),
    )
}

/// Whether the first images of a plan were built.
pub open spec fn were_built(
    migration: Option<Text>,
    replies: Seq<(ReplyView, u64)>,
    plan: PlanView,
    count: int,
) -> bool {
    forall|i: int|
        0 <= i < count && i < plan.services.len() ==> was_told(
            migration,
            replies,
            #[trigger] build_of(plan, i),
            ReplyView::Done,
        )
}

/// Whether the revision of a plan is the one that the updated checkout has, and its images are those
/// that Compose names for its tag.
pub open spec fn was_resolved(
    migration: Option<Text>,
    replies: Seq<(ReplyView, u64)>,
    plan: PlanView,
) -> bool {
    &&& was_updated(migration, replies, plan)
    &&& was_told(migration, replies, ActionView::HeadRevision, ReplyView::Text(plan.revision))
    &&& was_told(
        migration,
        replies,
        ActionView::ReleaseServices(plan_tag(plan)),
        ReplyView::Services(plan.services),
    )
}

/// Whether all images of a plan were built and the migrations run.
pub open spec fn was_migrated(
    migration: Option<Text>,
    replies: Seq<(ReplyView, u64)>,
    plan: PlanView,
) -> bool {
    &&& was_resolved(migration, replies, plan)
    &&& were_built(migration, replies, plan, plan.services.len() as int)
    &&& was_told(migration, replies, ActionView::Migrate(plan_tag(plan)), ReplyView::Done)
}

/// Whether a release is the one of a plan.
pub open spec fn is_planned(release: ReleaseView, plan: PlanView) -> bool {
    &&& release.revision == plan.revision
    &&& release.tag == plan_tag(plan)
    &&& release.services == plan.services
    &&& release.status == "active"@
}

/// Whether a change is the one of a plan: the release that ran before is the recorded one, where
/// there is one, and the records of backups are those behind the backup.
spec fn is_change_of(change: ChangeView, plan: PlanView) -> bool {
    &&& is_planned(change.new, plan)
    &&& change.state.current == plan.backed_up.current
    &&& change.state.last_backup == plan.backed_up.last_backup
    &&& change.state.last_offsite == plan.backed_up.last_offsite
    &&& plan.backed_up.current matches Some(current) ==> {
        &&& change.old.tag == current.tag
        &&& change.old.revision == current.revision
        &&& change.state.previous == plan.backed_up.previous
    }
}

/// Whether the release of a plan was activated: first the record told that it is pending, then its
/// tag was written, then its services were started, with the gates.
pub open spec fn was_activated(
    migration: Option<Text>,
    replies: Seq<(ReplyView, u64)>,
    plan: PlanView,
    release: ReleaseView,
) -> bool {
    &&& is_planned(release, plan)
    &&& exists|state: StateView|
        #[trigger] was_told(migration, replies, ActionView::Save(state), ReplyView::Done)
            && state.pending == Some(ReleaseView { status: "activating"@, ..release })
            && state.current == plan.backed_up.current
    &&& was_told(migration, replies, ActionView::PersistTag(plan_tag(plan)), ReplyView::Done)
    &&& was_told(
        migration,
        replies,
        ActionView::Activate { release, gated: true },
        ReplyView::Done,
    )
}

/// Whether a record is that of a completed deployment: the release is the current one, the one that
/// was current is the previous one, nothing is pending, and the backups are on record.
pub open spec fn is_final_record(state: StateView, plan: PlanView, release: ReleaseView) -> bool {
    &&& state.current == Some(release)
    &&& state.pending is None
    &&& state.last_backup == plan.backed_up.last_backup
    &&& state.last_offsite == plan.backed_up.last_offsite
    &&& state.previous matches Some(previous) && previous.status == "superseded"@
    &&& plan.backed_up.current matches Some(current) ==> state.previous->0.tag == current.tag
        && state.previous->0.revision == current.revision
}

spec fn deploy_facts(
    migration: Option<Text>,
    replies: Seq<(ReplyView, u64)>,
    phase: DeploymentPhase,
    plan: PlanView,
) -> bool {
    let clean = was_told(migration, replies, ActionView::EnsureClean, ReplyView::Done);
    let switched = was_told(migration, replies, ActionView::SwitchBranch, ReplyView::Done);
    match phase {
        DeploymentPhase::Cleaning => true,
        DeploymentPhase::Switching => clean,
        DeploymentPhase::Loading => clean && switched,
        DeploymentPhase::CheckingTag { state } => {
            &&& clean && switched
            &&& state == plan.loaded
            &&& state.pending is None
            &&& was_told(migration, replies, ActionView::LoadState, ReplyView::State(state))
        },
        DeploymentPhase::ReadingHead { state } => state == plan.loaded && was_loaded(
            migration,
            replies,
            plan,
        ),
        DeploymentPhase::ReadingTag { state, .. } => state == plan.loaded && was_loaded(
            migration,
            replies,
            plan,
        ),
        DeploymentPhase::Updating { before } => before.state == plan.loaded && was_loaded(
            migration,
            replies,
            plan,
        ),
        DeploymentPhase::BackingUp { before } => {
            &&& before.state == plan.loaded
            &&& was_loaded(migration, replies, plan)
            &&& was_told(migration, replies, ActionView::UpdateBranch, ReplyView::Done)
        },
        DeploymentPhase::ReadingNewHead { before } => before.state == plan.backed_up && was_updated(
            migration,
            replies,
            plan,
        ),
        DeploymentPhase::Resolving { before, revision } => {
            &&& before.state == plan.backed_up
            &&& revision == plan.revision
            &&& was_updated(migration, replies, plan)
            &&& was_told(migration, replies, ActionView::HeadRevision, ReplyView::Text(revision))
        },
        DeploymentPhase::Building { before, revision, services, next } => {
            &&& before.state == plan.backed_up
            &&& revision == plan.revision
            &&& services == plan.services
            &&& was_resolved(migration, replies, plan)
            &&& were_built(migration, replies, plan, next as int)
        },
        DeploymentPhase::Migrating { before, revision, services } => {
            &&& before.state == plan.backed_up
            &&& revision == plan.revision
            &&& services == plan.services
            &&& was_resolved(migration, replies, plan)
            &&& were_built(migration, replies, plan, plan.services.len() as int)
        },
        DeploymentPhase::ResolvingOld { before, revision, services, old } => {
            &&& before.state == plan.backed_up
            &&& revision == plan.revision
            &&& services == plan.services
            &&& before.state.current matches Some(current) ==> old == current
            &&& was_migrated(migration, replies, plan)
        },
        DeploymentPhase::Rechecking { change } => is_change_of(change, plan) && was_migrated(
            migration,
            replies,
            plan,
        ),
        DeploymentPhase::Marking { change } => {
            &&& is_change_of(change, plan)
            &&& change.state.pending == Some(marked(change.new, "activating"@))
            &&& was_migrated(migration, replies, plan)
        },
        DeploymentPhase::Persisting { change } => {
            &&& is_change_of(change, plan)
            &&& change.state.pending == Some(marked(change.new, "activating"@))
            &&& was_migrated(migration, replies, plan)
            &&& was_told(migration, replies, ActionView::Save(change.state), ReplyView::Done)
        },
        DeploymentPhase::Activating { change } => {
            &&& is_change_of(change, plan)
            &&& change.state.pending == Some(marked(change.new, "activating"@))
            &&& was_migrated(migration, replies, plan)
            &&& was_told(migration, replies, ActionView::Save(change.state), ReplyView::Done)
            &&& was_told(
                migration,
                replies,
                ActionView::PersistTag(plan_tag(plan)),
                ReplyView::Done,
            )
        },
        DeploymentPhase::SavingActive { change } => {
            &&& was_migrated(migration, replies, plan)
            &&& was_activated(migration, replies, plan, change.new)
            &&& is_final_record(change.state, plan, change.new)
        },
        DeploymentPhase::Ended { outcome } => outcome is None ==> {
            &&& was_migrated(migration, replies, plan)
            &&& exists|release: ReleaseView, state: StateView|
                #[trigger] is_final_record(state, plan, release) && was_activated(
                    migration,
                    replies,
                    plan,
                    release,
                ) && was_told(migration, replies, ActionView::Save(state), ReplyView::Done)
        },
        _ => true,
    }
}

proof fn lemma_deploy_facts_stay(
    migration: Option<Text>,
    replies: Seq<(ReplyView, u64)>,
    plan: PlanView,
    count: int,
    release: ReleaseView,
)
    requires
        replies.len() > 0,
    ensures
        ({
            let shorter = replies.drop_last();
            &&& was_loaded(migration, shorter, plan) ==> was_loaded(migration, replies, plan)
            &&& was_updated(migration, shorter, plan) ==> was_updated(migration, replies, plan)
            &&& was_resolved(migration, shorter, plan) ==> was_resolved(migration, replies, plan)
            &&& were_built(migration, shorter, plan, count) ==> were_built(
                migration,
                replies,
                plan,
                count,
            )
            &&& was_migrated(migration, shorter, plan) ==> was_migrated(migration, replies, plan)
            &&& was_activated(migration, shorter, plan, release) ==> was_activated(
                migration,
                replies,
                plan,
                release,
            )
        }),
{
    let shorter = replies.drop_last();
    lemma_told(migration, replies);
    assert forall|n: int, i: int|
        0 <= i < n && i < plan.services.len() && #[trigger] were_built(
            migration,
            shorter,
            plan,
            n,
        ) implies was_told(
        migration,
        replies,
        #[trigger] build_of(plan, i),
        ReplyView::Done,
    ) by {
        assert(was_told(migration, shorter, build_of(plan, i), ReplyView::Done));
    }
    if was_activated(migration, shorter, plan, release) {
        let state = choose|state: StateView|
            #[trigger] was_told(migration, shorter, ActionView::Save(state), ReplyView::Done)
                && state.pending == Some(ReleaseView { status: "activating"@, ..release })
                && state.current == plan.backed_up.current;
        assert(was_told(migration, replies, ActionView::Save(state), ReplyView::Done));
    }
}

spec fn has_plan(migration: Option<Text>, replies: Seq<(ReplyView, u64)>) -> bool {
    exists|plan: PlanView|
        #[trigger] deploy_facts(migration, replies, phase_after(migration, replies), plan)
}

proof fn lemma_early_step(migration: Option<Text>, replies: Seq<(ReplyView, u64)>, plan: PlanView)
    requires
        replies.len() > 0,
        deploy_facts(
            migration,
            replies.drop_last(),
            phase_after(migration, replies.drop_last()),
            plan,
        ),
        ({
            let before = phase_after(migration, replies.drop_last());
            before is Cleaning || before is Switching || before is Loading || before is CheckingTag
                || before is ReadingHead || before is ReadingTag || before is Updating
                || before is BackingUp
        }),
    ensures
        has_plan(migration, replies),
{
    let shorter = replies.drop_last();
    let before = phase_after(migration, shorter);
    let phase = phase_after(migration, replies);
    let (reply, now) = replies.last();
    lemma_told(migration, replies);
    assert(phase == after(migration, before, reply, now));
    lemma_deploy_facts_stay(migration, replies, plan, 0, arbitrary());
    let next = match (before, reply) {
        (DeploymentPhase::Loading, ReplyView::State(state)) => PlanView { loaded: state, ..plan },
        (DeploymentPhase::BackingUp { .. }, ReplyView::State(state)) => PlanView {
            backed_up: state,
            ..plan
        },
        _ => plan,
    };
    assert(deploy_facts(migration, replies, phase, next));
}

proof fn lemma_build_step(migration: Option<Text>, replies: Seq<(ReplyView, u64)>, plan: PlanView)
    requires
        replies.len() > 0,
        deploy_facts(
            migration,
            replies.drop_last(),
            phase_after(migration, replies.drop_last()),
            plan,
        ),
        ({
            let before = phase_after(migration, replies.drop_last());
            before is ReadingNewHead || before is Resolving || before is Building
        }),
    ensures
        has_plan(migration, replies),
{
    let shorter = replies.drop_last();
    let before = phase_after(migration, shorter);
    let phase = phase_after(migration, replies);
    let (reply, now) = replies.last();
    lemma_told(migration, replies);
    assert(phase == after(migration, before, reply, now));
    let count: int = match before {
        DeploymentPhase::Building { next, .. } => next as int,
        _ => 0,
    };
    lemma_deploy_facts_stay(migration, replies, plan, count, arbitrary());
    let next = match (before, reply) {
        (DeploymentPhase::ReadingNewHead { .. }, ReplyView::Text(revision)) => PlanView {
            revision,
            ..plan
        },
        (DeploymentPhase::Resolving { .. }, ReplyView::Services(services)) => PlanView {
            services,
            ..plan
        },
        _ => plan,
    };
    match before {
        DeploymentPhase::Resolving { revision, .. } => {
            assert(tag_of(revision) =~= plan_tag(plan));
            assert(plan_tag(next) == plan_tag(plan));
        },
        DeploymentPhase::Building { revision, next: at, .. } => {
            assert(tag_of(revision) =~= plan_tag(plan));
            if reply is Done {
                assert forall|i: int| 0 <= i < at + 1 && i < plan.services.len() implies was_told(
                    migration,
                    replies,
                    #[trigger] build_of(plan, i),
                    ReplyView::Done,
                ) by {
                    if i == at {
                        assert(awaited(before) == build_of(plan, i));
                    } else {
                        assert(was_told(migration, shorter, build_of(plan, i), ReplyView::Done));
                    }
                }
            }
        },
        _ => {},
    }
    assert(deploy_facts(migration, replies, phase, next));
}

proof fn lemma_change_step(migration: Option<Text>, replies: Seq<(ReplyView, u64)>, plan: PlanView)
    requires
        replies.len() > 0,
        deploy_facts(
            migration,
            replies.drop_last(),
            phase_after(migration, replies.drop_last()),
            plan,
        ),
        ({
            let before = phase_after(migration, replies.drop_last());
            before is Migrating || before is ResolvingOld || before is Rechecking
                || before is Marking || before is Persisting
        }),
    ensures
        has_plan(migration, replies),
{
    let shorter = replies.drop_last();
    let before = phase_after(migration, shorter);
    let phase = phase_after(migration, replies);
    let (reply, now) = replies.last();
    lemma_told(migration, replies);
    assert(phase == after(migration, before, reply, now));
    lemma_deploy_facts_stay(
        migration,
        replies,
        plan,
        plan.services.len() as int,
        arbitrary(),
    );
    match before {
        DeploymentPhase::Migrating { revision, .. } => {
            assert(tag_of(revision) =~= plan_tag(plan));
        },
        DeploymentPhase::ResolvingOld { revision, .. } => {
            assert(tag_of(revision) =~= plan_tag(plan));
        },
        _ => {},
    }
    assert(deploy_facts(migration, replies, phase, plan));
}

proof fn lemma_last_step(migration: Option<Text>, replies: Seq<(ReplyView, u64)>, plan: PlanView)
    requires
        replies.len() > 0,
        deploy_facts(
            migration,
            replies.drop_last(),
            phase_after(migration, replies.drop_last()),
            plan,
        ),
        ({
            let before = phase_after(migration, replies.drop_last());
            before is Activating || before is SavingActive || before is Ended
        }),
    ensures
        has_plan(migration, replies),
{
    let shorter = replies.drop_last();
    let before = phase_after(migration, shorter);
    let phase = phase_after(migration, replies);
    let (reply, now) = replies.last();
    lemma_told(migration, replies);
    assert(phase == after(migration, before, reply, now));
    match before {
        DeploymentPhase::Activating { change } => {
            lemma_deploy_facts_stay(migration, replies, plan, 0, change.new);
            if reply is Done {
                assert(was_told(
                    migration,
                    replies,
                    ActionView::Save(change.state),
                    ReplyView::Done,
                ));
                assert(was_activated(migration, replies, plan, change.new));
                assert(is_final_record(completed(change).state, plan, change.new));
            }
        },
        DeploymentPhase::SavingActive { change } => {
            lemma_deploy_facts_stay(migration, replies, plan, 0, change.new);
            if reply is Done {
                assert(is_final_record(change.state, plan, change.new));
            }
        },
        DeploymentPhase::Ended { outcome } => {
            if outcome is None {
                let (release, state) = choose|release: ReleaseView, state: StateView|
                    #[trigger] is_final_record(state, plan, release) && was_activated(
                        migration,
                        shorter,
                        plan,
                        release,
                    ) && was_told(
                        migration,
                        shorter,
                        ActionView::Save(state),
                        ReplyView::Done,
                    );
                lemma_deploy_facts_stay(migration, replies, plan, 0, release);
                assert(is_final_record(state, plan, release));
                assert(was_told(migration, replies, ActionView::Save(state), ReplyView::Done));
            }
        },
        _ => {},
    }
    assert(deploy_facts(migration, replies, phase, plan));
}

proof fn lemma_deployment(migration: Option<Text>, replies: Seq<(ReplyView, u64)>)
    ensures
        has_plan(migration, replies),
    decreases replies.len(),
{
    if replies.len() == 0 {
        let none: PlanView = arbitrary();
        assert(deploy_facts(migration, replies, phase_after(migration, replies), none));
    } else {
        let shorter = replies.drop_last();
        lemma_deployment(migration, shorter);
        let before = phase_after(migration, shorter);
        let plan = choose|plan: PlanView|
            #[trigger] deploy_facts(migration, shorter, before, plan);
        if before is Cleaning || before is Switching || before is Loading || before is CheckingTag
            || before is ReadingHead || before is ReadingTag || before is Updating
            || before is BackingUp {
            lemma_early_step(migration, replies, plan);
        } else if before is ReadingNewHead || before is Resolving || before is Building {
            lemma_build_step(migration, replies, plan);
        } else if before is Migrating || before is ResolvingOld || before is Rechecking
            || before is Marking || before is Persisting {
            lemma_change_step(migration, replies, plan);
        } else if before is Activating || before is SavingActive || before is Ended {
            lemma_last_step(migration, replies, plan);
        } else {
            assert(deploy_facts(migration, replies, phase_after(migration, replies), plan));
        }
    }
}

/// A deployment succeeds only behind all of its steps: a clean checkout of the branch, a record with
/// nothing pending, an environment file that can be written, the update, the backup, the images of
/// the new revision built one by one under its tag, and the migrations. Then the record told that
/// the release is pending, its tag was written, and its services were started with the gates; and
/// last it was recorded as the current release, with the former one behind it.
pub proof fn law_success_needs_all_steps(migration: Option<Text>, replies: Seq<(ReplyView, u64)>)
    requires
        phase_after(migration, replies) == (DeploymentPhase::Ended { outcome: None }),
    ensures
        exists|plan: PlanView, release: ReleaseView, state: StateView|
            #[trigger] is_final_record(state, plan, release) && was_migrated(
                migration,
                replies,
                plan,
            ) && was_activated(migration, replies, plan, release) && was_told(
                migration,
                replies,
                ActionView::Save(state),
                ReplyView::Done,
            ),
{
    lemma_deployment(migration, replies);
    let plan = choose|plan: PlanView|
        #[trigger] deploy_facts(migration, replies, phase_after(migration, replies), plan);
    let (release, state) = choose|release: ReleaseView, state: StateView|
        #[trigger] is_final_record(state, plan, release) && was_activated(
            migration,
            replies,
            plan,
            release,
        ) && was_told(migration, replies, ActionView::Save(state), ReplyView::Done);
    assert(is_final_record(state, plan, release));
}

/// Before the record is marked, any failure ends a deployment with that failure, and a failed build
/// or migration names its service.
pub proof fn law_failures_are_told(
    migration: Option<Text>,
    phase: DeploymentPhase,
    error: ErrorView,
    now: u64,
    reply: ReplyView,
    later: u64,
)
    requires
        is_early(phase) || phase is Marking || phase is Persisting || phase is SavingActive,
        !(phase is ReportingFailure),
    ensures
        match phase {
            DeploymentPhase::Building { services, next, .. } => next < services.len() ==> after(
                migration,
                after(migration, phase, ReplyView::Failed(error), now),
                reply,
                later,
            ) == (DeploymentPhase::Ended {
                outcome: Some(
                    ErrorView::Service {
                        service: services[next as int].name,
                        source: Box::new(error),
                    },
                ),
            }),
            DeploymentPhase::Migrating { .. } => migration is Some ==> after(
                migration,
                after(migration, phase, ReplyView::Failed(error), now),
                reply,
                later,
            ) == (DeploymentPhase::Ended {
                outcome: Some(
                    ErrorView::Service { service: migration->0, source: Box::new(error) },
                ),
            }),
            _ => after(migration, phase, ReplyView::Failed(error), now) == (
            DeploymentPhase::Ended { outcome: Some(error) }),
        },
{
}

/// Where the activation fails, what runs is reported and the release that ran before is put back:
/// its tag is written, its services are started without gates, and the record is saved without the
/// marker; the deployment fails with what failed first, also where putting back fails.
pub proof fn law_failed_activation_puts_the_release_back(
    migration: Option<Text>,
    change: ChangeView,
    error: ErrorView,
    other: ErrorView,
    reply: ReplyView,
    now: u64,
)
    ensures
        ({
            let failed = after(
                migration,
                DeploymentPhase::Activating { change },
                ReplyView::Failed(error),
                now,
            );
            let reported = after(migration, failed, reply, now);
            let written = after(migration, reported, ReplyView::Done, now);
            let started = after(migration, written, ReplyView::Done, now);
            &&& awaited(failed) is ReportRuntime
            &&& awaited(reported) == ActionView::PersistTag(change.old_tag)
            &&& awaited(written) == (ActionView::Activate { release: change.old, gated: false })
            &&& awaited(started) matches ActionView::Save(state) && state.pending is None && (
            change.state.current is Some ==> state == (StateView {
                pending: None,
                ..change.state
            })) && (change.state.current is None ==> state.current == Some(change.old))
            &&& after(migration, started, ReplyView::Done, now) == (DeploymentPhase::Ended {
                outcome: Some(error),
            })
            &&& after(migration, reported, ReplyView::Failed(other), now) == (
            DeploymentPhase::Ended { outcome: Some(error) })
            &&& after(migration, written, ReplyView::Failed(other), now) == (
            DeploymentPhase::Ended { outcome: Some(error) })
        }),
{
}

/// The tag that is put back is that of the recorded release; without one it is that of the
/// environment file, and without that, or with a blank one, it is that of the revision that was
/// checked out.
pub proof fn law_old_tag_is_known(
    migration: Option<Text>,
    state: StateView,
    revision: Text,
    tag: Option<Text>,
    now: u64,
)
    ensures
        ({
            let read = after(
                migration,
                DeploymentPhase::ReadingHead { state },
                ReplyView::Text(revision),
                now,
            );
            match state.current {
                Some(current) => read matches DeploymentPhase::Updating { before } && before.tag
                    == current.tag && before.revision == revision,
                None => awaited(read) is ReadTag && (after(
                    migration,
                    read,
                    ReplyView::Tag(tag),
                    now,
                ) matches DeploymentPhase::Updating { before } && before.revision == revision && (
                tag matches Some(text) && !is_blank(text) ==> before.tag == tag->0) && (tag is None
                    || is_blank(tag->0) ==> begins(revision, before.tag) && (before.tag.len() == 12
                    || before.tag == revision))),
            }
        }),
{
    assert(revision.take(tag_of(revision).len() as int) =~= tag_of(revision));
}

/// What is announced of a deployment leads from the revision and tag that were there to those that
/// are deployed, and ends with the tag that is healthy.
pub proof fn law_announcements_tell_from_and_to(
    name: Text,
    migration: Option<Text>,
    before: BeforeView,
    revision: Text,
    change: ChangeView,
)
    ensures
        ({
            let lines = announced(
                name,
                migration,
                DeploymentPhase::ReadingNewHead { before },
                ReplyView::Text(revision),
            );
            &&& lines.len() == 5
            &&& lines[1] == "Deploying "@ + name
            &&& lines[2] == "  from: "@ + tag_of(before.revision) + " ("@ + before.tag + ")"@
            &&& lines[3] == "    to: "@ + tag_of(revision) + " ("@ + tag_of(revision) + ")"@
        }),
        announced(
            name,
            migration,
            DeploymentPhase::SavingActive { change },
            ReplyView::Done,
        ).last() == "Healthy: "@ + name + " @ "@ + change.new.tag,
        announced(name, migration, DeploymentPhase::Updating { before }, ReplyView::Done) == seq![
            "✓ Git update"@,
        ],
{
}

/// Where every step is done, a deployment that has built and migrated marks the record, writes the
/// new tag, starts the new release with its gates and records it, with the old one behind it.
pub proof fn law_prepared_changes_lead_to_the_release(
    migration: Option<Text>,
    change: ChangeView,
    now: u64,
)
    ensures
        ({
            let checked = after(
                migration,
                DeploymentPhase::Rechecking { change },
                ReplyView::Done,
                now,
            );
            let marked = after(migration, checked, ReplyView::Done, now);
            let written = after(migration, marked, ReplyView::Done, now);
            let active = after(migration, written, ReplyView::Done, now);
            let recorded = after(migration, active, ReplyView::Done, now);
            &&& awaited(checked) matches ActionView::Save(state) && {
                &&& state.pending == Some(ReleaseView { status: "activating"@, ..change.new })
                &&& state.current == change.state.current
                &&& state.previous == change.state.previous
            }
            &&& awaited(marked) == ActionView::PersistTag(change.new.tag)
            &&& awaited(written) == (ActionView::Activate { release: change.new, gated: true })
            &&& awaited(active) matches ActionView::Save(state) && {
                &&& state.current == Some(change.new)
                &&& state.previous == Some(ReleaseView { status: "superseded"@, ..change.old })
                &&& state.pending is None
                &&& state.last_backup == change.state.last_backup && state.last_offsite
                    == change.state.last_offsite
            }
            &&& recorded == (DeploymentPhase::Ended { outcome: None })
        }),
{
}

/// Where every step is done, a deployment asks for a clean checkout of the branch and the record,
/// brings the branch up to date, makes a backup and resolves the services of the new revision under
/// its tag.
pub proof fn law_deployments_begin_in_order(
    migration: Option<Text>,
    state: StateView,
    backed: StateView,
    current: ReleaseView,
    old: Text,
    revision: Text,
    now: u64,
)
    requires
        state.pending is None,
        state.current == Some(current),
    ensures
        ({
            let p1 = after(migration, DeploymentPhase::Cleaning, ReplyView::Done, now);
            let p2 = after(migration, p1, ReplyView::Done, now);
            let p3 = after(migration, p2, ReplyView::State(state), now);
            let p4 = after(migration, p3, ReplyView::Done, now);
            let p5 = after(migration, p4, ReplyView::Text(old), now);
            let p6 = after(migration, p5, ReplyView::Done, now);
            let p7 = after(migration, p6, ReplyView::State(backed), now);
            let p8 = after(migration, p7, ReplyView::Text(revision), now);
            &&& awaited(DeploymentPhase::Cleaning) is EnsureClean
            &&& awaited(p1) is SwitchBranch
            &&& awaited(p2) is LoadState
            &&& awaited(p3) is CheckTagWritable
            &&& awaited(p4) is HeadRevision
            &&& awaited(p5) is UpdateBranch
            &&& awaited(p6) == ActionView::Backup(state)
            &&& awaited(p7) is HeadRevision
            &&& awaited(p8) == ActionView::ReleaseServices(tag_of(revision))
        }),
{
}

} // verus!
