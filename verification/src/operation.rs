//! What a procedure asks to be done next, and what it is told of it.

use vstd::prelude::*;

use crate::error::{ErrorView, YardError};
use crate::state::{ProjectState, Release, ReleaseService, ReleaseView, ServiceView, StateView};
use crate::text::Text;

verus! {

/// A single piece of work outside the procedure.
#[derive(Debug)]
pub enum Action {
    /// Refuse a checkout with tracked local changes.
    EnsureClean,
    /// Check out the configured branch.
    SwitchBranch,
    /// Read the recorded state.
    LoadState,
    /// Refuse an environment file that could not be replaced.
    CheckTagWritable,
    /// Tell the checked out revision.
    HeadRevision,
    /// Tell the tag in the environment file.
    ReadTag,
    /// Fetch the configured branch and move the checkout forward to it.
    UpdateBranch,
    /// Tell the commit that a revision stands for.
    ResolveRevision(String),
    /// Run the configured backup commands and record them in the state.
    Backup(ProjectState),
    /// Tell the service images of the release of a tag.
    ReleaseServices(String),
    /// Build the image of a service for a tag.
    Build { tag: String, service: String },
    /// Run the configured migrations with the images of a tag.
    Migrate(String),
    /// Show the containers that are there.
    ReportRuntime,
    /// Tell whether an image is there.
    ImageExists(String),
    /// Copy the state and the environment file aside, and tell where.
    Snapshot,
    /// Replace the recorded state.
    Save(ProjectState),
    /// Put a tag into the environment file.
    PersistTag(String),
    /// Start the services of a release and wait until they are up; gated, until the gated probes
    /// are healthy too.
    Activate { release: Release, gated: bool },
    /// Add a line to the journal of restores.
    Journal { target: Option<String>, result: String, cause: String },
    /// Nothing: the procedure has ended.
    Finish,
}

/// What came of an action.
#[derive(Debug)]
pub enum Reply {
    Done,
    Text(String),
    Tag(Option<String>),
    State(ProjectState),
    Services(Vec<ReleaseService>),
    Found(bool),
    Failed(YardError),
}

#[verifier::ext_equal]
pub enum ActionView {
    EnsureClean,
    SwitchBranch,
    LoadState,
    CheckTagWritable,
    HeadRevision,
    ReadTag,
    UpdateBranch,
    ResolveRevision(Text),
    Backup(StateView),
    ReleaseServices(Text),
    Build { tag: Text, service: Text },
    Migrate(Text),
    ReportRuntime,
    ImageExists(Text),
    Snapshot,
    Save(StateView),
    PersistTag(Text),
    Activate { release: ReleaseView, gated: bool },
    Journal { target: Option<Text>, result: Text, cause: Text },
    Finish,
}

#[verifier::ext_equal]
pub enum ReplyView {
    Done,
    Text(Text),
    Tag(Option<Text>),
    State(StateView),
    Services(Seq<ServiceView>),
    Found(bool),
    Failed(ErrorView),
}

impl DeepView for Action {
    type V = ActionView;

    open spec fn deep_view(&self) -> ActionView {
        match self {
            Action::EnsureClean => ActionView::EnsureClean,
            Action::SwitchBranch => ActionView::SwitchBranch,
            Action::LoadState => ActionView::LoadState,
            Action::CheckTagWritable => ActionView::CheckTagWritable,
            Action::HeadRevision => ActionView::HeadRevision,
            Action::ReadTag => ActionView::ReadTag,
            Action::UpdateBranch => ActionView::UpdateBranch,
            Action::ResolveRevision(revision) => ActionView::ResolveRevision(revision@),
            Action::Backup(state) => ActionView::Backup(state.deep_view()),
            Action::ReleaseServices(tag) => ActionView::ReleaseServices(tag@),
            Action::Build { tag, service } => ActionView::Build { tag: tag@, service: service@ },
            Action::Migrate(tag) => ActionView::Migrate(tag@),
            Action::ReportRuntime => ActionView::ReportRuntime,
            Action::ImageExists(image) => ActionView::ImageExists(image@),
            Action::Snapshot => ActionView::Snapshot,
            Action::Save(state) => ActionView::Save(state.deep_view()),
            Action::PersistTag(tag) => ActionView::PersistTag(tag@),
            Action::Activate { release, gated } => ActionView::Activate {
                release: release.deep_view(),
                gated: *gated,
            },
            Action::Journal { target, result, cause } => ActionView::Journal {
                target: target.deep_view(),
                result: result@,
                cause: cause@,
            },
            Action::Finish => ActionView::Finish,
        }
    }
}

impl DeepView for Reply {
    type V = ReplyView;

    open spec fn deep_view(&self) -> ReplyView {
        match self {
            Reply::Done => ReplyView::Done,
            Reply::Text(text) => ReplyView::Text(text@),
            Reply::Tag(tag) => ReplyView::Tag(tag.deep_view()),
            Reply::State(state) => ReplyView::State(state.deep_view()),
            Reply::Services(services) => ReplyView::Services(services.deep_view()),
            Reply::Found(found) => ReplyView::Found(*found),
            Reply::Failed(error) => ReplyView::Failed(error.deep_view()),
        }
    }
}

/// The failure behind a reply that is not the expected one: its own, or that it does not belong
/// to the action.
pub open spec fn failure_of(reply: ReplyView) -> ErrorView {
    match reply {
        ReplyView::Failed(error) => error,
        _ => ErrorView::Config("unexpected reply"@),
    }
}

/// The failure behind a reply that is not the expected one.
pub fn failure(reply: Reply) -> (r: YardError)
    ensures
        r.deep_view() == failure_of(reply.deep_view()),
{
    match reply {
        Reply::Failed(error) => error,
        _ => YardError::Config("unexpected reply".to_owned()),
    }
}

/// A failure in one step for a service.
pub open spec fn at_service(service: Text, source: ErrorView) -> ErrorView {
    ErrorView::Service { service, source: Box::new(source) }
}

} // verus!
