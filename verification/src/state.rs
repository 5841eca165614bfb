//! The recorded state of a project: its releases and its latest backup attempts.

use vstd::prelude::*;

use crate::clock::unix_now;
use crate::text::{copy_option, Text};

verus! {

/// One service of a release, with the image that it runs.
#[derive(Debug)]
pub struct ReleaseService {
    pub name: String,
    pub image: String,
}

/// A release of a project: one Git revision, built into one image per service.
#[derive(Debug)]
pub struct Release {
    pub revision: String,
    pub tag: String,
    pub deployed_at_unix: u64,
    pub services: Vec<ReleaseService>,
    pub status: String,
}

/// How a backup command ended.
#[derive(Debug, Clone, Copy, PartialEq, Eq, Structural)]
pub enum BackupResult {
    Success,
    Failure,
}

/// The record of one run of a backup command.
#[derive(Clone, Debug)]
pub struct BackupAttempt {
    pub started_at_unix: u64,
    pub duration_ms: u128,
    pub result: BackupResult,
    pub destination: Option<String>,
}

/// What is recorded of a project between runs.
#[derive(Debug)]
pub struct ProjectState {
    pub current: Option<Release>,
    pub previous: Option<Release>,
    pub pending: Option<Release>,
    pub last_backup: Option<BackupAttempt>,
    pub last_offsite: Option<BackupAttempt>,
}

// ---------------------------------------------------------------------------------------------
// What the records hold
// ---------------------------------------------------------------------------------------------

#[verifier::ext_equal]
pub struct ServiceView {
    pub name: Text,
    pub image: Text,
}

#[verifier::ext_equal]
pub struct ReleaseView {
    pub revision: Text,
    pub tag: Text,
    pub deployed_at_unix: u64,
    pub services: Seq<ServiceView>,
    pub status: Text,
}

#[verifier::ext_equal]
pub struct AttemptView {
    pub started_at_unix: u64,
    pub duration_ms: u128,
    pub result: BackupResult,
    pub destination: Option<Text>,
}

#[verifier::ext_equal]
pub struct StateView {
    pub current: Option<ReleaseView>,
    pub previous: Option<ReleaseView>,
    pub pending: Option<ReleaseView>,
    pub last_backup: Option<AttemptView>,
    pub last_offsite: Option<AttemptView>,
}

impl DeepView for ReleaseService {
    type V = ServiceView;

    open spec fn deep_view(&self) -> ServiceView {
        ServiceView { name: self.name@, image: self.image@ }
    }
}

impl DeepView for Release {
    type V = ReleaseView;

    open spec fn deep_view(&self) -> ReleaseView {
        ReleaseView {
            revision: self.revision@,
            tag: self.tag@,
            deployed_at_unix: self.deployed_at_unix,
            services: self.services.deep_view(),
            status: self.status@,
        }
    }
}

impl DeepView for BackupAttempt {
    type V = AttemptView;

    open spec fn deep_view(&self) -> AttemptView {
        AttemptView {
            started_at_unix: self.started_at_unix,
            duration_ms: self.duration_ms,
            result: self.result,
            destination: self.destination.deep_view(),
        }
    }
}

impl DeepView for ProjectState {
    type V = StateView;

    open spec fn deep_view(&self) -> StateView {
        StateView {
            current: self.current.deep_view(),
            previous: self.previous.deep_view(),
            pending: self.pending.deep_view(),
            last_backup: self.last_backup.deep_view(),
            last_offsite: self.last_offsite.deep_view(),
        }
    }
}

/// The names of the services of a release, in order.
pub open spec fn service_names(services: Seq<ServiceView>) -> Seq<Text> {
    services.map_values(|service: ServiceView| service.name)
}

/// A fresh record of a release: active, and without service images.
pub open spec fn new_release(revision: Text, tag: Text, stamp: u64) -> ReleaseView {
    ReleaseView {
        revision,
        tag,
        deployed_at_unix: stamp,
        services: Seq::empty(),
        status: "active"@,
    }
}

/// A release under another status.
pub open spec fn marked(release: ReleaseView, status: Text) -> ReleaseView {
    ReleaseView { status, ..release }
}

/// The state of a project of which nothing is recorded.
pub open spec fn empty_state() -> StateView {
    StateView {
        current: None,
        previous: None,
        pending: None,
        last_backup: None,
        last_offsite: None,
    }
}

// ---------------------------------------------------------------------------------------------
// Operations
// ---------------------------------------------------------------------------------------------

/// A copy of a list of services.
pub fn copy_services(services: &Vec<ReleaseService>) -> (r: Vec<ReleaseService>)
    ensures
        r.deep_view() == services.deep_view(),
{
    let mut out: Vec<ReleaseService> = Vec::new();
    let mut i: usize = 0;
    while i < services.len()
        invariant
            i <= services@.len(),
            out@.len() == i,
            forall|j: int| 0 <= j < i ==> (#[trigger] out@[j]).deep_view() == services@[j].deep_view(),
        decreases services@.len() - i,
    {
        out.push(
            ReleaseService { name: services[i].name.clone(), image: services[i].image.clone() },
        );
        i = i + 1;
    }
    assert(out.deep_view() =~= services.deep_view());
    out
}

impl Clone for Release {
    fn clone(&self) -> (r: Self)
        ensures
            r.deep_view() == self.deep_view(),
    {
        Release {
            revision: self.revision.clone(),
            tag: self.tag.clone(),
            deployed_at_unix: self.deployed_at_unix,
            services: copy_services(&self.services),
            status: self.status.clone(),
        }
    }
}

impl Release {
    /// A fresh record of a release that went live at the given time.
    pub fn at(revision: String, tag: String, stamp: u64) -> (r: Self)
        ensures
            r.deep_view() == new_release(revision@, tag@, stamp),
    {
        let services: Vec<ReleaseService> = Vec::new();
        assert(services.deep_view() =~= Seq::empty());
        Release { revision, tag, deployed_at_unix: stamp, services, status: "active".to_owned() }
    }

    /// A fresh record of a release that goes live now.
    pub fn new(revision: String, tag: String) -> (r: Self)
        ensures
            r.deep_view() == new_release(revision@, tag@, r.deployed_at_unix),
    {
        Self::at(revision, tag, unix_now())
    }

    /// The release with its services replaced.
    pub fn with_services(self, services: Vec<ReleaseService>) -> (r: Self)
        ensures
            r.deep_view() == (ReleaseView { services: services.deep_view(), ..self.deep_view() }),
    {
        Release { services, ..self }
    }

    /// A copy of the release under another status.
    pub fn marked(&self, status: &str) -> (r: Self)
        ensures
            r.deep_view() == marked(self.deep_view(), status@),
    {
        Release { status: status.to_owned(), ..self.clone() }
    }
}

/// A copy of a release that may be absent.
pub fn copy_release(release: &Option<Release>) -> (r: Option<Release>)
    ensures
        r.deep_view() == release.deep_view(),
{
    match release {
        Some(release) => Some(release.clone()),
        None => None,
    }
}

/// A copy of a backup record that may be absent.
pub fn copy_attempt(attempt: &Option<BackupAttempt>) -> (r: Option<BackupAttempt>)
    ensures
        r.deep_view() == attempt.deep_view(),
{
    match attempt {
        Some(attempt) => Some(
            BackupAttempt {
                started_at_unix: attempt.started_at_unix,
                duration_ms: attempt.duration_ms,
                result: attempt.result,
                destination: copy_option(&attempt.destination),
            },
        ),
        None => None,
    }
}

impl BackupResult {
    /// The word for the result in reports and records.
    pub fn label(self) -> (r: &'static str)
        ensures
            r@ == label_of(self),
    {
        match self {
            BackupResult::Success => "success",
            BackupResult::Failure => "failure",
        }
    }
}

/// The word for the result of a backup.
pub open spec fn label_of(result: BackupResult) -> Text {
    match result {
        BackupResult::Success => "success"@,
        BackupResult::Failure => "failure"@,
    }
}

impl Default for ProjectState {
    fn default() -> (r: Self)
        ensures
            r.deep_view() == empty_state(),
    {
        ProjectState {
            current: None,
            previous: None,
            pending: None,
            last_backup: None,
            last_offsite: None,
        }
    }
}

impl Clone for ProjectState {
    fn clone(&self) -> (r: Self)
        ensures
            r.deep_view() == self.deep_view(),
    {
        ProjectState {
            current: copy_release(&self.current),
            previous: copy_release(&self.previous),
            pending: copy_release(&self.pending),
            last_backup: copy_attempt(&self.last_backup),
            last_offsite: copy_attempt(&self.last_offsite),
        }
    }
}

/// A new release is active, of its revision, tag and time, and records no services yet; to mark a
/// release changes its status alone.
pub proof fn law_releases_begin_active(
    revision: Text,
    tag: Text,
    stamp: u64,
    release: ReleaseView,
    status: Text,
)
    ensures
        ({
            let new = new_release(revision, tag, stamp);
            &&& new.revision == revision && new.tag == tag && new.deployed_at_unix == stamp
            &&& new.status == "active"@
            &&& new.services.len() == 0
        }),
        ({
            let other = marked(release, status);
            &&& other.status == status
            &&& other.revision == release.revision && other.tag == release.tag
            &&& other.services == release.services && other.deployed_at_unix
                == release.deployed_at_unix
        }),
        label_of(BackupResult::Success) == "success"@,
        label_of(BackupResult::Failure) == "failure"@,
        empty_state().current is None && empty_state().previous is None
            && empty_state().pending is None,
        empty_state().last_backup is None && empty_state().last_offsite is None,
{
}

} // verus!
