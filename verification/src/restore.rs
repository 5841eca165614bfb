//! Restoring a recorded application release.
//!
//! Application images only: no backup command, migration or database operation is asked for here,
//! and backups are shown as records, never restored.

use vstd::prelude::*;

use crate::config::{ConfigView, ProjectConfig};
use crate::error::{error_of, message_of, ErrorView, YardError};
use crate::operation::{failure, failure_of, Action, ActionView, Reply, ReplyView};
use crate::project::{tag_of, Project};
use crate::state::{
    copy_release, marked, new_release, service_names, ProjectState, Release, ReleaseService,
    ReleaseView, StateView,
};
use crate::text::{
    after_prefix, begins, blank, contains, copy_option, holds_part, is_blank, is_space, join, joined,
    lemma_holds, lemma_holds_pair, lemma_parts_stay, same, same_option, starts_with, strip_prefix,
    Text,
};
use crate::command::add_word;

verus! {

/// What is asked of a restore: a target, and whether it was confirmed.
#[derive(Debug)]
pub struct Request {
    pub target: Option<String>,
    pub yes: bool,
}

#[verifier::ext_equal]
pub struct RequestView {
    pub target: Option<Text>,
    pub yes: bool,
}

impl DeepView for Request {
    type V = RequestView;

    open spec fn deep_view(&self) -> RequestView {
        RequestView { target: self.target.deep_view(), yes: self.yes }
    }
}

/// The release that runs, the release that is to run, and the record of both.
#[derive(Debug)]
pub struct Exchange {
    pub state: ProjectState,
    pub current: Release,
    pub release: Release,
}

#[verifier::ext_equal]
pub struct ExchangeView {
    pub state: StateView,
    pub current: ReleaseView,
    pub release: ReleaseView,
}

impl DeepView for Exchange {
    type V = ExchangeView;

    open spec fn deep_view(&self) -> ExchangeView {
        ExchangeView {
            state: self.state.deep_view(),
            current: self.current.deep_view(),
            release: self.release.deep_view(),
        }
    }
}

/// Where a restore stands. From `Marking` on, `snapshot` is where the state and the environment
/// file were copied to.
#[derive(Debug)]
pub enum Restore {
    Opening,
    Cleaning,
    CheckingTag,
    Loading,
    Resolving { state: ProjectState, current: Release },
    FillingRelease { exchange: Exchange },
    FillingCurrent { exchange: Exchange },
    ReadingTag { exchange: Exchange },
    CheckingImage { exchange: Exchange, next: usize },
    Copying { exchange: Exchange },
    Marking { exchange: Exchange, snapshot: String },
    Persisting { exchange: Exchange, snapshot: String },
    Activating { exchange: Exchange, snapshot: String },
    PersistingCurrent { exchange: Exchange, snapshot: String, error: YardError },
    ActivatingCurrent { exchange: Exchange, snapshot: String, error: YardError },
    SavingRecovered { exchange: Exchange, snapshot: String, error: YardError },
    SavingActive { exchange: Exchange, snapshot: String },
    Closing { result: Result<(), YardError> },
    Ended { result: Result<(), YardError> },
}

#[verifier::ext_equal]
pub enum RestorePhase {
    Opening,
    Cleaning,
    CheckingTag,
    Loading,
    Resolving { state: StateView, current: ReleaseView },
    FillingRelease { exchange: ExchangeView },
    FillingCurrent { exchange: ExchangeView },
    ReadingTag { exchange: ExchangeView },
    CheckingImage { exchange: ExchangeView, next: nat },
    Copying { exchange: ExchangeView },
    Marking { exchange: ExchangeView, snapshot: Text },
    Persisting { exchange: ExchangeView, snapshot: Text },
    Activating { exchange: ExchangeView, snapshot: Text },
    PersistingCurrent { exchange: ExchangeView, snapshot: Text, error: ErrorView },
    ActivatingCurrent { exchange: ExchangeView, snapshot: Text, error: ErrorView },
    SavingRecovered { exchange: ExchangeView, snapshot: Text, error: ErrorView },
    SavingActive { exchange: ExchangeView, snapshot: Text },
    Closing { outcome: Option<ErrorView> },
    Ended { outcome: Option<ErrorView> },
}

impl DeepView for Restore {
    type V = RestorePhase;

    open spec fn deep_view(&self) -> RestorePhase {
        match self {
            Restore::Opening => RestorePhase::Opening,
            Restore::Cleaning => RestorePhase::Cleaning,
            Restore::CheckingTag => RestorePhase::CheckingTag,
            Restore::Loading => RestorePhase::Loading,
            Restore::Resolving { state, current } => RestorePhase::Resolving {
                state: state.deep_view(),
                current: current.deep_view(),
            },
            Restore::FillingRelease { exchange } => RestorePhase::FillingRelease {
                exchange: exchange.deep_view(),
            },
            Restore::FillingCurrent { exchange } => RestorePhase::FillingCurrent {
                exchange: exchange.deep_view(),
            },
            Restore::ReadingTag { exchange } => RestorePhase::ReadingTag {
                exchange: exchange.deep_view(),
            },
            Restore::CheckingImage { exchange, next } => RestorePhase::CheckingImage {
                exchange: exchange.deep_view(),
                next: *next as nat,
            },
            Restore::Copying { exchange } => RestorePhase::Copying {
                exchange: exchange.deep_view(),
            },
            Restore::Marking { exchange, snapshot } => RestorePhase::Marking {
                exchange: exchange.deep_view(),
                snapshot: snapshot@,
            },
            Restore::Persisting { exchange, snapshot } => RestorePhase::Persisting {
                exchange: exchange.deep_view(),
                snapshot: snapshot@,
            },
            Restore::Activating { exchange, snapshot } => RestorePhase::Activating {
                exchange: exchange.deep_view(),
                snapshot: snapshot@,
            },
            Restore::PersistingCurrent { exchange, snapshot, error } =>
            RestorePhase::PersistingCurrent {
                exchange: exchange.deep_view(),
                snapshot: snapshot@,
                error: error.deep_view(),
            },
            Restore::ActivatingCurrent { exchange, snapshot, error } =>
            RestorePhase::ActivatingCurrent {
                exchange: exchange.deep_view(),
                snapshot: snapshot@,
                error: error.deep_view(),
            },
            Restore::SavingRecovered { exchange, snapshot, error } =>
            RestorePhase::SavingRecovered {
                exchange: exchange.deep_view(),
                snapshot: snapshot@,
                error: error.deep_view(),
            },
            Restore::SavingActive { exchange, snapshot } => RestorePhase::SavingActive {
                exchange: exchange.deep_view(),
                snapshot: snapshot@,
            },
            Restore::Closing { result } => RestorePhase::Closing { outcome: error_of(*result) },
            Restore::Ended { result } => RestorePhase::Ended { outcome: error_of(*result) },
        }
    }
}

// ---------------------------------------------------------------------------------------------
// Targets
// ---------------------------------------------------------------------------------------------

/// What is said to someone who asks for data.
pub open spec fn manual() -> Text {
    "Data backups cannot be restored by Yard. Manually inspect the backup and its destination, stop application writers, verify a separate database restore plan, and perform and validate the data restore outside Yard before restarting the application. See README.md (Manual data recovery)."@
}

fn manual_text() -> (r: &'static str)
    ensures
        r@ == manual(),
{
    "Data backups cannot be restored by Yard. Manually inspect the backup and its destination, stop application writers, verify a separate database restore plan, and perform and validate the data restore outside Yard before restarting the application. See README.md (Manual data recovery)."
}

/// Why a request is refused before anything is looked at: it names no target, asks for data, or
/// was not confirmed.
pub open spec fn refusal(request: RequestView) -> Option<ErrorView> {
    if request.target is None || is_blank(request.target->0) {
        Some(
            ErrorView::Config(
                "name an application revision (yard restore <project> <revision> --yes)"@,
            ),
        )
    } else if begins(request.target->0, "backup:"@) {
        Some(ErrorView::Config(manual()))
    } else if !request.yes {
        Some(
            ErrorView::Config(
                "confirmation required: rerun with --yes after checking the target"@,
            ),
        )
    } else {
        None
    }
}

/// Why a request is refused before anything is looked at.
pub fn check_request(request: &Request) -> (r: Result<(), YardError>)
    ensures
        error_of(r) == refusal(request.deep_view()),
{
    match &request.target {
        Some(target) => {
            if blank(target.as_str()) {
                return Err(
                    YardError::Config(
                        "name an application revision (yard restore <project> <revision> --yes)".to_owned(),
                    ),
                );
            }
            if starts_with(target.as_str(), "backup:") {
                return Err(YardError::Config(manual_text().to_owned()));
            }
            if !request.yes {
                return Err(
                    YardError::Config(
                        "confirmation required: rerun with --yes after checking the target".to_owned(),
                    ),
                );
            }
            Ok(())
        },
        None => Err(
            YardError::Config(
                "name an application revision (yard restore <project> <revision> --yes)".to_owned(),
            ),
        ),
    }
}

/// A release that may be absent, as a list.
pub open spec fn listed(release: Option<ReleaseView>) -> Seq<ReleaseView> {
    match release {
        Some(release) => seq![release],
        None => Seq::empty(),
    }
}

/// The releases that can be restored by name.
pub open spec fn recorded(state: StateView) -> Seq<ReleaseView> {
    listed(state.current) + listed(state.previous)
}

/// The name of a release as a target.
pub open spec fn release_target(tag: Text) -> Text {
    "release:"@ + tag
}

/// The targets that there are, in words.
pub open spec fn available(state: StateView) -> Text {
    joined(
        recorded(state).map_values(|release: ReleaseView| release_target(release.tag)),
        ", "@,
    )
}

/// The first release with a tag.
pub open spec fn with_tag(releases: Seq<ReleaseView>, tag: Text) -> Option<ReleaseView>
    decreases releases.len(),
{
    if releases.len() == 0 {
        None
    } else if releases[0].tag == tag {
        Some(releases[0])
    } else {
        with_tag(releases.skip(1), tag)
    }
}

/// The first release of a revision.
pub open spec fn with_revision(releases: Seq<ReleaseView>, revision: Text) -> Option<ReleaseView>
    decreases releases.len(),
{
    if releases.len() == 0 {
        None
    } else if releases[0].revision == revision {
        Some(releases[0])
    } else {
        with_revision(releases.skip(1), revision)
    }
}

/// Whether releases of one revision differ in their tags.
pub open spec fn is_ambiguous(releases: Seq<ReleaseView>, revision: Text) -> bool {
    exists|i: int, j: int|
        0 <= i < releases.len() && 0 <= j < releases.len() && (#[trigger] releases[i]).revision
            == revision && (#[trigger] releases[j]).revision == revision && releases[i].tag
            != releases[j].tag
}

/// The recorded release that a target names. A target that is a revision of no recorded release
/// names none.
pub open spec fn selected(state: StateView, target: Text) -> Result<
    Option<ReleaseView>,
    ErrorView,
> {
    match after_prefix(target, "release:"@) {
        Some(tag) => match with_tag(recorded(state), tag) {
            Some(release) => Ok(Some(release)),
            None => Err(
                ErrorView::Config(
                    "no recorded release tagged "@ + tag + "; available: "@ + available(state),
                ),
            ),
        },
        None => if is_ambiguous(recorded(state), target) {
            Err(
                ErrorView::Config(
                    "revision matches multiple recorded releases; select release:<tag> from yard restore-points"@,
                ),
            )
        } else {
            Ok(with_revision(recorded(state), target))
        },
    }
}

/// The release that runs: the current one, else the previous one.
pub open spec fn running(state: StateView) -> Option<ReleaseView> {
    if state.current is Some {
        state.current
    } else {
        state.previous
    }
}

fn releases_of(state: &ProjectState) -> (r: Vec<Release>)
    ensures
        r.deep_view() == recorded(state.deep_view()),
        r@.len() <= 2,
{
    let mut out: Vec<Release> = Vec::new();
    if let Some(current) = &state.current {
        out.push(current.clone());
    }
    if let Some(previous) = &state.previous {
        out.push(previous.clone());
    }
    assert(out.deep_view() =~= recorded(state.deep_view()));
    out
}

fn describe_available(state: &ProjectState) -> (r: String)
    ensures
        r@ == available(state.deep_view()),
{
    let releases = releases_of(state);
    let ghost views = recorded(state.deep_view());
    let ghost targets = views.map_values(|release: ReleaseView| release_target(release.tag));
    let mut names: Vec<String> = Vec::new();
    let mut i: usize = 0;
    assert(names.deep_view() =~= targets.take(0));
    while i < releases.len()
        invariant
            views == releases.deep_view(),
            targets == views.map_values(|release: ReleaseView| release_target(release.tag)),
            i <= releases@.len(),
            names.deep_view() == targets.take(i as int),
        decreases releases@.len() - i,
    {
        let mut name = "release:".to_owned();
        name.append(releases[i].tag.as_str());
        add_word(&mut names, name.as_str());
        assert(targets.take(i + 1) =~= targets.take(i as int).push(name@));
        i = i + 1;
    }
    assert(targets.take(i as int) =~= targets);
    join(&names, ", ")
}

fn find_tag(releases: &Vec<Release>, tag: &str) -> (r: Option<Release>)
    ensures
        r.deep_view() == with_tag(releases.deep_view(), tag@),
{
    let ghost views = releases.deep_view();
    let mut i: usize = 0;
    assert(views.skip(0) =~= views);
    while i < releases.len()
        invariant
            views == releases.deep_view(),
            i <= releases@.len(),
            with_tag(views, tag@) == with_tag(views.skip(i as int), tag@),
        decreases releases@.len() - i,
    {
        assert(views.skip(i as int)[0] == releases@[i as int].deep_view());
        assert(views.skip(i as int).skip(1) =~= views.skip(i + 1));
        if same(releases[i].tag.as_str(), tag) {
            return Some(releases[i].clone());
        }
        i = i + 1;
    }
    None
}

fn find_revision(releases: &Vec<Release>, revision: &str) -> (r: Option<Release>)
    ensures
        r.deep_view() == with_revision(releases.deep_view(), revision@),
{
    let ghost views = releases.deep_view();
    let mut i: usize = 0;
    assert(views.skip(0) =~= views);
    while i < releases.len()
        invariant
            views == releases.deep_view(),
            i <= releases@.len(),
            with_revision(views, revision@) == with_revision(views.skip(i as int), revision@),
        decreases releases@.len() - i,
    {
        assert(views.skip(i as int)[0] == releases@[i as int].deep_view());
        assert(views.skip(i as int).skip(1) =~= views.skip(i + 1));
        if same(releases[i].revision.as_str(), revision) {
            return Some(releases[i].clone());
        }
        i = i + 1;
    }
    None
}

fn ambiguous(releases: &Vec<Release>, revision: &str) -> (r: bool)
    requires
        releases@.len() <= 2,
    ensures
        r == is_ambiguous(releases.deep_view(), revision@),
{
    let ghost views = releases.deep_view();
    if releases.len() == 2 {
        assert(views[0] == releases@[0].deep_view() && views[1] == releases@[1].deep_view());
        let r = same(releases[0].revision.as_str(), revision) && same(
            releases[1].revision.as_str(),
            revision,
        ) && !same(releases[0].tag.as_str(), releases[1].tag.as_str());
        if r {
            assert(is_ambiguous(views, revision@));
        } else {
            assert forall|i: int, j: int|
                0 <= i < views.len() && 0 <= j < views.len() && (#[trigger] views[i]).revision
                    == revision@ && (#[trigger] views[j]).revision == revision@ implies views[i].tag
                == views[j].tag by {
                if i != j {
                    assert((i == 0 && j == 1) || (i == 1 && j == 0));
                }
            }
        }
        r
    } else {
        assert forall|i: int, j: int|
            0 <= i < views.len() && 0 <= j < views.len() && (#[trigger] views[i]).revision
                == revision@ && (#[trigger] views[j]).revision == revision@ implies views[i].tag
            == views[j].tag by {
            assert(i == j);
        }
        false
    }
}

/// The recorded release that a target names.
pub fn select(state: &ProjectState, target: &str) -> (r: Result<Option<Release>, YardError>)
    ensures
        match r {
            Ok(release) => selected(state.deep_view(), target@) == Ok::<
                Option<ReleaseView>,
                ErrorView,
            >(release.deep_view()),
            Err(error) => selected(state.deep_view(), target@) == Err::<
                Option<ReleaseView>,
                ErrorView,
            >(error.deep_view()),
        },
{
    let releases = releases_of(state);
    match strip_prefix(target, "release:") {
        Some(tag) => match find_tag(&releases, tag.as_str()) {
            Some(release) => Ok(Some(release)),
            None => {
                let mut message = "no recorded release tagged ".to_owned();
                message.append(tag.as_str());
                message.append("; available: ");
                message.append(describe_available(state).as_str());
                Err(YardError::Config(message))
            },
        },
        None => {
            if ambiguous(&releases, target) {
                Err(
                    YardError::Config(
                        "revision matches multiple recorded releases; select release:<tag> from yard restore-points".to_owned(),
                    ),
                )
            } else {
                Ok(find_revision(&releases, target))
            }
        },
    }
}

// ---------------------------------------------------------------------------------------------
// Authorization
// ---------------------------------------------------------------------------------------------

/// How often a name stands in a list.
pub open spec fn occurrences(names: Seq<Text>, name: Text) -> nat
    decreases names.len(),
{
    if names.len() == 0 {
        0
    } else {
        occurrences(names.drop_last(), name) + (if names.last() == name {
            1nat
        } else {
            0nat
        })
    }
}

/// Whether the services of a release are exactly the configured application services, each once,
/// and the migration service is not among them.
pub open spec fn authorized(names: Seq<Text>, allowed: Seq<Text>, migration: Option<Text>) -> bool {
    &&& names.len() == allowed.len()
    &&& forall|i: int|
        0 <= i < names.len() ==> migration != Some(#[trigger] names[i]) && allowed.contains(
            names[i],
        )
    &&& forall|i: int| 0 <= i < allowed.len() ==> occurrences(names, #[trigger] allowed[i]) == 1
}

/// The refusal of a release with services that are not authorized.
pub open spec fn unauthorized(
    tag: Text,
    names: Seq<Text>,
    allowed: Seq<Text>,
    migration: Option<Text>,
) -> ErrorView {
    ErrorView::Config(
        "release:"@ + tag + " services ["@ + joined(names, ", "@)
            + "] do not match authorized application services ["@ + joined(allowed, ", "@)
            + "] (migration service: "@ + (match migration {
            Some(service) => service,
            None => "none"@,
        }) + "); refusing to activate data, migration or unconfigured services. "@ + manual(),
    )
}

/// Why a release may not be activated.
pub open spec fn release_fault(config: ConfigView, release: ReleaseView) -> Option<ErrorView> {
    let names = service_names(release.services);
    let allowed = config.compose.services;
    let migration = config.deployment.migration_service;
    if authorized(names, allowed, migration) {
        None
    } else {
        Some(unauthorized(release.tag, names, allowed, migration))
    }
}

fn count(names: &Vec<String>, name: &str) -> (r: usize)
    ensures
        r == occurrences(names.deep_view(), name@),
        r <= names@.len(),
{
    let ghost views = names.deep_view();
    let mut found: usize = 0;
    let mut i: usize = 0;
    assert(views.take(0) =~= Seq::<Text>::empty());
    while i < names.len()
        invariant
            views == names.deep_view(),
            i <= names@.len(),
            found <= i,
            found == occurrences(views.take(i as int), name@),
        decreases names@.len() - i,
    {
        assert(views.take(i + 1).drop_last() =~= views.take(i as int));
        assert(views.take(i + 1).last() == names@[i as int]@);
        if same(names[i].as_str(), name) {
            found = found + 1;
        }
        i = i + 1;
    }
    assert(views.take(i as int) =~= views);
    found
}

fn names_of(services: &Vec<ReleaseService>) -> (r: Vec<String>)
    ensures
        r.deep_view() == service_names(services.deep_view()),
{
    let ghost all = service_names(services.deep_view());
    let mut names: Vec<String> = Vec::new();
    let mut i: usize = 0;
    assert(names.deep_view() =~= all.take(0));
    while i < services.len()
        invariant
            all == service_names(services.deep_view()),
            i <= services@.len(),
            names.deep_view() == all.take(i as int),
        decreases services@.len() - i,
    {
        add_word(&mut names, services[i].name.as_str());
        assert(all.take(i + 1) =~= all.take(i as int).push(all[i as int]));
        i = i + 1;
    }
    assert(all.take(i as int) =~= all);
    names
}

fn is_authorized(names: &Vec<String>, allowed: &Vec<String>, migration: &Option<String>) -> (r:
    bool)
    ensures
        r == authorized(names.deep_view(), allowed.deep_view(), migration.deep_view()),
{
    let ghost all = names.deep_view();
    let ghost permitted = allowed.deep_view();
    if names.len() != allowed.len() {
        return false;
    }
    let mut i: usize = 0;
    while i < names.len()
        invariant
            all == names.deep_view(),
            permitted == allowed.deep_view(),
            i <= names@.len(),
            forall|j: int|
                0 <= j < i ==> migration.deep_view() != Some(#[trigger] all[j])
                    && permitted.contains(all[j]),
        decreases names@.len() - i,
    {
        let name = names[i].as_str();
        assert(all[i as int] == name@);
        if same_option(migration, name) || !contains(allowed, name) {
            return false;
        }
        i = i + 1;
    }
    let mut k: usize = 0;
    while k < allowed.len()
        invariant
            all == names.deep_view(),
            permitted == allowed.deep_view(),
            k <= allowed@.len(),
            forall|j: int| 0 <= j < k ==> occurrences(all, #[trigger] permitted[j]) == 1,
        decreases allowed@.len() - k,
    {
        assert(permitted[k as int] == allowed@[k as int]@);
        if count(names, allowed[k].as_str()) != 1 {
            return false;
        }
        k = k + 1;
    }
    true
}

/// Why a release may not be activated: recorded state cannot authorize services.
pub fn validate_application_release(config: &ProjectConfig, release: &Release) -> (r: Result<
    (),
    YardError,
>)
    ensures
        error_of(r) == release_fault(config.deep_view(), release.deep_view()),
{
    let names = names_of(&release.services);
    let allowed = &config.compose.services;
    let migration = &config.deployment.migration_service;
    if is_authorized(&names, allowed, migration) {
        return Ok(());
    }
    let mut message = "release:".to_owned();
    message.append(release.tag.as_str());
    message.append(" services [");
    message.append(join(&names, ", ").as_str());
    message.append("] do not match authorized application services [");
    message.append(join(allowed, ", ").as_str());
    message.append("] (migration service: ");
    match migration {
        Some(service) => message.append(service.as_str()),
        None => message.append("none"),
    }
    message.append("); refusing to activate data, migration or unconfigured services. ");
    message.append(manual_text());
    Err(YardError::Config(message))
}

proof fn lemma_occurrences(names: Seq<Text>, name: Text)
    ensures
        occurrences(names, name) > 0 <==> names.contains(name),
    decreases names.len(),
{
    if names.len() > 0 {
        let shorter = names.drop_last();
        lemma_occurrences(shorter, name);
        if shorter.contains(name) {
            let i = choose|i: int| 0 <= i < shorter.len() && shorter[i] == name;
            assert(names[i] == name);
        }
        if names.contains(name) && names.last() != name {
            let i = choose|i: int| 0 <= i < names.len() && names[i] == name;
            assert(shorter[i] == name);
        }
    }
}

/// An authorized release has the configured services and no others, and never the migration
/// service.
pub proof fn law_authorized_is_exact(names: Seq<Text>, allowed: Seq<Text>, migration: Option<Text>)
    requires
        authorized(names, allowed, migration),
    ensures
        forall|name: Text| names.contains(name) <==> allowed.contains(name),
        migration matches Some(service) ==> !names.contains(service),
{
    assert forall|name: Text| names.contains(name) <==> allowed.contains(name) by {
        if names.contains(name) {
            let i = choose|i: int| 0 <= i < names.len() && names[i] == name;
            assert(allowed.contains(names[i]));
        }
        if allowed.contains(name) {
            let i = choose|i: int| 0 <= i < allowed.len() && allowed[i] == name;
            assert(occurrences(names, allowed[i]) == 1);
            lemma_occurrences(names, name);
        }
    }
}

// ---------------------------------------------------------------------------------------------
// The procedure
// ---------------------------------------------------------------------------------------------

/// The target of a request; that of one without a target is empty.
pub open spec fn target_of(request: RequestView) -> Text {
    match request.target {
        Some(target) => target,
        None => Seq::empty(),
    }
}

/// The outcome of an attempt that failed with a reply.
pub open spec fn failed(reply: ReplyView) -> RestorePhase {
    RestorePhase::Closing { outcome: Some(failure_of(reply)) }
}

/// The failure to find a revision; a command that fails says that there is none.
pub open spec fn unresolved(state: StateView, target: Text, reply: ReplyView) -> ErrorView {
    match failure_of(reply) {
        ErrorView::CommandFailed { .. } => ErrorView::Config(
            "unknown revision "@ + target + "; available: "@ + available(state),
        ),
        other => other,
    }
}

/// The release of a commit: the recorded one, else one that is recorded from now on.
pub open spec fn release_of(state: StateView, revision: Text, now: u64) -> ReleaseView {
    match with_revision(recorded(state), revision) {
        Some(release) => release,
        None => new_release(revision, tag_of(revision), now),
    }
}

/// Where a restore stands once its release is known: the service images of a release that was
/// recorded without them are asked for, then those of the running one.
pub open spec fn filling(config: ConfigView, exchange: ExchangeView) -> RestorePhase {
    if exchange.release.services.len() == 0 {
        RestorePhase::FillingRelease { exchange }
    } else {
        filling_current(config, exchange)
    }
}

pub open spec fn filling_current(config: ConfigView, exchange: ExchangeView) -> RestorePhase {
    if exchange.current.services.len() == 0 {
        RestorePhase::FillingCurrent { exchange }
    } else {
        authorizing(config, exchange)
    }
}

/// Where a restore stands once all images are known: both releases have to be authorized, the one
/// to be activated and the one to fall back on.
pub open spec fn authorizing(config: ConfigView, exchange: ExchangeView) -> RestorePhase {
    if release_fault(config, exchange.release) is Some {
        RestorePhase::Closing { outcome: release_fault(config, exchange.release) }
    } else if release_fault(config, exchange.current) is Some {
        RestorePhase::Closing { outcome: release_fault(config, exchange.current) }
    } else {
        RestorePhase::ReadingTag { exchange }
    }
}

/// Where a restore stands once the images before one have been found.
pub open spec fn checking(exchange: ExchangeView, next: nat) -> RestorePhase {
    if next < exchange.release.services.len() {
        RestorePhase::CheckingImage { exchange, next }
    } else {
        RestorePhase::Copying { exchange }
    }
}

/// The exchange with its release marked as being activated.
pub open spec fn with_marker(exchange: ExchangeView) -> ExchangeView {
    ExchangeView {
        state: StateView {
            pending: Some(marked(exchange.release, "activating"@)),
            ..exchange.state
        },
        ..exchange
    }
}

/// The exchange given up: nothing is pending. Where no release was current, the one that runs is.
pub open spec fn recovered(exchange: ExchangeView) -> ExchangeView {
    ExchangeView {
        state: if exchange.state.current is None {
            StateView {
                pending: None,
                current: Some(marked(exchange.current, "active"@)),
                previous: None,
                ..exchange.state
            }
        } else {
            StateView { pending: None, ..exchange.state }
        },
        ..exchange
    }
}

/// The exchange completed: the release is the current one. The one that ran before becomes the
/// previous one, unless it is the same release or none was current.
pub open spec fn completed(exchange: ExchangeView) -> ExchangeView {
    let same_release = exchange.current.revision == exchange.release.revision
        && exchange.current.tag == exchange.release.tag;
    ExchangeView {
        state: StateView {
            current: Some(marked(exchange.release, "active"@)),
            previous: if exchange.state.current is None {
                None
            } else if same_release {
                exchange.state.previous
            } else {
                Some(marked(exchange.current, "superseded"@))
            },
            pending: None,
            ..exchange.state
        },
        ..exchange
    }
}

/// The failure of both the activation and the recovery.
pub open spec fn not_recovered(
    error: ErrorView,
    recovery: ErrorView,
    snapshot: Text,
) -> ErrorView {
    ErrorView::Config(
        "activation failed ("@ + message_of(error) + "); recovery failed ("@ + message_of(recovery)
            + "); pending marker retained; inspect yard status and snapshot "@ + snapshot,
    )
}

/// The failure to record a release that was activated.
pub open spec fn not_saved(error: ErrorView, snapshot: Text) -> ErrorView {
    ErrorView::Config(
        "application activated but state could not be saved ("@ + message_of(error)
            + "); inspect runtime and snapshot "@ + snapshot + " before retrying"@,
    )
}

/// What the journal says of an outcome.
pub open spec fn cause_of(outcome: Option<ErrorView>) -> Text {
    match outcome {
        None => "verified application activation"@,
        Some(ErrorView::Config(reason)) => if begins(reason, "activation failed ("@) {
            "activation and application recovery failed; pending release retained"@
        } else if begins(reason, "application activated but state"@) {
            "application activated; state save failed; inspect runtime and snapshot"@
        } else {
            reason
        },
        Some(_) => "restore failed; inspect CLI error and pending release with yard status"@,
    }
}

/// The word of the journal for an outcome.
pub open spec fn result_of(outcome: Option<ErrorView>) -> Text {
    if outcome is None {
        "success"@
    } else {
        "refused_or_failed"@
    }
}

/// The failure to put an outcome into the journal.
pub open spec fn not_journaled(error: ErrorView, outcome: Option<ErrorView>) -> ErrorView {
    ErrorView::Config(
        "restore outcome could not be journaled ("@ + message_of(error) + "); operation result: "@
            + cause_of(outcome) + "; inspect yard status and the journal"@,
    )
}

/// What a restore waits for.
pub open spec fn awaited(request: RequestView, phase: RestorePhase) -> ActionView {
    match phase {
        RestorePhase::Opening => ActionView::Journal {
            target: request.target,
            result: "started"@,
            cause: "requested"@,
        },
        RestorePhase::Cleaning => ActionView::EnsureClean,
        RestorePhase::CheckingTag => ActionView::CheckTagWritable,
        RestorePhase::Loading => ActionView::LoadState,
        RestorePhase::Resolving { .. } => ActionView::ResolveRevision(target_of(request)),
        RestorePhase::FillingRelease { exchange } => ActionView::ReleaseServices(
            exchange.release.tag,
        ),
        RestorePhase::FillingCurrent { exchange } => ActionView::ReleaseServices(
            exchange.current.tag,
        ),
        RestorePhase::ReadingTag { .. } => ActionView::ReadTag,
        RestorePhase::CheckingImage { exchange, next } => if next
            < exchange.release.services.len() {
            ActionView::ImageExists(exchange.release.services[next as int].image)
        } else {
            ActionView::Finish
        },
        RestorePhase::Copying { .. } => ActionView::Snapshot,
        RestorePhase::Marking { exchange, .. } => ActionView::Save(exchange.state),
        RestorePhase::Persisting { exchange, .. } => ActionView::PersistTag(exchange.release.tag),
        RestorePhase::Activating { exchange, .. } => ActionView::Activate {
            release: exchange.release,
            gated: false,
        },
        RestorePhase::PersistingCurrent { exchange, .. } => ActionView::PersistTag(
            exchange.current.tag,
        ),
        RestorePhase::ActivatingCurrent { exchange, .. } => ActionView::Activate {
            release: exchange.current,
            gated: false,
        },
        RestorePhase::SavingRecovered { exchange, .. } => ActionView::Save(exchange.state),
        RestorePhase::SavingActive { exchange, .. } => ActionView::Save(exchange.state),
        RestorePhase::Closing { outcome } => ActionView::Journal {
            target: request.target,
            result: result_of(outcome),
            cause: cause_of(outcome),
        },
        RestorePhase::Ended { .. } => ActionView::Finish,
    }
}

/// Where a restore stands once the recorded state is known.
pub open spec fn loaded(
    config: ConfigView,
    request: RequestView,
    state: StateView,
) -> RestorePhase {
    match running(state) {
        Some(current) => match selected(state, target_of(request)) {
            Ok(Some(release)) => filling(config, ExchangeView { state, current, release }),
            Ok(None) => RestorePhase::Resolving { state, current },
            Err(error) => RestorePhase::Closing { outcome: Some(error) },
        },
        None => RestorePhase::Closing {
            outcome: Some(
                ErrorView::Config(
                    "no active release recorded; inspect yard status before restoring"@,
                ),
            ),
        },
    }
}

/// Where a restore stands after a reply, at a time.
pub open spec fn after(
    config: ConfigView,
    request: RequestView,
    phase: RestorePhase,
    reply: ReplyView,
    now: u64,
) -> RestorePhase {
    match phase {
        RestorePhase::Opening => match reply {
            ReplyView::Done => if refusal(request) is Some {
                RestorePhase::Closing { outcome: refusal(request) }
            } else {
                RestorePhase::Cleaning
            },
            _ => RestorePhase::Ended { outcome: Some(failure_of(reply)) },
        },
        RestorePhase::Cleaning => match reply {
            ReplyView::Done => RestorePhase::CheckingTag,
            _ => failed(reply),
        },
        RestorePhase::CheckingTag => match reply {
            ReplyView::Done => RestorePhase::Loading,
            _ => failed(reply),
        },
        RestorePhase::Loading => match reply {
            ReplyView::State(state) => loaded(config, request, state),
            _ => failed(reply),
        },
        RestorePhase::Resolving { state, current } => match reply {
            ReplyView::Text(revision) => filling(
                config,
                ExchangeView { state, current, release: release_of(state, revision, now) },
            ),
            _ => RestorePhase::Closing {
                outcome: Some(unresolved(state, target_of(request), reply)),
            },
        },
        RestorePhase::FillingRelease { exchange } => match reply {
            ReplyView::Services(services) => filling_current(
                config,
                ExchangeView {
                    release: ReleaseView { services, ..exchange.release },
                    ..exchange
                },
            ),
            _ => failed(reply),
        },
        RestorePhase::FillingCurrent { exchange } => match reply {
            ReplyView::Services(services) => authorizing(
                config,
                ExchangeView {
                    current: ReleaseView { services, ..exchange.current },
                    ..exchange
                },
            ),
            _ => failed(reply),
        },
        RestorePhase::ReadingTag { exchange } => match reply {
            ReplyView::Tag(tag) => if tag != Some(exchange.current.tag)
                && exchange.state.pending is None {
                RestorePhase::Closing {
                    outcome: Some(
                        ErrorView::Config(
                            "Compose tag differs from recorded active release; inspect yard status"@,
                        ),
                    ),
                }
            } else {
                checking(exchange, 0)
            },
            _ => failed(reply),
        },
        RestorePhase::CheckingImage { exchange, next } => match reply {
            ReplyView::Found(found) => if found {
                checking(exchange, next + 1)
            } else {
                RestorePhase::Closing {
                    outcome: Some(
                        ErrorView::ImageMissing(
                            if next < exchange.release.services.len() {
                                exchange.release.services[next as int].image
                            } else {
                                Seq::empty()
                            },
                        ),
                    ),
                }
            },
            _ => failed(reply),
        },
        RestorePhase::Copying { exchange } => match reply {
            ReplyView::Text(snapshot) => RestorePhase::Marking {
                exchange: with_marker(exchange),
                snapshot,
            },
            _ => failed(reply),
        },
        RestorePhase::Marking { exchange, snapshot } => match reply {
            ReplyView::Done => RestorePhase::Persisting { exchange, snapshot },
            _ => failed(reply),
        },
        RestorePhase::Persisting { exchange, snapshot } => match reply {
            ReplyView::Done => RestorePhase::Activating { exchange, snapshot },
            _ => RestorePhase::PersistingCurrent { exchange, snapshot, error: failure_of(reply) },
        },
        RestorePhase::Activating { exchange, snapshot } => match reply {
            ReplyView::Done => RestorePhase::SavingActive {
                exchange: completed(exchange),
                snapshot,
            },
            _ => RestorePhase::PersistingCurrent { exchange, snapshot, error: failure_of(reply) },
        },
        RestorePhase::PersistingCurrent { exchange, snapshot, error } => match reply {
            ReplyView::Done => RestorePhase::ActivatingCurrent { exchange, snapshot, error },
            _ => RestorePhase::Closing {
                outcome: Some(not_recovered(error, failure_of(reply), snapshot)),
            },
        },
        RestorePhase::ActivatingCurrent { exchange, snapshot, error } => match reply {
            ReplyView::Done => RestorePhase::SavingRecovered {
                exchange: recovered(exchange),
                snapshot,
                error,
            },
            _ => RestorePhase::Closing {
                outcome: Some(not_recovered(error, failure_of(reply), snapshot)),
            },
        },
        RestorePhase::SavingRecovered { exchange, snapshot, error } => match reply {
            ReplyView::Done => RestorePhase::Closing { outcome: Some(error) },
            _ => RestorePhase::Closing {
                outcome: Some(not_recovered(error, failure_of(reply), snapshot)),
            },
        },
        RestorePhase::SavingActive { exchange, snapshot } => match reply {
            ReplyView::Done => RestorePhase::Closing { outcome: None },
            _ => RestorePhase::Closing { outcome: Some(not_saved(failure_of(reply), snapshot)) },
        },
        RestorePhase::Closing { outcome } => match reply {
            ReplyView::Done => RestorePhase::Ended { outcome },
            _ => RestorePhase::Ended { outcome: Some(not_journaled(failure_of(reply), outcome)) },
        },
        RestorePhase::Ended { .. } => phase,
    }
}

fn stop(reply: Reply) -> (r: Restore)
    ensures
        r.deep_view() == failed(reply.deep_view()),
{
    Restore::Closing { result: Err(failure(reply)) }
}

fn authorize(config: &ProjectConfig, exchange: Exchange) -> (r: Restore)
    ensures
        r.deep_view() == authorizing(config.deep_view(), exchange.deep_view()),
{
    if let Err(error) = validate_application_release(config, &exchange.release) {
        return Restore::Closing { result: Err(error) };
    }
    if let Err(error) = validate_application_release(config, &exchange.current) {
        return Restore::Closing { result: Err(error) };
    }
    Restore::ReadingTag { exchange }
}

fn fill_current(config: &ProjectConfig, exchange: Exchange) -> (r: Restore)
    ensures
        r.deep_view() == filling_current(config.deep_view(), exchange.deep_view()),
{
    assert(exchange.current.services.deep_view().len() == exchange.current.services@.len());
    if exchange.current.services.len() == 0 {
        Restore::FillingCurrent { exchange }
    } else {
        authorize(config, exchange)
    }
}

fn fill(config: &ProjectConfig, exchange: Exchange) -> (r: Restore)
    ensures
        r.deep_view() == filling(config.deep_view(), exchange.deep_view()),
{
    assert(exchange.release.services.deep_view().len() == exchange.release.services@.len());
    if exchange.release.services.len() == 0 {
        Restore::FillingRelease { exchange }
    } else {
        fill_current(config, exchange)
    }
}

fn check_image(exchange: Exchange, next: usize) -> (r: Restore)
    ensures
        r.deep_view() == checking(exchange.deep_view(), next as nat),
{
    assert(exchange.release.services.deep_view().len() == exchange.release.services@.len());
    if next < exchange.release.services.len() {
        Restore::CheckingImage { exchange, next }
    } else {
        Restore::Copying { exchange }
    }
}

fn target_text(request: &Request) -> (r: String)
    ensures
        r@ == target_of(request.deep_view()),
{
    match &request.target {
        Some(target) => target.clone(),
        None => {
            let none = String::new();
            assert(none@ =~= Seq::<char>::empty());
            none
        },
    }
}

fn load(config: &ProjectConfig, request: &Request, state: ProjectState) -> (r: Restore)
    ensures
        r.deep_view() == loaded(config.deep_view(), request.deep_view(), state.deep_view()),
{
    let current = match copy_release(&state.current) {
        Some(current) => Some(current),
        None => copy_release(&state.previous),
    };
    match current {
        Some(current) => {
            match select(&state, target_text(request).as_str()) {
                Ok(Some(release)) => fill(config, Exchange { state, current, release }),
                Ok(None) => Restore::Resolving { state, current },
                Err(error) => Restore::Closing { result: Err(error) },
            }
        },
        None => Restore::Closing {
            result: Err(
                YardError::Config(
                    "no active release recorded; inspect yard status before restoring".to_owned(),
                ),
            ),
        },
    }
}

fn unresolved_error(state: &ProjectState, request: &Request, reply: Reply) -> (r: YardError)
    ensures
        r.deep_view() == unresolved(
            state.deep_view(),
            target_of(request.deep_view()),
            reply.deep_view(),
        ),
{
    match failure(reply) {
        YardError::CommandFailed { .. } => {
            let mut message = "unknown revision ".to_owned();
            message.append(target_text(request).as_str());
            message.append("; available: ");
            message.append(describe_available(state).as_str());
            YardError::Config(message)
        },
        other => other,
    }
}

fn not_recovered_error(error: &YardError, recovery: &YardError, snapshot: &str) -> (r: YardError)
    ensures
        r.deep_view() == not_recovered(error.deep_view(), recovery.deep_view(), snapshot@),
{
    let mut message = "activation failed (".to_owned();
    message.append(error.message().as_str());
    message.append("); recovery failed (");
    message.append(recovery.message().as_str());
    message.append("); pending marker retained; inspect yard status and snapshot ");
    message.append(snapshot);
    YardError::Config(message)
}

fn not_saved_error(error: &YardError, snapshot: &str) -> (r: YardError)
    ensures
        r.deep_view() == not_saved(error.deep_view(), snapshot@),
{
    let mut message = "application activated but state could not be saved (".to_owned();
    message.append(error.message().as_str());
    message.append("); inspect runtime and snapshot ");
    message.append(snapshot);
    message.append(" before retrying");
    YardError::Config(message)
}

fn cause(result: &Result<(), YardError>) -> (r: String)
    ensures
        r@ == cause_of(error_of(*result)),
{
    match result {
        Ok(_) => "verified application activation".to_owned(),
        Err(YardError::Config(reason)) => {
            if starts_with(reason.as_str(), "activation failed (") {
                "activation and application recovery failed; pending release retained".to_owned()
            } else if starts_with(reason.as_str(), "application activated but state") {
                "application activated; state save failed; inspect runtime and snapshot".to_owned()
            } else {
                reason.clone()
            }
        },
        Err(_) =>
        "restore failed; inspect CLI error and pending release with yard status".to_owned(),
    }
}

fn not_journaled_error(error: &YardError, result: &Result<(), YardError>) -> (r: YardError)
    ensures
        r.deep_view() == not_journaled(error.deep_view(), error_of(*result)),
{
    let mut message = "restore outcome could not be journaled (".to_owned();
    message.append(error.message().as_str());
    message.append("); operation result: ");
    message.append(cause(result).as_str());
    message.append("; inspect yard status and the journal");
    YardError::Config(message)
}

/// The line that tells of the copies that a reply reports.
pub open spec fn announced(name: Text, phase: RestorePhase, reply: ReplyView) -> Option<Text> {
    match (phase, reply) {
        (RestorePhase::Copying { exchange }, ReplyView::Text(snapshot)) => Some(
            "Application restore "@ + name + ": "@ + exchange.current.tag + " -> "@
                + exchange.release.tag + " (snapshot "@ + snapshot + ")"@,
        ),
        _ => None,
    }
}

/// The warning that a restore gives before it goes back to the active release.
pub open spec fn warned(phase: RestorePhase) -> Option<Text> {
    match phase {
        RestorePhase::PersistingCurrent { exchange, error, .. } => Some(
            "Application activation failed: "@ + message_of(error) + "; attempting to reactivate "@
                + exchange.current.tag,
        ),
        _ => None,
    }
}

impl Restore {
    /// A restore that has not begun.
    pub fn start() -> (r: Self)
        ensures
            r.deep_view() == RestorePhase::Opening,
    {
        Restore::Opening
    }

    /// What the restore waits for.
    pub fn action(&self, request: &Request) -> (r: Action)
        ensures
            r.deep_view() == awaited(request.deep_view(), self.deep_view()),
    {
        match self {
            Restore::Opening => Action::Journal {
                target: copy_option(&request.target),
                result: "started".to_owned(),
                cause: "requested".to_owned(),
            },
            Restore::Cleaning => Action::EnsureClean,
            Restore::CheckingTag => Action::CheckTagWritable,
            Restore::Loading => Action::LoadState,
            Restore::Resolving { .. } => Action::ResolveRevision(target_text(request)),
            Restore::FillingRelease { exchange } => Action::ReleaseServices(
                exchange.release.tag.clone(),
            ),
            Restore::FillingCurrent { exchange } => Action::ReleaseServices(
                exchange.current.tag.clone(),
            ),
            Restore::ReadingTag { .. } => Action::ReadTag,
            Restore::CheckingImage { exchange, next } => {
                if *next < exchange.release.services.len() {
                    Action::ImageExists(exchange.release.services[*next].image.clone())
                } else {
                    Action::Finish
                }
            },
            Restore::Copying { .. } => Action::Snapshot,
            Restore::Marking { exchange, .. } => Action::Save(exchange.state.clone()),
            Restore::Persisting { exchange, .. } => Action::PersistTag(
                exchange.release.tag.clone(),
            ),
            Restore::Activating { exchange, .. } => Action::Activate {
                release: exchange.release.clone(),
                gated: false,
            },
            Restore::PersistingCurrent { exchange, .. } => Action::PersistTag(
                exchange.current.tag.clone(),
            ),
            Restore::ActivatingCurrent { exchange, .. } => Action::Activate {
                release: exchange.current.clone(),
                gated: false,
            },
            Restore::SavingRecovered { exchange, .. } => Action::Save(exchange.state.clone()),
            Restore::SavingActive { exchange, .. } => Action::Save(exchange.state.clone()),
            Restore::Closing { result } => Action::Journal {
                target: copy_option(&request.target),
                result: match result {
                    Ok(_) => "success".to_owned(),
                    Err(_) => "refused_or_failed".to_owned(),
                },
                cause: cause(result),
            },
            Restore::Ended { .. } => Action::Finish,
        }
    }

    /// The line that tells of the copies that a reply reports.
    pub fn announce(&self, name: &str, reply: &Reply) -> (r: Option<String>)
        ensures
            r.deep_view() == announced(name@, self.deep_view(), reply.deep_view()),
    {
        match (self, reply) {
            (Restore::Copying { exchange }, Reply::Text(snapshot)) => {
                let mut line = "Application restore ".to_owned();
                line.append(name);
                line.append(": ");
                line.append(exchange.current.tag.as_str());
                line.append(" -> ");
                line.append(exchange.release.tag.as_str());
                line.append(" (snapshot ");
                line.append(snapshot.as_str());
                line.append(")");
                Some(line)
            },
            _ => None,
        }
    }

    /// The warning that the restore gives before it goes back to the active release.
    pub fn warning(&self) -> (r: Option<String>)
        ensures
            r.deep_view() == warned(self.deep_view()),
    {
        match self {
            Restore::PersistingCurrent { exchange, error, .. } => {
                let mut line = "Application activation failed: ".to_owned();
                line.append(error.message().as_str());
                line.append("; attempting to reactivate ");
                line.append(exchange.current.tag.as_str());
                Some(line)
            },
            _ => None,
        }
    }

    /// Goes on by what came of the action. `now` is the present time.
    pub fn step(self, config: &ProjectConfig, request: &Request, reply: Reply, now: u64) -> (r:
        Self)
        ensures
            r.deep_view() == after(
                config.deep_view(),
                request.deep_view(),
                self.deep_view(),
                reply.deep_view(),
                now,
            ),
    {
        match self {
            Restore::Opening => match reply {
                Reply::Done => match check_request(request) {
                    Ok(()) => Restore::Cleaning,
                    Err(error) => Restore::Closing { result: Err(error) },
                },
                _ => Restore::Ended { result: Err(failure(reply)) },
            },
            Restore::Cleaning => match reply {
                Reply::Done => Restore::CheckingTag,
                _ => stop(reply),
            },
            Restore::CheckingTag => match reply {
                Reply::Done => Restore::Loading,
                _ => stop(reply),
            },
            Restore::Loading => match reply {
                Reply::State(state) => load(config, request, state),
                _ => stop(reply),
            },
            Restore::Resolving { state, current } => match reply {
                Reply::Text(revision) => {
                    let known = find_revision(&releases_of(&state), revision.as_str());
                    let release = match known {
                        Some(release) => release,
                        None => {
                            let tag = Project::tag_for_revision(revision.as_str());
                            Release::at(revision, tag, now)
                        },
                    };
                    fill(config, Exchange { state, current, release })
                },
                _ => Restore::Closing { result: Err(unresolved_error(&state, request, reply)) },
            },
            Restore::FillingRelease { exchange } => match reply {
                Reply::Services(services) => fill_current(
                    config,
                    Exchange {
                        state: exchange.state,
                        current: exchange.current,
                        release: exchange.release.with_services(services),
                    },
                ),
                _ => stop(reply),
            },
            Restore::FillingCurrent { exchange } => match reply {
                Reply::Services(services) => authorize(
                    config,
                    Exchange {
                        state: exchange.state,
                        current: exchange.current.with_services(services),
                        release: exchange.release,
                    },
                ),
                _ => stop(reply),
            },
            Restore::ReadingTag { exchange } => match reply {
                Reply::Tag(tag) => {
                    if !same_option(&tag, exchange.current.tag.as_str())
                        && exchange.state.pending.is_none() {
                        Restore::Closing {
                            result: Err(
                                YardError::Config(
                                    "Compose tag differs from recorded active release; inspect yard status".to_owned(),
                                ),
                            ),
                        }
                    } else {
                        check_image(exchange, 0)
                    }
                },
                _ => stop(reply),
            },
            Restore::CheckingImage { exchange, next } => match reply {
                Reply::Found(found) => {
                    if found {
                        if next < exchange.release.services.len() {
                            check_image(exchange, next + 1)
                        } else {
                            Restore::Copying { exchange }
                        }
                    } else {
                        let image = if next < exchange.release.services.len() {
                            exchange.release.services[next].image.clone()
                        } else {
                            String::new()
                        };
                        assert(image@ =~= if next < exchange.release.services@.len() {
                            exchange.release.services@[next as int].image@
                        } else {
                            Seq::empty()
                        });
                        Restore::Closing { result: Err(YardError::ImageMissing(image)) }
                    }
                },
                _ => stop(reply),
            },
            Restore::Copying { exchange } => match reply {
                Reply::Text(snapshot) => {
                    let mut exchange = exchange;
                    exchange.state.pending = Some(exchange.release.marked("activating"));
                    Restore::Marking { exchange, snapshot }
                },
                _ => stop(reply),
            },
            Restore::Marking { exchange, snapshot } => match reply {
                Reply::Done => Restore::Persisting { exchange, snapshot },
                _ => stop(reply),
            },
            Restore::Persisting { exchange, snapshot } => match reply {
                Reply::Done => Restore::Activating { exchange, snapshot },
                _ => Restore::PersistingCurrent { exchange, snapshot, error: failure(reply) },
            },
            Restore::Activating { exchange, snapshot } => match reply {
                Reply::Done => {
                    let mut exchange = exchange;
                    let same_release = same(
                        exchange.current.revision.as_str(),
                        exchange.release.revision.as_str(),
                    ) && same(exchange.current.tag.as_str(), exchange.release.tag.as_str());
                    if exchange.state.current.is_none() {
                        exchange.state.previous = None;
                    } else if !same_release {
                        exchange.state.previous = Some(exchange.current.marked("superseded"));
                    }
                    exchange.state.current = Some(exchange.release.marked("active"));
                    exchange.state.pending = None;
                    Restore::SavingActive { exchange, snapshot }
                },
                _ => Restore::PersistingCurrent { exchange, snapshot, error: failure(reply) },
            },
            Restore::PersistingCurrent { exchange, snapshot, error } => match reply {
                Reply::Done => Restore::ActivatingCurrent { exchange, snapshot, error },
                _ => Restore::Closing {
                    result: Err(not_recovered_error(&error, &failure(reply), snapshot.as_str())),
                },
            },
            Restore::ActivatingCurrent { exchange, snapshot, error } => match reply {
                Reply::Done => {
                    let mut exchange = exchange;
                    exchange.state.pending = None;
                    if exchange.state.current.is_none() {
                        exchange.state.current = Some(exchange.current.marked("active"));
                        exchange.state.previous = None;
                    }
                    Restore::SavingRecovered { exchange, snapshot, error }
                },
                _ => Restore::Closing {
                    result: Err(not_recovered_error(&error, &failure(reply), snapshot.as_str())),
                },
            },
            Restore::SavingRecovered { exchange, snapshot, error } => match reply {
                Reply::Done => Restore::Closing { result: Err(error) },
                _ => Restore::Closing {
                    result: Err(not_recovered_error(&error, &failure(reply), snapshot.as_str())),
                },
            },
            Restore::SavingActive { exchange, snapshot } => match reply {
                Reply::Done => Restore::Closing { result: Ok(()) },
                _ => Restore::Closing {
                    result: Err(not_saved_error(&failure(reply), snapshot.as_str())),
                },
            },
            Restore::Closing { result } => match reply {
                Reply::Done => Restore::Ended { result },
                _ => Restore::Ended { result: Err(not_journaled_error(&failure(reply), &result)) },
            },
            Restore::Ended { result } => Restore::Ended { result },
        }
    }
}

// ---------------------------------------------------------------------------------------------
// Laws
// ---------------------------------------------------------------------------------------------

/// Where a restore stands after replies, each at a time.
pub open spec fn phase_after(
    config: ConfigView,
    request: RequestView,
    replies: Seq<(ReplyView, u64)>,
) -> RestorePhase
    decreases replies.len(),
{
    if replies.len() == 0 {
        RestorePhase::Opening
    } else {
        after(
            config,
            request,
            phase_after(config, request, replies.drop_last()),
            replies.last().0,
            replies.last().1,
        )
    }
}

/// Whether a restore stood at a phase and got a reply there.
pub open spec fn passed(
    config: ConfigView,
    request: RequestView,
    replies: Seq<(ReplyView, u64)>,
    phase: RestorePhase,
    reply: ReplyView,
) -> bool {
    exists|k: int|
        0 <= k < replies.len() && phase_after(config, request, #[trigger] replies.take(k)) == phase
            && replies[k].0 == reply
}

/// Whether an action changes the recorded state, the tag of the project or what runs.
pub open spec fn changes_release(action: ActionView) -> bool {
    action is Save || action is PersistTag || action is Activate
}

/// The exchange of a phase in which something is changed, and where the copies are.
pub open spec fn changing(phase: RestorePhase) -> Option<(ExchangeView, Text)> {
    match phase {
        RestorePhase::Marking { exchange, snapshot } => Some((exchange, snapshot)),
        RestorePhase::Persisting { exchange, snapshot } => Some((exchange, snapshot)),
        RestorePhase::Activating { exchange, snapshot } => Some((exchange, snapshot)),
        RestorePhase::PersistingCurrent { exchange, snapshot, .. } => Some((exchange, snapshot)),
        RestorePhase::ActivatingCurrent { exchange, snapshot, .. } => Some((exchange, snapshot)),
        RestorePhase::SavingRecovered { exchange, snapshot, .. } => Some((exchange, snapshot)),
        RestorePhase::SavingActive { exchange, snapshot } => Some((exchange, snapshot)),
        _ => None,
    }
}

proof fn lemma_passed_before(
    config: ConfigView,
    request: RequestView,
    replies: Seq<(ReplyView, u64)>,
    phase: RestorePhase,
    reply: ReplyView,
)
    requires
        replies.len() > 0,
        passed(config, request, replies.drop_last(), phase, reply),
    ensures
        passed(config, request, replies, phase, reply),
{
    let shorter = replies.drop_last();
    let k = choose|k: int|
        0 <= k < shorter.len() && phase_after(config, request, #[trigger] shorter.take(k)) == phase
            && shorter[k].0 == reply;
    assert(shorter.take(k) =~= replies.take(k));
}

proof fn lemma_passed_now(
    config: ConfigView,
    request: RequestView,
    replies: Seq<(ReplyView, u64)>,
)
    requires
        replies.len() > 0,
    ensures
        passed(
            config,
            request,
            replies,
            phase_after(config, request, replies.drop_last()),
            replies.last().0,
        ),
{
    assert(replies.take(replies.len() - 1) =~= replies.drop_last());
}

/// A target that names a backup is refused, confirmed or not, and the answer says how data is
/// recovered by hand.
pub proof fn law_data_is_never_restored(request: RequestView)
    requires
        request.target matches Some(target) && begins(target, "backup:"@),
    ensures
        refusal(request) == Some(ErrorView::Config(manual())),
{
    reveal_strlit("backup:");
    let target = request.target->0;
    assert(target[0] == target.take(7)[0]);
    assert(!is_space(target[0]));
}

/// Without a target, and without a confirmation, a restore is refused: no release is chosen for
/// the user.
pub proof fn law_target_and_confirmation_are_needed(request: RequestView)
    requires
        request.target is None || !request.yes,
    ensures
        refusal(request) is Some,
{
}

/// A refused request is put into the journal, twice, and touches nothing else, whatever is
/// replied.
pub proof fn law_refusals_touch_nothing(
    config: ConfigView,
    request: RequestView,
    replies: Seq<(ReplyView, u64)>,
)
    requires
        refusal(request) is Some,
    ensures
        match phase_after(config, request, replies) {
            RestorePhase::Opening => true,
            RestorePhase::Closing { outcome } => outcome == refusal(request),
            RestorePhase::Ended { outcome } => outcome is Some,
            _ => false,
        },
    decreases replies.len(),
{
    if replies.len() > 0 {
        law_refusals_touch_nothing(config, request, replies.drop_last());
    }
}

/// A restore never asks for a backup, a build, a migration or another branch, and never waits for
/// gates.
pub proof fn law_restore_is_for_images_only(request: RequestView, phase: RestorePhase)
    ensures
        ({
            let action = awaited(request, phase);
            &&& !(action is Backup)
            &&& !(action is Build)
            &&& !(action is Migrate)
            &&& !(action is SwitchBranch)
            &&& !(action is UpdateBranch)
            &&& action matches ActionView::Activate { gated, .. } ==> !gated
        }),
{
}

/// Nothing is changed before the state and the environment file have been copied aside.
pub proof fn law_copies_come_first(
    config: ConfigView,
    request: RequestView,
    replies: Seq<(ReplyView, u64)>,
)
    ensures
        changes_release(awaited(request, phase_after(config, request, replies))) ==> changing(
            phase_after(config, request, replies),
        ) is Some,
        changing(phase_after(config, request, replies)) matches Some((exchange, snapshot))
            ==> exists|copied: ExchangeView|
            #[trigger] passed(
                config,
                request,
                replies,
                RestorePhase::Copying { exchange: copied },
                ReplyView::Text(snapshot),
            ),
    decreases replies.len(),
{
    if replies.len() > 0 {
        let shorter = replies.drop_last();
        law_copies_come_first(config, request, shorter);
        if let Some((exchange, snapshot)) = changing(phase_after(config, request, replies)) {
            match phase_after(config, request, shorter) {
                RestorePhase::Copying { exchange: copied } => {
                    lemma_passed_now(config, request, replies);
                },
                _ => {
                    let copied = choose|copied: ExchangeView|
                        #[trigger] passed(
                            config,
                            request,
                            shorter,
                            RestorePhase::Copying { exchange: copied },
                            ReplyView::Text(snapshot),
                        );
                    lemma_passed_before(
                        config,
                        request,
                        replies,
                        RestorePhase::Copying { exchange: copied },
                        ReplyView::Text(snapshot),
                    );
                },
            }
        }
    }
}

/// The exchange of a phase behind the authorization.
pub open spec fn exchange_of(phase: RestorePhase) -> Option<ExchangeView> {
    match phase {
        RestorePhase::ReadingTag { exchange } => Some(exchange),
        RestorePhase::CheckingImage { exchange, .. } => Some(exchange),
        RestorePhase::Copying { exchange } => Some(exchange),
        _ => match changing(phase) {
            Some((exchange, _)) => Some(exchange),
            None => None,
        },
    }
}

/// From the check of the tag on, and so before the first copy and the first change, both the
/// release to be activated and the one to fall back on have exactly the authorized services.
pub proof fn law_both_releases_are_authorized(
    config: ConfigView,
    request: RequestView,
    replies: Seq<(ReplyView, u64)>,
)
    ensures
        exchange_of(phase_after(config, request, replies)) matches Some(exchange) ==> {
            &&& release_fault(config, exchange.release) is None
            &&& release_fault(config, exchange.current) is None
        },
    decreases replies.len(),
{
    if replies.len() > 0 {
        law_both_releases_are_authorized(config, request, replies.drop_last());
    }
}

/// The tag is not changed, and nothing is activated, before the release has been recorded as
/// pending.
pub proof fn law_marker_comes_first(
    config: ConfigView,
    request: RequestView,
    replies: Seq<(ReplyView, u64)>,
)
    ensures
        match phase_after(config, request, replies) {
            RestorePhase::Marking { exchange, .. } => exchange.state.pending == Some(
                marked(exchange.release, "activating"@),
            ),
            RestorePhase::Persisting { exchange, snapshot } => passed(
                config,
                request,
                replies,
                RestorePhase::Marking { exchange, snapshot },
                ReplyView::Done,
            ),
            RestorePhase::Activating { exchange, snapshot } => passed(
                config,
                request,
                replies,
                RestorePhase::Marking { exchange, snapshot },
                ReplyView::Done,
            ),
            RestorePhase::PersistingCurrent { exchange, snapshot, .. } => passed(
                config,
                request,
                replies,
                RestorePhase::Marking { exchange, snapshot },
                ReplyView::Done,
            ),
            RestorePhase::ActivatingCurrent { exchange, snapshot, .. } => passed(
                config,
                request,
                replies,
                RestorePhase::Marking { exchange, snapshot },
                ReplyView::Done,
            ),
            _ => true,
        },
    decreases replies.len(),
{
    if replies.len() > 0 {
        let shorter = replies.drop_last();
        law_marker_comes_first(config, request, shorter);
        let phase = phase_after(config, request, replies);
        if let Some((exchange, snapshot)) = changing(phase) {
            if phase_after(config, request, shorter) is Marking {
                lemma_passed_now(config, request, replies);
            } else if phase is Activating || phase is PersistingCurrent
                || phase is ActivatingCurrent {
                lemma_passed_before(
                    config,
                    request,
                    replies,
                    RestorePhase::Marking { exchange, snapshot },
                    ReplyView::Done,
                );
            }
        }
    }
}

/// A release is recorded as current only after it was activated, and the marker is cleared with
/// the same record.
pub proof fn law_only_activated_releases_are_recorded(
    config: ConfigView,
    request: RequestView,
    replies: Seq<(ReplyView, u64)>,
)
    ensures
        match phase_after(config, request, replies) {
            RestorePhase::SavingActive { exchange, snapshot } => {
                &&& exchange.state.current == Some(marked(exchange.release, "active"@))
                &&& exchange.state.pending is None
                &&& exists|started: ExchangeView|
                    #![trigger completed(started)]
                    exchange == completed(started) && passed(
                        config,
                        request,
                        replies,
                        RestorePhase::Activating { exchange: started, snapshot },
                        ReplyView::Done,
                    )
            },
            RestorePhase::SavingRecovered { exchange, snapshot, error } => {
                &&& exchange.state.pending is None
                &&& exists|started: ExchangeView|
                    #![trigger recovered(started)]
                    exchange == recovered(started) && passed(
                        config,
                        request,
                        replies,
                        RestorePhase::ActivatingCurrent { exchange: started, snapshot, error },
                        ReplyView::Done,
                    )
            },
            _ => true,
        },
{
    if replies.len() > 0 {
        let shorter = replies.drop_last();
        lemma_passed_now(config, request, replies);
        match phase_after(config, request, shorter) {
            RestorePhase::Activating { exchange, snapshot } => {
                if replies.last().0 is Done {
                    assert(phase_after(config, request, replies) == (RestorePhase::SavingActive {
                        exchange: completed(exchange),
                        snapshot,
                    }));
                }
            },
            RestorePhase::ActivatingCurrent { exchange, snapshot, error } => {
                if replies.last().0 is Done {
                    assert(phase_after(config, request, replies) == (
                    RestorePhase::SavingRecovered {
                        exchange: recovered(exchange),
                        snapshot,
                        error,
                    }));
                }
            },
            _ => {},
        }
    }
}

/// A restore ends only with a line in the journal about its outcome, unless its very first line
/// could not be written; then it has done nothing.
pub proof fn law_every_attempt_is_journaled(
    config: ConfigView,
    request: RequestView,
    phase: RestorePhase,
    reply: ReplyView,
    now: u64,
)
    requires
        !(phase is Ended),
        after(config, request, phase, reply, now) is Ended,
    ensures
        phase is Closing || phase is Opening && !(reply is Done),
        awaited(request, phase) matches ActionView::Journal { target, .. } && target
            == request.target,
        phase matches RestorePhase::Closing { outcome } ==> awaited(request, phase) == (
        ActionView::Journal {
            target: request.target,
            result: result_of(outcome),
            cause: cause_of(outcome),
        }),
{
}

/// A failed restore that could fall back leaves the record as it was, with nothing pending.
pub proof fn law_recovered_exchange_restores_the_record(exchange: ExchangeView)
    requires
        exchange.state.current is Some,
    ensures
        recovered(with_marker(exchange)).state == (StateView { pending: None, ..exchange.state }),
{
}

/// A line of the journal, but for its time.
#[verifier::ext_equal]
pub struct LineView {
    pub target: Option<Text>,
    pub result: Text,
    pub cause: Text,
}

/// What a project keeps from one restore to the next: its record, the tag in its environment file
/// and the journal.
#[verifier::ext_equal]
pub struct KeptView {
    pub state: StateView,
    pub tag: Option<Text>,
    pub journal: Seq<LineView>,
}

/// What is kept once an action was done.
pub open spec fn kept_by(kept: KeptView, action: ActionView) -> KeptView {
    match action {
        ActionView::Save(state) => KeptView { state, ..kept },
        ActionView::PersistTag(tag) => KeptView { tag: Some(tag), ..kept },
        ActionView::Journal { target, result, cause } => KeptView {
            journal: kept.journal.push(LineView { target, result, cause }),
            ..kept
        },
        _ => kept,
    }
}

/// What is kept after replies: what each action did that was done.
pub open spec fn kept_after(
    config: ConfigView,
    request: RequestView,
    kept: KeptView,
    replies: Seq<(ReplyView, u64)>,
) -> KeptView
    decreases replies.len(),
{
    if replies.len() == 0 {
        kept
    } else {
        let shorter = replies.drop_last();
        let before = kept_after(config, request, kept, shorter);
        if replies.last().0 is Done {
            kept_by(before, awaited(request, phase_after(config, request, shorter)))
        } else {
            before
        }
    }
}

/// A restore from its beginning: what was asked, and the replies that it got.
pub struct RunView {
    pub config: ConfigView,
    pub request: RequestView,
    pub replies: Seq<(ReplyView, u64)>,
}

impl RunView {
    pub open spec fn phase(self) -> RestorePhase {
        phase_after(self.config, self.request, self.replies)
    }

    /// What is kept after the restore.
    pub open spec fn keeps(self, kept: KeptView) -> KeptView {
        kept_after(self.config, self.request, kept, self.replies)
    }

    /// The restore cut short.
    pub open spec fn cut(self, k: int) -> RunView {
        RunView { replies: self.replies.take(k), ..self }
    }

    /// Whether every line could be put into the journal.
    pub open spec fn is_journaled(self) -> bool {
        forall|k: int|
            0 <= k < self.replies.len() && awaited(
                self.request,
                (#[trigger] self.cut(k)).phase(),
            ) is Journal ==> self.replies[k].0 is Done
    }

    /// Whether the record that was loaded is the one that was kept.
    pub open spec fn loads(self, kept: KeptView) -> bool {
        forall|k: int|
            0 <= k < self.replies.len() && (#[trigger] self.cut(k)).phase() is Loading
                && self.replies[k].0 is State ==> self.replies[k].0 == ReplyView::State(
                self.cut(k).keeps(kept).state,
            )
    }

    /// The line about the beginning.
    pub open spec fn first_line(self) -> LineView {
        LineView { target: self.request.target, result: "started"@, cause: "requested"@ }
    }

    /// The line about the outcome.
    pub open spec fn last_line(self) -> LineView {
        let outcome = self.phase()->Ended_outcome;
        LineView {
            target: self.request.target,
            result: result_of(outcome),
            cause: cause_of(outcome),
        }
    }
}

/// What is kept after restores, one after the other.
pub open spec fn kept_over(kept: KeptView, runs: Seq<RunView>) -> KeptView
    decreases runs.len(),
{
    if runs.len() == 0 {
        kept
    } else {
        runs.last().keeps(kept_over(kept, runs.drop_last()))
    }
}

/// The lines about restores: two for each, about its beginning and about its outcome.
pub open spec fn lines_about(runs: Seq<RunView>) -> Seq<LineView> {
    Seq::new(
        2 * runs.len(),
        |i: int|
            if i % 2 == 0 {
                runs[i / 2].first_line()
            } else {
                runs[i / 2].last_line()
            },
    )
}

proof fn lemma_shorter_run(run: RunView, kept: KeptView)
    requires
        run.replies.len() > 0,
    ensures
        ({
            let shorter = run.cut(run.replies.len() - 1);
            &&& shorter.replies == run.replies.drop_last()
            &&& run.is_journaled() ==> shorter.is_journaled()
            &&& run.loads(kept) ==> shorter.loads(kept)
        }),
{
    let n = run.replies.len() - 1;
    let shorter = run.cut(n);
    assert(shorter.replies =~= run.replies.drop_last());
    assert forall|k: int| 0 <= k < n implies #[trigger] shorter.cut(k) == run.cut(k) by {
        assert(shorter.replies.take(k) =~= run.replies.take(k));
    }
}

proof fn lemma_journal_of_run(run: RunView, kept: KeptView)
    requires
        run.is_journaled(),
    ensures
        run.keeps(kept).journal == match run.phase() {
            RestorePhase::Opening => kept.journal,
            RestorePhase::Ended { .. } => kept.journal + seq![run.first_line(), run.last_line()],
            _ => kept.journal + seq![run.first_line()],
        },
    decreases run.replies.len(),
{
    if run.replies.len() > 0 {
        let n = run.replies.len() - 1;
        let shorter = run.cut(n);
        lemma_shorter_run(run, kept);
        lemma_journal_of_run(shorter, kept);
        assert(awaited(run.request, shorter.phase()) is Journal ==> run.replies[n].0 is Done);
        assert(run.phase() == after(
            run.config,
            run.request,
            shorter.phase(),
            run.replies.last().0,
            run.replies.last().1,
        ));
        assert(shorter.first_line() == run.first_line());
        if shorter.phase() is Opening {
            assert(kept.journal.push(run.first_line()) =~= kept.journal + seq![run.first_line()]);
        }
        if shorter.phase() is Closing {
            assert((kept.journal + seq![run.first_line()]).push(run.last_line()) =~= kept.journal
                + seq![run.first_line(), run.last_line()]);
        }
    }
}

proof fn lemma_lines_about(runs: Seq<RunView>)
    requires
        runs.len() > 0,
    ensures
        lines_about(runs) == lines_about(runs.drop_last()) + seq![
            runs.last().first_line(),
            runs.last().last_line(),
        ],
{
    let shorter = runs.drop_last();
    let (first, last) = (runs.last().first_line(), runs.last().last_line());
    let both = lines_about(shorter) + seq![first, last];
    let n = 2 * shorter.len();
    assert(both.len() == lines_about(runs).len());
    assert forall|i: int| 0 <= i < both.len() implies lines_about(runs)[i] == both[i] by {
        if i < n {
            assert(0 <= i / 2 < shorter.len());
            assert(shorter[i / 2] == runs[i / 2]);
        } else {
            assert(i / 2 == runs.len() - 1);
        }
    }
    assert(lines_about(runs) =~= both);
}

/// The journal grows by exactly two lines with each restore, also with one that is refused: the
/// first says that it started, the second how it ended. No earlier line changes.
pub proof fn law_journal_grows_by_two_lines(kept: KeptView, runs: Seq<RunView>)
    requires
        forall|i: int|
            0 <= i < runs.len() ==> (#[trigger] runs[i]).is_journaled() && runs[i].phase() is Ended,
    ensures
        kept_over(kept, runs).journal == kept.journal + lines_about(runs),
        lines_about(runs).len() == 2 * runs.len(),
    decreases runs.len(),
{
    if runs.len() == 0 {
        assert(lines_about(runs) =~= Seq::<LineView>::empty());
        assert(kept.journal + Seq::<LineView>::empty() =~= kept.journal);
    } else {
        let run = runs[runs.len() - 1];
        let before = kept_over(kept, runs.drop_last());
        let pair = seq![run.first_line(), run.last_line()];
        law_journal_grows_by_two_lines(kept, runs.drop_last());
        lemma_lines_about(runs);
        assert(run.keeps(before).journal == before.journal + pair) by {
            lemma_journal_of_run(run, before);
        }
        assert(kept.journal + lines_about(runs.drop_last()) + pair =~= kept.journal + (lines_about(
            runs.drop_last(),
        ) + pair));
    }
}

/// The record once another of its releases was restored: the two have changed places.
pub open spec fn exchanged(state: StateView) -> StateView {
    StateView {
        current: Some(marked(state.previous->0, "active"@)),
        previous: Some(marked(state.current->0, "superseded"@)),
        pending: None,
        ..state
    }
}

/// Whether a record holds two releases that can change places: one is active, the other was
/// replaced by it, both have recorded services, and nothing is pending.
pub open spec fn has_pair(state: StateView) -> bool {
    &&& state.current matches Some(current) && current.status == "active"@
        && current.services.len() > 0
    &&& state.previous matches Some(previous) && previous.status == "superseded"@
        && previous.services.len() > 0
    &&& state.current->0.tag != state.previous->0.tag
    &&& state.pending is None
}

proof fn lemma_previous_is_selected(state: StateView)
    requires
        has_pair(state),
    ensures
        selected(state, release_target(state.previous->0.tag)) == Ok::<
            Option<ReleaseView>,
            ErrorView,
        >(state.previous),
{
    let tag = state.previous->0.tag;
    let target = release_target(tag);
    reveal_strlit("release:");
    assert(target.take("release:"@.len() as int) =~= "release:"@);
    assert(target.skip("release:"@.len() as int) =~= tag);
    let all = recorded(state);
    assert(all =~= seq![state.current->0, state.previous->0]);
    assert(all.skip(1) =~= seq![state.previous->0]);
    reveal_with_fuel(with_tag, 3);
}

proof fn lemma_run_for_previous(run: RunView, kept: KeptView)
    requires
        has_pair(kept.state),
        run.request.target == Some(release_target(kept.state.previous->0.tag)),
        run.loads(kept),
    ensures
        ({
            let exchange = ExchangeView {
                state: kept.state,
                current: kept.state.current->0,
                release: kept.state.previous->0,
            };
            let now = run.keeps(kept);
            match run.phase() {
                RestorePhase::Opening => now.state == kept.state,
                RestorePhase::Cleaning => now.state == kept.state,
                RestorePhase::CheckingTag => now.state == kept.state,
                RestorePhase::Loading => now.state == kept.state,
                RestorePhase::Resolving { .. } => false,
                RestorePhase::FillingRelease { .. } => false,
                RestorePhase::FillingCurrent { .. } => false,
                RestorePhase::ReadingTag { exchange: e } => e == exchange,
                RestorePhase::CheckingImage { exchange: e, .. } => e == exchange,
                RestorePhase::Copying { exchange: e } => e == exchange,
                RestorePhase::Marking { exchange: e, .. } => e == with_marker(exchange),
                RestorePhase::Persisting { exchange: e, .. } => e == with_marker(exchange),
                RestorePhase::Activating { exchange: e, .. } => e == with_marker(exchange)
                    && now.tag == Some(exchange.release.tag),
                RestorePhase::SavingActive { exchange: e, .. } => e == completed(
                    with_marker(exchange),
                ) && now.tag == Some(exchange.release.tag),
                RestorePhase::Closing { outcome } => outcome is None ==> now.state == completed(
                    with_marker(exchange),
                ).state && now.tag == Some(exchange.release.tag),
                RestorePhase::Ended { outcome } => outcome is None ==> now.state == completed(
                    with_marker(exchange),
                ).state && now.tag == Some(exchange.release.tag),
                _ => true,
            }
        }),
    decreases run.replies.len(),
{
    if run.replies.len() > 0 {
        let n = run.replies.len() - 1;
        let shorter = run.cut(n);
        lemma_shorter_run(run, kept);
        lemma_run_for_previous(shorter, kept);
        lemma_previous_is_selected(kept.state);
        assert(run.phase() == after(
            run.config,
            run.request,
            shorter.phase(),
            run.replies.last().0,
            run.replies.last().1,
        ));
    }
}

/// Restoring the previous release by its tag makes the two recorded releases change places, and
/// puts its tag into the environment file.
pub proof fn law_restored_releases_change_places(run: RunView, kept: KeptView)
    requires
        has_pair(kept.state),
        run.request.target == Some(release_target(kept.state.previous->0.tag)),
        run.loads(kept),
        run.phase() == (RestorePhase::Ended { outcome: None }),
    ensures
        run.keeps(kept).state == exchanged(kept.state),
        run.keeps(kept).tag == Some(kept.state.previous->0.tag),
        has_pair(run.keeps(kept).state),
{
    lemma_run_for_previous(run, kept);
}

/// Restoring the previous release and then the one that was current before gives the first record
/// back in every field, and the tag of that release.
pub proof fn law_restoring_back_gives_the_record_back(run: RunView, back: RunView, kept: KeptView)
    requires
        has_pair(kept.state),
        run.request.target == Some(release_target(kept.state.previous->0.tag)),
        run.loads(kept),
        run.phase() == (RestorePhase::Ended { outcome: None }),
        back.request.target == Some(release_target(kept.state.current->0.tag)),
        back.loads(run.keeps(kept)),
        back.phase() == (RestorePhase::Ended { outcome: None }),
    ensures
        kept_over(kept, seq![run, back]).state == kept.state,
        kept_over(kept, seq![run, back]).tag == Some(kept.state.current->0.tag),
{
    law_restored_releases_change_places(run, kept);
    law_restored_releases_change_places(back, run.keeps(kept));
    assert(exchanged(exchanged(kept.state)) == kept.state);
    let both = seq![run, back];
    assert(both.drop_last() =~= seq![run]);
    assert(both.drop_last().drop_last() =~= Seq::<RunView>::empty());
    reveal_with_fuel(kept_over, 3);
}

/// How much of a restore lies behind a phase, in steps; images are counted apart.
pub open spec fn progress(phase: RestorePhase) -> (int, int) {
    match phase {
        RestorePhase::Opening => (0, 0),
        RestorePhase::Cleaning => (1, 0),
        RestorePhase::CheckingTag => (2, 0),
        RestorePhase::Loading => (3, 0),
        RestorePhase::Resolving { .. } => (4, 0),
        RestorePhase::FillingRelease { .. } => (5, 0),
        RestorePhase::FillingCurrent { .. } => (6, 0),
        RestorePhase::ReadingTag { .. } => (7, 0),
        RestorePhase::CheckingImage { exchange, next } => (
            8,
            next - exchange.release.services.len(),
        ),
        RestorePhase::Copying { .. } => (9, 0),
        RestorePhase::Marking { .. } => (10, 0),
        RestorePhase::Persisting { .. } => (11, 0),
        RestorePhase::Activating { .. } => (12, 0),
        RestorePhase::PersistingCurrent { .. } => (13, 0),
        RestorePhase::ActivatingCurrent { .. } => (14, 0),
        RestorePhase::SavingRecovered { .. } => (15, 0),
        RestorePhase::SavingActive { .. } => (15, 0),
        RestorePhase::Closing { .. } => (16, 0),
        RestorePhase::Ended { .. } => (17, 0),
    }
}

/// Every reply moves a restore forward until it has ended.
pub proof fn law_restore_moves_forward(
    config: ConfigView,
    request: RequestView,
    phase: RestorePhase,
    reply: ReplyView,
    now: u64,
)
    requires
        !(phase is Ended),
    ensures
        ({
            let from = progress(phase);
            let to = progress(after(config, request, phase, reply, now));
            from.0 < to.0 || (from.0 == to.0 && from.1 < to.1 && to.1 < 0)
        }),
{
}

/// Whether a restore asked for something and got a reply.
pub open spec fn was_told(
    config: ConfigView,
    request: RequestView,
    replies: Seq<(ReplyView, u64)>,
    action: ActionView,
    reply: ReplyView,
) -> bool {
    exists|k: int|
        0 <= k < replies.len() && awaited(
            request,
            phase_after(config, request, #[trigger] replies.take(k)),
        ) == action && replies[k].0 == reply
}

proof fn lemma_told(config: ConfigView, request: RequestView, replies: Seq<(ReplyView, u64)>)
    requires
        replies.len() > 0,
    ensures
        was_told(
            config,
            request,
            replies,
            awaited(request, phase_after(config, request, replies.drop_last())),
            replies.last().0,
        ),
        forall|action: ActionView, reply: ReplyView|
            was_told(config, request, replies.drop_last(), action, reply) ==> #[trigger] was_told(
                config,
                request,
                replies,
                action,
                reply,
            ),
{
    let shorter = replies.drop_last();
    assert(replies.take(replies.len() - 1) =~= shorter);
    assert forall|action: ActionView, reply: ReplyView|
        was_told(config, request, shorter, action, reply) implies #[trigger] was_told(
        config,
        request,
        replies,
        action,
        reply,
    ) by {
        let k = choose|k: int|
            0 <= k < shorter.len() && awaited(
                request,
                phase_after(config, request, #[trigger] shorter.take(k)),
            ) == action && shorter[k].0 == reply;
        assert(shorter.take(k) =~= replies.take(k));
    }
}

/// The question whether the image of a service is there.
pub open spec fn image_question(release: ReleaseView, i: int) -> ActionView {
    ActionView::ImageExists(release.services[i].image)
}

/// Whether the images of the first services of a release were found.
pub open spec fn were_found(
    config: ConfigView,
    request: RequestView,
    replies: Seq<(ReplyView, u64)>,
    release: ReleaseView,
    count: int,
) -> bool {
    forall|i: int|
        0 <= i < count && i < release.services.len() ==> was_told(
            config,
            request,
            replies,
            #[trigger] image_question(release, i),
            ReplyView::Found(true),
        )
}

/// Whether an exchange was prepared: the request was not refused, the checkout was found clean and
/// the environment file writable, and the record is the one that was loaded.
pub open spec fn was_prepared(
    config: ConfigView,
    request: RequestView,
    replies: Seq<(ReplyView, u64)>,
    exchange: ExchangeView,
) -> bool {
    &&& refusal(request) is None
    &&& was_told(config, request, replies, ActionView::EnsureClean, ReplyView::Done)
    &&& was_told(config, request, replies, ActionView::CheckTagWritable, ReplyView::Done)
    &&& was_told(
        config,
        request,
        replies,
        ActionView::LoadState,
        ReplyView::State(exchange.state),
    )
}

/// Whether the tag in the environment file was read, and is that of the running release unless a
/// release is pending.
pub open spec fn has_expected_tag(
    config: ConfigView,
    request: RequestView,
    replies: Seq<(ReplyView, u64)>,
    exchange: ExchangeView,
) -> bool {
    exists|tag: Option<Text>|
        #[trigger] was_told(config, request, replies, ActionView::ReadTag, ReplyView::Tag(tag)) && (
        tag == Some(exchange.current.tag) || exchange.state.pending is Some)
}

/// Whether an exchange may change things: it was prepared, the tag is the expected one, every
/// image of the release was found, and copies were made.
pub open spec fn may_change(
    config: ConfigView,
    request: RequestView,
    replies: Seq<(ReplyView, u64)>,
    exchange: ExchangeView,
    snapshot: Text,
) -> bool {
    &&& was_prepared(config, request, replies, exchange)
    &&& has_expected_tag(config, request, replies, exchange)
    &&& were_found(
        config,
        request,
        replies,
        exchange.release,
        exchange.release.services.len() as int,
    )
    &&& was_told(config, request, replies, ActionView::Snapshot, ReplyView::Text(snapshot))
}

/// The record while a release of an exchange is being activated.
pub open spec fn pending_record(exchange: ExchangeView) -> StateView {
    StateView {
        pending: Some(ReleaseView { status: "activating"@, ..exchange.release }),
        ..exchange.state
    }
}

/// Whether the release of an exchange was activated: first the record told that it is pending, then
/// its tag was written, then its services were started.
pub open spec fn was_activated(
    config: ConfigView,
    request: RequestView,
    replies: Seq<(ReplyView, u64)>,
    exchange: ExchangeView,
) -> bool {
    &&& was_told(
        config,
        request,
        replies,
        ActionView::Save(pending_record(exchange)),
        ReplyView::Done,
    )
    &&& was_told(
        config,
        request,
        replies,
        ActionView::PersistTag(exchange.release.tag),
        ReplyView::Done,
    )
    &&& was_told(
        config,
        request,
        replies,
        ActionView::Activate { release: exchange.release, gated: false },
        ReplyView::Done,
    )
}

/// Whether the record of a completed exchange was saved.
pub open spec fn was_recorded(
    config: ConfigView,
    request: RequestView,
    replies: Seq<(ReplyView, u64)>,
    exchange: ExchangeView,
) -> bool {
    exists|state: StateView|
        {
            &&& #[trigger] was_told(
                config,
                request,
                replies,
                ActionView::Save(state),
                ReplyView::Done,
            )
            &&& state.current == Some(ReleaseView { status: "active"@, ..exchange.release })
            &&& state.pending is None
            &&& state.last_backup == exchange.state.last_backup
            &&& state.last_offsite == exchange.state.last_offsite
            &&& exchange.state.current is Some && exchange.current.tag != exchange.release.tag
                ==> state.previous == Some(
                ReleaseView { status: "superseded"@, ..exchange.current },
            )
        }
}

proof fn lemma_facts_stay(
    config: ConfigView,
    request: RequestView,
    replies: Seq<(ReplyView, u64)>,
    exchange: ExchangeView,
    snapshot: Text,
    count: int,
)
    requires
        replies.len() > 0,
    ensures
        ({
            let shorter = replies.drop_last();
            &&& was_prepared(config, request, shorter, exchange) ==> was_prepared(
                config,
                request,
                replies,
                exchange,
            )
            &&& has_expected_tag(config, request, shorter, exchange) ==> has_expected_tag(
                config,
                request,
                replies,
                exchange,
            )
            &&& were_found(config, request, shorter, exchange.release, count) ==> were_found(
                config,
                request,
                replies,
                exchange.release,
                count,
            )
            &&& may_change(config, request, shorter, exchange, snapshot) ==> may_change(
                config,
                request,
                replies,
                exchange,
                snapshot,
            )
            &&& was_activated(config, request, shorter, exchange) ==> was_activated(
                config,
                request,
                replies,
                exchange,
            )
            &&& was_recorded(config, request, shorter, exchange) ==> was_recorded(
                config,
                request,
                replies,
                exchange,
            )
        }),
{
    let shorter = replies.drop_last();
    lemma_told(config, request, replies);
    if has_expected_tag(config, request, shorter, exchange) {
        let tag = choose|tag: Option<Text>|
            #[trigger] was_told(config, request, shorter, ActionView::ReadTag, ReplyView::Tag(tag))
                && (tag == Some(exchange.current.tag) || exchange.state.pending is Some);
        assert(was_told(config, request, replies, ActionView::ReadTag, ReplyView::Tag(tag)));
    }
    let all = exchange.release.services.len() as int;
    assert forall|n: int, i: int|
        0 <= i < n && i < all && #[trigger] were_found(
            config,
            request,
            shorter,
            exchange.release,
            n,
        ) implies was_told(
        config,
        request,
        replies,
        #[trigger] image_question(exchange.release, i),
        ReplyView::Found(true),
    ) by {
        assert(was_told(
            config,
            request,
            shorter,
            image_question(exchange.release, i),
            ReplyView::Found(true),
        ));
    }
    if was_recorded(config, request, shorter, exchange) {
        let state = choose|state: StateView|
            {
                &&& #[trigger] was_told(
                    config,
                    request,
                    shorter,
                    ActionView::Save(state),
                    ReplyView::Done,
                )
                &&& state.current == Some(ReleaseView { status: "active"@, ..exchange.release })
                &&& state.pending is None
                &&& state.last_backup == exchange.state.last_backup
                &&& state.last_offsite == exchange.state.last_offsite
                &&& exchange.state.current is Some && exchange.current.tag != exchange.release.tag
                    ==> state.previous == Some(
                    ReleaseView { status: "superseded"@, ..exchange.current },
                )
            };
        assert(was_told(config, request, replies, ActionView::Save(state), ReplyView::Done));
    }
}

/// Whether an exchange with its marker is what is behind an exchange in change.
spec fn is_marked_from(
    config: ConfigView,
    request: RequestView,
    replies: Seq<(ReplyView, u64)>,
    exchange: ExchangeView,
    origin: ExchangeView,
    snapshot: Text,
) -> bool {
    exchange == with_marker(origin) && may_change(config, request, replies, origin, snapshot)
}

spec fn restore_facts(
    config: ConfigView,
    request: RequestView,
    replies: Seq<(ReplyView, u64)>,
    phase: RestorePhase,
    origin: ExchangeView,
) -> bool {
    match phase {
        RestorePhase::Opening => true,
        RestorePhase::Cleaning => refusal(request) is None,
        RestorePhase::CheckingTag => refusal(request) is None && was_told(
            config,
            request,
            replies,
            ActionView::EnsureClean,
            ReplyView::Done,
        ),
        RestorePhase::Loading => {
            &&& refusal(request) is None
            &&& was_told(config, request, replies, ActionView::EnsureClean, ReplyView::Done)
            &&& was_told(config, request, replies, ActionView::CheckTagWritable, ReplyView::Done)
        },
        RestorePhase::Resolving { state, .. } => origin.state == state && was_prepared(
            config,
            request,
            replies,
            origin,
        ),
        RestorePhase::FillingRelease { exchange } => exchange == origin && was_prepared(
            config,
            request,
            replies,
            origin,
        ),
        RestorePhase::FillingCurrent { exchange } => exchange == origin && was_prepared(
            config,
            request,
            replies,
            origin,
        ),
        RestorePhase::ReadingTag { exchange } => exchange == origin && was_prepared(
            config,
            request,
            replies,
            origin,
        ),
        RestorePhase::CheckingImage { exchange, next } => {
            &&& exchange == origin
            &&& was_prepared(config, request, replies, origin)
            &&& has_expected_tag(config, request, replies, origin)
            &&& were_found(config, request, replies, origin.release, next as int)
        },
        RestorePhase::Copying { exchange } => {
            &&& exchange == origin
            &&& was_prepared(config, request, replies, origin)
            &&& has_expected_tag(config, request, replies, origin)
            &&& were_found(
                config,
                request,
                replies,
                origin.release,
                origin.release.services.len() as int,
            )
        },
        RestorePhase::Marking { exchange, snapshot } => is_marked_from(
            config,
            request,
            replies,
            exchange,
            origin,
            snapshot,
        ),
        RestorePhase::Persisting { exchange, snapshot } => is_marked_from(
            config,
            request,
            replies,
            exchange,
            origin,
            snapshot,
        ) && was_told(
            config,
            request,
            replies,
            ActionView::Save(pending_record(origin)),
            ReplyView::Done,
        ),
        RestorePhase::Activating { exchange, snapshot } => is_marked_from(
            config,
            request,
            replies,
            exchange,
            origin,
            snapshot,
        ) && was_told(
            config,
            request,
            replies,
            ActionView::Save(pending_record(origin)),
            ReplyView::Done,
        ) && was_told(
            config,
            request,
            replies,
            ActionView::PersistTag(origin.release.tag),
            ReplyView::Done,
        ),
        RestorePhase::SavingActive { exchange, snapshot } => {
            &&& exchange == completed(with_marker(origin))
            &&& may_change(config, request, replies, origin, snapshot)
            &&& was_activated(config, request, replies, origin)
        },
        RestorePhase::Closing { outcome } => outcome is None ==> {
            &&& exists|snapshot: Text| #[trigger]
                may_change(config, request, replies, origin, snapshot)
            &&& was_activated(config, request, replies, origin)
            &&& was_recorded(config, request, replies, origin)
        },
        RestorePhase::Ended { outcome } => outcome is None ==> {
            &&& exists|snapshot: Text| #[trigger]
                may_change(config, request, replies, origin, snapshot)
            &&& was_activated(config, request, replies, origin)
            &&& was_recorded(config, request, replies, origin)
        },
        _ => true,
    }
}

spec fn has_origin(
    config: ConfigView,
    request: RequestView,
    replies: Seq<(ReplyView, u64)>,
) -> bool {
    exists|origin: ExchangeView|
        #[trigger] restore_facts(
            config,
            request,
            replies,
            phase_after(config, request, replies),
            origin,
        )
}

#[verifier::rlimit(60)]
proof fn lemma_restore(config: ConfigView, request: RequestView, replies: Seq<(ReplyView, u64)>)
    ensures
        has_origin(config, request, replies),
    decreases replies.len(),
{
    let phase = phase_after(config, request, replies);
    if replies.len() == 0 {
        let none: ExchangeView = arbitrary();
        assert(restore_facts(config, request, replies, phase, none));
    } else {
        let shorter = replies.drop_last();
        let reply = replies.last().0;
        let now = replies.last().1;
        lemma_restore(config, request, shorter);
        lemma_told(config, request, replies);
        let before = phase_after(config, request, shorter);
        let origin = choose|origin: ExchangeView|
            #[trigger] restore_facts(config, request, shorter, before, origin);
        let next: int = match before {
            RestorePhase::CheckingImage { next, .. } => next as int,
            _ => origin.release.services.len() as int,
        };
        let snapshot = match changing(before) {
            Some((_, snapshot)) => snapshot,
            None => choose|snapshot: Text| #[trigger]
                may_change(config, request, shorter, origin, snapshot),
        };
        lemma_facts_stay(config, request, replies, origin, snapshot, next);
        // The exchange that a phase without a marker has come to.
        let reached = match exchange_of(phase) {
            Some(exchange) => exchange,
            None => match phase {
                RestorePhase::Resolving { state, .. } => ExchangeView { state, ..origin },
                RestorePhase::FillingRelease { exchange } => exchange,
                RestorePhase::FillingCurrent { exchange } => exchange,
                _ => origin,
            },
        };
        match before {
            RestorePhase::Loading => {
                assert(restore_facts(config, request, replies, phase, reached));
            },
            RestorePhase::Resolving { .. } => {
                assert(restore_facts(config, request, replies, phase, reached));
            },
            RestorePhase::FillingRelease { .. } => {
                assert(restore_facts(config, request, replies, phase, reached));
            },
            RestorePhase::FillingCurrent { .. } => {
                assert(restore_facts(config, request, replies, phase, reached));
            },
            RestorePhase::ReadingTag { exchange } => {
                if let ReplyView::Tag(tag) = reply {
                    assert(was_told(
                        config,
                        request,
                        replies,
                        ActionView::ReadTag,
                        ReplyView::Tag(tag),
                    ));
                }
                assert(restore_facts(config, request, replies, phase, origin));
            },
            RestorePhase::CheckingImage { exchange, next } => {
                if reply == ReplyView::Found(true) {
                    assert forall|i: int|
                        0 <= i < next + 1 && i < origin.release.services.len() implies was_told(
                        config,
                        request,
                        replies,
                        #[trigger] image_question(origin.release, i),
                        ReplyView::Found(true),
                    ) by {
                        if i == next {
                            assert(awaited(request, before) == image_question(origin.release, i));
                        }
                    }
                }
                assert(restore_facts(config, request, replies, phase, origin));
            },
            RestorePhase::SavingActive { exchange, .. } => {
                if reply is Done {
                    let state = completed(with_marker(origin)).state;
                    assert(was_told(
                        config,
                        request,
                        replies,
                        ActionView::Save(state),
                        ReplyView::Done,
                    ));
                    assert(was_recorded(config, request, replies, origin));
                }
                assert(restore_facts(config, request, replies, phase, origin));
            },
            _ => {
                assert(restore_facts(config, request, replies, phase, origin));
            },
        }
    }
}

/// A restore succeeds only behind all of its checks: the checkout is clean, the environment file can
/// be written and names the running release unless one is pending, and every image of the release
/// is there. Copies were made, the record said that the release is pending, its tag was written and
/// its services were started; then it was recorded as the active one, with the release that ran
/// before as the previous one, and the records of backups as they were.
pub proof fn law_success_needs_all_checks(
    config: ConfigView,
    request: RequestView,
    replies: Seq<(ReplyView, u64)>,
)
    requires
        phase_after(config, request, replies) == (RestorePhase::Ended { outcome: None }),
    ensures
        exists|exchange: ExchangeView, snapshot: Text|
            #[trigger] may_change(config, request, replies, exchange, snapshot) && was_activated(
                config,
                request,
                replies,
                exchange,
            ) && was_recorded(config, request, replies, exchange),
{
    lemma_restore(config, request, replies);
    let origin = choose|origin: ExchangeView|
        #[trigger] restore_facts(
            config,
            request,
            replies,
            phase_after(config, request, replies),
            origin,
        );
    let snapshot = choose|snapshot: Text| #[trigger]
        may_change(config, request, replies, origin, snapshot);
    assert(may_change(config, request, replies, origin, snapshot));
}

/// From the copies on, up to the activation, every image of the release has been found.
pub proof fn law_images_are_found_before_any_change(
    config: ConfigView,
    request: RequestView,
    replies: Seq<(ReplyView, u64)>,
    i: int,
)
    ensures
        match phase_after(config, request, replies) {
            RestorePhase::Copying { exchange } => 0 <= i < exchange.release.services.len()
                ==> was_told(
                config,
                request,
                replies,
                ActionView::ImageExists(exchange.release.services[i].image),
                ReplyView::Found(true),
            ),
            RestorePhase::Marking { exchange, .. } => 0 <= i < exchange.release.services.len()
                ==> was_told(
                config,
                request,
                replies,
                ActionView::ImageExists(exchange.release.services[i].image),
                ReplyView::Found(true),
            ),
            RestorePhase::Persisting { exchange, .. } => 0 <= i < exchange.release.services.len()
                ==> was_told(
                config,
                request,
                replies,
                ActionView::ImageExists(exchange.release.services[i].image),
                ReplyView::Found(true),
            ),
            RestorePhase::Activating { exchange, .. } => 0 <= i < exchange.release.services.len()
                ==> was_told(
                config,
                request,
                replies,
                ActionView::ImageExists(exchange.release.services[i].image),
                ReplyView::Found(true),
            ),
            _ => true,
        },
{
    lemma_restore(config, request, replies);
    let origin = choose|origin: ExchangeView|
        #[trigger] restore_facts(
            config,
            request,
            replies,
            phase_after(config, request, replies),
            origin,
        );
    if 0 <= i < origin.release.services.len() {
        assert(image_question(origin.release, i) == ActionView::ImageExists(
            origin.release.services[i].image,
        ));
    }
}

/// An image that is not there ends a restore, which names it; nothing is asked for any more but the
/// line in the journal.
pub proof fn law_missing_image_is_refused(
    config: ConfigView,
    request: RequestView,
    exchange: ExchangeView,
    next: nat,
    now: u64,
    reply: ReplyView,
    later: u64,
)
    requires
        next < exchange.release.services.len(),
    ensures
        ({
            let asked = RestorePhase::CheckingImage { exchange, next };
            let refused = after(config, request, asked, ReplyView::Found(false), now);
            &&& awaited(request, asked) == ActionView::ImageExists(
                exchange.release.services[next as int].image,
            )
            &&& refused == (RestorePhase::Closing {
                outcome: Some(
                    ErrorView::ImageMissing(exchange.release.services[next as int].image),
                ),
            })
            &&& awaited(request, refused) is Journal
            &&& awaited(request, after(config, request, refused, reply, later)) is Finish
        }),
{
}

/// A checkout with changes, a file that cannot be written, a record that cannot be read, a tag that
/// cannot be read or is not the expected one, and copies that cannot be made each end a restore
/// before anything was changed.
pub proof fn law_failed_checks_change_nothing(
    config: ConfigView,
    request: RequestView,
    phase: RestorePhase,
    error: ErrorView,
    now: u64,
    tag: Option<Text>,
)
    requires
        phase is Cleaning || phase is CheckingTag || phase is Loading || phase is FillingRelease
            || phase is FillingCurrent || phase is ReadingTag || phase is CheckingImage
            || phase is Copying || phase is Marking,
    ensures
        after(config, request, phase, ReplyView::Failed(error), now) == (RestorePhase::Closing {
            outcome: Some(error),
        }),
        phase matches RestorePhase::ReadingTag { exchange } ==> (tag != Some(exchange.current.tag)
            && exchange.state.pending is None ==> (after(
            config,
            request,
            phase,
            ReplyView::Tag(tag),
            now,
        ) matches RestorePhase::Closing { outcome } && outcome is Some)),
{
}

/// Where the activation fails, the release that ran before is put back: its tag is written, its
/// services are started, and the record is saved without the marker; the restore fails with what
/// failed first.
pub proof fn law_failed_activation_puts_the_release_back(
    config: ConfigView,
    request: RequestView,
    exchange: ExchangeView,
    snapshot: Text,
    error: ErrorView,
    now: u64,
)
    ensures
        ({
            let failed = after(
                config,
                request,
                RestorePhase::Activating { exchange, snapshot },
                ReplyView::Failed(error),
                now,
            );
            let written = after(config, request, failed, ReplyView::Done, now);
            let started = after(config, request, written, ReplyView::Done, now);
            &&& awaited(request, failed) == ActionView::PersistTag(exchange.current.tag)
            &&& awaited(request, written) == (ActionView::Activate {
                release: exchange.current,
                gated: false,
            })
            &&& awaited(request, started) matches ActionView::Save(state) && state.pending is None
                && (exchange.state.current is Some ==> state == (StateView {
                pending: None,
                ..exchange.state
            }))
            &&& after(config, request, started, ReplyView::Done, now) == (RestorePhase::Closing {
                outcome: Some(error),
            })
            &&& after(
                config,
                request,
                RestorePhase::Persisting { exchange, snapshot },
                ReplyView::Failed(error),
                now,
            ) == failed
        }),
{
}

proof fn lemma_with_tag(releases: Seq<ReleaseView>, tag: Text)
    ensures
        with_tag(releases, tag) matches Some(release) ==> release.tag == tag && releases.contains(
            release,
        ),
        with_tag(releases, tag) is None ==> forall|i: int|
            0 <= i < releases.len() ==> (#[trigger] releases[i]).tag != tag,
    decreases releases.len(),
{
    if releases.len() > 0 {
        let rest = releases.skip(1);
        lemma_with_tag(rest, tag);
        if releases[0].tag == tag {
            assert(releases[0] == releases[0]);
        } else if with_tag(rest, tag) is Some {
            let i = choose|i: int| 0 <= i < rest.len() && rest[i] == with_tag(rest, tag)->0;
            assert(releases[i + 1] == rest[i]);
        } else {
            assert forall|i: int| 0 <= i < releases.len() implies (#[trigger] releases[i]).tag
                != tag by {
                if i > 0 {
                    assert(rest[i - 1] == releases[i]);
                }
            }
        }
    }
}

proof fn lemma_with_revision(releases: Seq<ReleaseView>, revision: Text)
    ensures
        with_revision(releases, revision) matches Some(release) ==> release.revision == revision
            && releases.contains(release),
        with_revision(releases, revision) is None ==> forall|i: int|
            0 <= i < releases.len() ==> (#[trigger] releases[i]).revision != revision,
    decreases releases.len(),
{
    if releases.len() > 0 {
        let rest = releases.skip(1);
        lemma_with_revision(rest, revision);
        if releases[0].revision == revision {
            assert(releases[0] == releases[0]);
        } else if with_revision(rest, revision) is Some {
            let i = choose|i: int|
                0 <= i < rest.len() && rest[i] == with_revision(rest, revision)->0;
            assert(releases[i + 1] == rest[i]);
        } else {
            assert forall|i: int| 0 <= i < releases.len() implies (
            #[trigger] releases[i]).revision != revision by {
                if i > 0 {
                    assert(rest[i - 1] == releases[i]);
                }
            }
        }
    }
}

/// A target with a tag gives a recorded release of that very tag, the current or the previous one,
/// and is refused where neither has it; what is refused is never restored under another tag.
pub proof fn law_targets_name_recorded_releases(state: StateView, tag: Text)
    ensures
        match selected(state, "release:"@ + tag) {
            Ok(Some(release)) => release.tag == tag && (state.current == Some(release)
                || state.previous == Some(release)),
            Ok(None) => false,
            Err(_) => (state.current matches Some(release) ==> release.tag != tag) && (
            state.previous matches Some(release) ==> release.tag != tag),
        },
{
    let target = "release:"@ + tag;
    reveal_strlit("release:");
    assert(target.take("release:"@.len() as int) =~= "release:"@);
    assert(target.skip("release:"@.len() as int) =~= tag);
    let all = recorded(state);
    lemma_with_tag(all, tag);
    lemma_recorded(state);
}

/// A target that is a revision gives a recorded release of that very revision, and is refused where
/// two of them differ in their tags.
pub proof fn law_revisions_name_recorded_releases(state: StateView, revision: Text)
    requires
        !begins(revision, "release:"@),
    ensures
        match selected(state, revision) {
            Ok(Some(release)) => release.revision == revision && (state.current == Some(release)
                || state.previous == Some(release)),
            Ok(None) => (state.current matches Some(release) ==> release.revision != revision) && (
            state.previous matches Some(release) ==> release.revision != revision),
            Err(_) => state.current is Some && state.previous is Some
                && state.current->0.revision == revision && state.previous->0.revision == revision
                && state.current->0.tag != state.previous->0.tag,
        },
{
    let all = recorded(state);
    lemma_with_revision(all, revision);
    lemma_recorded(state);
}

proof fn lemma_recorded(state: StateView)
    ensures
        forall|i: int|
            0 <= i < recorded(state).len() ==> state.current == Some(#[trigger] recorded(state)[i])
                || state.previous == Some(recorded(state)[i]),
        state.current matches Some(release) ==> recorded(state).len() > 0 && recorded(state)[0]
            == release,
        state.previous matches Some(release) ==> recorded(state).len() > 0 && recorded(
            state,
        ).last() == release,
{
}

/// A request is let through exactly where it names a target that is not blank and no backup, and is
/// confirmed.
pub proof fn law_requests_are_let_through(request: RequestView)
    ensures
        refusal(request) is None <==> {
            &&& request.yes
            &&& request.target matches Some(target) && !begins(target, "backup:"@) && exists|i: int|
                0 <= i < target.len() && !is_space(#[trigger] target[i])
        },
{
    if let Some(target) = request.target {
        if !is_blank(target) {
            let i = choose|i: int| 0 <= i < target.len() && !is_space(#[trigger] target[i]);
            assert(!is_space(target[i]));
        }
    }
}

/// The release that is taken to run is the current one, and the previous only where no current is
/// recorded; without either nothing is restored.
pub proof fn law_the_current_release_is_exchanged(
    config: ConfigView,
    request: RequestView,
    state: StateView,
)
    ensures
        state.current is Some ==> running(state) == state.current,
        state.current is None ==> running(state) == state.previous,
        state.current is None && state.previous is None ==> (loaded(
            config,
            request,
            state,
        ) matches RestorePhase::Closing { outcome } && outcome is Some),
{
}

/// The journal says of a restore that it was a success exactly where it ended well, and why it did
/// not where it was refused.
pub proof fn law_journal_tells_the_outcome(request: RequestView, outcome: Option<ErrorView>)
    ensures
        ({
            let line = awaited(request, RestorePhase::Closing { outcome });
            &&& line matches ActionView::Journal { target, result, cause } && {
                &&& target == request.target
                &&& outcome is None ==> result == "success"@ && cause
                    == "verified application activation"@
                &&& outcome is Some ==> result == "refused_or_failed"@
                &&& outcome matches Some(ErrorView::Config(reason)) ==> !begins(
                    reason,
                    "activation failed ("@,
                ) && !begins(reason, "application activated but state"@) ==> cause == reason
            }
            &&& "success"@ != "refused_or_failed"@
        }),
{
    reveal_strlit("success");
    reveal_strlit("refused_or_failed");
    assert("success"@.len() != "refused_or_failed"@.len());
}

/// What is announced of a restore names the project and leads from the tag that ran to the tag that
/// is restored; what is warned of names the failure and the tag that is put back.
pub proof fn law_announcements_name_both_tags(
    name: Text,
    exchange: ExchangeView,
    snapshot: Text,
    error: ErrorView,
)
    ensures
        announced(
            name,
            RestorePhase::Copying { exchange },
            ReplyView::Text(snapshot),
        ) matches Some(line) && {
            &&& begins(line, "Application restore "@ + name + ": "@ + exchange.current.tag)
            &&& holds_part(line, " -> "@ + exchange.release.tag)
            &&& holds_part(line, " (snapshot "@ + snapshot)
        },
        warned(RestorePhase::PersistingCurrent { exchange, snapshot, error }) matches Some(line) && {
            &&& holds_part(line, "Application activation failed: "@ + message_of(error))
            &&& holds_part(line, "; attempting to reactivate "@ + exchange.current.tag)
        },
{
    let start = "Application restore "@ + name + ": "@ + exchange.current.tag;
    let s1 = start + " -> "@ + exchange.release.tag;
    let s2 = s1 + " (snapshot "@ + snapshot;
    let line = s2 + ")"@;
    lemma_holds_pair(start, " -> "@, exchange.release.tag);
    lemma_holds_pair(s1, " (snapshot "@, snapshot);
    lemma_parts_stay(s1, " (snapshot "@);
    lemma_parts_stay(s1 + " (snapshot "@, snapshot);
    lemma_parts_stay(s2, ")"@);
    assert(holds_part(s1 + " (snapshot "@, " -> "@ + exchange.release.tag));
    assert(line.take(start.len() as int) =~= start);
    let told = "Application activation failed: "@ + message_of(error);
    lemma_holds(Seq::empty(), told, Seq::empty());
    lemma_parts_stay(told, "; attempting to reactivate "@);
    lemma_parts_stay(told + "; attempting to reactivate "@, exchange.current.tag);
    assert(holds_part(told + "; attempting to reactivate "@, told));
    lemma_holds_pair(told, "; attempting to reactivate "@, exchange.current.tag);
}

/// A revision that cannot be resolved is called unknown, with what there is; any other failure
/// stands for itself. One that is resolved is the recorded release of that revision, and else a new
/// release of it under its tag.
pub proof fn law_revisions_are_resolved(
    state: StateView,
    target: Text,
    revision: Text,
    error: ErrorView,
    now: u64,
)
    ensures
        error is CommandFailed ==> (unresolved(
            state,
            target,
            ReplyView::Failed(error),
        ) matches ErrorView::Config(reason) && begins(reason, "unknown revision "@ + target)),
        !(error is CommandFailed) ==> unresolved(state, target, ReplyView::Failed(error)) == error,
        (forall|i: int|
            0 <= i < recorded(state).len() ==> (#[trigger] recorded(state)[i]).revision != revision)
            ==> {
            let release = release_of(state, revision, now);
            &&& release.revision == revision && release.tag == tag_of(revision)
            &&& release.deployed_at_unix == now && release.services.len() == 0
        },
        release_of(state, revision, now).revision == revision,
{
    if error is CommandFailed {
        let start = "unknown revision "@ + target;
        let reason = start + "; available: "@ + available(state);
        assert(reason.take(start.len() as int) =~= start);
    }
    lemma_with_revision(recorded(state), revision);
}

/// Where the tag of the environment is that of the release that is taken to run, or a release is
/// pending, a restore goes on to the images; otherwise it is refused.
pub proof fn law_tags_have_to_agree(
    config: ConfigView,
    request: RequestView,
    exchange: ExchangeView,
    tag: Option<Text>,
    now: u64,
)
    requires
        exchange.release.services.len() > 0,
    ensures
        ({
            let next = after(
                config,
                request,
                RestorePhase::ReadingTag { exchange },
                ReplyView::Tag(tag),
                now,
            );
            &&& tag == Some(exchange.current.tag) || exchange.state.pending is Some ==> awaited(
                request,
                next,
            ) == ActionView::ImageExists(exchange.release.services[0].image)
            &&& tag != Some(exchange.current.tag) && exchange.state.pending is None ==> (
            next matches RestorePhase::Closing { outcome } && outcome is Some)
        }),
{
}

/// Where every step is done, a restore that found all images copies the record, marks it, writes the
/// tag, starts the release and records it.
pub proof fn law_found_images_lead_to_the_restore(
    config: ConfigView,
    request: RequestView,
    exchange: ExchangeView,
    snapshot: Text,
    next: nat,
    now: u64,
)
    requires
        next < exchange.release.services.len(),
    ensures
        ({
            let found = after(
                config,
                request,
                RestorePhase::CheckingImage { exchange, next },
                ReplyView::Found(true),
                now,
            );
            &&& next + 1 < exchange.release.services.len() ==> awaited(request, found)
                == ActionView::ImageExists(exchange.release.services[next as int + 1].image)
            &&& next + 1 == exchange.release.services.len() ==> awaited(request, found) is Snapshot
        }),
        ({
            let copied = after(
                config,
                request,
                RestorePhase::Copying { exchange },
                ReplyView::Text(snapshot),
                now,
            );
            let saved = after(config, request, copied, ReplyView::Done, now);
            let written = after(config, request, saved, ReplyView::Done, now);
            let active = after(config, request, written, ReplyView::Done, now);
            let recorded = after(config, request, active, ReplyView::Done, now);
            &&& awaited(request, copied) matches ActionView::Save(state) && {
                &&& state.pending == Some(
                    ReleaseView { status: "activating"@, ..exchange.release },
                )
                &&& state.current == exchange.state.current
                &&& state.previous == exchange.state.previous
            }
            &&& awaited(request, saved) == ActionView::PersistTag(exchange.release.tag)
            &&& awaited(request, written) == (ActionView::Activate {
                release: exchange.release,
                gated: false,
            })
            &&& awaited(request, active) matches ActionView::Save(state) && {
                &&& state.pending is None
                &&& state.current == Some(ReleaseView { status: "active"@, ..exchange.release })
                &&& exchange.state.current is Some && (exchange.current.revision
                    != exchange.release.revision || exchange.current.tag != exchange.release.tag)
                    ==> state.previous == Some(
                    ReleaseView { status: "superseded"@, ..exchange.current },
                )
                &&& state.last_backup == exchange.state.last_backup && state.last_offsite
                    == exchange.state.last_offsite
            }
            &&& recorded == (RestorePhase::Closing { outcome: None })
        }),
{
}

} // verus!
