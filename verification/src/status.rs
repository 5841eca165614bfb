//! The report about one project, and the line about it in the overview of all.

use vstd::prelude::*;

use crate::command::add_word;
use crate::config::{ConfigView, ProjectConfig};
use crate::error::{error_of, message_of, ErrorView, YardError};
use crate::host::is_running;
use crate::json::{rows_of, JsonView};
use crate::monitor;
use crate::number::{decimal, pad_right, padded_right, to_decimal};
use crate::project::{release_report, release_runs, tag_of, Project};
use crate::service_health::{health_name, Health, ServiceHealth, ServiceHealthView};
use crate::state::{
    label_of, AttemptView, BackupAttempt, BackupResult, ProjectState, Release, ReleaseService,
    ReleaseView, ServiceView, StateView,
};
use crate::text::{
    begins, blank, byte_length, bytes, contains, cut_last, empty, ends, holds_part, is_blank,
    is_space, join, joined, law_trimming_takes_white_space_only, lemma_holds, lemma_holds_inner,
    lemma_holds_pair, lemma_joined_holds, lemma_parts_stay, lines, lines_of, lowercase, rsplit_once,
    same, same_ignoring_case, same_option, trim, trimmed, Text,
};
use crate::time::{
    age_text, deployment_timestamp, format_age, format_deployment_timestamp, format_timestamp,
    timestamp,
};

verus! {

// ---------------------------------------------------------------------------------------------
// Containers
// ---------------------------------------------------------------------------------------------

/// A container as `docker compose ps` lists it.
#[derive(Debug)]
pub struct ComposeService {
    pub service: String,
    pub name: String,
    pub state: String,
    pub health: String,
    pub image: String,
    pub exit_code: Option<i32>,
}

#[verifier::ext_equal]
pub struct ComposeServiceView {
    pub service: Text,
    pub name: Text,
    pub state: Text,
    pub health: Text,
    pub image: Text,
    pub exit_code: Option<i32>,
}

impl DeepView for ComposeService {
    type V = ComposeServiceView;

    open spec fn deep_view(&self) -> ComposeServiceView {
        ComposeServiceView {
            service: self.service@,
            name: self.name@,
            state: self.state@,
            health: self.health@,
            image: self.image@,
            exit_code: self.exit_code,
        }
    }
}

/// The lines that are not blank, in their order.
pub open spec fn filled(lines: Seq<Text>) -> Seq<Text>
    decreases lines.len(),
{
    if lines.len() == 0 {
        Seq::empty()
    } else if is_blank(lines.last()) {
        filled(lines.drop_last())
    } else {
        filled(lines.drop_last()).push(lines.last())
    }
}

/// The output of `docker compose ps`, cut for reading: it holds no rows, or it is one JSON list of
/// rows, or else each of its lines is a row.
#[derive(Debug, PartialEq, Eq)]
pub enum Listing {
    Empty,
    Rows { whole: String, lines: Vec<String> },
}

#[verifier::ext_equal]
pub enum ListingView {
    Empty,
    Rows { whole: Text, lines: Seq<Text> },
}

impl DeepView for Listing {
    type V = ListingView;

    open spec fn deep_view(&self) -> ListingView {
        match self {
            Listing::Empty => ListingView::Empty,
            Listing::Rows { whole, lines } => ListingView::Rows {
                whole: whole@,
                lines: lines.deep_view(),
            },
        }
    }
}

/// The output of `docker compose ps`, cut for reading.
pub open spec fn listing_of(output: Text) -> ListingView {
    let whole = trimmed(output);
    if whole.len() == 0 {
        ListingView::Empty
    } else {
        ListingView::Rows { whole, lines: filled(lines_of(whole)) }
    }
}

/// Cuts the output of `docker compose ps` for reading.
pub fn cut_listing(output: &str) -> (r: Listing)
    ensures
        r.deep_view() == listing_of(output@),
{
    let whole = trim(output);
    if empty(whole.as_str()) {
        return Listing::Empty;
    }
    let all = lines(whole.as_str());
    let ghost views = all.deep_view();
    let mut rows: Vec<String> = Vec::new();
    let mut i: usize = 0;
    assert(views.take(0) =~= Seq::<Text>::empty());
    assert(rows.deep_view() =~= Seq::<Text>::empty());
    while i < all.len()
        invariant
            views == all.deep_view(),
            i <= all@.len(),
            rows.deep_view() == filled(views.take(i as int)),
        decreases all@.len() - i,
    {
        assert(views.take(i + 1).drop_last() =~= views.take(i as int));
        assert(views.take(i + 1).last() == all@[i as int]@);
        if !blank(all[i].as_str()) {
            add_word(&mut rows, all[i].as_str());
        }
        i = i + 1;
    }
    assert(views.take(i as int) =~= views);
    Listing::Rows { whole, lines: rows }
}

/// The name to show: that of the service, else that of the container.
pub open spec fn shown_name(row: ComposeServiceView) -> Text {
    if row.service.len() == 0 {
        row.name
    } else {
        row.service
    }
}

/// The status to show: the health, else the state.
pub open spec fn shown_status(row: ComposeServiceView) -> Text {
    if row.health.len() == 0 {
        row.state
    } else {
        row.health
    }
}

/// The image to show.
pub open spec fn shown_image(row: ComposeServiceView) -> Text {
    if row.image.len() == 0 {
        "-"@
    } else {
        row.image
    }
}

impl ComposeService {
    /// The name to show.
    pub fn display_name(&self) -> (r: &str)
        ensures
            r@ == shown_name(self.deep_view()),
    {
        if empty(self.service.as_str()) {
            self.name.as_str()
        } else {
            self.service.as_str()
        }
    }

    /// The status to show.
    pub fn display_status(&self) -> (r: &str)
        ensures
            r@ == shown_status(self.deep_view()),
    {
        if empty(self.health.as_str()) {
            self.state.as_str()
        } else {
            self.health.as_str()
        }
    }

    /// The image to show.
    pub fn display_image(&self) -> (r: &str)
        ensures
            r@ == shown_image(self.deep_view()),
    {
        if empty(self.image.as_str()) {
            "-"
        } else {
            self.image.as_str()
        }
    }
}

/// Whether a container is that of the migrations and has ended well.
pub open spec fn is_finished_migration(config: ConfigView, row: ComposeServiceView) -> bool {
    &&& config.deployment.migration_service == Some(shown_name(row))
    &&& lowercase(row.state) == lowercase("exited"@)
    &&& row.exit_code == Some(0i32)
}

/// Whether a container is that of the migrations and has ended well.
pub fn expected_finished_migration(config: &ProjectConfig, row: &ComposeService) -> (r: bool)
    ensures
        r == is_finished_migration(config.deep_view(), row.deep_view()),
{
    let ended_well = match row.exit_code {
        Some(code) => code == 0,
        None => false,
    };
    same_option(&config.deployment.migration_service, row.display_name()) && same_ignoring_case(
        row.state.as_str(),
        "exited",
    ) && ended_well
}

// ---------------------------------------------------------------------------------------------
// Drift
// ---------------------------------------------------------------------------------------------

/// Whether a release accounts for an image of a service: it records it; or, where it records no
/// images at all, the image is the configured one with the tag of the release.
pub open spec fn accounts_for(
    config: ConfigView,
    release: ReleaseView,
    service: Text,
    image: Text,
) -> bool {
    ||| release.services.contains(ServiceView { name: service, image })
    ||| release.services.len() == 0 && image == config.image.name + ":"@ + release.tag
}

/// Whether a release without recorded images has the tag of an image.
pub open spec fn may_account_for(release: ReleaseView, image: Text) -> bool {
    release.services.len() == 0 && (cut_last(image, ':') matches Some((_, tag)) && tag
        == release.tag)
}

pub open spec fn recorded_accounts_for(
    config: ConfigView,
    release: Option<ReleaseView>,
    service: Text,
    image: Text,
) -> bool {
    release is Some && accounts_for(config, release->0, service, image)
}

pub open spec fn recorded_may_account_for(release: Option<ReleaseView>, image: Text) -> bool {
    release is Some && may_account_for(release->0, image)
}

/// Whether a recorded release accounts for an image of a service.
pub open spec fn is_accounted_for(
    config: ConfigView,
    state: StateView,
    service: Text,
    image: Text,
) -> bool {
    ||| recorded_accounts_for(config, state.current, service, image)
    ||| recorded_accounts_for(config, state.previous, service, image)
    ||| recorded_accounts_for(config, state.pending, service, image)
}

/// Whether a recorded release without images has the tag of an image.
pub open spec fn is_uncertain(state: StateView, image: Text) -> bool {
    ||| recorded_may_account_for(state.current, image)
    ||| recorded_may_account_for(state.previous, image)
    ||| recorded_may_account_for(state.pending, image)
}

/// How a running application container departs from the recorded releases.
pub open spec fn drift_of(config: ConfigView, state: StateView, row: ComposeServiceView) -> Option<
    Text,
> {
    let name = shown_name(row);
    if !config.compose.services.contains(name) || !is_running(row.state) {
        None
    } else if row.image.len() == 0 {
        Some(name + " has an unknown running image"@)
    } else if is_accounted_for(config, state, name, row.image) {
        None
    } else if is_uncertain(state, row.image) {
        Some(
            name + " runs "@ + row.image
                + ": cannot verify image against legacy release (configured repository "@
                + config.image.name + ")"@,
        )
    } else if state.current is None && state.previous is None && state.pending is None {
        Some(name + " runs "@ + row.image + " without a recorded release"@)
    } else {
        Some(
            name + " runs "@ + row.image + " outside current/previous"@ + (if state.pending is Some {
                "/pending"@
            } else {
                ""@
            }) + " release"@,
        )
    }
}

fn records_image(services: &Vec<ReleaseService>, service: &str, image: &str) -> (r: bool)
    ensures
        r == services.deep_view().contains(ServiceView { name: service@, image: image@ }),
{
    let ghost views = services.deep_view();
    let ghost wanted = ServiceView { name: service@, image: image@ };
    let mut i: usize = 0;
    while i < services.len()
        invariant
            views == services.deep_view(),
            wanted == (ServiceView { name: service@, image: image@ }),
            i <= services@.len(),
            forall|j: int| 0 <= j < i ==> #[trigger] views[j] != wanted,
        decreases services@.len() - i,
    {
        assert(views[i as int] == services@[i as int].deep_view());
        if same(services[i].name.as_str(), service) && same(services[i].image.as_str(), image) {
            assert(views[i as int] == wanted);
            return true;
        }
        i = i + 1;
    }
    false
}

fn release_accounts(
    config: &ProjectConfig,
    release: &Option<Release>,
    service: &str,
    image: &str,
) -> (r: bool)
    ensures
        r == recorded_accounts_for(
            config.deep_view(),
            release.deep_view(),
            service@,
            image@,
        ),
{
    match release {
        Some(release) => {
            if release.services.len() == 0 {
                assert(release.services.deep_view().len() == 0);
                let mut expected = config.image.name.clone();
                expected.append(":");
                expected.append(release.tag.as_str());
                same(image, expected.as_str())
            } else {
                assert(release.services.deep_view().len() > 0);
                records_image(&release.services, service, image)
            }
        },
        None => false,
    }
}

fn release_may_account(release: &Option<Release>, image: &str) -> (r: bool)
    ensures
        r == recorded_may_account_for(release.deep_view(), image@),
{
    match release {
        Some(release) => {
            assert(release.services.deep_view().len() == release.services@.len());
            if release.services.len() != 0 {
                return false;
            }
            match rsplit_once(image, ':') {
                Some((_, tag)) => same(tag.as_str(), release.tag.as_str()),
                None => false,
            }
        },
        None => false,
    }
}

/// How a running application container departs from the recorded releases. Containers of other
/// services, and stopped ones, never do.
pub fn drift(config: &ProjectConfig, state: &ProjectState, row: &ComposeService) -> (r: Option<
    String,
>)
    ensures
        r.deep_view() == drift_of(config.deep_view(), state.deep_view(), row.deep_view()),
{
    let name = row.display_name();
    let image = row.image.as_str();
    if !contains(&config.compose.services, name) || !same_ignoring_case(
        row.state.as_str(),
        "running",
    ) {
        return None;
    }
    let mut out = name.to_owned();
    if empty(image) {
        out.append(" has an unknown running image");
        return Some(out);
    }
    if release_accounts(config, &state.current, name, image) || release_accounts(
        config,
        &state.previous,
        name,
        image,
    ) || release_accounts(config, &state.pending, name, image) {
        return None;
    }
    out.append(" runs ");
    out.append(image);
    if release_may_account(&state.current, image) || release_may_account(&state.previous, image)
        || release_may_account(&state.pending, image) {
        out.append(": cannot verify image against legacy release (configured repository ");
        out.append(config.image.name.as_str());
        out.append(")");
    } else if state.current.is_none() && state.previous.is_none() && state.pending.is_none() {
        out.append(" without a recorded release");
    } else {
        out.append(" outside current/previous");
        if state.pending.is_some() {
            out.append("/pending");
        } else {
            out.append("");
        }
        out.append(" release");
    }
    Some(out)
}

/// The departures of containers, in the order of the list.
pub open spec fn drifts_of(
    config: ConfigView,
    state: StateView,
    rows: Seq<ComposeServiceView>,
) -> Seq<Text>
    decreases rows.len(),
{
    if rows.len() == 0 {
        Seq::empty()
    } else {
        let before = drifts_of(config, state, rows.drop_last());
        match drift_of(config, state, rows.last()) {
            Some(reason) => before.push(reason),
            None => before,
        }
    }
}

/// The departures of containers, in the order of the list.
pub fn drifts(config: &ProjectConfig, state: &ProjectState, rows: &Vec<ComposeService>) -> (r: Vec<
    String,
>)
    ensures
        r.deep_view() == drifts_of(config.deep_view(), state.deep_view(), rows.deep_view()),
{
    let ghost views = rows.deep_view();
    let mut out: Vec<String> = Vec::new();
    let mut i: usize = 0;
    assert(views.take(0) =~= Seq::<ComposeServiceView>::empty());
    assert(out.deep_view() =~= Seq::<Text>::empty());
    while i < rows.len()
        invariant
            views == rows.deep_view(),
            i <= rows@.len(),
            out.deep_view() == drifts_of(
                config.deep_view(),
                state.deep_view(),
                views.take(i as int),
            ),
        decreases rows@.len() - i,
    {
        assert(views.take(i + 1).drop_last() =~= views.take(i as int));
        assert(views.take(i + 1).last() == rows@[i as int].deep_view());
        if let Some(reason) = drift(config, state, &rows[i]) {
            add_word(&mut out, reason.as_str());
        }
        i = i + 1;
    }
    assert(views.take(i as int) =~= views);
    out
}

/// A container with an image that the current, the previous or the pending release records for
/// its service has not drifted.
pub proof fn law_recorded_image_is_no_drift(
    config: ConfigView,
    state: StateView,
    row: ComposeServiceView,
    release: ReleaseView,
)
    requires
        state.current == Some(release) || state.previous == Some(release) || state.pending == Some(
            release,
        ),
        release.services.contains(ServiceView { name: shown_name(row), image: row.image }),
        row.image.len() > 0,
    ensures
        drift_of(config, state, row) is None,
{
}

/// A release without recorded images accounts for the configured repository only: an image of
/// another repository with the same tag has drifted, unless another release records it.
pub proof fn law_same_tag_elsewhere_is_drift(
    config: ConfigView,
    state: StateView,
    row: ComposeServiceView,
)
    requires
        config.compose.services.contains(shown_name(row)),
        is_running(row.state),
        state.previous is None,
        state.pending is None,
        state.current matches Some(release) && release.services.len() == 0 && row.image
            != config.image.name + ":"@ + release.tag,
    ensures
        drift_of(config, state, row) is Some,
{
}

/// Data services are never compared with releases.
pub proof fn law_other_services_do_not_drift(
    config: ConfigView,
    state: StateView,
    row: ComposeServiceView,
)
    requires
        !config.compose.services.contains(shown_name(row)),
    ensures
        drift_of(config, state, row) is None,
{
}

// ---------------------------------------------------------------------------------------------
// The report
// ---------------------------------------------------------------------------------------------

/// The release that was deployed last: the pending one, else the current one.
pub open spec fn latest(state: StateView) -> Option<ReleaseView> {
    if state.pending is Some {
        state.pending
    } else {
        state.current
    }
}

fn latest_release(state: &ProjectState) -> (r: Option<&Release>)
    ensures
        r.deep_view() == latest(state.deep_view()),
{
    match &state.pending {
        Some(pending) => Some(pending),
        None => match &state.current {
            Some(current) => Some(current),
            None => None,
        },
    }
}

/// The lines about a release.
pub open spec fn release_lines(label: Text, release: Option<ReleaseView>) -> Seq<Text> {
    match release {
        Some(release) => seq![
            "  "@ + padded_right(label, 9) + " "@ + tag_of(release.revision) + "  "@ + release.tag
                + " ("@ + release.status + ")"@,
        ] + release.services.map_values(
            |service: ServiceView| "    "@ + service.name + "  "@ + service.image,
        ),
        None => seq!["  "@ + padded_right(label, 9) + " none"@],
    }
}

fn add_release(lines: &mut Vec<String>, label: &str, release: &Option<Release>)
    ensures
        final(lines).deep_view() == old(lines).deep_view() + release_lines(
            label@,
            release.deep_view(),
        ),
{
    let ghost start = lines.deep_view();
    let ghost all = release_lines(label@, release.deep_view());
    let mut line = "  ".to_owned();
    line.append(pad_right(label, 9).as_str());
    match release {
        Some(release) => {
            line.append(" ");
            line.append(Project::tag_for_revision(release.revision.as_str()).as_str());
            line.append("  ");
            line.append(release.tag.as_str());
            line.append(" (");
            line.append(release.status.as_str());
            line.append(")");
            add_word(lines, line.as_str());
            let ghost services = release.services.deep_view();
            let mut i: usize = 0;
            assert(lines.deep_view() =~= start + all.take(1));
            while i < release.services.len()
                invariant
                    services == release.services.deep_view(),
                    all.len() == services.len() + 1,
                    forall|j: int|
                        0 <= j < services.len() ==> all[j + 1] == "    "@ + (
                        #[trigger] services[j]).name + "  "@ + services[j].image,
                    i <= release.services@.len(),
                    lines.deep_view() == start + all.take(i + 1),
                decreases release.services@.len() - i,
            {
                let mut item = "    ".to_owned();
                item.append(release.services[i].name.as_str());
                item.append("  ");
                item.append(release.services[i].image.as_str());
                assert(services[i as int] == release.services@[i as int].deep_view());
                add_word(lines, item.as_str());
                assert(start + all.take(i + 2) =~= (start + all.take(i + 1)).push(item@));
                i = i + 1;
            }
            assert(all.take(i + 1) =~= all);
        },
        None => {
            line.append(" none");
            add_word(lines, line.as_str());
            assert(lines.deep_view() =~= start + all);
        },
    }
}

/// The heading of a report.
pub open spec fn heading(name: Text, branch: Text, head: Text) -> Seq<Text> {
    seq![
        "Project: "@ + name,
        "Branch:  "@ + (if branch.len() == 0 {
            "(detached)"@
        } else {
            branch
        }),
        "HEAD:    "@ + tag_of(head),
        ""@,
    ]
}

/// The first lines of the section about releases.
pub open spec fn release_section(state: StateView, env_tag: Option<Text>) -> Seq<Text> {
    seq!["Release"@] + release_lines("current"@, state.current) + release_lines(
        "previous"@,
        state.previous,
    ) + release_lines("pending"@, state.pending) + seq![
        "  "@ + padded_right("env"@, 9) + " "@ + (match env_tag {
            Some(tag) => tag,
            None => "not set"@,
        }),
    ] + (match state.pending {
        Some(pending) => seq![
            "  WARNING: "@ + pending.status + " release not yet active; rollback to recover"@,
        ],
        None => Seq::empty(),
    })
}

/// Whether the containers are compared with the current release: it has to record its images.
pub open spec fn is_compared(state: StateView) -> bool {
    state.current matches Some(current) && current.services.len() > 0
}

/// Why the comparison with the current release failed.
pub open spec fn comparison_fault(state: StateView, listing: Result<Text, ErrorView>) -> Option<
    ErrorView,
> {
    if !is_compared(state) {
        None
    } else {
        match listing {
            Ok(output) => match rows_of(output) {
                Ok(_) => None,
                Err(message) => Some(ErrorView::Json(message)),
            },
            Err(error) => Some(
                ErrorView::Config("Compose unavailable: "@ + message_of(error)),
            ),
        }
    }
}

/// The line that compares the containers with the current release.
pub open spec fn comparison(state: StateView, listing: Result<Text, ErrorView>) -> Seq<Text> {
    if !is_compared(state) {
        Seq::empty()
    } else {
        match listing {
            Ok(output) => match rows_of(output) {
                Ok(rows) => seq![
                    "  Docker: "@ + (if release_runs(rows, state.current->0.services)
                        && state.pending is None {
                        "matched"@
                    } else {
                        "MISMATCH"@
                    }) + " — "@ + release_report(rows, state.current->0.services),
                ],
                Err(_) => Seq::empty(),
            },
            Err(_) => Seq::empty(),
        }
    }
}

/// The line about the last deployment.
pub open spec fn deployment_line(state: StateView, now: u64) -> Text {
    "  Last deployment: "@ + (match latest(state) {
        Some(release) => deployment_timestamp(now, release.deployed_at_unix) + " ("@
            + release.status + ")"@,
        None => "none recorded"@,
    })
}

/// The line about a backup.
pub open spec fn backup_line(
    label: Text,
    attempt: AttemptView,
    now: u64,
) -> Text {
    "  "@ + label + ": "@ + label_of(attempt.result) + " — "@ + age_text(
        now,
        attempt.started_at_unix,
    ) + " — "@ + (match attempt.destination {
        Some(destination) => destination,
        None => "unknown destination"@,
    }) + " ("@ + decimal(attempt.duration_ms as nat) + " ms) [started "@ + timestamp(
        attempt.started_at_unix,
    ) + " UTC]"@
}

/// Whether a manifest configures copies off site.
pub open spec fn has_offsite(config: ConfigView) -> bool {
    config.backup matches Some(backup) && backup.offsite_command is Some
}

/// The section about backups.
pub open spec fn backup_section(
    config: ConfigView,
    state: StateView,
    now: u64,
) -> Seq<Text> {
    seq![
        ""@,
        "Backup"@,
        match state.last_backup {
            Some(attempt) => backup_line("Local"@, attempt, now),
            None => "  No backup recorded"@,
        },
        if !has_offsite(config) {
            "  Off-site: not configured"@
        } else {
            match state.last_offsite {
                Some(attempt) => backup_line("Off-site"@, attempt, now),
                None => "  Off-site: no copy recorded for the last local backup"@,
            }
        },
    ]
}

/// The width of a column: that of its widest text in bytes, and no less than a number.
pub open spec fn column(texts: Seq<Text>, least: nat) -> nat
    decreases texts.len(),
{
    if texts.len() == 0 {
        least
    } else {
        let before = column(texts.drop_last(), least);
        if byte_length(texts.last()) > before {
            byte_length(texts.last())
        } else {
            before
        }
    }
}

pub open spec fn names_of(rows: Seq<ComposeServiceView>) -> Seq<Text> {
    rows.map_values(|row: ComposeServiceView| shown_name(row))
}

pub open spec fn statuses_of(rows: Seq<ComposeServiceView>) -> Seq<Text> {
    rows.map_values(|row: ComposeServiceView| shown_status(row))
}

/// The line about a container.
pub open spec fn container_line(
    row: ComposeServiceView,
    name_width: nat,
    status_width: nat,
) -> Text {
    "  "@ + padded_right(shown_name(row), name_width) + "  "@ + padded_right(
        shown_status(row),
        status_width,
    ) + "  "@ + shown_image(row)
}

/// The section about containers.
pub open spec fn container_section(rows: Option<Seq<ComposeServiceView>>) -> Seq<Text> {
    seq![""@, "Docker Compose"@] + (match rows {
        Some(rows) => if rows.len() == 0 {
            seq!["  (no containers)"@]
        } else {
            rows.map_values(
                |row: ComposeServiceView|
                    container_line(row, column(names_of(rows), 7), column(statuses_of(rows), 6)),
            )
        },
        None => seq!["  unavailable [Unknown]"@],
    })
}

/// The lines about containers that depart from the recorded releases.
pub open spec fn drift_section(
    config: ConfigView,
    state: StateView,
    rows: Option<Seq<ComposeServiceView>>,
) -> Seq<Text> {
    match rows {
        Some(rows) => drifts_of(config, state, rows).map_values(
            |reason: Text| "  DRIFT: "@ + reason,
        ),
        None => Seq::empty(),
    }
}

/// The first measurement of a service of a project.
pub open spec fn measurement(
    healths: Seq<ServiceHealthView>,
    project: Text,
    service: Text,
) -> Option<ServiceHealthView>
    decreases healths.len(),
{
    if healths.len() == 0 {
        None
    } else if healths[0].project == project && healths[0].service == service {
        Some(healths[0])
    } else {
        measurement(healths.skip(1), project, service)
    }
}

/// The line about the health of a service.
pub open spec fn health_line(
    healths: Seq<ServiceHealthView>,
    project: Text,
    service: Text,
    measured_at: u64,
    now: u64,
) -> Text {
    match measurement(healths, project, service) {
        Some(health) => "  "@ + service + ": "@ + health_name(health.status) + " — measured "@
            + age_text(now, measured_at) + " (heartbeat age: "@ + (match health.age_seconds {
            Some(age) => decimal(age as nat) + " s"@,
            None => "n/a"@,
        }) + ")"@ + (match health.message {
            Some(message) => " — "@ + message,
            None => ""@,
        }),
        None => "  "@ + service + ": Unknown — measurement unavailable"@,
    }
}

/// The section about the health of services.
pub open spec fn health_section(
    name: Text,
    services: Seq<Text>,
    healths: Seq<ServiceHealthView>,
    measured_at: u64,
    now: u64,
) -> Seq<Text> {
    seq![
        "Project service health (measured "@ + timestamp(measured_at) + " UTC)"@,
    ] + services.map_values(
        |service: Text| health_line(healths, name, service, measured_at, now),
    )
}

/// The space that a checkout takes, in words.
pub open spec fn disk_text(disk: Option<u64>) -> Text {
    match disk {
        Some(bytes) => decimal(bytes as nat) + " bytes"@,
        None => "unavailable"@,
    }
}

/// What is known of a project.
#[derive(Debug)]
pub struct Facts {
    pub name: String,
    pub state: ProjectState,
    pub head: String,
    pub branch: String,
    pub env_tag: Option<String>,
    /// The output of `docker compose ps`, and the containers in it where it could be read.
    pub listing: Result<String, YardError>,
    pub rows: Option<Vec<ComposeService>>,
    pub healths: Vec<ServiceHealth>,
    pub measured_at_unix: u64,
    pub now: u64,
    /// The bytes that the checkout takes.
    pub disk: Option<u64>,
}

pub open spec fn listing_view(listing: Result<String, YardError>) -> Result<Text, ErrorView> {
    match listing {
        Ok(output) => Ok(output@),
        Err(error) => Err(error.deep_view()),
    }
}

/// The lines of a report up to the comparison with the current release.
pub open spec fn first_part(facts: Facts) -> Seq<Text> {
    heading(facts.name@, facts.branch@, facts.head@) + release_section(
        facts.state.deep_view(),
        facts.env_tag.deep_view(),
    )
}

/// The lines of a report from the comparison with the current release on.
pub open spec fn second_part(config: ConfigView, facts: Facts) -> Seq<Text> {
    let state = facts.state.deep_view();
    comparison(state, listing_view(facts.listing)) + seq![
        deployment_line(state, facts.now),
    ] + backup_section(config, state, facts.now) + container_section(
        facts.rows.deep_view(),
    ) + drift_section(config, state, facts.rows.deep_view()) + health_section(
        facts.name@,
        config.compose.services,
        facts.healths.deep_view(),
        facts.measured_at_unix,
        facts.now,
    ) + seq!["Disk (repo): "@ + disk_text(facts.disk), ""@]
}

fn add_heading(lines: &mut Vec<String>, name: &str, branch: &str, head: &str)
    ensures
        final(lines).deep_view() == old(lines).deep_view() + heading(name@, branch@, head@),
{
    let ghost start = lines.deep_view();
    let mut project = "Project: ".to_owned();
    project.append(name);
    let mut on = "Branch:  ".to_owned();
    if empty(branch) {
        on.append("(detached)");
    } else {
        on.append(branch);
    }
    let mut at = "HEAD:    ".to_owned();
    at.append(Project::tag_for_revision(head).as_str());
    add_word(lines, project.as_str());
    add_word(lines, on.as_str());
    add_word(lines, at.as_str());
    add_word(lines, "");
    assert(lines.deep_view() =~= start + heading(name@, branch@, head@));
}

fn add_release_section(lines: &mut Vec<String>, state: &ProjectState, env_tag: &Option<String>)
    ensures
        final(lines).deep_view() == old(lines).deep_view() + release_section(
            state.deep_view(),
            env_tag.deep_view(),
        ),
{
    let ghost start = lines.deep_view();
    add_word(lines, "Release");
    assert(lines.deep_view() =~= start + seq!["Release"@]);
    add_release(lines, "current", &state.current);
    add_release(lines, "previous", &state.previous);
    add_release(lines, "pending", &state.pending);
    let ghost releases = lines.deep_view();
    let mut env = "  ".to_owned();
    env.append(pad_right("env", 9).as_str());
    env.append(" ");
    match env_tag {
        Some(tag) => env.append(tag.as_str()),
        None => env.append("not set"),
    }
    add_word(lines, env.as_str());
    assert(lines.deep_view() =~= releases + seq![env@]);
    if let Some(pending) = &state.pending {
        let ghost before = lines.deep_view();
        let mut warning = "  WARNING: ".to_owned();
        warning.append(pending.status.as_str());
        warning.append(" release not yet active; rollback to recover");
        add_word(lines, warning.as_str());
        assert(lines.deep_view() =~= before + seq![warning@]);
    }
    assert(lines.deep_view() =~= start + release_section(state.deep_view(), env_tag.deep_view()));
}

/// Adds the line that compares the containers with the current release.
fn add_comparison(
    lines: &mut Vec<String>,
    state: &ProjectState,
    listing: &Result<String, YardError>,
) -> (r: Result<(), YardError>)
    ensures
        error_of(r) == comparison_fault(state.deep_view(), listing_view(*listing)),
        r is Ok ==> final(lines).deep_view() == old(lines).deep_view() + comparison(
            state.deep_view(),
            listing_view(*listing),
        ),
        r is Err ==> final(lines).deep_view() == old(lines).deep_view(),
{
    let ghost start = lines.deep_view();
    if let Some(current) = &state.current {
        assert(current.services.deep_view().len() == current.services@.len());
        if current.services.len() > 0 {
            let output = match listing {
                Ok(output) => output,
                Err(error) => {
                    let mut message = "Compose unavailable: ".to_owned();
                    message.append(error.message().as_str());
                    return Err(YardError::Config(message));
                },
            };
            let (matched, details) = match Project::runtime_report_from_output(
                &current.services,
                output.as_str(),
            ) {
                Ok(report) => report,
                Err(error) => {
                    return Err(error);
                },
            };
            let mut line = "  Docker: ".to_owned();
            if matched && state.pending.is_none() {
                line.append("matched");
            } else {
                line.append("MISMATCH");
            }
            line.append(" — ");
            line.append(details.as_str());
            add_word(lines, line.as_str());
            assert(lines.deep_view() =~= start + comparison(
                state.deep_view(),
                listing_view(*listing),
            ));
            return Ok(());
        }
    }
    assert(start + Seq::<Text>::empty() =~= start);
    Ok(())
}

fn show_deployment(state: &ProjectState, now: u64) -> (r: String)
    ensures
        r@ == deployment_line(state.deep_view(), now),
{
    let mut line = "  Last deployment: ".to_owned();
    match latest_release(state) {
        Some(release) => {
            line.append(
                format_deployment_timestamp(now, release.deployed_at_unix).as_str(),
            );
            line.append(" (");
            line.append(release.status.as_str());
            line.append(")");
            assert(line@ =~= deployment_line(state.deep_view(), now));
        },
        None => line.append("none recorded"),
    }
    line
}

fn show_backup(label: &str, attempt: &BackupAttempt, now: u64) -> (r: String)
    ensures
        r@ == backup_line(label@, attempt.deep_view(), now),
{
    let mut line = "  ".to_owned();
    line.append(label);
    line.append(": ");
    line.append(attempt.result.label());
    line.append(" — ");
    line.append(format_age(now, attempt.started_at_unix).as_str());
    line.append(" — ");
    match &attempt.destination {
        Some(destination) => line.append(destination.as_str()),
        None => line.append("unknown destination"),
    }
    line.append(" (");
    line.append(to_decimal(attempt.duration_ms).as_str());
    line.append(" ms) [started ");
    line.append(format_timestamp(attempt.started_at_unix).as_str());
    line.append(" UTC]");
    line
}

fn add_backup_section(
    lines: &mut Vec<String>,
    config: &ProjectConfig,
    state: &ProjectState,
    now: u64,
)
    ensures
        final(lines).deep_view() == old(lines).deep_view() + backup_section(
            config.deep_view(),
            state.deep_view(),
            now,
        ),
{
    let ghost start = lines.deep_view();
    let local = match &state.last_backup {
        Some(attempt) => show_backup("Local", attempt, now),
        None => "  No backup recorded".to_owned(),
    };
    let configured = match &config.backup {
        Some(backup) => backup.offsite_command.is_some(),
        None => false,
    };
    let offsite = if !configured {
        "  Off-site: not configured".to_owned()
    } else {
        match &state.last_offsite {
            Some(attempt) => show_backup("Off-site", attempt, now),
            None => "  Off-site: no copy recorded for the last local backup".to_owned(),
        }
    };
    add_word(lines, "");
    add_word(lines, "Backup");
    add_word(lines, local.as_str());
    add_word(lines, offsite.as_str());
    assert(lines.deep_view() =~= start + backup_section(
        config.deep_view(),
        state.deep_view(),
        now,
    ));
}

fn widths(rows: &Vec<ComposeService>) -> (r: (usize, usize))
    ensures
        r.0 == column(names_of(rows.deep_view()), 7),
        r.1 == column(statuses_of(rows.deep_view()), 6),
{
    let ghost names = names_of(rows.deep_view());
    let ghost statuses = statuses_of(rows.deep_view());
    let mut name_width: usize = 7;
    let mut status_width: usize = 6;
    let mut i: usize = 0;
    assert(names.take(0) =~= Seq::<Text>::empty());
    assert(statuses.take(0) =~= Seq::<Text>::empty());
    while i < rows.len()
        invariant
            names == names_of(rows.deep_view()),
            statuses == statuses_of(rows.deep_view()),
            i <= rows@.len(),
            name_width == column(names.take(i as int), 7),
            status_width == column(statuses.take(i as int), 6),
        decreases rows@.len() - i,
    {
        assert(names.take(i + 1).drop_last() =~= names.take(i as int));
        assert(names.take(i + 1).last() == shown_name(rows@[i as int].deep_view()));
        assert(statuses.take(i + 1).drop_last() =~= statuses.take(i as int));
        assert(statuses.take(i + 1).last() == shown_status(rows@[i as int].deep_view()));
        let name: usize = bytes(rows[i].display_name());
        if name > name_width {
            name_width = name;
        }
        let status: usize = bytes(rows[i].display_status());
        if status > status_width {
            status_width = status;
        }
        i = i + 1;
    }
    assert(names.take(i as int) =~= names);
    assert(statuses.take(i as int) =~= statuses);
    (name_width, status_width)
}

fn add_container_section(lines: &mut Vec<String>, rows: &Option<Vec<ComposeService>>)
    ensures
        final(lines).deep_view() == old(lines).deep_view() + container_section(rows.deep_view()),
{
    let ghost start = lines.deep_view();
    add_word(lines, "");
    add_word(lines, "Docker Compose");
    let ghost headed = lines.deep_view();
    assert(headed =~= start + seq![""@, "Docker Compose"@]);
    match rows {
        Some(rows) => {
            let ghost views = rows.deep_view();
            if rows.len() == 0 {
                add_word(lines, "  (no containers)");
                assert(lines.deep_view() =~= headed + seq!["  (no containers)"@]);
            } else {
                let (name_width, status_width) = widths(rows);
                let ghost all = views.map_values(
                    |row: ComposeServiceView|
                        container_line(
                            row,
                            column(names_of(views), 7),
                            column(statuses_of(views), 6),
                        ),
                );
                let mut i: usize = 0;
                assert(headed + all.take(0) =~= headed);
                while i < rows.len()
                    invariant
                        views == rows.deep_view(),
                        name_width == column(names_of(views), 7),
                        status_width == column(statuses_of(views), 6),
                        all == views.map_values(
                            |row: ComposeServiceView|
                                container_line(
                                    row,
                                    column(names_of(views), 7),
                                    column(statuses_of(views), 6),
                                ),
                        ),
                        i <= rows@.len(),
                        lines.deep_view() == headed + all.take(i as int),
                    decreases rows@.len() - i,
                {
                    let mut line = "  ".to_owned();
                    line.append(pad_right(rows[i].display_name(), name_width).as_str());
                    line.append("  ");
                    line.append(pad_right(rows[i].display_status(), status_width).as_str());
                    line.append("  ");
                    line.append(rows[i].display_image());
                    assert(line@ == all[i as int]);
                    add_word(lines, line.as_str());
                    assert(headed + all.take(i + 1) =~= (headed + all.take(i as int)).push(line@));
                    i = i + 1;
                }
                assert(all.take(i as int) =~= all);
            }
        },
        None => {
            add_word(lines, "  unavailable [Unknown]");
            assert(lines.deep_view() =~= headed + seq!["  unavailable [Unknown]"@]);
        },
    }
    assert(lines.deep_view() =~= start + container_section(rows.deep_view()));
}

fn add_drift_section(
    lines: &mut Vec<String>,
    config: &ProjectConfig,
    state: &ProjectState,
    rows: &Option<Vec<ComposeService>>,
)
    ensures
        final(lines).deep_view() == old(lines).deep_view() + drift_section(
            config.deep_view(),
            state.deep_view(),
            rows.deep_view(),
        ),
{
    let ghost start = lines.deep_view();
    match rows {
        Some(rows) => {
            let reasons = drifts(config, state, rows);
            let ghost all = reasons.deep_view().map_values(|reason: Text| "  DRIFT: "@ + reason);
            let mut i: usize = 0;
            assert(start + all.take(0) =~= start);
            while i < reasons.len()
                invariant
                    all == reasons.deep_view().map_values(|reason: Text| "  DRIFT: "@ + reason),
                    i <= reasons@.len(),
                    lines.deep_view() == start + all.take(i as int),
                decreases reasons@.len() - i,
            {
                let mut line = "  DRIFT: ".to_owned();
                line.append(reasons[i].as_str());
                add_word(lines, line.as_str());
                assert(start + all.take(i + 1) =~= (start + all.take(i as int)).push(line@));
                i = i + 1;
            }
            assert(all.take(i as int) =~= all);
        },
        None => {
            assert(start + Seq::<Text>::empty() =~= start);
        },
    }
}

fn find_measurement<'a>(healths: &'a Vec<ServiceHealth>, project: &str, service: &str) -> (r:
    Option<&'a ServiceHealth>)
    ensures
        r.deep_view() == measurement(healths.deep_view(), project@, service@),
{
    let ghost views = healths.deep_view();
    let mut i: usize = 0;
    assert(views.skip(0) =~= views);
    while i < healths.len()
        invariant
            views == healths.deep_view(),
            i <= healths@.len(),
            measurement(views, project@, service@) == measurement(
                views.skip(i as int),
                project@,
                service@,
            ),
        decreases healths@.len() - i,
    {
        assert(views.skip(i as int)[0] == healths@[i as int].deep_view());
        assert(views.skip(i as int).skip(1) =~= views.skip(i + 1));
        if same(healths[i].project.as_str(), project) && same(
            healths[i].service.as_str(),
            service,
        ) {
            return Some(&healths[i]);
        }
        i = i + 1;
    }
    None
}

fn show_health(
    healths: &Vec<ServiceHealth>,
    project: &str,
    service: &str,
    measured_at: u64,
    now: u64,
) -> (r: String)
    ensures
        r@ == health_line(healths.deep_view(), project@, service@, measured_at, now),
{
    let mut line = "  ".to_owned();
    line.append(service);
    match find_measurement(healths, project, service) {
        Some(health) => {
            line.append(": ");
            line.append(health.status.name());
            line.append(" — measured ");
            line.append(format_age(now, measured_at).as_str());
            line.append(" (heartbeat age: ");
            match health.age_seconds {
                Some(age) => {
                    let mut seconds = to_decimal(age as u128);
                    seconds.append(" s");
                    line.append(seconds.as_str());
                },
                None => line.append("n/a"),
            }
            line.append(")");
            match health.message {
                Some(message) => {
                    let mut reason = " — ".to_owned();
                    reason.append(message);
                    line.append(reason.as_str());
                },
                None => line.append(""),
            }
        },
        None => line.append(": Unknown — measurement unavailable"),
    }
    line
}

fn add_health_section(lines: &mut Vec<String>, config: &ProjectConfig, facts: &Facts)
    ensures
        final(lines).deep_view() == old(lines).deep_view() + health_section(
            facts.name@,
            config.compose.services.deep_view(),
            facts.healths.deep_view(),
            facts.measured_at_unix,
            facts.now,
        ),
{
    let ghost start = lines.deep_view();
    let ghost services = config.compose.services.deep_view();
    let ghost all = health_section(
        facts.name@,
        services,
        facts.healths.deep_view(),
        facts.measured_at_unix,
        facts.now,
    );
    let mut heading = "Project service health (measured ".to_owned();
    heading.append(format_timestamp(facts.measured_at_unix).as_str());
    heading.append(" UTC)");
    add_word(lines, heading.as_str());
    let mut i: usize = 0;
    assert(lines.deep_view() =~= start + all.take(1));
    while i < config.compose.services.len()
        invariant
            services == config.compose.services.deep_view(),
            all == health_section(
                facts.name@,
                services,
                facts.healths.deep_view(),
                facts.measured_at_unix,
                facts.now,
            ),
            i <= config.compose.services@.len(),
            lines.deep_view() == start + all.take(i + 1),
        decreases config.compose.services@.len() - i,
    {
        let line = show_health(
            &facts.healths,
            facts.name.as_str(),
            config.compose.services[i].as_str(),
            facts.measured_at_unix,
            facts.now,
        );
        assert(line@ == all[i + 1]);
        add_word(lines, line.as_str());
        assert(start + all.take(i + 2) =~= (start + all.take(i + 1)).push(line@));
        i = i + 1;
    }
    assert(all.take(i + 1) =~= all);
}

fn show_disk(disk: Option<u64>) -> (r: String)
    ensures
        r@ == disk_text(disk),
{
    match disk {
        Some(bytes) => {
            let mut out = to_decimal(bytes as u128);
            out.append(" bytes");
            out
        },
        None => "unavailable".to_owned(),
    }
}

/// The report about a project, up to the part about the host. Where the containers cannot be
/// compared with the current release, the report ends there and the failure says why.
pub fn report(config: &ProjectConfig, facts: &Facts) -> (r: (Vec<String>, Result<(), YardError>))
    ensures
        error_of(r.1) == comparison_fault(facts.state.deep_view(), listing_view(facts.listing)),
        r.1 is Ok ==> r.0.deep_view() == first_part(*facts) + second_part(
            config.deep_view(),
            *facts,
        ),
        r.1 is Err ==> r.0.deep_view() == first_part(*facts),
{
    let mut lines: Vec<String> = Vec::new();
    assert(lines.deep_view() =~= Seq::<Text>::empty());
    add_heading(
        &mut lines,
        facts.name.as_str(),
        facts.branch.as_str(),
        facts.head.as_str(),
    );
    add_release_section(&mut lines, &facts.state, &facts.env_tag);
    assert(lines.deep_view() =~= first_part(*facts));
    if let Err(error) = add_comparison(&mut lines, &facts.state, &facts.listing) {
        return (lines, Err(error));
    }
    let ghost compared = lines.deep_view();
    let deployment = show_deployment(&facts.state, facts.now);
    add_word(&mut lines, deployment.as_str());
    assert(lines.deep_view() =~= compared + seq![deployment@]);
    add_backup_section(&mut lines, config, &facts.state, facts.now);
    add_container_section(&mut lines, &facts.rows);
    add_drift_section(&mut lines, config, &facts.state, &facts.rows);
    add_health_section(&mut lines, config, facts);
    let ghost measured = lines.deep_view();
    let mut disk = "Disk (repo): ".to_owned();
    disk.append(show_disk(facts.disk).as_str());
    add_word(&mut lines, disk.as_str());
    add_word(&mut lines, "");
    assert(lines.deep_view() =~= measured + seq![disk@, ""@]);
    assert(lines.deep_view() =~= first_part(*facts) + second_part(config.deep_view(), *facts));
    (lines, Ok(()))
}

/// The failure to read the state of a project.
pub fn unreadable_state(name: &str, error: &YardError) -> (r: YardError)
    ensures
        r.deep_view() == ErrorView::Config(
            name@ + ": state unreadable: "@ + message_of(error.deep_view()),
        ),
{
    let mut message = name.to_owned();
    message.append(": state unreadable: ");
    message.append(error.message().as_str());
    YardError::Config(message)
}

// ---------------------------------------------------------------------------------------------
// The overview
// ---------------------------------------------------------------------------------------------

/// Whether a container calls for attention: it does not run, and is no finished migration.
pub open spec fn is_trouble(config: ConfigView, row: ComposeServiceView) -> bool {
    !is_running(row.state) && !is_finished_migration(config, row)
}

/// Whether the containers of a project call for attention: they could not be listed, there are
/// none, one of them is in trouble, or a configured service has none.
pub open spec fn containers_alert(
    config: ConfigView,
    rows: Option<Seq<ComposeServiceView>>,
) -> bool {
    match rows {
        Some(rows) => {
            ||| rows.len() == 0
            ||| exists|i: int| 0 <= i < rows.len() && is_trouble(config, #[trigger] rows[i])
            ||| exists|i: int|
                0 <= i < config.compose.services.len() && !names_of(rows).contains(
                    #[trigger] config.compose.services[i],
                )
        },
        None => true,
    }
}

/// Whether a measurement calls for attention.
pub open spec fn is_alarming(health: ServiceHealthView) -> bool {
    ||| health.status == Health::Degraded
    ||| health.status == Health::Unhealthy
    ||| health.message == Some("Container unavailable"@)
}

/// Whether a probe gave no measurement.
pub open spec fn is_unmeasured(
    healths: Seq<ServiceHealthView>,
    project: Text,
    service: Text,
) -> bool {
    match measurement(healths, project, service) {
        Some(health) => health.status == Health::Unknown,
        None => true,
    }
}

/// Whether the measurements of a project call for attention: one is alarming, or a configured
/// probe gave none.
pub open spec fn health_alert(
    config: ConfigView,
    project: Text,
    healths: Seq<ServiceHealthView>,
) -> bool {
    ||| exists|i: int|
        0 <= i < healths.len() && (#[trigger] healths[i]).project == project && is_alarming(
            healths[i],
        )
    ||| exists|i: int|
        0 <= i < config.service_health.len() && is_unmeasured(
            healths,
            project,
            (#[trigger] config.service_health[i]).0,
        )
}

/// Whether a project calls for attention.
pub open spec fn needs_attention(
    config: ConfigView,
    project: Text,
    state: StateView,
    rows: Option<Seq<ComposeServiceView>>,
    healths: Seq<ServiceHealthView>,
) -> bool {
    ||| containers_alert(config, rows)
    ||| health_alert(config, project, healths)
    ||| drift_reasons(config, state, rows).len() > 0
    ||| state.pending is Some
}

/// The departures of the containers that could be listed.
pub open spec fn drift_reasons(
    config: ConfigView,
    state: StateView,
    rows: Option<Seq<ComposeServiceView>>,
) -> Seq<Text> {
    match rows {
        Some(rows) => drifts_of(config, state, rows),
        None => Seq::empty(),
    }
}

/// The number of running containers.
pub open spec fn running_count(rows: Seq<ComposeServiceView>) -> nat
    decreases rows.len(),
{
    if rows.len() == 0 {
        0
    } else {
        running_count(rows.drop_last()) + (if is_running(rows.last().state) {
            1nat
        } else {
            0nat
        })
    }
}

/// The containers of a project, in words.
pub open spec fn runtime_text(rows: Option<Seq<ComposeServiceView>>) -> Text {
    match rows {
        Some(rows) => decimal(running_count(rows)) + " running / "@ + decimal(rows.len())
            + " containers"@,
        None => "containers unavailable"@,
    }
}

/// The measurements of a project, in words.
pub open spec fn probe_texts(healths: Seq<ServiceHealthView>, project: Text) -> Seq<Text>
    decreases healths.len(),
{
    if healths.len() == 0 {
        Seq::empty()
    } else {
        let before = probe_texts(healths.drop_last(), project);
        let last = healths.last();
        if last.project == project {
            before.push(last.service + "="@ + health_name(last.status))
        } else {
            before
        }
    }
}

/// The tag of a release, in words.
pub open spec fn tag_text(release: Option<ReleaseView>, none: Text) -> Text {
    match release {
        Some(release) => release.tag,
        None => none,
    }
}

/// A backup, in words.
pub open spec fn attempt_text(attempt: Option<AttemptView>) -> Text {
    match attempt {
        Some(attempt) => label_of(attempt.result) + " @ "@ + timestamp(
            attempt.started_at_unix,
        ) + " UTC"@,
        None => "none"@,
    }
}

/// The last deployment, in words.
pub open spec fn deployment_text(state: StateView, now: u64) -> Text {
    match latest(state) {
        Some(release) => release.status + " @ "@ + deployment_timestamp(
            now,
            release.deployed_at_unix,
        ),
        None => "none recorded"@,
    }
}

/// The line about a project in the overview.
pub open spec fn overview_line(
    config: ConfigView,
    name: Text,
    state: StateView,
    rows: Option<Seq<ComposeServiceView>>,
    healths: Seq<ServiceHealthView>,
    now: u64,
    disk: Option<u64>,
) -> Text {
    (if needs_attention(config, name, state, rows, healths) {
        "ALERT"@
    } else {
        "OK"@
    }) + " "@ + name + ": "@ + tag_text(state.current, "no deployment recorded"@) + " (previous "@
        + tag_text(state.previous, "none"@) + "); deployment "@ + deployment_text(
        state,
        now,
    ) + "; "@ + runtime_text(rows) + "; probes "@ + joined(probe_texts(healths, name), ","@)
        + "; backup "@ + attempt_text(state.last_backup) + ", off-site "@
        + attempt_text(state.last_offsite) + "; repo "@ + disk_text(disk) + "; "@
        + (if state.pending is Some {
        "pending release; "@
    } else {
        ""@
    }) + (if drift_reasons(config, state, rows).len() > 0 {
        "DRIFT: "@ + joined(drift_reasons(config, state, rows), "; "@)
    } else {
        ""@
    })
}

fn lists_name(rows: &Vec<ComposeService>, name: &str) -> (r: bool)
    ensures
        r == names_of(rows.deep_view()).contains(name@),
{
    let ghost names = names_of(rows.deep_view());
    let mut i: usize = 0;
    while i < rows.len()
        invariant
            names == names_of(rows.deep_view()),
            i <= rows@.len(),
            forall|j: int| 0 <= j < i ==> #[trigger] names[j] != name@,
        decreases rows@.len() - i,
    {
        assert(names[i as int] == shown_name(rows@[i as int].deep_view()));
        if same(rows[i].display_name(), name) {
            return true;
        }
        i = i + 1;
    }
    false
}

fn containers_alarm(config: &ProjectConfig, listed: &Option<Vec<ComposeService>>) -> (r: bool)
    ensures
        r == containers_alert(config.deep_view(), listed.deep_view()),
{
    let Some(rows) = listed else {
        return true;
    };
    let ghost views = rows.deep_view();
    let ghost view = config.deep_view();
    let ghost services = view.compose.services;
    if rows.len() == 0 {
        return true;
    }
    let mut i: usize = 0;
    while i < rows.len()
        invariant
            view == config.deep_view(),
            views == rows.deep_view(),
            listed.deep_view() == Some(views),
            i <= rows@.len(),
            forall|j: int| 0 <= j < i ==> !is_trouble(view, #[trigger] views[j]),
        decreases rows@.len() - i,
    {
        assert(views[i as int] == rows@[i as int].deep_view());
        if !same_ignoring_case(rows[i].state.as_str(), "running") && !expected_finished_migration(
            config,
            &rows[i],
        ) {
            assert(is_trouble(view, views[i as int]));
            return true;
        }
        i = i + 1;
    }
    let mut k: usize = 0;
    while k < config.compose.services.len()
        invariant
            view == config.deep_view(),
            services == config.compose.services.deep_view(),
            services == view.compose.services,
            views == rows.deep_view(),
            listed.deep_view() == Some(views),
            k <= config.compose.services@.len(),
            forall|j: int| 0 <= j < k ==> names_of(views).contains(#[trigger] services[j]),
        decreases config.compose.services@.len() - k,
    {
        if !lists_name(rows, config.compose.services[k].as_str()) {
            assert(!names_of(views).contains(services[k as int]));
            return true;
        }
        k = k + 1;
    }
    false
}

fn health_alarm(config: &ProjectConfig, project: &str, healths: &Vec<ServiceHealth>) -> (r: bool)
    ensures
        r == health_alert(config.deep_view(), project@, healths.deep_view()),
{
    let ghost views = healths.deep_view();
    let ghost probes = config.deep_view().service_health;
    let mut i: usize = 0;
    while i < healths.len()
        invariant
            views == healths.deep_view(),
            i <= healths@.len(),
            forall|j: int|
                0 <= j < i ==> !((#[trigger] views[j]).project == project@ && is_alarming(
                    views[j],
                )),
        decreases healths@.len() - i,
    {
        assert(views[i as int] == healths@[i as int].deep_view());
        let health = &healths[i];
        let unavailable = match health.message {
            Some(message) => same(message, "Container unavailable"),
            None => false,
        };
        if same(health.project.as_str(), project) && (health.status == Health::Degraded
            || health.status == Health::Unhealthy || unavailable) {
            assert(is_alarming(views[i as int]));
            return true;
        }
        i = i + 1;
    }
    let total: usize = config.service_health.len();
    let mut k: usize = 0;
    while k < total
        invariant
            views == healths.deep_view(),
            probes == config.deep_view().service_health,
            total == probes.len(),
            total == config.service_health.view().len(),
            k <= total,
            forall|j: int|
                0 <= j < k ==> !is_unmeasured(views, project@, (#[trigger] probes[j]).0),
        decreases total - k,
    {
        let name = config.service_health.name(k).as_str();
        assert(probes[k as int].0 == name@);
        let unknown = match find_measurement(healths, project, name) {
            Some(health) => health.status == Health::Unknown,
            None => true,
        };
        if unknown {
            assert(is_unmeasured(views, project@, probes[k as int].0));
            return true;
        }
        k = k + 1;
    }
    false
}

fn show_runtime(rows: &Option<Vec<ComposeService>>) -> (r: String)
    ensures
        r@ == runtime_text(rows.deep_view()),
{
    match rows {
        Some(rows) => {
            let ghost views = rows.deep_view();
            let mut running: usize = 0;
            let mut i: usize = 0;
            assert(views.take(0) =~= Seq::<ComposeServiceView>::empty());
            while i < rows.len()
                invariant
                    views == rows.deep_view(),
                    i <= rows@.len(),
                    running <= i,
                    running == running_count(views.take(i as int)),
                decreases rows@.len() - i,
            {
                assert(views.take(i + 1).drop_last() =~= views.take(i as int));
                assert(views.take(i + 1).last() == rows@[i as int].deep_view());
                if same_ignoring_case(rows[i].state.as_str(), "running") {
                    running = running + 1;
                }
                i = i + 1;
            }
            assert(views.take(i as int) =~= views);
            let mut out = to_decimal(running as u128);
            out.append(" running / ");
            out.append(to_decimal(rows.len() as u128).as_str());
            out.append(" containers");
            out
        },
        None => "containers unavailable".to_owned(),
    }
}

fn show_probes(healths: &Vec<ServiceHealth>, project: &str) -> (r: String)
    ensures
        r@ == joined(probe_texts(healths.deep_view(), project@), ","@),
{
    let ghost views = healths.deep_view();
    let mut out: Vec<String> = Vec::new();
    let mut i: usize = 0;
    assert(views.take(0) =~= Seq::<ServiceHealthView>::empty());
    assert(out.deep_view() =~= Seq::<Text>::empty());
    while i < healths.len()
        invariant
            views == healths.deep_view(),
            i <= healths@.len(),
            out.deep_view() == probe_texts(views.take(i as int), project@),
        decreases healths@.len() - i,
    {
        assert(views.take(i + 1).drop_last() =~= views.take(i as int));
        assert(views.take(i + 1).last() == healths@[i as int].deep_view());
        if same(healths[i].project.as_str(), project) {
            let mut text = healths[i].service.clone();
            text.append("=");
            text.append(healths[i].status.name());
            add_word(&mut out, text.as_str());
        }
        i = i + 1;
    }
    assert(views.take(i as int) =~= views);
    join(&out, ",")
}

fn show_tag(release: &Option<Release>, none: &str) -> (r: String)
    ensures
        r@ == tag_text(release.deep_view(), none@),
{
    match release {
        Some(release) => release.tag.clone(),
        None => none.to_owned(),
    }
}

fn show_attempt(attempt: &Option<BackupAttempt>) -> (r: String)
    ensures
        r@ == attempt_text(attempt.deep_view()),
{
    match attempt {
        Some(attempt) => {
            let mut out = attempt.result.label().to_owned();
            out.append(" @ ");
            out.append(format_timestamp(attempt.started_at_unix).as_str());
            out.append(" UTC");
            out
        },
        None => "none".to_owned(),
    }
}

fn show_last_deployment(state: &ProjectState, now: u64) -> (r: String)
    ensures
        r@ == deployment_text(state.deep_view(), now),
{
    match latest_release(state) {
        Some(release) => {
            let mut out = release.status.clone();
            out.append(" @ ");
            out.append(
                format_deployment_timestamp(now, release.deployed_at_unix).as_str(),
            );
            out
        },
        None => "none recorded".to_owned(),
    }
}

/// The line about a project in the overview.
pub fn overview(
    config: &ProjectConfig,
    name: &str,
    state: &ProjectState,
    rows: &Option<Vec<ComposeService>>,
    healths: &Vec<ServiceHealth>,
    now: u64,
    disk: Option<u64>,
) -> (r: String)
    ensures
        r@ == overview_line(
            config.deep_view(),
            name@,
            state.deep_view(),
            rows.deep_view(),
            healths.deep_view(),
            now,
            disk,
        ),
{
    let reasons = match rows {
        Some(rows) => drifts(config, state, rows),
        None => {
            let none: Vec<String> = Vec::new();
            assert(none.deep_view() =~= Seq::<Text>::empty());
            none
        },
    };
    assert(reasons.deep_view().len() == reasons@.len());
    let alert = containers_alarm(config, rows) || health_alarm(config, name, healths)
        || reasons.len() > 0 || state.pending.is_some();
    let mut out = if alert {
        "ALERT".to_owned()
    } else {
        "OK".to_owned()
    };
    out.append(" ");
    out.append(name);
    out.append(": ");
    out.append(show_tag(&state.current, "no deployment recorded").as_str());
    out.append(" (previous ");
    out.append(show_tag(&state.previous, "none").as_str());
    out.append("); deployment ");
    out.append(show_last_deployment(state, now).as_str());
    out.append("; ");
    out.append(show_runtime(rows).as_str());
    out.append("; probes ");
    out.append(show_probes(healths, name).as_str());
    out.append("; backup ");
    out.append(show_attempt(&state.last_backup).as_str());
    out.append(", off-site ");
    out.append(show_attempt(&state.last_offsite).as_str());
    out.append("; repo ");
    out.append(show_disk(disk).as_str());
    out.append("; ");
    if state.pending.is_some() {
        out.append("pending release; ");
    } else {
        out.append("");
    }
    if reasons.len() > 0 {
        let mut text = "DRIFT: ".to_owned();
        text.append(join(&reasons, "; ").as_str());
        out.append(text.as_str());
    } else {
        out.append("");
    }
    out
}

/// The line about a project that could not be looked at.
pub open spec fn not_inspectable_line(name: Text, error: ErrorView) -> Text {
    "ALERT "@ + name + ": project not inspectable ("@ + message_of(error) + ")"@
}

/// The line about a project whose state could not be read.
pub open spec fn unreadable_line(name: Text) -> Text {
    "ALERT "@ + name + ": state unreadable"@
}

/// The line about a project that could not be looked at.
pub fn not_inspectable(name: &str, error: &YardError) -> (r: String)
    ensures
        r@ == not_inspectable_line(name@, error.deep_view()),
{
    let mut out = "ALERT ".to_owned();
    out.append(name);
    out.append(": project not inspectable (");
    out.append(error.message().as_str());
    out.append(")");
    out
}

/// The line about a project whose state could not be read.
pub fn state_unreadable(name: &str) -> (r: String)
    ensures
        r@ == unreadable_line(name@),
{
    let mut out = "ALERT ".to_owned();
    out.append(name);
    out.append(": state unreadable");
    out
}

/// What was found of a configured project: it is a monitor of a URL, with the status that the URL
/// answered; it could not be looked at; its state could not be read; or it was loaded.
#[derive(Debug)]
pub enum Found {
    Monitor { url: String, status: Option<u16> },
    NotInspectable(YardError),
    StateUnreadable,
    Loaded {
        config: ProjectConfig,
        state: ProjectState,
        rows: Option<Vec<ComposeService>>,
        now: u64,
        disk: Option<u64>,
    },
}

#[verifier::ext_equal]
pub enum FoundView {
    Monitor { url: Text, status: Option<u16> },
    NotInspectable(ErrorView),
    StateUnreadable,
    Loaded {
        config: ConfigView,
        state: StateView,
        rows: Option<Seq<ComposeServiceView>>,
        now: u64,
        disk: Option<u64>,
    },
}

impl DeepView for Found {
    type V = FoundView;

    open spec fn deep_view(&self) -> FoundView {
        match self {
            Found::Monitor { url, status } => FoundView::Monitor { url: url@, status: *status },
            Found::NotInspectable(error) => FoundView::NotInspectable(error.deep_view()),
            Found::StateUnreadable => FoundView::StateUnreadable,
            Found::Loaded { config, state, rows, now, disk } => FoundView::Loaded {
                config: config.deep_view(),
                state: state.deep_view(),
                rows: rows.deep_view(),
                now: *now,
                disk: *disk,
            },
        }
    }
}

/// The line about what was found of a project.
pub open spec fn line_about(
    name: Text,
    found: FoundView,
    healths: Seq<ServiceHealthView>,
) -> Text {
    match found {
        FoundView::Monitor { url, status } => monitor::overview_line(name, url, status),
        FoundView::NotInspectable(error) => not_inspectable_line(name, error),
        FoundView::StateUnreadable => unreadable_line(name),
        FoundView::Loaded { config, state, rows, now, disk } => overview_line(
            config,
            name,
            state,
            rows,
            healths,
            now,
            disk,
        ),
    }
}

/// The line about what was found of a project.
pub fn line_of(name: &str, found: &Found, healths: &Vec<ServiceHealth>) -> (r: String)
    ensures
        r@ == line_about(name@, found.deep_view(), healths.deep_view()),
{
    match found {
        Found::Monitor { url, status } => monitor::overview(name, url.as_str(), *status),
        Found::NotInspectable(error) => not_inspectable(name, error),
        Found::StateUnreadable => state_unreadable(name),
        Found::Loaded { config, state, rows, now, disk } => overview(
            config,
            name,
            state,
            rows,
            healths,
            *now,
            *disk,
        ),
    }
}

/// A configured project, with what was found of it.
#[derive(Debug)]
pub struct Entry {
    pub name: String,
    pub found: Found,
}

/// The lines of the overview: one for each project, in their order, whatever was found of the
/// others.
pub open spec fn overview_lines(entries: Seq<Entry>, healths: Seq<ServiceHealthView>) -> Seq<Text> {
    if entries.len() == 0 {
        seq!["No projects configured"@]
    } else {
        entries.map_values(
            |entry: Entry| line_about(entry.name@, entry.found.deep_view(), healths),
        )
    }
}

/// The lines of the overview.
pub fn overview_of(entries: &Vec<Entry>, healths: &Vec<ServiceHealth>) -> (r: Vec<String>)
    ensures
        r.deep_view() == overview_lines(entries@, healths.deep_view()),
{
    let ghost all = overview_lines(entries@, healths.deep_view());
    let mut lines: Vec<String> = Vec::new();
    if entries.len() == 0 {
        add_word(&mut lines, "No projects configured");
        assert(lines.deep_view() =~= all);
        return lines;
    }
    let mut i: usize = 0;
    assert(lines.deep_view() =~= all.take(0));
    while i < entries.len()
        invariant
            entries@.len() > 0,
            all == overview_lines(entries@, healths.deep_view()),
            i <= entries@.len(),
            lines.deep_view() == all.take(i as int),
        decreases entries@.len() - i,
    {
        let line = line_of(entries[i].name.as_str(), &entries[i].found, healths);
        add_word(&mut lines, line.as_str());
        assert(all.take(i + 1) =~= all.take(i as int).push(line@));
        i = i + 1;
    }
    assert(all.take(i as int) =~= all);
    lines
}

/// A project that cannot be looked at, or whose state cannot be read, calls for attention; nothing
/// else is claimed of it.
pub proof fn law_unreadable_projects_alert(
    name: Text,
    found: FoundView,
    healths: Seq<ServiceHealthView>,
)
    requires
        found is NotInspectable || found is StateUnreadable,
    ensures
        begins(line_about(name, found, healths), "ALERT "@ + name + ": "@),
        found is StateUnreadable ==> line_about(name, found, healths) == "ALERT "@ + name
            + ": state unreadable"@,
{
    reveal_strlit(": ");
    reveal_strlit(": state unreadable");
    reveal_strlit(": project not inspectable (");
    let start = "ALERT "@ + name + ": "@;
    assert(line_about(name, found, healths).take(start.len() as int) =~= start);
}

/// A pending release, and a container that departs from the recorded releases, always call for
/// attention.
pub proof fn law_pending_and_drift_alert(
    config: ConfigView,
    project: Text,
    state: StateView,
    rows: Seq<ComposeServiceView>,
    healths: Seq<ServiceHealthView>,
    at: int,
)
    requires
        state.pending is Some || (0 <= at < rows.len() && drift_of(config, state, rows[at]) is Some),
    ensures
        needs_attention(config, project, state, Some(rows), healths),
{
    if state.pending is None {
        lemma_drift_is_listed(config, state, rows, at);
    }
}

proof fn lemma_drift_is_listed(
    config: ConfigView,
    state: StateView,
    rows: Seq<ComposeServiceView>,
    at: int,
)
    requires
        0 <= at < rows.len(),
        drift_of(config, state, rows[at]) is Some,
    ensures
        drifts_of(config, state, rows).len() > 0,
    decreases rows.len(),
{
    if at < rows.len() - 1 {
        lemma_drift_is_listed(config, state, rows.drop_last(), at);
    }
}

/// A container that is stopped calls for attention, unless it is the configured migration and
/// ended with code 0.
pub proof fn law_stopped_container_alerts(
    config: ConfigView,
    project: Text,
    state: StateView,
    rows: Seq<ComposeServiceView>,
    healths: Seq<ServiceHealthView>,
    at: int,
)
    requires
        0 <= at < rows.len(),
        !is_running(rows[at].state),
        !is_finished_migration(config, rows[at]),
    ensures
        needs_attention(config, project, state, Some(rows), healths),
{
    assert(is_trouble(config, rows[at]));
}

/// A configured probe without a measurement, or with an unknown one, calls for attention.
pub proof fn law_unknown_probe_alerts(
    config: ConfigView,
    project: Text,
    state: StateView,
    rows: Option<Seq<ComposeServiceView>>,
    healths: Seq<ServiceHealthView>,
    at: int,
)
    requires
        0 <= at < config.service_health.len(),
        is_unmeasured(healths, project, config.service_health[at].0),
    ensures
        needs_attention(config, project, state, rows, healths),
{
    assert(is_unmeasured(healths, project, config.service_health[at].0));
}

// ---------------------------------------------------------------------------------------------
// Disk use
// ---------------------------------------------------------------------------------------------

/// The bytes of files that take up numbers of blocks of 512 bytes.
pub open spec fn bytes_in(blocks: Seq<u64>) -> nat
    decreases blocks.len(),
{
    if blocks.len() == 0 {
        0
    } else {
        bytes_in(blocks.drop_last()) + 512 * blocks.last() as nat
    }
}

proof fn lemma_bytes_grow(blocks: Seq<u64>, n: int)
    requires
        0 <= n <= blocks.len(),
    ensures
        bytes_in(blocks.take(n)) <= bytes_in(blocks),
    decreases blocks.len() - n,
{
    if n == blocks.len() {
        assert(blocks.take(n) =~= blocks);
    } else {
        assert(blocks.take(n + 1).drop_last() =~= blocks.take(n));
        lemma_bytes_grow(blocks, n + 1);
    }
}

/// The bytes of a checkout, from the blocks that its files and directories take up. A number too
/// large to be held is held back at the greatest one.
pub fn project_disk(blocks: &Vec<u64>) -> (r: u64)
    ensures
        r == if bytes_in(blocks@) <= u64::MAX {
            bytes_in(blocks@) as u64
        } else {
            u64::MAX
        },
{
    let mut total: u64 = 0;
    let mut i: usize = 0;
    assert(blocks@.take(0) =~= Seq::<u64>::empty());
    while i < blocks.len()
        invariant
            i <= blocks@.len(),
            total == bytes_in(blocks@.take(i as int)),
        decreases blocks@.len() - i,
    {
        assert(blocks@.take(i + 1).drop_last() =~= blocks@.take(i as int));
        proof {
            lemma_bytes_grow(blocks@, i + 1);
        }
        let sum: u128 = total as u128 + 512 * blocks[i] as u128;
        if sum > u64::MAX as u128 {
            return u64::MAX;
        }
        total = sum as u64;
        i = i + 1;
    }
    assert(blocks@.take(i as int) =~= blocks@);
    total
}

// ---------------------------------------------------------------------------------------------
// What the overview is for
// ---------------------------------------------------------------------------------------------

/// Whether a measurement is the first of a service of a project.
pub open spec fn is_first_measurement(
    healths: Seq<ServiceHealthView>,
    project: Text,
    service: Text,
    k: int,
) -> bool {
    &&& 0 <= k < healths.len()
    &&& healths[k].project == project && healths[k].service == service
    &&& forall|j: int|
        0 <= j < k ==> (#[trigger] healths[j]).project != project || healths[j].service != service
}

proof fn lemma_first_measurement(
    healths: Seq<ServiceHealthView>,
    project: Text,
    service: Text,
)
    ensures
        measurement(healths, project, service) matches Some(health) ==> exists|k: int| #[trigger]
            is_first_measurement(healths, project, service, k) && healths[k] == health,
        forall|k: int| #[trigger]
            is_first_measurement(healths, project, service, k) ==> measurement(
                healths,
                project,
                service,
            ) == Some(healths[k]),
    decreases healths.len(),
{
    if healths.len() > 0 {
        let rest = healths.skip(1);
        lemma_first_measurement(rest, project, service);
        if healths[0].project == project && healths[0].service == service {
            assert(is_first_measurement(healths, project, service, 0));
            assert forall|k: int| #[trigger]
                is_first_measurement(healths, project, service, k) implies measurement(
                healths,
                project,
                service,
            ) == Some(healths[k]) by {
                if k > 0 {
                    assert(healths[0].project != project || healths[0].service != service);
                }
            }
        } else {
            if let Some(health) = measurement(healths, project, service) {
                let k = choose|k: int| #[trigger]
                    is_first_measurement(rest, project, service, k) && rest[k] == health;
                assert forall|j: int| 0 <= j < k + 1 implies (#[trigger] healths[j]).project
                    != project || healths[j].service != service by {
                    if j > 0 {
                        assert(rest[j - 1] == healths[j]);
                    }
                }
                assert(is_first_measurement(healths, project, service, k + 1));
            }
            assert forall|k: int| #[trigger]
                is_first_measurement(healths, project, service, k) implies measurement(
                healths,
                project,
                service,
            ) == Some(healths[k]) by {
                assert forall|j: int| 0 <= j < k - 1 implies (#[trigger] rest[j]).project != project
                    || rest[j].service != service by {
                    assert(rest[j] == healths[j + 1]);
                }
                assert(rest[k - 1] == healths[k]);
                assert(is_first_measurement(rest, project, service, k - 1));
            }
        }
    }
}

/// Whether a container is as it should be: it runs, or it is that of the migration service and has
/// exited with the code zero.
pub open spec fn is_in_order(config: ConfigView, row: ComposeServiceView) -> bool {
    ||| is_running(row.state)
    ||| {
        &&& config.deployment.migration_service == Some(
            if row.service.len() > 0 {
                row.service
            } else {
                row.name
            },
        )
        &&& lowercase(row.state) == lowercase("exited"@)
        &&& row.exit_code == Some(0i32)
    }
}

/// Whether a container is one of a service.
pub open spec fn is_of(row: ComposeServiceView, service: Text) -> bool {
    row.service == service && service.len() > 0 || row.service.len() == 0 && row.name == service
}

/// Whether all is well with a project: its containers could be listed, all of them are in order and
/// every configured service has one; no measurement of it is degraded or unhealthy or says that the
/// container is unavailable, and the first of every configured probe is healthy; no container runs
/// an unrecorded image; and no release is pending.
pub open spec fn is_well(
    config: ConfigView,
    project: Text,
    state: StateView,
    rows: Option<Seq<ComposeServiceView>>,
    healths: Seq<ServiceHealthView>,
) -> bool {
    &&& rows matches Some(list) && {
        &&& list.len() > 0
        &&& forall|i: int| 0 <= i < list.len() ==> is_in_order(config, #[trigger] list[i])
        &&& forall|i: int|
            0 <= i < config.compose.services.len() ==> exists|k: int|
                0 <= k < list.len() && is_of(
                    #[trigger] list[k],
                    #[trigger] config.compose.services[i],
                )
        &&& forall|i: int|
            0 <= i < list.len() ==> drift_of(config, state, #[trigger] list[i]) is None
    }
    &&& forall|i: int|
        0 <= i < healths.len() && (#[trigger] healths[i]).project == project ==> {
            &&& healths[i].status == Health::Healthy || healths[i].status == Health::Unknown
            &&& healths[i].message != Some("Container unavailable"@)
        }
    &&& forall|i: int|
        0 <= i < config.service_health.len() ==> exists|k: int|
            is_first_measurement(
                healths,
                project,
                (#[trigger] config.service_health[i]).0,
                k,
            ) && (#[trigger] healths[k]).status == Health::Healthy
    &&& state.pending is None
}

proof fn lemma_drifts_empty(
    config: ConfigView,
    state: StateView,
    rows: Seq<ComposeServiceView>,
)
    ensures
        drifts_of(config, state, rows).len() == 0 <==> forall|i: int|
            0 <= i < rows.len() ==> drift_of(config, state, #[trigger] rows[i]) is None,
    decreases rows.len(),
{
    if rows.len() > 0 {
        let shorter = rows.drop_last();
        lemma_drifts_empty(config, state, shorter);
        if forall|i: int| 0 <= i < rows.len() ==> drift_of(config, state, #[trigger] rows[i]) is None {
            assert forall|i: int| 0 <= i < shorter.len() implies drift_of(
                config,
                state,
                #[trigger] shorter[i],
            ) is None by {
                assert(shorter[i] == rows[i]);
            }
            assert(drift_of(config, state, rows[rows.len() - 1]) is None);
        }
        if drifts_of(config, state, rows).len() == 0 {
            assert forall|i: int| 0 <= i < rows.len() implies drift_of(
                config,
                state,
                #[trigger] rows[i],
            ) is None by {
                if i < shorter.len() {
                    assert(shorter[i] == rows[i]);
                }
            }
        }
    }
}

/// A project calls for attention exactly where something is not well with it.
pub proof fn law_attention_is_called_exactly_when_needed(
    config: ConfigView,
    project: Text,
    state: StateView,
    rows: Option<Seq<ComposeServiceView>>,
    healths: Seq<ServiceHealthView>,
)
    requires
        forall|i: int|
            0 <= i < config.compose.services.len() ==> (
            #[trigger] config.compose.services[i]).len() > 0,
    ensures
        needs_attention(config, project, state, rows, healths) <==> !is_well(
            config,
            project,
            state,
            rows,
            healths,
        ),
{
    let probes = config.service_health;
    assert forall|i: int| 0 <= i < probes.len() && is_well(
        config,
        project,
        state,
        rows,
        healths,
    ) implies !is_unmeasured(healths, project, (#[trigger] probes[i]).0) by {
        lemma_first_measurement(healths, project, probes[i].0);
        let k = choose|k: int|
            is_first_measurement(healths, project, probes[i].0, k) && (
            #[trigger] healths[k]).status == Health::Healthy;
        assert(is_first_measurement(healths, project, probes[i].0, k));
    }
    if !needs_attention(config, project, state, rows, healths) {
        assert forall|i: int| 0 <= i < probes.len() implies exists|k: int|
            is_first_measurement(healths, project, (#[trigger] probes[i]).0, k) && (
            #[trigger] healths[k]).status == Health::Healthy by {
            lemma_first_measurement(healths, project, probes[i].0);
            assert(!is_unmeasured(healths, project, probes[i].0));
            let k = choose|k: int| #[trigger]
                is_first_measurement(healths, project, probes[i].0, k) && healths[k]
                    == measurement(healths, project, probes[i].0)->0;
            assert(!is_alarming(healths[k]));
        }
        assert forall|i: int|
            0 <= i < healths.len() && (#[trigger] healths[i]).project == project implies (
        healths[i].status == Health::Healthy || healths[i].status == Health::Unknown)
            && healths[i].message != Some("Container unavailable"@) by {
            assert(!is_alarming(healths[i]));
        }
    }
    if let Some(list) = rows {
        lemma_drifts_empty(config, state, list);
        let names = names_of(list);
        assert forall|k: int| 0 <= k < list.len() implies is_in_order(config, #[trigger] list[k])
            == !is_trouble(config, list[k]) by {}
        assert forall|i: int| 0 <= i < config.compose.services.len() implies (names.contains(
            #[trigger] config.compose.services[i],
        ) <==> exists|k: int|
            0 <= k < list.len() && is_of(#[trigger] list[k], config.compose.services[i])) by {
            let service = config.compose.services[i];
            if names.contains(service) {
                let k = choose|k: int| 0 <= k < names.len() && names[k] == service;
                assert(is_of(list[k], service));
            }
            if exists|k: int| 0 <= k < list.len() && is_of(#[trigger] list[k], service) {
                let k = choose|k: int| 0 <= k < list.len() && is_of(#[trigger] list[k], service);
                assert(names[k] == service);
            }
        }
        if !needs_attention(config, project, state, rows, healths) {
            assert forall|i: int| 0 <= i < config.compose.services.len() implies exists|k: int|
                0 <= k < list.len() && is_of(
                    #[trigger] list[k],
                    #[trigger] config.compose.services[i],
                ) by {
                assert(names.contains(config.compose.services[i]));
            }
        }
    }
}

/// A measurement of a project that is degraded or unhealthy makes its line an alert, whatever else
/// was found.
pub proof fn law_unwell_measurements_alert(
    config: ConfigView,
    project: Text,
    state: StateView,
    rows: Option<Seq<ComposeServiceView>>,
    healths: Seq<ServiceHealthView>,
    now: u64,
    disk: Option<u64>,
    i: int,
)
    requires
        0 <= i < healths.len(),
        healths[i].project == project,
        healths[i].status == Health::Degraded || healths[i].status == Health::Unhealthy,
    ensures
        needs_attention(config, project, state, rows, healths),
        begins(
            overview_line(config, project, state, rows, healths, now, disk),
            "ALERT "@ + project + ": "@,
        ),
{
    assert(is_alarming(healths[i]));
    lemma_line_begins(config, project, state, rows, healths, now, disk);
}

proof fn lemma_begins_more(s: Text, t: Text, start: Text)
    requires
        begins(s, start),
    ensures
        begins(s + t, start),
{
    assert((s + t).take(start.len() as int) =~= s.take(start.len() as int));
}

/// The line of a project begins with the word for it and its name.
proof fn lemma_line_begins(
    config: ConfigView,
    project: Text,
    state: StateView,
    rows: Option<Seq<ComposeServiceView>>,
    healths: Seq<ServiceHealthView>,
    now: u64,
    disk: Option<u64>,
)
    ensures
        ({
            let line = overview_line(config, project, state, rows, healths, now, disk);
            &&& needs_attention(config, project, state, rows, healths) ==> begins(
                line,
                "ALERT "@ + project + ": "@,
            )
            &&& !needs_attention(config, project, state, rows, healths) ==> begins(
                line,
                "OK "@ + project + ": "@,
            )
        }),
{
    reveal_strlit("ALERT");
    reveal_strlit("ALERT ");
    reveal_strlit("OK");
    reveal_strlit("OK ");
    reveal_strlit(" ");
    let alert = needs_attention(config, project, state, rows, healths);
    let word = if alert {
        "ALERT"@
    } else {
        "OK"@
    };
    let start = if alert {
        "ALERT "@ + project + ": "@
    } else {
        "OK "@ + project + ": "@
    };
    assert("ALERT"@ + " "@ =~= "ALERT "@);
    assert("OK"@ + " "@ =~= "OK "@);
    let head = word + " "@ + project + ": "@;
    assert(head.take(start.len() as int) =~= start);
    lemma_line_parts(config, project, state, rows, healths, now, disk, head, start);
}

/// The pieces of the line of a project, put together one by one.
proof fn lemma_line_parts(
    config: ConfigView,
    project: Text,
    state: StateView,
    rows: Option<Seq<ComposeServiceView>>,
    healths: Seq<ServiceHealthView>,
    now: u64,
    disk: Option<u64>,
    head: Text,
    start: Text,
)
    requires
        head == (if needs_attention(config, project, state, rows, healths) {
            "ALERT"@
        } else {
            "OK"@
        }) + " "@ + project + ": "@,
        begins(head, start),
    ensures
        ({
            let line = overview_line(config, project, state, rows, healths, now, disk);
            &&& begins(line, start)
            &&& holds_part(line, ": "@ + tag_text(state.current, "no deployment recorded"@))
            &&& holds_part(line, " (previous "@ + tag_text(state.previous, "none"@))
            &&& holds_part(line, "); deployment "@ + deployment_text(state, now))
            &&& holds_part(line, "; "@ + runtime_text(rows))
            &&& holds_part(line, "; probes "@ + joined(probe_texts(healths, project), ","@))
            &&& holds_part(line, "; backup "@ + attempt_text(state.last_backup))
            &&& holds_part(line, ", off-site "@ + attempt_text(state.last_offsite))
            &&& holds_part(line, "; repo "@ + disk_text(disk))
            &&& state.pending is Some ==> holds_part(line, "pending release; "@)
            &&& drift_reasons(config, state, rows).len() > 0 ==> holds_part(
                line,
                "DRIFT: "@ + joined(drift_reasons(config, state, rows), "; "@),
            )
        }),
{
    let word = if needs_attention(config, project, state, rows, healths) {
        "ALERT"@
    } else {
        "OK"@
    };
    let s1 = head + tag_text(state.current, "no deployment recorded"@);
    lemma_holds_pair(
        word + " "@ + project,
        ": "@,
        tag_text(state.current, "no deployment recorded"@),
    );
    lemma_begins_more(head, tag_text(state.current, "no deployment recorded"@), start);
    let s2 = lemma_grow(s1, " (previous "@, tag_text(state.previous, "none"@), start);
    let s3 = lemma_grow(s2, "); deployment "@, deployment_text(state, now), start);
    let s4 = lemma_grow(s3, "; "@, runtime_text(rows), start);
    let s5 = lemma_grow(s4, "; probes "@, joined(probe_texts(healths, project), ","@), start);
    let s6 = lemma_grow(s5, "; backup "@, attempt_text(state.last_backup), start);
    let s7 = lemma_grow(s6, ", off-site "@, attempt_text(state.last_offsite), start);
    let s8 = lemma_grow(s7, "; repo "@, disk_text(disk), start);
    let pending = if state.pending is Some {
        "pending release; "@
    } else {
        ""@
    };
    let drift = if drift_reasons(config, state, rows).len() > 0 {
        "DRIFT: "@ + joined(drift_reasons(config, state, rows), "; "@)
    } else {
        ""@
    };
    let s9 = lemma_grow(s8, "; "@, pending, start);
    lemma_parts_stay(s8 + "; "@, pending);
    lemma_holds(s8 + "; "@, pending, Seq::empty());
    lemma_parts_stay(s9, drift);
    lemma_holds(s9, drift, Seq::empty());
    lemma_begins_more(s9, drift, start);
    assert(overview_line(config, project, state, rows, healths, now, disk) == s9 + drift);
}

proof fn lemma_grow(s: Text, x: Text, y: Text, start: Text) -> (r: Text)
    requires
        begins(s, start),
    ensures
        r == s + x + y,
        begins(r, start),
        holds_part(r, x + y),
        forall|part: Text| holds_part(s, part) ==> #[trigger] holds_part(r, part),
{
    lemma_begins_more(s, x, start);
    lemma_begins_more(s + x, y, start);
    lemma_holds_pair(s, x, y);
    lemma_parts_stay(s, x);
    lemma_parts_stay(s + x, y);
    let r = s + x + y;
    assert forall|part: Text| holds_part(s, part) implies #[trigger] holds_part(r, part) by {
        assert(holds_part(s + x, part));
    }
    r
}

/// The line of a project is an alert where something is not well, and says `OK` where all is; it
/// tells the tags of the current and the previous release, the last backups, the checkout, the
/// probes, a pending release and every drift.
pub proof fn law_overview_line_tells_the_facts(
    config: ConfigView,
    project: Text,
    state: StateView,
    rows: Option<Seq<ComposeServiceView>>,
    healths: Seq<ServiceHealthView>,
    now: u64,
    disk: Option<u64>,
)
    requires
        forall|i: int|
            0 <= i < config.compose.services.len() ==> (
            #[trigger] config.compose.services[i]).len() > 0,
    ensures
        ({
            let line = overview_line(config, project, state, rows, healths, now, disk);
            &&& is_well(config, project, state, rows, healths) ==> begins(
                line,
                "OK "@ + project + ": "@,
            )
            &&& !is_well(config, project, state, rows, healths) ==> begins(
                line,
                "ALERT "@ + project + ": "@,
            )
            &&& state.current matches Some(release) ==> holds_part(line, ": "@ + release.tag)
            &&& state.current is None ==> holds_part(line, ": "@ + "no deployment recorded"@)
            &&& state.previous matches Some(release) ==> holds_part(
                line,
                " (previous "@ + release.tag,
            )
            &&& state.last_backup matches Some(attempt) ==> holds_part(
                line,
                "; backup "@ + ((if attempt.result == BackupResult::Success {
                    "success"@
                } else {
                    "failure"@
                }) + " @ "@ + timestamp(attempt.started_at_unix) + " UTC"@),
            )
            &&& state.last_backup is None ==> holds_part(line, "; backup "@ + "none"@)
            &&& state.last_offsite matches Some(attempt) ==> holds_part(
                line,
                ", off-site "@ + ((if attempt.result == BackupResult::Success {
                    "success"@
                } else {
                    "failure"@
                }) + " @ "@ + timestamp(attempt.started_at_unix) + " UTC"@),
            )
            &&& state.last_offsite is None ==> holds_part(line, ", off-site "@ + "none"@)
            &&& disk matches Some(bytes) ==> holds_part(
                line,
                "; repo "@ + (decimal(bytes as nat) + " bytes"@),
            )
            &&& state.pending is Some ==> holds_part(line, "pending release; "@)
            &&& state.pending matches Some(release) ==> holds_part(
                line,
                "); deployment "@ + (release.status + " @ "@ + deployment_timestamp(
                    now,
                    release.deployed_at_unix,
                )),
            )
            &&& state.pending is None && state.current is Some ==> holds_part(
                line,
                "); deployment "@ + (state.current->0.status + " @ "@ + deployment_timestamp(
                    now,
                    state.current->0.deployed_at_unix,
                )),
            )
            &&& rows is None ==> holds_part(line, "; "@ + "containers unavailable"@)
            &&& rows matches Some(list) ==> holds_part(
                line,
                "; "@ + (decimal(running_count(list)) + " running / "@ + decimal(list.len())
                    + " containers"@),
            )
        }),
{
    law_attention_is_called_exactly_when_needed(config, project, state, rows, healths);
    lemma_line_begins(config, project, state, rows, healths, now, disk);
    let head = (if needs_attention(config, project, state, rows, healths) {
        "ALERT"@
    } else {
        "OK"@
    }) + " "@ + project + ": "@;
    assert(head.take(head.len() as int) =~= head);
    lemma_line_parts(config, project, state, rows, healths, now, disk, head, head);
}

/// Every measurement of a project stands among its probes with its status, and no other project's.
pub proof fn law_probes_are_told(healths: Seq<ServiceHealthView>, project: Text)
    ensures
        forall|text: Text|
            probe_texts(healths, project).contains(text) <==> exists|i: int|
                0 <= i < healths.len() && (#[trigger] healths[i]).project == project && text
                    == healths[i].service + "="@ + (match healths[i].status {
                    Health::Healthy => "Healthy"@,
                    Health::Degraded => "Degraded"@,
                    Health::Unhealthy => "Unhealthy"@,
                    Health::Unknown => "Unknown"@,
                }),
    decreases healths.len(),
{
    if healths.len() > 0 {
        let shorter = healths.drop_last();
        let last = healths.last();
        law_probes_are_told(shorter, project);
        let before = probe_texts(shorter, project);
        let all = probe_texts(healths, project);
        assert forall|text: Text|
            all.contains(text) <==> exists|i: int|
                0 <= i < healths.len() && (#[trigger] healths[i]).project == project && text
                    == healths[i].service + "="@ + health_name(healths[i].status) by {
            if all.contains(text) {
                let k = choose|k: int| 0 <= k < all.len() && all[k] == text;
                if k < before.len() {
                    assert(before[k] == text);
                    assert(before.contains(text));
                    let i = choose|i: int|
                        0 <= i < shorter.len() && (#[trigger] shorter[i]).project == project
                            && text == shorter[i].service + "="@ + health_name(
                            shorter[i].status,
                        );
                    assert(healths[i] == shorter[i]);
                } else {
                    assert(healths[healths.len() - 1] == last);
                }
            }
            if exists|i: int|
                0 <= i < healths.len() && (#[trigger] healths[i]).project == project && text
                    == healths[i].service + "="@ + health_name(healths[i].status) {
                let i = choose|i: int|
                    0 <= i < healths.len() && (#[trigger] healths[i]).project == project && text
                        == healths[i].service + "="@ + health_name(healths[i].status);
                if i < shorter.len() {
                    assert(shorter[i] == healths[i]);
                    assert(before.contains(text));
                    let k = choose|k: int| 0 <= k < before.len() && before[k] == text;
                    assert(all[k] == text);
                } else {
                    assert(all[all.len() - 1] == text);
                }
            }
        }
        assert forall|text: Text|
            all.contains(text) <==> exists|i: int|
                0 <= i < healths.len() && (#[trigger] healths[i]).project == project && text
                    == healths[i].service + "="@ + (match healths[i].status {
                    Health::Healthy => "Healthy"@,
                    Health::Degraded => "Degraded"@,
                    Health::Unhealthy => "Unhealthy"@,
                    Health::Unknown => "Unknown"@,
                }) by {
            assert(forall|i: int|
                0 <= i < healths.len() ==> health_name((#[trigger] healths[i]).status) == (
                match healths[i].status {
                    Health::Healthy => "Healthy"@,
                    Health::Degraded => "Degraded"@,
                    Health::Unhealthy => "Unhealthy"@,
                    Health::Unknown => "Unknown"@,
                }));
        }
    }
}

/// The number of running containers is that of the rows whose state is `running`: one more row
/// counts one where it runs, and nothing where it does not.
pub proof fn law_running_containers_are_counted(
    rows: Seq<ComposeServiceView>,
    row: ComposeServiceView,
)
    ensures
        running_count(Seq::empty()) == 0,
        running_count(rows.push(row)) == running_count(rows) + (if lowercase(row.state)
            == lowercase("running"@) {
            1nat
        } else {
            0nat
        }),
        running_count(rows) <= rows.len(),
    decreases rows.len(),
{
    assert(rows.push(row).drop_last() =~= rows);
    if rows.len() > 0 {
        law_running_containers_are_counted(rows.drop_last(), rows.last());
        assert(rows.drop_last().push(rows.last()) =~= rows);
    }
}

/// A running container of a configured service drifts where no recorded release accounts for its
/// image: none of the releases records the image for the service, and those without recorded images
/// are of another tag or repository. The reason names the service, and the image where it is known.
pub proof fn law_unrecorded_images_drift(
    config: ConfigView,
    state: StateView,
    row: ComposeServiceView,
)
    requires
        row.service.len() > 0,
        config.compose.services.contains(row.service),
        lowercase(row.state) == lowercase("running"@),
        forall|release: ReleaseView|
            (state.current == Some(release) || state.previous == Some(release) || state.pending
                == Some(release)) ==> !(#[trigger] release.services).contains(
                ServiceView { name: row.service, image: row.image },
            ) && (release.services.len() == 0 ==> row.image != config.image.name + ":"@
                + release.tag),
    ensures
        drift_of(config, state, row) matches Some(reason) && begins(reason, row.service),
        row.image.len() > 0 ==> holds_part(drift_of(config, state, row)->0, " runs "@ + row.image),
{
    if let Some(release) = state.current {
        assert(!release.services.contains(ServiceView { name: row.service, image: row.image }));
    }
    if let Some(release) = state.previous {
        assert(!release.services.contains(ServiceView { name: row.service, image: row.image }));
    }
    if let Some(release) = state.pending {
        assert(!release.services.contains(ServiceView { name: row.service, image: row.image }));
    }
    let name = row.service;
    let reason = drift_of(config, state, row)->0;
    let none = Seq::<char>::empty();
    assert(name.take(name.len() as int) =~= name);
    if row.image.len() == 0 {
        lemma_begins_more(name, " has an unknown running image"@, name);
    } else {
        let s = name + " runs "@ + row.image;
        lemma_begins_more(name, " runs "@, name);
        lemma_begins_more(name + " runs "@, row.image, name);
        lemma_holds_pair(name, " runs "@, row.image);
        if is_uncertain(state, row.image) {
            let a = ": cannot verify image against legacy release (configured repository "@;
            lemma_parts_stay(s, a);
            lemma_parts_stay(s + a, config.image.name);
            lemma_parts_stay(s + a + config.image.name, ")"@);
            lemma_begins_more(s, a, name);
            lemma_begins_more(s + a, config.image.name, name);
            lemma_begins_more(s + a + config.image.name, ")"@, name);
        } else if state.current is None && state.previous is None && state.pending is None {
            lemma_parts_stay(s, " without a recorded release"@);
            lemma_begins_more(s, " without a recorded release"@, name);
        } else {
            let b = if state.pending is Some {
                "/pending"@
            } else {
                ""@
            };
            lemma_parts_stay(s, " outside current/previous"@);
            lemma_parts_stay(s + " outside current/previous"@, b);
            lemma_parts_stay(s + " outside current/previous"@ + b, " release"@);
            lemma_begins_more(s, " outside current/previous"@, name);
            lemma_begins_more(s + " outside current/previous"@, b, name);
            lemma_begins_more(s + " outside current/previous"@ + b, " release"@, name);
        }
    }
}

/// A container that does not run has not drifted, and neither has one of a release without recorded
/// images that runs the configured image under the tag of that release.
pub proof fn law_no_drift_without_cause(
    config: ConfigView,
    state: StateView,
    row: ComposeServiceView,
)
    ensures
        lowercase(row.state) != lowercase("running"@) ==> drift_of(config, state, row) is None,
        row.image.len() > 0 && (state.current matches Some(release) && release.services.len() == 0
            && row.image == config.image.name + ":"@ + release.tag) ==> drift_of(
            config,
            state,
            row,
        ) is None,
{
}

// ---------------------------------------------------------------------------------------------
// What the report on one project says
// ---------------------------------------------------------------------------------------------

proof fn lemma_lines_stay(a: Seq<Text>, b: Seq<Text>)
    ensures
        forall|line: Text| a.contains(line) ==> #[trigger] (a + b).contains(line),
        forall|line: Text| b.contains(line) ==> #[trigger] (a + b).contains(line),
{
    assert forall|line: Text| a.contains(line) implies #[trigger] (a + b).contains(line) by {
        let k = choose|k: int| 0 <= k < a.len() && a[k] == line;
        assert((a + b)[k] == line);
    }
    assert forall|line: Text| b.contains(line) implies #[trigger] (a + b).contains(line) by {
        let k = choose|k: int| 0 <= k < b.len() && b[k] == line;
        assert((a + b)[a.len() + k] == line);
    }
}

proof fn lemma_contained(lines: Seq<Text>, k: int)
    requires
        0 <= k < lines.len(),
    ensures
        lines.contains(lines[k]),
{
}

/// The report names the project, its branch and the first characters of the commit that is checked
/// out, and the tag that the environment holds.
pub proof fn law_report_names_the_checkout(facts: Facts)
    ensures
        ({
            let lines = first_part(facts);
            &&& lines.contains("Project: "@ + facts.name@)
            &&& facts.branch@.len() > 0 ==> lines.contains("Branch:  "@ + facts.branch@)
            &&& facts.branch@.len() == 0 ==> lines.contains("Branch:  "@ + "(detached)"@)
            &&& lines.contains("HEAD:    "@ + tag_of(facts.head@))
            &&& facts.env_tag.deep_view() matches Some(tag) ==> lines.contains(
                "  "@ + padded_right("env"@, 9) + " "@ + tag,
            )
            &&& facts.env_tag.deep_view() is None ==> lines.contains(
                "  "@ + padded_right("env"@, 9) + " "@ + "not set"@,
            )
            &&& facts.state.deep_view().pending matches Some(release) ==> lines.contains(
                "  WARNING: "@ + release.status + " release not yet active; rollback to recover"@,
            )
        }),
{
    let state = facts.state.deep_view();
    let env = facts.env_tag.deep_view();
    let a = heading(facts.name@, facts.branch@, facts.head@);
    let b = release_section(state, env);
    lemma_contained(a, 0);
    lemma_contained(a, 1);
    lemma_contained(a, 2);
    lemma_lines_stay(a, b);
    let r1 = seq!["Release"@] + release_lines("current"@, state.current) + release_lines(
        "previous"@,
        state.previous,
    ) + release_lines("pending"@, state.pending);
    let line = "  "@ + padded_right("env"@, 9) + " "@ + (match env {
        Some(tag) => tag,
        None => "not set"@,
    });
    let r2 = seq![line];
    lemma_contained(r2, 0);
    lemma_lines_stay(r1, r2);
    let r3 = match state.pending {
        Some(pending) => seq![
            "  WARNING: "@ + pending.status + " release not yet active; rollback to recover"@,
        ],
        None => Seq::empty(),
    };
    lemma_lines_stay(r1 + r2, r3);
    if state.pending is Some {
        lemma_contained(r3, 0);
    }
    assert(b == r1 + r2 + r3);
}

/// The report shows the current, the previous and the pending release, each behind its own word,
/// with its revision, tag and status and the image of each of its services.
pub proof fn law_report_shows_the_releases(facts: Facts, release: ReleaseView, i: int)
    ensures
        ({
            let lines = first_part(facts);
            let state = facts.state.deep_view();
            let text = " "@ + tag_of(release.revision) + "  "@ + release.tag + " ("@
                + release.status + ")"@;
            &&& state.current == Some(release) ==> lines.contains(
                "  "@ + padded_right("current"@, 9) + text,
            )
            &&& state.previous == Some(release) ==> lines.contains(
                "  "@ + padded_right("previous"@, 9) + text,
            )
            &&& state.pending == Some(release) ==> lines.contains(
                "  "@ + padded_right("pending"@, 9) + text,
            )
            &&& 0 <= i < release.services.len() && (state.current == Some(release)
                || state.previous == Some(release) || state.pending == Some(release))
                ==> lines.contains(
                "    "@ + release.services[i].name + "  "@ + release.services[i].image,
            )
            &&& state.current is None ==> lines.contains(
                "  "@ + padded_right("current"@, 9) + " none"@,
            )
            &&& state.previous is None ==> lines.contains(
                "  "@ + padded_right("previous"@, 9) + " none"@,
            )
            &&& state.pending is None ==> lines.contains(
                "  "@ + padded_right("pending"@, 9) + " none"@,
            )
        }),
{
    let state = facts.state.deep_view();
    let env = facts.env_tag.deep_view();
    let a = heading(facts.name@, facts.branch@, facts.head@);
    let b = release_section(state, env);
    lemma_lines_stay(a, b);
    let r0 = seq!["Release"@];
    let r1 = release_lines("current"@, state.current);
    let r2 = release_lines("previous"@, state.previous);
    let r3 = release_lines("pending"@, state.pending);
    let line = "  "@ + padded_right("env"@, 9) + " "@ + (match env {
        Some(tag) => tag,
        None => "not set"@,
    });
    let r4 = seq![line];
    let r5 = match state.pending {
        Some(pending) => seq![
            "  WARNING: "@ + pending.status + " release not yet active; rollback to recover"@,
        ],
        None => Seq::empty(),
    };
    lemma_lines_stay(r0, r1);
    lemma_lines_stay(r0 + r1, r2);
    lemma_lines_stay(r0 + r1 + r2, r3);
    lemma_lines_stay(r0 + r1 + r2 + r3, r4);
    lemma_lines_stay(r0 + r1 + r2 + r3 + r4, r5);
    assert(b == r0 + r1 + r2 + r3 + r4 + r5);
    assert forall|x: Text| r1.contains(x) implies #[trigger] b.contains(x) by {
        assert((r0 + r1).contains(x));
        assert((r0 + r1 + r2).contains(x));
        assert((r0 + r1 + r2 + r3).contains(x));
        assert((r0 + r1 + r2 + r3 + r4).contains(x));
    }
    assert forall|x: Text| r2.contains(x) implies #[trigger] b.contains(x) by {
        assert((r0 + r1 + r2).contains(x));
        assert((r0 + r1 + r2 + r3).contains(x));
        assert((r0 + r1 + r2 + r3 + r4).contains(x));
    }
    assert forall|x: Text| r3.contains(x) implies #[trigger] b.contains(x) by {
        assert((r0 + r1 + r2 + r3).contains(x));
        assert((r0 + r1 + r2 + r3 + r4).contains(x));
    }
    lemma_release_lines("current"@, state.current, i);
    lemma_release_lines("previous"@, state.previous, i);
    lemma_release_lines("pending"@, state.pending, i);
}

proof fn lemma_release_lines(label: Text, release: Option<ReleaseView>, i: int)
    ensures
        ({
            let lines = release_lines(label, release);
            &&& release is None ==> lines.contains("  "@ + padded_right(label, 9) + " none"@)
            &&& release matches Some(release) ==> {
                &&& lines.contains(
                    "  "@ + padded_right(label, 9) + (" "@ + tag_of(release.revision) + "  "@
                        + release.tag + " ("@ + release.status + ")"@),
                )
                &&& 0 <= i < release.services.len() ==> lines.contains(
                    "    "@ + release.services[i].name + "  "@ + release.services[i].image,
                )
            }
        }),
{
    let lines = release_lines(label, release);
    lemma_contained(lines, 0);
    if let Some(release) = release {
        let p = "  "@ + padded_right(label, 9);
        let r = tag_of(release.revision);
        assert(p + (" "@ + r + "  "@ + release.tag + " ("@ + release.status + ")"@) =~= p + " "@ + r
            + "  "@ + release.tag + " ("@ + release.status + ")"@);
        if 0 <= i < release.services.len() {
            lemma_contained(lines, i + 1);
            assert(lines[i + 1] == "    "@ + release.services[i].name + "  "@
                + release.services[i].image);
        }
    }
}

proof fn lemma_second_part(config: ConfigView, facts: Facts)
    ensures
        ({
            let lines = second_part(config, facts);
            let state = facts.state.deep_view();
            &&& forall|x: Text|
                comparison(state, listing_view(facts.listing)).contains(x)
                    ==> #[trigger] lines.contains(x)
            &&& lines.contains(deployment_line(state, facts.now))
            &&& forall|x: Text|
                backup_section(config, state, facts.now).contains(x)
                    ==> #[trigger] lines.contains(x)
            &&& forall|x: Text|
                container_section(facts.rows.deep_view()).contains(x)
                    ==> #[trigger] lines.contains(x)
            &&& forall|x: Text|
                drift_section(config, state, facts.rows.deep_view()).contains(x)
                    ==> #[trigger] lines.contains(x)
            &&& forall|x: Text|
                health_section(
                    facts.name@,
                    config.compose.services,
                    facts.healths.deep_view(),
                    facts.measured_at_unix,
                    facts.now,
                ).contains(x) ==> #[trigger] lines.contains(x)
            &&& lines.contains("Disk (repo): "@ + disk_text(facts.disk))
        }),
{
    let lines = second_part(config, facts);
    let state = facts.state.deep_view();
    let a = comparison(state, listing_view(facts.listing));
    let b = seq![deployment_line(state, facts.now)];
    let c = backup_section(config, state, facts.now);
    let d = container_section(facts.rows.deep_view());
    let e = drift_section(config, state, facts.rows.deep_view());
    let f = health_section(
        facts.name@,
        config.compose.services,
        facts.healths.deep_view(),
        facts.measured_at_unix,
        facts.now,
    );
    let g = seq!["Disk (repo): "@ + disk_text(facts.disk), ""@];
    let s1 = a + b;
    let s2 = s1 + c;
    let s3 = s2 + d;
    let s4 = s3 + e;
    let s5 = s4 + f;
    assert(lines == s5 + g);
    lemma_contained(b, 0);
    lemma_contained(g, 0);
    lemma_lines_stay(a, b);
    lemma_lines_stay(s1, c);
    lemma_lines_stay(s2, d);
    lemma_lines_stay(s3, e);
    lemma_lines_stay(s4, f);
    lemma_lines_stay(s5, g);
    assert forall|x: Text| f.contains(x) implies #[trigger] lines.contains(x) by {
        assert(s5.contains(x));
    }
    assert forall|x: Text| e.contains(x) implies #[trigger] lines.contains(x) by {
        assert(s4.contains(x));
        assert(s5.contains(x));
    }
    assert forall|x: Text| d.contains(x) implies #[trigger] lines.contains(x) by {
        assert(s3.contains(x));
        assert(s4.contains(x));
        assert(s5.contains(x));
    }
    assert forall|x: Text| c.contains(x) implies #[trigger] lines.contains(x) by {
        assert(s2.contains(x));
        assert(s3.contains(x));
        assert(s4.contains(x));
        assert(s5.contains(x));
    }
    assert forall|x: Text| s1.contains(x) implies #[trigger] lines.contains(x) by {
        assert(s2.contains(x));
        assert(s3.contains(x));
        assert(s4.contains(x));
        assert(s5.contains(x));
    }
    assert forall|x: Text| a.contains(x) implies #[trigger] lines.contains(x) by {
        assert(s1.contains(x));
    }
    assert(s1.contains(b[0]));
}

/// The last deployment in the report is the pending release where there is one, and the current
/// otherwise.
pub proof fn law_report_dates_the_last_deployment(config: ConfigView, facts: Facts)
    ensures
        ({
            let lines = second_part(config, facts);
            let state = facts.state.deep_view();
            &&& state.pending matches Some(release) ==> lines.contains(
                "  Last deployment: "@ + (deployment_timestamp(facts.now, release.deployed_at_unix)
                    + " ("@ + release.status + ")"@),
            )
            &&& state.pending is None ==> (state.current matches Some(release) ==> lines.contains(
                "  Last deployment: "@ + (deployment_timestamp(facts.now, release.deployed_at_unix)
                    + " ("@ + release.status + ")"@),
            ))
            &&& state.pending is None && state.current is None ==> lines.contains(
                "  Last deployment: "@ + "none recorded"@,
            )
            &&& facts.disk matches Some(bytes) ==> lines.contains(
                "Disk (repo): "@ + (decimal(bytes as nat) + " bytes"@),
            )
            &&& facts.disk is None ==> lines.contains("Disk (repo): "@ + "unavailable"@)
        }),
{
    lemma_second_part(config, facts);
}

/// The report says that the containers match the release exactly where they run what it recorded
/// and no release is pending.
pub proof fn law_report_compares_with_the_release(
    config: ConfigView,
    facts: Facts,
    release: ReleaseView,
    rows: Seq<JsonView>,
)
    requires
        facts.state.deep_view().current == Some(release),
        release.services.len() > 0,
        listing_view(facts.listing) matches Ok(output) && rows_of(output) == Ok::<
            Seq<JsonView>,
            Text,
        >(rows),
    ensures
        ({
            let lines = second_part(config, facts);
            let report = " — "@ + release_report(rows, release.services);
            &&& release_runs(rows, release.services) && facts.state.deep_view().pending is None
                ==> lines.contains("  Docker: "@ + "matched"@ + report)
            &&& !release_runs(rows, release.services) || facts.state.deep_view().pending is Some
                ==> lines.contains("  Docker: "@ + "MISMATCH"@ + report)
        }),
{
    lemma_second_part(config, facts);
    let state = facts.state.deep_view();
    let found = comparison(state, listing_view(facts.listing));
    lemma_contained(found, 0);
    let report = release_report(rows, release.services);
    assert("  Docker: "@ + "matched"@ + (" — "@ + report) =~= "  Docker: "@ + "matched"@ + " — "@
        + report);
    assert("  Docker: "@ + "MISMATCH"@ + (" — "@ + report) =~= "  Docker: "@ + "MISMATCH"@ + " — "@
        + report);
}

/// The report tells of the last backup and of the last copy off the host how each went, how long
/// ago it started, where it went to, how long it took and when it started.
pub proof fn law_report_tells_of_the_backups(
    config: ConfigView,
    facts: Facts,
    attempt: AttemptView,
)
    ensures
        ({
            let lines = second_part(config, facts);
            let state = facts.state.deep_view();
            let told = (if attempt.result == BackupResult::Success {
                "success"@
            } else {
                "failure"@
            }) + " — "@ + age_text(facts.now, attempt.started_at_unix) + " — "@ + (
            match attempt.destination {
                Some(destination) => destination,
                None => "unknown destination"@,
            }) + " ("@ + decimal(attempt.duration_ms as nat) + " ms) [started "@ + timestamp(
                attempt.started_at_unix,
            ) + " UTC]"@;
            let offsite = config.backup is Some && config.backup->0.offsite_command is Some;
            &&& state.last_backup == Some(attempt) ==> lines.contains("  "@ + "Local"@ + ": "@ + told)
            &&& state.last_backup is None ==> lines.contains("  No backup recorded"@)
            &&& offsite && state.last_offsite == Some(attempt) ==> lines.contains(
                "  "@ + "Off-site"@ + ": "@ + told,
            )
            &&& offsite && state.last_offsite is None ==> lines.contains(
                "  Off-site: no copy recorded for the last local backup"@,
            )
            &&& !offsite ==> lines.contains("  Off-site: not configured"@)
        }),
{
    lemma_second_part(config, facts);
    let state = facts.state.deep_view();
    let section = backup_section(config, state, facts.now);
    lemma_contained(section, 2);
    lemma_contained(section, 3);
    lemma_backup_line("Local"@, attempt, facts.now);
    lemma_backup_line("Off-site"@, attempt, facts.now);
}

proof fn lemma_backup_line(label: Text, attempt: AttemptView, now: u64)
    ensures
        backup_line(label, attempt, now) == "  "@ + label + ": "@ + ((if attempt.result
            == BackupResult::Success {
            "success"@
        } else {
            "failure"@
        }) + " — "@ + age_text(now, attempt.started_at_unix) + " — "@ + (
        match attempt.destination {
            Some(destination) => destination,
            None => "unknown destination"@,
        }) + " ("@ + decimal(attempt.duration_ms as nat) + " ms) [started "@ + timestamp(
            attempt.started_at_unix,
        ) + " UTC]"@),
{
    let p = "  "@ + label + ": "@;
    let a = label_of(attempt.result);
    let b = age_text(now, attempt.started_at_unix);
    let c = match attempt.destination {
        Some(destination) => destination,
        None => "unknown destination"@,
    };
    let d = decimal(attempt.duration_ms as nat);
    let e = timestamp(attempt.started_at_unix);
    let t1 = a + " — "@ + b;
    let t2 = t1 + " — "@ + c;
    let t3 = t2 + " ("@ + d;
    let t4 = t3 + " ms) [started "@ + e;
    assert(p + a + " — "@ + b =~= p + t1);
    assert(p + t1 + " — "@ + c =~= p + t2);
    assert(p + t2 + " ("@ + d =~= p + t3);
    assert(p + t3 + " ms) [started "@ + e =~= p + t4);
    assert(p + t4 + " UTC]"@ =~= p + (t4 + " UTC]"@));
}

/// The report shows every container with the name of its service, its health where it has one and
/// its state otherwise, and its image.
pub proof fn law_report_shows_the_containers(
    config: ConfigView,
    facts: Facts,
    rows: Seq<ComposeServiceView>,
    i: int,
)
    requires
        facts.rows.deep_view() == Some(rows),
        0 <= i < rows.len(),
    ensures
        exists|line: Text| #[trigger]
            second_part(config, facts).contains(line) && {
                let name = if rows[i].service.len() > 0 {
                    rows[i].service
                } else {
                    rows[i].name
                };
                let health = if rows[i].health.len() > 0 {
                    rows[i].health
                } else {
                    rows[i].state
                };
                &&& begins(line, "  "@ + name)
                &&& holds_part(line, "  "@ + health)
                &&& rows[i].image.len() > 0 ==> ends(line, "  "@ + rows[i].image)
                &&& rows[i].image.len() == 0 ==> ends(line, "  "@ + "-"@)
            },
{
    lemma_second_part(config, facts);
    let section = container_section(Some(rows));
    let n = column(names_of(rows), 7);
    let m = column(statuses_of(rows), 6);
    let line = container_line(rows[i], n, m);
    assert(section[i + 2] == line);
    lemma_contained(section, i + 2);
    assert(second_part(config, facts).contains(line));
    lemma_padding(shown_name(rows[i]), n);
    lemma_padding(shown_status(rows[i]), m);
    let a = "  "@ + padded_right(shown_name(rows[i]), n);
    let status = padded_right(shown_status(rows[i]), m);
    let health = shown_status(rows[i]);
    let image = shown_image(rows[i]);
    let start = "  "@ + shown_name(rows[i]);
    assert(line.take(start.len() as int) =~= start) by {
        assert(a.take(start.len() as int) =~= start);
        assert(line.take(start.len() as int) =~= a.take(start.len() as int));
    }
    let rest = status.skip(health.len() as int);
    assert(status =~= health + rest);
    assert(line =~= a + ("  "@ + health) + (rest + "  "@ + image));
    lemma_holds(a, "  "@ + health, rest + "  "@ + image);
    let end = "  "@ + image;
    assert(line.skip(line.len() - end.len()) =~= end);
}

proof fn lemma_padding(s: Text, width: nat)
    ensures
        padded_right(s, width).len() >= s.len(),
        padded_right(s, width).take(s.len() as int) == s,
    decreases width - s.len(),
{
    if s.len() < width {
        lemma_padding(s.push(' '), width);
        let padded = padded_right(s, width);
        assert(padded.take(s.len() as int) =~= padded.take(s.len() as int + 1).take(
            s.len() as int,
        ));
    }
    assert(padded_right(s, width).take(s.len() as int) =~= s);
}

proof fn lemma_drift_listed(
    config: ConfigView,
    state: StateView,
    rows: Seq<ComposeServiceView>,
    i: int,
    reason: Text,
)
    requires
        0 <= i < rows.len(),
        drift_of(config, state, rows[i]) == Some(reason),
    ensures
        drifts_of(config, state, rows).contains(reason),
    decreases rows.len(),
{
    let all = drifts_of(config, state, rows);
    let shorter = rows.drop_last();
    if i < shorter.len() {
        lemma_drift_listed(config, state, shorter, i, reason);
        let before = drifts_of(config, state, shorter);
        let k = choose|k: int| 0 <= k < before.len() && before[k] == reason;
        assert(all[k] == reason);
    } else {
        assert(all[all.len() - 1] == reason);
    }
}

/// A container that has drifted is told of with its reason in the report, and in the overview.
pub proof fn law_drift_is_told(
    config: ConfigView,
    facts: Facts,
    rows: Seq<ComposeServiceView>,
    i: int,
    reason: Text,
    project: Text,
    healths: Seq<ServiceHealthView>,
    now: u64,
    disk: Option<u64>,
)
    requires
        facts.rows.deep_view() == Some(rows),
        0 <= i < rows.len(),
        drift_of(config, facts.state.deep_view(), rows[i]) == Some(reason),
    ensures
        second_part(config, facts).contains("  DRIFT: "@ + reason),
        holds_part(
            overview_line(
                config,
                project,
                facts.state.deep_view(),
                Some(rows),
                healths,
                now,
                disk,
            ),
            reason,
        ),
{
    let state = facts.state.deep_view();
    lemma_second_part(config, facts);
    lemma_drift_listed(config, state, rows, i, reason);
    let all = drifts_of(config, state, rows);
    let k = choose|k: int| 0 <= k < all.len() && all[k] == reason;
    let section = drift_section(config, state, Some(rows));
    assert(section[k] == "  DRIFT: "@ + reason);
    lemma_contained(section, k);
    lemma_joined_holds(all, "; "@, k);
    lemma_parts_stay("DRIFT: "@, joined(all, "; "@));
    let head = (if needs_attention(config, project, state, Some(rows), healths) {
        "ALERT"@
    } else {
        "OK"@
    }) + " "@ + project + ": "@;
    assert(head.take(head.len() as int) =~= head);
    lemma_line_parts(config, project, state, Some(rows), healths, now, disk, head, head);
    lemma_holds_inner(
        overview_line(config, project, state, Some(rows), healths, now, disk),
        "DRIFT: "@ + joined(all, "; "@),
        reason,
    );
}

/// The report says of every configured service what its first measurement found, and that it is
/// unknown where there is none.
pub proof fn law_report_tells_the_health(config: ConfigView, facts: Facts, i: int, k: int)
    requires
        0 <= i < config.compose.services.len(),
    ensures
        ({
            let service = config.compose.services[i];
            let healths = facts.healths.deep_view();
            &&& is_first_measurement(healths, facts.name@, service, k) ==> exists|line: Text|
                #[trigger]
                second_part(config, facts).contains(line) && {
                    &&& begins(
                        line,
                        "  "@ + service + ": "@ + (match healths[k].status {
                            Health::Healthy => "Healthy"@,
                            Health::Degraded => "Degraded"@,
                            Health::Unhealthy => "Unhealthy"@,
                            Health::Unknown => "Unknown"@,
                        }),
                    )
                    &&& healths[k].message matches Some(message) ==> ends(
                        line,
                        " — "@ + message,
                    )
                    &&& healths[k].age_seconds matches Some(age) ==> holds_part(
                        line,
                        " (heartbeat age: "@ + (decimal(age as nat) + " s"@),
                    )
                }
            &&& (forall|j: int|
                0 <= j < healths.len() ==> (#[trigger] healths[j]).project != facts.name@
                    || healths[j].service != service) ==> second_part(config, facts).contains(
                "  "@ + service + ": Unknown — measurement unavailable"@,
            )
        }),
{
    lemma_second_part(config, facts);
    let service = config.compose.services[i];
    let healths = facts.healths.deep_view();
    lemma_first_measurement(healths, facts.name@, service);
    let section = health_section(
        facts.name@,
        config.compose.services,
        healths,
        facts.measured_at_unix,
        facts.now,
    );
    let line = health_line(healths, facts.name@, service, facts.measured_at_unix, facts.now);
    assert(section[i + 1] == line);
    lemma_contained(section, i + 1);
    assert(second_part(config, facts).contains(line));
    if is_first_measurement(healths, facts.name@, service, k) {
        let health = healths[k];
        let start = "  "@ + service + ": "@ + health_name(health.status);
        let age = match health.age_seconds {
            Some(age) => decimal(age as nat) + " s"@,
            None => "n/a"@,
        };
        let end = match health.message {
            Some(message) => " — "@ + message,
            None => ""@,
        };
        assert(start.take(start.len() as int) =~= start);
        let t1 = lemma_grow(start, " — measured "@, age_text(facts.now, facts.measured_at_unix), start);
        let t2 = lemma_grow(t1, " (heartbeat age: "@, age, start);
        let t3 = lemma_grow(t2, ")"@, end, start);
        assert(line == t3);
        assert(line.skip(line.len() - end.len()) =~= end);
    } else {
        if measurement(healths, facts.name@, service) is Some {
            let j = choose|j: int| #[trigger]
                is_first_measurement(healths, facts.name@, service, j) && healths[j]
                    == measurement(healths, facts.name@, service)->0;
            assert(healths[j].project == facts.name@ && healths[j].service == service);
        }
    }
}

/// A block of a file is 512 bytes.
pub proof fn law_blocks_are_512_bytes(blocks: Seq<u64>, more: u64)
    ensures
        bytes_in(Seq::empty()) == 0,
        bytes_in(blocks.push(more)) == bytes_in(blocks) + 512 * more,
{
    assert(blocks.push(more).drop_last() =~= blocks);
}

/// Every project has its own line in the overview, in the order of the projects.
pub proof fn law_overview_has_a_line_for_every_project(
    entries: Seq<Entry>,
    healths: Seq<ServiceHealthView>,
    i: int,
)
    requires
        0 <= i < entries.len(),
    ensures
        overview_lines(entries, healths).len() == entries.len(),
        entries[i].found.deep_view() is StateUnreadable ==> begins(
            overview_lines(entries, healths)[i],
            "ALERT "@ + entries[i].name@ + ": "@,
        ),
        entries[i].found.deep_view() matches FoundView::NotInspectable(error) ==> begins(
            overview_lines(entries, healths)[i],
            "ALERT "@ + entries[i].name@ + ": "@,
        ) && holds_part(overview_lines(entries, healths)[i], message_of(error)),
        entries[i].found.deep_view() matches FoundView::Loaded { config, state, rows, now, disk }
            ==> overview_lines(entries, healths)[i] == overview_line(
            config,
            entries[i].name@,
            state,
            rows,
            healths,
            now,
            disk,
        ),
{
    let name = entries[i].name@;
    let start = "ALERT "@ + name + ": "@;
    reveal_strlit(": ");
    reveal_strlit(": state unreadable");
    reveal_strlit(": project not inspectable (");
    assert(unreadable_line(name).take(start.len() as int) =~= start);
    if let FoundView::NotInspectable(error) = entries[i].found.deep_view() {
        let line = not_inspectable_line(name, error);
        let s = "ALERT "@ + name + ": project not inspectable ("@;
        assert(s.take(start.len() as int) =~= start);
        assert(line.take(start.len() as int) =~= s.take(start.len() as int));
        lemma_holds(s, message_of(error), ")"@);
    }
}

/// A column is as wide as the longest of its texts, and at least as wide as was asked for.
pub proof fn law_columns_hold_the_longest(texts: Seq<Text>, least: nat)
    ensures
        column(texts, least) >= least,
        forall|i: int|
            0 <= i < texts.len() ==> byte_length(#[trigger] texts[i]) <= column(texts, least),
        column(texts, least) == least || exists|i: int|
            0 <= i < texts.len() && byte_length(#[trigger] texts[i]) == column(texts, least),
    decreases texts.len(),
{
    if texts.len() > 0 {
        let shorter = texts.drop_last();
        law_columns_hold_the_longest(shorter, least);
        assert forall|i: int| 0 <= i < texts.len() implies byte_length(#[trigger] texts[i])
            <= column(texts, least) by {
            if i < shorter.len() {
                assert(byte_length(shorter[i]) <= column(shorter, least));
            }
        }
        if column(texts, least) == column(shorter, least) && column(shorter, least) != least {
            let i = choose|i: int|
                0 <= i < shorter.len() && byte_length(#[trigger] shorter[i]) == column(
                    shorter,
                    least,
                );
            assert(byte_length(texts[i]) == column(texts, least));
        } else if column(texts, least) != column(shorter, least) {
            assert(byte_length(texts[texts.len() - 1]) == column(texts, least));
        }
    }
}

/// The containers stand in columns of at least seven and six characters, for their names and for
/// how they are.
pub proof fn law_containers_stand_in_columns(rows: Seq<ComposeServiceView>, i: int)
    requires
        0 <= i < rows.len(),
    ensures
        container_section(Some(rows)).len() == rows.len() + 2,
        container_section(Some(rows))[i + 2] == "  "@ + padded_right(
            shown_name(rows[i]),
            column(names_of(rows), 7),
        ) + "  "@ + padded_right(shown_status(rows[i]), column(statuses_of(rows), 6)) + "  "@
            + shown_image(rows[i]),
        container_section(None) == seq![""@, "Docker Compose"@, "  unavailable [Unknown]"@],
        container_section(Some(Seq::empty())) == seq![
            ""@,
            "Docker Compose"@,
            "  (no containers)"@,
        ],
{
    assert(container_section(None) =~= seq![""@, "Docker Compose"@, "  unavailable [Unknown]"@]);
    assert(container_section(Some(Seq::empty())) =~= seq![
        ""@,
        "Docker Compose"@,
        "  (no containers)"@,
    ]);
}

proof fn lemma_filled(lines: Seq<Text>)
    ensures
        filled(lines) == lines.filter(|line: Text| !is_blank(line)),
    decreases lines.len(),
{
    reveal(Seq::filter);
    if lines.len() > 0 {
        lemma_filled(lines.drop_last());
    }
}

/// A listing is empty exactly where nothing but white space was written; otherwise its rows are the
/// lines that are not blank, in their order.
pub proof fn law_listings_hold_their_filled_lines(output: Text)
    ensures
        listing_of(output) is Empty <==> is_blank(output),
        listing_of(output) matches ListingView::Rows { whole, lines } ==> whole == trimmed(output)
            && lines == lines_of(trimmed(output)).filter(|line: Text| !is_blank(line)),
{
    law_trimming_takes_white_space_only(output);
    lemma_filled(lines_of(trimmed(output)));
    let whole = trimmed(output);
    if whole.len() > 0 && is_blank(output) {
        let (before, behind) = choose|before: Text, behind: Text|
            is_blank(before) && is_blank(behind) && output == #[trigger] (before + whole + behind);
        assert(output[before.len() as int] == whole[0]);
    }
    if whole.len() == 0 {
        let (before, behind) = choose|before: Text, behind: Text|
            is_blank(before) && is_blank(behind) && output == #[trigger] (before + whole + behind);
        assert forall|i: int| 0 <= i < output.len() implies is_space(#[trigger] output[i]) by {
            if i < before.len() {
                assert(output[i] == before[i]);
            } else {
                assert(output[i] == behind[i - before.len()]);
            }
        }
    }
}

/// The report fails over its comparison exactly where a current release with recorded images is
/// there to compare and the containers could not be listed or read; it says why.
pub proof fn law_comparisons_fail_openly(
    state: StateView,
    release: ReleaseView,
    output: Text,
    error: ErrorView,
)
    requires
        state.current == Some(release),
    ensures
        release.services.len() == 0 ==> comparison_fault(state, Err(error)) is None
            && comparison_fault(state, Ok(output)) is None,
        release.services.len() > 0 ==> comparison_fault(state, Err(error)) == Some(
            ErrorView::Config("Compose unavailable: "@ + message_of(error)),
        ),
        release.services.len() > 0 ==> (comparison_fault(state, Ok(output)) is None <==> rows_of(
            output,
        ) is Ok),
{
}

} // verus!
