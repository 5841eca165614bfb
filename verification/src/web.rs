//! The decisions of the status page.

use vstd::prelude::*;

use crate::command::add_word;
use crate::json::{document, member, member_text, parse, Json, JsonView};
use crate::number::{decimal, number_up_to, parse_u64, to_decimal};
use crate::order::{in_order, sorted};
use crate::project::{manifest_names, names_of};
use crate::service_health::{health_of_age, heartbeat_health, Health, Thresholds};
use crate::state::{AttemptView, BackupAttempt, BackupResult};
use crate::text::{copy_option, empty, same, same_option, trim, trimmed, Text};
use crate::url::{parts, url_of, UrlParts, UrlView};

verus! {

// ---------------------------------------------------------------------------------------------
// Service measurements
// ---------------------------------------------------------------------------------------------

/// A measurement of a service, as the page gets it from the host snapshot.
#[derive(Debug)]
pub struct Measured {
    pub project: String,
    pub service: String,
    pub status: Health,
    pub kind: Option<String>,
    pub latency_ms: Option<u64>,
    pub age_seconds: Option<u64>,
    pub heartbeat_at_unix: Option<u64>,
    pub max_age_seconds: Option<u64>,
    pub crit_multiplier: Option<u64>,
    pub message: Option<String>,
}

#[verifier::ext_equal]
pub struct MeasuredView {
    pub project: Text,
    pub service: Text,
    pub status: Health,
    pub kind: Option<Text>,
    pub latency_ms: Option<u64>,
    pub age_seconds: Option<u64>,
    pub heartbeat_at_unix: Option<u64>,
    pub max_age_seconds: Option<u64>,
    pub crit_multiplier: Option<u64>,
    pub message: Option<Text>,
}

impl DeepView for Measured {
    type V = MeasuredView;

    open spec fn deep_view(&self) -> MeasuredView {
        MeasuredView {
            project: self.project@,
            service: self.service@,
            status: self.status,
            kind: self.kind.deep_view(),
            latency_ms: self.latency_ms,
            age_seconds: self.age_seconds,
            heartbeat_at_unix: self.heartbeat_at_unix,
            max_age_seconds: self.max_age_seconds,
            crit_multiplier: self.crit_multiplier,
            message: self.message.deep_view(),
        }
    }
}

impl Clone for Measured {
    fn clone(&self) -> (r: Self)
        ensures
            r.deep_view() == self.deep_view(),
    {
        Measured {
            project: self.project.clone(),
            service: self.service.clone(),
            status: self.status,
            kind: copy_option(&self.kind),
            latency_ms: self.latency_ms,
            age_seconds: self.age_seconds,
            heartbeat_at_unix: self.heartbeat_at_unix,
            max_age_seconds: self.max_age_seconds,
            crit_multiplier: self.crit_multiplier,
            message: copy_option(&self.message),
        }
    }
}

/// The thresholds for a heartbeat.
pub open spec fn heartbeat_thresholds(multiplier: u64) -> Thresholds {
    Thresholds { http_warn_ms: 0, http_crit_ms: 0, heartbeat_crit_multiplier: multiplier }
}

/// A measurement as it stands at a later time. A heartbeat has aged; one whose time or limits are
/// not known is not healthy any more. Other measurements stay.
pub open spec fn aged(service: MeasuredView, now: u64) -> MeasuredView {
    if service.kind != Some("heartbeat"@) {
        service
    } else {
        match (service.heartbeat_at_unix, service.max_age_seconds, service.crit_multiplier) {
            (Some(stamp), Some(max), Some(multiplier)) => if max > 0 && multiplier >= 2 {
                if stamp <= now {
                    MeasuredView {
                        age_seconds: Some((now - stamp) as u64),
                        status: health_of_age(
                            (now - stamp) as nat,
                            max as nat,
                            heartbeat_thresholds(multiplier),
                        ),
                        ..service
                    }
                } else {
                    MeasuredView { age_seconds: None, status: Health::Unknown, ..service }
                }
            } else {
                doubted(service)
            },
            _ => doubted(service),
        }
    }
}

/// A measurement that cannot be brought up to date: what was healthy is unknown.
pub open spec fn doubted(service: MeasuredView) -> MeasuredView {
    MeasuredView {
        status: if service.status == Health::Healthy {
            Health::Unknown
        } else {
            service.status
        },
        ..service
    }
}

/// Brings a measurement up to date.
pub fn age(service: &mut Measured, now: u64)
    ensures
        final(service).deep_view() == aged(old(service).deep_view(), now),
{
    if !same_option(&service.kind, "heartbeat") {
        return;
    }
    match (service.heartbeat_at_unix, service.max_age_seconds, service.crit_multiplier) {
        (Some(stamp), Some(max), Some(multiplier)) if max > 0 && multiplier >= 2 => {
            if stamp <= now {
                let seconds: u64 = now - stamp;
                service.age_seconds = Some(seconds);
                service.status = heartbeat_health(
                    seconds,
                    max,
                    Thresholds {
                        http_warn_ms: 0,
                        http_crit_ms: 0,
                        heartbeat_crit_multiplier: multiplier,
                    },
                );
            } else {
                service.status = Health::Unknown;
                service.age_seconds = None;
            }
        },
        _ => {
            if service.status == Health::Healthy {
                service.status = Health::Unknown;
            }
        },
    }
}

/// Brings all measurements up to date.
pub fn age_all(services: &mut Vec<Measured>, now: u64)
    ensures
        final(services).deep_view() == old(services).deep_view().map_values(
            |service: MeasuredView| aged(service, now),
        ),
{
    let ghost start = services.deep_view();
    let ghost all = start.map_values(|service: MeasuredView| aged(service, now));
    let total: usize = services.len();
    let mut i: usize = 0;
    while i < total
        invariant
            start.len() == total,
            all == start.map_values(|service: MeasuredView| aged(service, now)),
            services@.len() == total,
            i <= total,
            forall|j: int| 0 <= j < i ==> (#[trigger] services@[j]).deep_view() == all[j],
            forall|j: int| i <= j < total ==> (#[trigger] services@[j]).deep_view() == start[j],
        decreases total - i,
    {
        age(&mut services[i], now);
        i = i + 1;
    }
    assert(services.deep_view() =~= all);
}

/// A heartbeat with a time and limits is judged on the page as the command line would judge it at
/// that moment.
pub proof fn law_page_agrees_with_command_line(
    service: MeasuredView,
    now: u64,
    thresholds: Thresholds,
)
    requires
        service.kind == Some("heartbeat"@),
        service.heartbeat_at_unix matches Some(stamp) && stamp <= now,
        service.max_age_seconds matches Some(max) && max > 0,
        thresholds.heartbeat_crit_multiplier >= 2,
        service.crit_multiplier == Some(thresholds.heartbeat_crit_multiplier),
    ensures
        aged(service, now).status == health_of_age(
            (now - service.heartbeat_at_unix->0) as nat,
            service.max_age_seconds->0 as nat,
            thresholds,
        ),
        aged(service, now).age_seconds == Some((now - service.heartbeat_at_unix->0) as u64),
{
}

/// A heartbeat is healthy on the page only while its time is known, not in the future and within
/// the limit.
pub proof fn law_healthy_heartbeats_are_fresh(service: MeasuredView, now: u64)
    requires
        service.kind == Some("heartbeat"@),
        aged(service, now).status == Health::Healthy,
    ensures
        service.heartbeat_at_unix matches Some(stamp) && service.max_age_seconds matches Some(max)
            && stamp <= now <= stamp + max,
{
}

// ---------------------------------------------------------------------------------------------
// The host snapshot
// ---------------------------------------------------------------------------------------------

/// What the page makes of the host snapshot.
#[derive(Clone, Copy, Debug, PartialEq, Eq, Structural)]
pub enum HostVerdict {
    Missing,
    Invalid,
    VersionUnknown,
    TimestampInvalid,
    Stale { age: u64 },
    Available { age: u64 },
}

/// What a snapshot is worth at a time.
pub open spec fn verdict_of(
    version: u8,
    collected_at_unix: u64,
    now: u64,
    max_age: u64,
) -> HostVerdict {
    if version != 1 {
        HostVerdict::VersionUnknown
    } else if collected_at_unix > now {
        HostVerdict::TimestampInvalid
    } else if now - collected_at_unix > max_age {
        HostVerdict::Stale { age: (now - collected_at_unix) as u64 }
    } else {
        HostVerdict::Available { age: (now - collected_at_unix) as u64 }
    }
}

/// What a snapshot that could be read is worth at a time.
pub fn judge_snapshot(version: u8, collected_at_unix: u64, now: u64, max_age: u64) -> (r:
    HostVerdict)
    ensures
        r == verdict_of(version, collected_at_unix, now, max_age),
{
    if version != 1 {
        return HostVerdict::VersionUnknown;
    }
    if collected_at_unix > now {
        return HostVerdict::TimestampInvalid;
    }
    let age: u64 = now - collected_at_unix;
    if age > max_age {
        HostVerdict::Stale { age }
    } else {
        HostVerdict::Available { age }
    }
}

impl HostVerdict {
    /// Whether the snapshot can be shown.
    pub fn is_available(self) -> (r: bool)
        ensures
            r == (self is Available),
    {
        match self {
            HostVerdict::Available { .. } => true,
            _ => false,
        }
    }

    /// The word for the state of the host view.
    pub fn status(self) -> (r: &'static str)
        ensures
            r@ == if self is Available {
                "available"@
            } else {
                "unknown"@
            },
    {
        match self {
            HostVerdict::Available { .. } => "available",
            _ => "unknown",
        }
    }

    /// The age of the snapshot; that of a stale one is shown too.
    pub fn age_seconds(self) -> (r: Option<u64>)
        ensures
            r == match self {
                HostVerdict::Available { age } => Some(age),
                HostVerdict::Stale { age } => Some(age),
                _ => None,
            },
    {
        match self {
            HostVerdict::Available { age } => Some(age),
            HostVerdict::Stale { age } => Some(age),
            _ => None,
        }
    }

    /// What is said where the snapshot cannot be shown.
    pub fn message(self) -> (r: &'static str)
        ensures
            r@ == match self {
                HostVerdict::Missing => "Host snapshot unavailable"@,
                HostVerdict::Invalid => "Host snapshot invalid"@,
                HostVerdict::VersionUnknown => "Host snapshot version unknown"@,
                HostVerdict::TimestampInvalid => "Host snapshot timestamp invalid"@,
                HostVerdict::Stale { .. } => "Host snapshot stale"@,
                HostVerdict::Available { .. } => ""@,
            },
    {
        match self {
            HostVerdict::Missing => "Host snapshot unavailable",
            HostVerdict::Invalid => "Host snapshot invalid",
            HostVerdict::VersionUnknown => "Host snapshot version unknown",
            HostVerdict::TimestampInvalid => "Host snapshot timestamp invalid",
            HostVerdict::Stale { .. } => "Host snapshot stale",
            HostVerdict::Available { .. } => "",
        }
    }
}

/// A snapshot that has become stale stays so, until it is collected again.
pub proof fn law_stale_stays_stale(
    version: u8,
    collected_at_unix: u64,
    now: u64,
    later: u64,
    max_age: u64,
)
    requires
        now <= later,
        verdict_of(version, collected_at_unix, now, max_age) is Stale,
    ensures
        verdict_of(version, collected_at_unix, later, max_age) is Stale,
{
}

/// A snapshot of exactly the greatest age is still shown, and one second later it is not.
pub proof fn law_freshness_limit(collected_at_unix: u64, max_age: u64)
    requires
        collected_at_unix + max_age < u64::MAX,
    ensures
        verdict_of(1, collected_at_unix, (collected_at_unix + max_age) as u64, max_age) == (
        HostVerdict::Available { age: max_age }),
        verdict_of(1, collected_at_unix, (collected_at_unix + max_age + 1) as u64, max_age) == (
        HostVerdict::Stale { age: (max_age + 1) as u64 }),
{
}

// ---------------------------------------------------------------------------------------------
// Recorded releases and backups
// ---------------------------------------------------------------------------------------------

/// What the page shows of a recorded backup attempt.
#[derive(Clone, Debug)]
pub enum BackupRecord {
    Missing,
    Invalid,
    Recorded(BackupAttempt),
}

/// What the page shows of the recorded state of a project.
#[derive(Clone, Debug)]
pub struct Records {
    pub release: Option<Json>,
    pub pending_release: Option<Json>,
    pub last_backup: BackupRecord,
    pub last_offsite: BackupRecord,
}

pub enum BackupRecordView {
    Missing,
    Invalid,
    Recorded(AttemptView),
}

#[verifier::ext_equal]
pub struct RecordsView {
    pub release: Option<JsonView>,
    pub pending_release: Option<JsonView>,
    pub last_backup: BackupRecordView,
    pub last_offsite: BackupRecordView,
}

impl DeepView for BackupRecord {
    type V = BackupRecordView;

    open spec fn deep_view(&self) -> BackupRecordView {
        match self {
            BackupRecord::Missing => BackupRecordView::Missing,
            BackupRecord::Invalid => BackupRecordView::Invalid,
            BackupRecord::Recorded(attempt) => BackupRecordView::Recorded(attempt.deep_view()),
        }
    }
}

impl DeepView for Records {
    type V = RecordsView;

    open spec fn deep_view(&self) -> RecordsView {
        RecordsView {
            release: self.release.deep_view(),
            pending_release: self.pending_release.deep_view(),
            last_backup: self.last_backup.deep_view(),
            last_offsite: self.last_offsite.deep_view(),
        }
    }
}

/// A member of a state that is a record itself.
pub open spec fn record_in(state: Option<JsonView>, name: Text) -> Option<JsonView> {
    match state {
        Some(state) => match member(state, name) {
            Some(JsonView::Record(members)) => Some(JsonView::Record(members)),
            _ => None,
        },
        None => None,
    }
}

fn find_record(state: &Option<Json>, name: &str) -> (r: Option<Json>)
    ensures
        r.deep_view() == record_in(state.deep_view(), name@),
{
    match state {
        Some(state) => match state.member(name) {
            Some(value) => match value {
                Json::Record(_) => Some(value.clone()),
                _ => None,
            },
            None => None,
        },
        None => None,
    }
}

/// The natural number that a member is, where it fits into 64 bits.
pub open spec fn member_number(value: JsonView, name: Text) -> Option<u64> {
    match member(value, name) {
        Some(JsonView::Number(text)) => match number_up_to(text, u64::MAX as nat) {
            Some(number) => Some(number as u64),
            None => None,
        },
        _ => None,
    }
}

fn find_number(value: &Json, name: &str) -> (r: Option<u64>)
    ensures
        r == member_number(value.deep_view(), name@),
{
    match value.member(name) {
        Some(Json::Number(text)) => parse_u64(text.as_str()),
        _ => None,
    }
}

/// How a recorded backup command ended.
pub open spec fn recorded_result(value: JsonView) -> Option<BackupResult> {
    match member_text(value, "result"@) {
        Some(text) => if text == "success"@ {
            Some(BackupResult::Success)
        } else if text == "failure"@ {
            Some(BackupResult::Failure)
        } else {
            None
        },
        None => None,
    }
}

/// The recorded destination, which may be absent.
pub open spec fn recorded_destination(value: JsonView) -> Option<Option<Text>> {
    match member(value, "destination"@) {
        None => Some(None),
        Some(JsonView::Null) => Some(None),
        Some(JsonView::Text(text)) => Some(Some(text)),
        _ => None,
    }
}

/// The backup attempt that a value records; nothing else of the value is kept.
pub open spec fn attempt_in(value: JsonView) -> Option<AttemptView> {
    match (
        member_number(value, "started_at_unix"@),
        member_number(value, "duration_ms"@),
        recorded_result(value),
        recorded_destination(value),
    ) {
        (
            Some(started_at_unix),
            Some(duration_ms),
            Some(result),
            Some(destination),
        ) => Some(
            AttemptView { started_at_unix, duration_ms: duration_ms as u128, result, destination },
        ),
        _ => None,
    }
}

/// What a state records of a backup: one that cannot be read is told apart from none.
pub open spec fn backup_in(state: Option<JsonView>, name: Text) -> BackupRecordView {
    match state {
        Some(state) => match member(state, name) {
            None => BackupRecordView::Missing,
            Some(JsonView::Null) => BackupRecordView::Missing,
            Some(value) => match attempt_in(value) {
                Some(attempt) => BackupRecordView::Recorded(attempt),
                None => BackupRecordView::Invalid,
            },
        },
        None => BackupRecordView::Missing,
    }
}

fn read_result(value: &Json) -> (r: Option<BackupResult>)
    ensures
        r == recorded_result(value.deep_view()),
{
    let text = value.member_text("result")?;
    if same(text.as_str(), "success") {
        Some(BackupResult::Success)
    } else if same(text.as_str(), "failure") {
        Some(BackupResult::Failure)
    } else {
        None
    }
}

fn read_attempt(value: &Json) -> (r: Option<BackupAttempt>)
    ensures
        r.deep_view() == attempt_in(value.deep_view()),
{
    let started_at_unix: u64 = find_number(value, "started_at_unix")?;
    let duration_ms: u64 = find_number(value, "duration_ms")?;
    let result = read_result(value)?;
    let destination = match value.member("destination") {
        None => None,
        Some(Json::Null) => None,
        Some(Json::Text(text)) => Some(text.clone()),
        _ => {
            return None;
        },
    };
    Some(BackupAttempt { started_at_unix, duration_ms: duration_ms as u128, result, destination })
}

fn find_backup(state: &Option<Json>, name: &str) -> (r: BackupRecord)
    ensures
        r.deep_view() == backup_in(state.deep_view(), name@),
{
    match state {
        Some(state) => match state.member(name) {
            None => BackupRecord::Missing,
            Some(Json::Null) => BackupRecord::Missing,
            Some(value) => match read_attempt(value) {
                Some(attempt) => BackupRecord::Recorded(attempt),
                None => BackupRecord::Invalid,
            },
        },
        None => BackupRecord::Missing,
    }
}

/// What the page shows of the recorded state of a project. The name `host` belongs to the host
/// snapshot, which is no state of a project.
pub open spec fn records_in(project: Text, state: Option<JsonView>) -> RecordsView {
    let state = if project == "host"@ {
        None
    } else {
        state
    };
    RecordsView {
        release: record_in(state, "current"@),
        pending_release: record_in(state, "pending"@),
        last_backup: backup_in(state, "last_backup"@),
        last_offsite: backup_in(state, "last_offsite"@),
    }
}

/// The document that a state file may hold: there is none without a file, or in one that is not
/// JSON.
pub open spec fn state_document(contents: Option<Text>) -> Option<JsonView> {
    match contents {
        Some(contents) => match document(contents) {
            Ok(value) => Some(value),
            Err(_) => None,
        },
        None => None,
    }
}

/// What the page shows of the recorded state of a project, given the document.
pub fn records(project: &str, state: &Option<Json>) -> (r: Records)
    ensures
        r.deep_view() == records_in(project@, state.deep_view()),
{
    let none: Option<Json> = None;
    let state = if same(project, "host") {
        &none
    } else {
        state
    };
    Records {
        release: find_record(state, "current"),
        pending_release: find_record(state, "pending"),
        last_backup: find_backup(state, "last_backup"),
        last_offsite: find_backup(state, "last_offsite"),
    }
}

/// What the page shows of the recorded state of a project, given what its state file holds.
pub fn load_releases(project: &str, contents: Option<&str>) -> (r: Records)
    ensures
        r.deep_view() == records_in(
            project@,
            state_document(
                match contents {
                    Some(contents) => Some(contents@),
                    None => None,
                },
            ),
        ),
{
    let state = match contents {
        Some(contents) => match parse(contents) {
            Ok(value) => Some(value),
            Err(_) => None,
        },
        None => None,
    };
    records(project, &state)
}

/// The page never takes the host snapshot for the state of a project.
pub proof fn law_host_snapshot_is_no_state(state: Option<JsonView>)
    ensures
        records_in("host"@, state) == records_in("host"@, None),
        records_in("host"@, state).release is None,
        records_in("host"@, state).pending_release is None,
{
}

/// A recorded backup that cannot be read is shown as invalid, never as missing.
pub proof fn law_invalid_backup_is_not_missing(project: Text, state: JsonView, value: JsonView)
    requires
        project != "host"@,
        member(state, "last_backup"@) == Some(value),
        value != JsonView::Null,
    ensures
        records_in(project, Some(state)).last_backup !is Missing,
{
}

// ---------------------------------------------------------------------------------------------
// Projects
// ---------------------------------------------------------------------------------------------

/// How a project, or all projects together, are.
#[derive(Clone, Copy, Debug, PartialEq, Eq, Structural)]
pub enum Standing {
    Operational,
    Down,
    Healthy,
    Degraded,
    Unhealthy,
    Unknown,
}

/// The word for a standing.
pub open spec fn standing_name(standing: Standing) -> Text {
    match standing {
        Standing::Operational => "operational"@,
        Standing::Down => "down"@,
        Standing::Healthy => "healthy"@,
        Standing::Degraded => "degraded"@,
        Standing::Unhealthy => "unhealthy"@,
        Standing::Unknown => "unknown"@,
    }
}

impl Standing {
    /// The word for the standing.
    pub fn name(self) -> (r: &'static str)
        ensures
            r@ == standing_name(self),
    {
        match self {
            Standing::Operational => "operational",
            Standing::Down => "down",
            Standing::Healthy => "healthy",
            Standing::Degraded => "degraded",
            Standing::Unhealthy => "unhealthy",
            Standing::Unknown => "unknown",
        }
    }
}

/// A project as its manifest describes it to the page.
#[derive(Debug)]
pub struct WebProject {
    pub name: String,
    pub health_url: Option<String>,
    pub has_service_probes: bool,
    pub service_names: Vec<String>,
    pub records: Records,
    pub config_error: Option<String>,
}

/// What the page shows of a project.
#[derive(Clone, Debug)]
pub struct ProjectStatus {
    pub name: String,
    pub health_url: Option<String>,
    pub services: Vec<Measured>,
    pub uses_service_probes: bool,
    pub records: Records,
    pub config_error: Option<String>,
    pub checked_at: String,
    pub latency_ms: Option<u128>,
    pub http_status: Option<u16>,
    pub status: Standing,
    pub error: Option<String>,
}

#[verifier::ext_equal]
pub struct WebProjectView {
    pub name: Text,
    pub health_url: Option<Text>,
    pub has_service_probes: bool,
    pub service_names: Seq<Text>,
    pub records: RecordsView,
    pub config_error: Option<Text>,
}

#[verifier::ext_equal]
pub struct ProjectStatusView {
    pub name: Text,
    pub health_url: Option<Text>,
    pub services: Seq<MeasuredView>,
    pub uses_service_probes: bool,
    pub records: RecordsView,
    pub config_error: Option<Text>,
    pub checked_at: Text,
    pub latency_ms: Option<u128>,
    pub http_status: Option<u16>,
    pub status: Standing,
    pub error: Option<Text>,
}

impl DeepView for WebProject {
    type V = WebProjectView;

    open spec fn deep_view(&self) -> WebProjectView {
        WebProjectView {
            name: self.name@,
            health_url: self.health_url.deep_view(),
            has_service_probes: self.has_service_probes,
            service_names: self.service_names.deep_view(),
            records: self.records.deep_view(),
            config_error: self.config_error.deep_view(),
        }
    }
}

impl DeepView for ProjectStatus {
    type V = ProjectStatusView;

    open spec fn deep_view(&self) -> ProjectStatusView {
        ProjectStatusView {
            name: self.name@,
            health_url: self.health_url.deep_view(),
            services: self.services.deep_view(),
            uses_service_probes: self.uses_service_probes,
            records: self.records.deep_view(),
            config_error: self.config_error.deep_view(),
            checked_at: self.checked_at@,
            latency_ms: self.latency_ms,
            http_status: self.http_status,
            status: self.status,
            error: self.error.deep_view(),
        }
    }
}

/// What the page reads of a manifest: the health URL; how many service probes there are, where
/// they are a table; the entries of the list of services, where it is a list, each with its text;
/// and the single service, where it is text.
#[derive(Debug)]
pub struct Manifest {
    pub health_url: Option<String>,
    pub probes: Option<usize>,
    pub services: Option<Vec<Option<String>>>,
    pub service: Option<String>,
}

#[verifier::ext_equal]
pub struct ManifestView {
    pub health_url: Option<Text>,
    pub probes: Option<usize>,
    pub services: Option<Seq<Option<Text>>>,
    pub service: Option<Text>,
}

impl DeepView for Manifest {
    type V = ManifestView;

    open spec fn deep_view(&self) -> ManifestView {
        ManifestView {
            health_url: self.health_url.deep_view(),
            probes: self.probes,
            services: self.services.deep_view(),
            service: self.service.deep_view(),
        }
    }
}

/// The entries of a list that are text.
pub open spec fn texts(list: Seq<Option<Text>>) -> Seq<Text>
    decreases list.len(),
{
    if list.len() == 0 {
        Seq::empty()
    } else {
        match list.last() {
            Some(text) => texts(list.drop_last()).push(text),
            None => texts(list.drop_last()),
        }
    }
}

/// The services of a manifest: those listed, or else the single one.
pub open spec fn names_in(manifest: ManifestView) -> Seq<Text> {
    match manifest.services {
        Some(services) => texts(services),
        None => match manifest.service {
            Some(service) => seq![service],
            None => Seq::empty(),
        },
    }
}

fn service_names(manifest: &Manifest) -> (r: Vec<String>)
    ensures
        r.deep_view() == names_in(manifest.deep_view()),
{
    let mut out: Vec<String> = Vec::new();
    assert(out.deep_view() =~= Seq::<Text>::empty());
    match &manifest.services {
        Some(services) => {
            let ghost views = services.deep_view();
            let mut i: usize = 0;
            assert(views.take(0) =~= Seq::<Option<Text>>::empty());
            while i < services.len()
                invariant
                    views == services.deep_view(),
                    i <= services@.len(),
                    out.deep_view() == texts(views.take(i as int)),
                decreases services@.len() - i,
            {
                assert(views.take(i + 1).drop_last() =~= views.take(i as int));
                assert(views.take(i + 1).last() == services@[i as int].deep_view());
                if let Some(name) = &services[i] {
                    add_word(&mut out, name.as_str());
                }
                i = i + 1;
            }
            assert(views.take(i as int) =~= views);
            out
        },
        None => {
            if let Some(name) = &manifest.service {
                add_word(&mut out, name.as_str());
                assert(out.deep_view() =~= seq![name@]);
            }
            out
        },
    }
}

/// The health URL of a manifest, where it is not blank.
pub open spec fn clean(url: Option<Text>) -> Option<Text> {
    match url {
        Some(url) => if trimmed(url).len() == 0 {
            None
        } else {
            Some(trimmed(url))
        },
        None => None,
    }
}

/// A project as its manifest describes it to the page. Where the manifest cannot be read, the
/// message says why.
pub open spec fn project_of(
    name: Text,
    manifest: Result<ManifestView, Text>,
    records: RecordsView,
) -> WebProjectView {
    match manifest {
        Ok(manifest) => WebProjectView {
            name,
            health_url: clean(manifest.health_url),
            has_service_probes: manifest.probes matches Some(probes) && probes > 0,
            service_names: names_in(manifest),
            records,
            config_error: None,
        },
        Err(message) => WebProjectView {
            name,
            health_url: None,
            has_service_probes: false,
            service_names: Seq::empty(),
            records,
            config_error: Some(message),
        },
    }
}

/// A project as its manifest describes it to the page.
pub fn describe(name: String, manifest: Result<Manifest, String>, records: Records) -> (r:
    WebProject)
    ensures
        r.deep_view() == project_of(
            name@,
            match manifest {
                Ok(manifest) => Ok(manifest.deep_view()),
                Err(message) => Err(message@),
            },
            records.deep_view(),
        ),
{
    match manifest {
        Ok(manifest) => {
            let service_names = service_names(&manifest);
            let health_url = match &manifest.health_url {
                Some(url) => {
                    let url = trim(url.as_str());
                    if empty(url.as_str()) {
                        None
                    } else {
                        Some(url)
                    }
                },
                None => None,
            };
            let has_service_probes = match manifest.probes {
                Some(probes) => probes > 0,
                None => false,
            };
            WebProject {
                name,
                health_url,
                has_service_probes,
                service_names,
                records,
                config_error: None,
            }
        },
        Err(message) => {
            let service_names: Vec<String> = Vec::new();
            assert(service_names.deep_view() =~= Seq::<Text>::empty());
            WebProject {
                name,
                health_url: None,
                has_service_probes: false,
                service_names,
                records,
                config_error: Some(message),
            }
        },
    }
}

/// The projects that the page shows, in the order of their manifest files.
pub fn manifests(files: &Vec<String>) -> (r: Vec<String>)
    ensures
        exists|ordered: Seq<Text>| #[trigger]
            in_order(ordered) && ordered.to_multiset() == files.deep_view().to_multiset()
                && r.deep_view() == manifest_names(ordered),
{
    let ordered = sorted(files);
    names_of(&ordered)
}

/// A service without a measurement.
pub open spec fn unmeasured(project: Text, service: Text) -> MeasuredView {
    MeasuredView {
        project,
        service,
        status: Health::Unknown,
        kind: None,
        latency_ms: None,
        age_seconds: None,
        heartbeat_at_unix: None,
        max_age_seconds: None,
        crit_multiplier: None,
        message: Some("Service snapshot unavailable"@),
    }
}

/// Whether a URL can be asked: it is one of HTTP or HTTPS with a host.
pub open spec fn is_http(parts: Option<UrlView>) -> bool {
    parts matches Some(url) && (url.scheme == "http"@ || url.scheme == "https"@) && url.has_host
}

fn http_url(parts: &Option<UrlParts>) -> (r: bool)
    ensures
        r == is_http(parts.deep_view()),
{
    match parts {
        Some(url) => (same(url.scheme.as_str(), "http") || same(url.scheme.as_str(), "https"))
            && url.has_host,
        None => false,
    }
}

/// What is shown of a project before its URL has been asked; the parts are those of the URL.
/// Without an error, the URL is to be asked.
pub open spec fn unchecked(
    project: WebProjectView,
    parts: Option<UrlView>,
    checked_at: Text,
) -> ProjectStatusView {
    ProjectStatusView {
        name: project.name,
        health_url: project.health_url,
        services: project.service_names.map_values(
            |service: Text| unmeasured(project.name, service),
        ),
        uses_service_probes: project.has_service_probes,
        records: project.records,
        config_error: project.config_error,
        checked_at,
        latency_ms: None,
        http_status: None,
        status: Standing::Unknown,
        error: if project.config_error is Some {
            project.config_error
        } else if project.has_service_probes {
            Some("Service snapshot unavailable"@)
        } else if project.health_url is None {
            Some("No deployment.health_url configured"@)
        } else if !is_http(parts) {
            Some("Health URL must use http or https"@)
        } else {
            None
        },
    }
}

/// The parts of a URL that may be absent.
pub open spec fn parts_of(url: Option<Text>) -> Option<UrlView> {
    match url {
        Some(url) => url_of(url),
        None => None,
    }
}

fn unmeasured_services(project: &str, names: &Vec<String>) -> (r: Vec<Measured>)
    ensures
        r.deep_view() == names.deep_view().map_values(
            |service: Text| unmeasured(project@, service),
        ),
{
    let ghost all = names.deep_view().map_values(|service: Text| unmeasured(project@, service));
    let mut out: Vec<Measured> = Vec::new();
    let mut i: usize = 0;
    assert(out.deep_view() =~= all.take(0));
    while i < names.len()
        invariant
            all == names.deep_view().map_values(|service: Text| unmeasured(project@, service)),
            i <= names@.len(),
            out.deep_view() == all.take(i as int),
        decreases names@.len() - i,
    {
        let ghost before = out.deep_view();
        let service = Measured {
            project: project.to_owned(),
            service: names[i].clone(),
            status: Health::Unknown,
            kind: None,
            latency_ms: None,
            age_seconds: None,
            heartbeat_at_unix: None,
            max_age_seconds: None,
            crit_multiplier: None,
            message: Some("Service snapshot unavailable".to_owned()),
        };
        out.push(service);
        assert(service.deep_view() == all[i as int]);
        assert(out.deep_view() =~= before.push(service.deep_view()));
        assert(all.take(i + 1) =~= all.take(i as int).push(all[i as int]));
        i = i + 1;
    }
    assert(all.take(i as int) =~= all);
    out
}

/// What is shown of a project before its URL has been asked, given the parts of the URL.
pub fn prepare_with(project: WebProject, parts: &Option<UrlParts>, checked_at: String) -> (r:
    ProjectStatus)
    ensures
        r.deep_view() == unchecked(project.deep_view(), parts.deep_view(), checked_at@),
{
    let services = unmeasured_services(project.name.as_str(), &project.service_names);
    let error = match &project.config_error {
        Some(error) => Some(error.clone()),
        None => {
            if project.has_service_probes {
                Some("Service snapshot unavailable".to_owned())
            } else if project.health_url.is_none() {
                Some("No deployment.health_url configured".to_owned())
            } else if !http_url(parts) {
                Some("Health URL must use http or https".to_owned())
            } else {
                None
            }
        },
    };
    ProjectStatus {
        name: project.name,
        health_url: project.health_url,
        services,
        uses_service_probes: project.has_service_probes,
        records: project.records,
        config_error: project.config_error,
        checked_at,
        latency_ms: None,
        http_status: None,
        status: Standing::Unknown,
        error,
    }
}

/// What is shown of a project before its URL has been asked. Without an error, the URL is to be
/// asked.
pub fn prepare(project: WebProject, checked_at: String) -> (r: ProjectStatus)
    ensures
        r.deep_view() == unchecked(
            project.deep_view(),
            parts_of(project.health_url.deep_view()),
            checked_at@,
        ),
{
    let found = match &project.health_url {
        Some(url) => parts(url.as_str()),
        None => None,
    };
    prepare_with(project, &found, checked_at)
}

/// Whether a response means that a project is up.
pub open spec fn is_up(status: u16) -> bool {
    200 <= status < 400
}

/// What is shown of a project once its URL has been asked: the response had a status, or there
/// was none for a reason.
pub open spec fn checked(
    before: ProjectStatusView,
    response: Result<u16, Text>,
    latency_ms: u128,
) -> ProjectStatusView {
    match response {
        Ok(status) => ProjectStatusView {
            latency_ms: Some(latency_ms),
            http_status: Some(status),
            status: if is_up(status) {
                Standing::Operational
            } else {
                Standing::Down
            },
            error: if is_up(status) {
                before.error
            } else {
                Some("HTTP "@ + decimal(status as nat))
            },
            ..before
        },
        Err(reason) => ProjectStatusView {
            latency_ms: Some(latency_ms),
            status: Standing::Down,
            error: Some(reason),
            ..before
        },
    }
}

/// Records that the URL of a project has been asked.
pub fn record_check(
    project: &mut ProjectStatus,
    response: Result<u16, String>,
    latency_ms: u128,
)
    ensures
        final(project).deep_view() == checked(
            old(project).deep_view(),
            match response {
                Ok(status) => Ok(status),
                Err(reason) => Err(reason@),
            },
            latency_ms,
        ),
{
    project.latency_ms = Some(latency_ms);
    match response {
        Ok(status) => {
            project.http_status = Some(status);
            if 200 <= status && status < 400 {
                project.status = Standing::Operational;
            } else {
                project.status = Standing::Down;
                let mut error = "HTTP ".to_owned();
                error.append(to_decimal(status as u128).as_str());
                project.error = Some(error);
            }
        },
        Err(reason) => {
            project.status = Standing::Down;
            project.error = Some(reason);
        },
    }
}

/// Whether every service has a state of health.
pub open spec fn all_are(services: Seq<MeasuredView>, health: Health) -> bool {
    forall|i: int| 0 <= i < services.len() ==> (#[trigger] services[i]).status == health
}

/// Whether a service has a state of health.
pub open spec fn any_is(services: Seq<MeasuredView>, health: Health) -> bool {
    exists|i: int| 0 <= i < services.len() && (#[trigger] services[i]).status == health
}

/// The standing of a project, from the health of its services.
pub open spec fn standing_of(services: Seq<MeasuredView>) -> Standing {
    if services.len() == 0 {
        Standing::Unknown
    } else if all_are(services, Health::Healthy) {
        Standing::Healthy
    } else if all_are(services, Health::Unhealthy) {
        Standing::Unhealthy
    } else if any_is(services, Health::Unhealthy) || any_is(services, Health::Degraded) {
        Standing::Degraded
    } else {
        Standing::Unknown
    }
}

fn every(services: &Vec<Measured>, health: Health) -> (r: bool)
    ensures
        r == all_are(services.deep_view(), health),
{
    let ghost views = services.deep_view();
    let mut i: usize = 0;
    while i < services.len()
        invariant
            views == services.deep_view(),
            i <= services@.len(),
            forall|j: int| 0 <= j < i ==> (#[trigger] views[j]).status == health,
        decreases services@.len() - i,
    {
        assert(views[i as int] == services@[i as int].deep_view());
        if services[i].status != health {
            return false;
        }
        i = i + 1;
    }
    true
}

fn some(services: &Vec<Measured>, health: Health) -> (r: bool)
    ensures
        r == any_is(services.deep_view(), health),
{
    let ghost views = services.deep_view();
    let mut i: usize = 0;
    while i < services.len()
        invariant
            views == services.deep_view(),
            i <= services@.len(),
            forall|j: int| 0 <= j < i ==> (#[trigger] views[j]).status != health,
        decreases services@.len() - i,
    {
        assert(views[i as int] == services@[i as int].deep_view());
        if services[i].status == health {
            return true;
        }
        i = i + 1;
    }
    false
}

/// The standing of a project, from the health of its services.
pub fn service_project_status(services: &Vec<Measured>) -> (r: Standing)
    ensures
        r == standing_of(services.deep_view()),
{
    if services.len() == 0 {
        return Standing::Unknown;
    }
    if every(services, Health::Healthy) {
        Standing::Healthy
    } else if every(services, Health::Unhealthy) {
        Standing::Unhealthy
    } else if some(services, Health::Unhealthy) || some(services, Health::Degraded) {
        Standing::Degraded
    } else {
        Standing::Unknown
    }
}

/// Whether a project counts as up.
pub open spec fn counts_up(project: ProjectStatusView) -> bool {
    project.status == Standing::Operational || project.status == Standing::Healthy
}

/// Whether a project counts as down.
pub open spec fn counts_down(project: ProjectStatusView) -> bool {
    project.status == Standing::Down || project.status == Standing::Unhealthy
}

pub open spec fn all_up(projects: Seq<ProjectStatusView>) -> bool {
    forall|i: int| 0 <= i < projects.len() ==> counts_up(#[trigger] projects[i])
}

pub open spec fn any_up(projects: Seq<ProjectStatusView>) -> bool {
    exists|i: int| 0 <= i < projects.len() && counts_up(#[trigger] projects[i])
}

pub open spec fn any_down(projects: Seq<ProjectStatusView>) -> bool {
    exists|i: int| 0 <= i < projects.len() && counts_down(#[trigger] projects[i])
}

pub open spec fn any_degraded(projects: Seq<ProjectStatusView>) -> bool {
    exists|i: int| 0 <= i < projects.len() && (#[trigger] projects[i]).status == Standing::Degraded
}

/// The standing of all projects together.
pub open spec fn overall(projects: Seq<ProjectStatusView>) -> Standing {
    if projects.len() == 0 {
        Standing::Unknown
    } else if all_up(projects) {
        Standing::Operational
    } else if !any_up(projects) && any_down(projects) {
        Standing::Down
    } else if any_down(projects) || any_degraded(projects) {
        Standing::Degraded
    } else {
        Standing::Unknown
    }
}

/// The standing of all projects together.
pub fn overall_status(projects: &Vec<ProjectStatus>) -> (r: Standing)
    ensures
        r == overall(projects.deep_view()),
{
    let ghost views = projects.deep_view();
    let mut everything_up = true;
    let mut something_up = false;
    let mut something_down = false;
    let mut something_degraded = false;
    let mut i: usize = 0;
    while i < projects.len()
        invariant
            views == projects.deep_view(),
            i <= projects@.len(),
            everything_up == (forall|j: int| 0 <= j < i ==> counts_up(#[trigger] views[j])),
            something_up == (exists|j: int| 0 <= j < i && counts_up(#[trigger] views[j])),
            something_down == (exists|j: int| 0 <= j < i && counts_down(#[trigger] views[j])),
            something_degraded == (exists|j: int|
                0 <= j < i && (#[trigger] views[j]).status == Standing::Degraded),
        decreases projects@.len() - i,
    {
        let status = projects[i].status;
        assert(views[i as int].status == status);
        if status == Standing::Operational || status == Standing::Healthy {
            assert(counts_up(views[i as int]));
            something_up = true;
        } else {
            assert(!counts_up(views[i as int]));
            everything_up = false;
        }
        if status == Standing::Down || status == Standing::Unhealthy {
            assert(counts_down(views[i as int]));
            something_down = true;
        }
        if status == Standing::Degraded {
            something_degraded = true;
        }
        i = i + 1;
    }
    if projects.len() == 0 {
        Standing::Unknown
    } else if everything_up {
        Standing::Operational
    } else if !something_up && something_down {
        Standing::Down
    } else if something_down || something_degraded {
        Standing::Degraded
    } else {
        Standing::Unknown
    }
}

/// The measurements of a project.
pub open spec fn measured_for(measured: Seq<MeasuredView>, project: Text) -> Seq<MeasuredView>
    decreases measured.len(),
{
    if measured.len() == 0 {
        Seq::empty()
    } else {
        let before = measured_for(measured.drop_last(), project);
        if measured.last().project == project {
            before.push(measured.last())
        } else {
            before
        }
    }
}

/// A service whose measurement is not available.
pub open spec fn forgotten(service: MeasuredView) -> MeasuredView {
    MeasuredView {
        status: Health::Unknown,
        latency_ms: None,
        age_seconds: None,
        message: Some("Service snapshot unavailable"@),
        ..service
    }
}

/// What is shown of a project, given the measurements of a fresh snapshot, or none. The standing
/// of a project with service probes comes from them.
pub open spec fn with_measurements(
    project: ProjectStatusView,
    measured: Seq<MeasuredView>,
) -> ProjectStatusView {
    let own = measured_for(measured, project.name);
    let services = if own.len() > 0 {
        own
    } else {
        project.services.map_values(|service: MeasuredView| forgotten(service))
    };
    if project.uses_service_probes {
        ProjectStatusView {
            services,
            status: standing_of(services),
            error: if own.len() > 0 {
                None
            } else {
                Some("Service snapshot unavailable"@)
            },
            ..project
        }
    } else {
        ProjectStatusView { services, ..project }
    }
}

fn select(measured: &Vec<Measured>, project: &str) -> (r: Vec<Measured>)
    ensures
        r.deep_view() == measured_for(measured.deep_view(), project@),
{
    let ghost views = measured.deep_view();
    let mut out: Vec<Measured> = Vec::new();
    let mut i: usize = 0;
    assert(views.take(0) =~= Seq::<MeasuredView>::empty());
    assert(out.deep_view() =~= Seq::<MeasuredView>::empty());
    while i < measured.len()
        invariant
            views == measured.deep_view(),
            i <= measured@.len(),
            out.deep_view() == measured_for(views.take(i as int), project@),
        decreases measured@.len() - i,
    {
        assert(views.take(i + 1).drop_last() =~= views.take(i as int));
        assert(views.take(i + 1).last() == measured@[i as int].deep_view());
        if same(measured[i].project.as_str(), project) {
            let ghost before = out.deep_view();
            let copy = measured[i].clone();
            out.push(copy);
            assert(out.deep_view() =~= before.push(copy.deep_view()));
        }
        i = i + 1;
    }
    assert(views.take(i as int) =~= views);
    out
}

fn forget(services: &Vec<Measured>) -> (r: Vec<Measured>)
    ensures
        r.deep_view() == services.deep_view().map_values(
            |service: MeasuredView| forgotten(service),
        ),
{
    let ghost all = services.deep_view().map_values(|service: MeasuredView| forgotten(service));
    let mut out: Vec<Measured> = Vec::new();
    let mut i: usize = 0;
    assert(out.deep_view() =~= all.take(0));
    while i < services.len()
        invariant
            all == services.deep_view().map_values(|service: MeasuredView| forgotten(service)),
            i <= services@.len(),
            out.deep_view() == all.take(i as int),
        decreases services@.len() - i,
    {
        let ghost before = out.deep_view();
        let mut service = services[i].clone();
        service.status = Health::Unknown;
        service.latency_ms = None;
        service.age_seconds = None;
        service.message = Some("Service snapshot unavailable".to_owned());
        assert(service.deep_view() =~= all[i as int]);
        out.push(service);
        assert(out.deep_view() =~= before.push(service.deep_view()));
        assert(all.take(i + 1) =~= all.take(i as int).push(all[i as int]));
        i = i + 1;
    }
    assert(all.take(i as int) =~= all);
    out
}

/// Shows the measurements of a fresh snapshot with a project.
pub fn apply_measurements(project: &mut ProjectStatus, measured: &Vec<Measured>)
    ensures
        final(project).deep_view() == with_measurements(
            old(project).deep_view(),
            measured.deep_view(),
        ),
{
    let own = select(measured, project.name.as_str());
    assert(own.deep_view().len() == own@.len());
    let available = own.len() > 0;
    project.services = if available {
        own
    } else {
        forget(&project.services)
    };
    if project.uses_service_probes {
        project.status = service_project_status(&project.services);
        project.error = if available {
            None
        } else {
            Some("Service snapshot unavailable".to_owned())
        };
    }
}

/// Shows the measurements of a snapshot with all projects, and tells how they are together. A
/// snapshot that cannot be shown measures nothing.
pub fn apply_service_snapshot(projects: &mut Vec<ProjectStatus>, fresh: Option<&Vec<Measured>>) -> (
r: Standing)
    ensures
        final(projects).deep_view() == old(projects).deep_view().map_values(
            |project: ProjectStatusView|
                with_measurements(
                    project,
                    match fresh {
                        Some(measured) => measured.deep_view(),
                        None => Seq::empty(),
                    },
                ),
        ),
        r == overall(final(projects).deep_view()),
{
    let none: Vec<Measured> = Vec::new();
    assert(none.deep_view() =~= Seq::<MeasuredView>::empty());
    let measured = match fresh {
        Some(measured) => measured,
        None => &none,
    };
    let ghost start = projects.deep_view();
    let ghost all = start.map_values(
        |project: ProjectStatusView| with_measurements(project, measured.deep_view()),
    );
    let total: usize = projects.len();
    let mut i: usize = 0;
    while i < total
        invariant
            start.len() == total,
            all == start.map_values(
                |project: ProjectStatusView| with_measurements(project, measured.deep_view()),
            ),
            projects@.len() == total,
            i <= total,
            forall|j: int| 0 <= j < i ==> (#[trigger] projects@[j]).deep_view() == all[j],
            forall|j: int| i <= j < total ==> (#[trigger] projects@[j]).deep_view() == start[j],
        decreases total - i,
    {
        apply_measurements(&mut projects[i], measured);
        i = i + 1;
    }
    assert(projects.deep_view() =~= all);
    overall_status(projects)
}

/// Without a fresh snapshot, a project with service probes is unknown and says so.
pub proof fn law_no_snapshot_is_unknown(project: ProjectStatusView)
    requires
        project.uses_service_probes,
    ensures
        with_measurements(project, Seq::empty()).status == Standing::Unknown,
        with_measurements(project, Seq::empty()).error == Some("Service snapshot unavailable"@),
{
    let shown = with_measurements(project, Seq::empty());
    assert(shown.services =~= project.services.map_values(
        |service: MeasuredView| forgotten(service),
    ));
    if shown.services.len() > 0 {
        assert(shown.services[0].status == Health::Unknown);
        assert(!all_are(shown.services, Health::Healthy));
        assert(!all_are(shown.services, Health::Unhealthy));
    }
}

/// Without a fresh snapshot, every service is unknown.
pub proof fn law_no_snapshot_forgets_services(project: ProjectStatusView)
    ensures
        all_are(with_measurements(project, Seq::empty()).services, Health::Unknown),
{
    let shown = with_measurements(project, Seq::empty());
    assert(shown.services =~= project.services.map_values(
        |service: MeasuredView| forgotten(service),
    ));
}

/// All projects together are operational only if every one of them is up, and down only if none
/// is.
pub proof fn law_overall_is_honest(projects: Seq<ProjectStatusView>)
    ensures
        overall(projects) == Standing::Operational ==> projects.len() > 0 && all_up(projects),
        overall(projects) == Standing::Down ==> !any_up(projects) && any_down(projects),
        any_down(projects) && any_up(projects) ==> overall(projects) == Standing::Degraded,
{
    if any_down(projects) {
        let i = choose|i: int| 0 <= i < projects.len() && counts_down(#[trigger] projects[i]);
        assert(!counts_up(projects[i]));
    }
}

// ---------------------------------------------------------------------------------------------
// What the page says
// ---------------------------------------------------------------------------------------------

/// A health check leaves a project operational exactly where the answer is of a status from 200 to
/// 399. With any other it is down, and the error names the status; where no answer came it is down
/// and the error is the reason. Either way the time that it took stands, and nothing else changes.
pub proof fn law_answers_decide(
    before: ProjectStatusView,
    status: u16,
    reason: Text,
    latency_ms: u128,
)
    ensures
        ({
            let after = checked(before, Ok(status), latency_ms);
            &&& 200 <= status <= 399 <==> after.status == Standing::Operational
            &&& 200 <= status <= 399 ==> after.error == before.error
            &&& status < 200 || status > 399 ==> after.status == Standing::Down && after.error
                == Some("HTTP "@ + decimal(status as nat))
            &&& after.http_status == Some(status)
            &&& after.latency_ms == Some(latency_ms)
            &&& after.name == before.name && after.health_url == before.health_url
            &&& after.services == before.services && after.records == before.records
            &&& after.uses_service_probes == before.uses_service_probes
            &&& after.config_error == before.config_error
            &&& after.checked_at == before.checked_at
        }),
        ({
            let after = checked(before, Err(reason), latency_ms);
            &&& after.status == Standing::Down && after.error == Some(reason)
            &&& after.http_status == before.http_status
            &&& after.latency_ms == Some(latency_ms)
            &&& after.name == before.name && after.health_url == before.health_url
            &&& after.services == before.services && after.records == before.records
            &&& after.uses_service_probes == before.uses_service_probes
            &&& after.config_error == before.config_error
            &&& after.checked_at == before.checked_at
        }),
{
}

/// The standing of a project with probes: healthy exactly where it has services and all are
/// healthy, unhealthy exactly where it has some and all are unhealthy, degraded exactly where one
/// is degraded or unhealthy and not all are unhealthy, and unknown otherwise.
pub proof fn law_standing_follows_the_services(services: Seq<MeasuredView>)
    ensures
        standing_of(services) == Standing::Healthy <==> services.len() > 0 && forall|i: int|
            0 <= i < services.len() ==> (#[trigger] services[i]).status == Health::Healthy,
        standing_of(services) == Standing::Unhealthy <==> services.len() > 0 && forall|i: int|
            0 <= i < services.len() ==> (#[trigger] services[i]).status == Health::Unhealthy,
        standing_of(services) == Standing::Degraded <==> {
            &&& exists|i: int|
                0 <= i < services.len() && ((#[trigger] services[i]).status == Health::Unhealthy
                    || services[i].status == Health::Degraded)
            &&& exists|i: int|
                0 <= i < services.len() && (#[trigger] services[i]).status != Health::Unhealthy
        },
        standing_of(services) != Standing::Operational,
        standing_of(services) != Standing::Down,
{
    if services.len() > 0 {
        let first = services[0];
        assert(all_are(services, Health::Healthy) ==> first.status == Health::Healthy);
        assert(all_are(services, Health::Unhealthy) ==> first.status == Health::Unhealthy);
    }
    if exists|i: int|
        0 <= i < services.len() && ((#[trigger] services[i]).status == Health::Unhealthy
            || services[i].status == Health::Degraded) {
        let i = choose|i: int|
            0 <= i < services.len() && ((#[trigger] services[i]).status == Health::Unhealthy
                || services[i].status == Health::Degraded);
        assert(services[i].status == Health::Unhealthy || services[i].status == Health::Degraded);
    }
}

/// The standing of all projects: operational exactly where there are some and each is operational
/// or healthy; down exactly where none is and one is down or unhealthy; degraded exactly where one
/// is operational or healthy beside one that is down or unhealthy, or where none is down or
/// unhealthy and one is degraded; unknown otherwise.
pub proof fn law_overall_follows_the_projects(projects: Seq<ProjectStatusView>)
    ensures
        ({
            let good = exists|i: int|
                0 <= i < projects.len() && ((#[trigger] projects[i]).status
                    == Standing::Operational || projects[i].status == Standing::Healthy);
            let bad = exists|i: int|
                0 <= i < projects.len() && ((#[trigger] projects[i]).status == Standing::Down
                    || projects[i].status == Standing::Unhealthy);
            let poor = exists|i: int|
                0 <= i < projects.len() && (#[trigger] projects[i]).status == Standing::Degraded;
            let all_good = forall|i: int|
                0 <= i < projects.len() ==> ((#[trigger] projects[i]).status
                    == Standing::Operational || projects[i].status == Standing::Healthy);
            &&& overall(projects) == Standing::Operational <==> projects.len() > 0 && all_good
            &&& overall(projects) == Standing::Down <==> bad && !good
            &&& overall(projects) == Standing::Degraded <==> bad && good || poor && !bad
            &&& overall(projects) == Standing::Unknown <==> !bad && !poor && !(projects.len() > 0
                && all_good)
        }),
{
    assert(any_up(projects) <==> exists|i: int|
        0 <= i < projects.len() && ((#[trigger] projects[i]).status == Standing::Operational
            || projects[i].status == Standing::Healthy)) by {
        if any_up(projects) {
            let i = choose|i: int| 0 <= i < projects.len() && counts_up(#[trigger] projects[i]);
            assert(projects[i].status == Standing::Operational || projects[i].status
                == Standing::Healthy);
        }
        if exists|i: int|
            0 <= i < projects.len() && ((#[trigger] projects[i]).status == Standing::Operational
                || projects[i].status == Standing::Healthy) {
            let i = choose|i: int|
                0 <= i < projects.len() && ((#[trigger] projects[i]).status
                    == Standing::Operational || projects[i].status == Standing::Healthy);
            assert(counts_up(projects[i]));
        }
    }
    assert(any_down(projects) <==> exists|i: int|
        0 <= i < projects.len() && ((#[trigger] projects[i]).status == Standing::Down
            || projects[i].status == Standing::Unhealthy)) by {
        if any_down(projects) {
            let i = choose|i: int| 0 <= i < projects.len() && counts_down(#[trigger] projects[i]);
            assert(projects[i].status == Standing::Down || projects[i].status
                == Standing::Unhealthy);
        }
        if exists|i: int|
            0 <= i < projects.len() && ((#[trigger] projects[i]).status == Standing::Down
                || projects[i].status == Standing::Unhealthy) {
            let i = choose|i: int|
                0 <= i < projects.len() && ((#[trigger] projects[i]).status == Standing::Down
                    || projects[i].status == Standing::Unhealthy);
            assert(counts_down(projects[i]));
        }
    }
    assert(all_up(projects) <==> forall|i: int|
        0 <= i < projects.len() ==> ((#[trigger] projects[i]).status == Standing::Operational
            || projects[i].status == Standing::Healthy)) by {
        assert forall|i: int| 0 <= i < projects.len() implies (counts_up(#[trigger] projects[i])
            <==> (projects[i].status == Standing::Operational || projects[i].status
            == Standing::Healthy)) by {}
    }
    if projects.len() > 0 && all_up(projects) {
        assert(counts_up(projects[0]));
    }
}

/// A snapshot is available exactly where it is of version 1, not from the future and at most as old
/// as allowed; its age is the time since it was collected.
pub proof fn law_snapshots_are_judged_by_age(
    version: u8,
    collected_at_unix: u64,
    now: u64,
    max_age: u64,
)
    ensures
        ({
            let verdict = verdict_of(version, collected_at_unix, now, max_age);
            &&& verdict is Available <==> version == 1 && collected_at_unix <= now && now
                - collected_at_unix <= max_age
            &&& verdict is Stale <==> version == 1 && now - collected_at_unix > max_age
            &&& verdict is TimestampInvalid <==> version == 1 && collected_at_unix > now
            &&& verdict is VersionUnknown <==> version != 1
            &&& verdict matches HostVerdict::Available { age } ==> age + collected_at_unix == now
            &&& verdict matches HostVerdict::Stale { age } ==> age + collected_at_unix == now
        }),
{
}

/// A heartbeat that is looked at later is as old as the time since its stamp: healthy up to the
/// allowed age, degraded up to that age times the multiplier, unhealthy beyond, and unknown where
/// the stamp lies in the future. Nothing but its age and its status changes.
pub proof fn law_heartbeats_age(
    service: MeasuredView,
    stamp: u64,
    max: u64,
    multiplier: u64,
    now: u64,
)
    requires
        service.kind == Some("heartbeat"@),
        service.heartbeat_at_unix == Some(stamp),
        service.max_age_seconds == Some(max),
        service.crit_multiplier == Some(multiplier),
        max > 0,
        multiplier >= 2,
    ensures
        ({
            let later = aged(service, now);
            &&& later.status == Health::Healthy <==> stamp <= now && now - stamp <= max
            &&& later.status == Health::Degraded <==> max < now - stamp <= max * multiplier
            &&& later.status == Health::Unhealthy <==> now - stamp > max * multiplier
            &&& later.status == Health::Unknown <==> now < stamp
            &&& stamp <= now ==> (later.age_seconds matches Some(age) && age + stamp == now)
            &&& now < stamp ==> later.age_seconds is None
            &&& later == MeasuredView {
                status: later.status,
                age_seconds: later.age_seconds,
                ..service
            }
        }),
{
    assert(max * multiplier >= max) by (nonlinear_arith)
        requires
            max > 0,
            multiplier >= 2,
    ;
}

/// What is not a heartbeat does not age; a heartbeat whose stamp or limits are missing, or whose
/// limits are too small, is no longer called healthy.
pub proof fn law_only_heartbeats_age(service: MeasuredView, now: u64)
    ensures
        service.kind != Some("heartbeat"@) ==> aged(service, now) == service,
        service.kind == Some("heartbeat"@) && (service.heartbeat_at_unix is None
            || service.max_age_seconds is None || service.crit_multiplier is None
            || service.max_age_seconds == Some(0u64) || service.crit_multiplier == Some(0u64)
            || service.crit_multiplier == Some(1u64)) ==> aged(service, now) == (MeasuredView {
            status: if service.status == Health::Healthy {
                Health::Unknown
            } else {
                service.status
            },
            ..service
        }),
{
}

proof fn lemma_measured_for(measured: Seq<MeasuredView>, project: Text)
    ensures
        measured_for(measured, project) == measured.filter(
            |service: MeasuredView| service.project == project,
        ),
    decreases measured.len(),
{
    reveal(Seq::filter);
    if measured.len() > 0 {
        lemma_measured_for(measured.drop_last(), project);
    }
}

/// A project shows the measurements of a snapshot that are its own, in their order. Where there is
/// none, its services are unknown, whatever was known of them. Its standing follows from what is
/// shown where it has probes, and stays what it was where it has none.
pub proof fn law_measurements_reach_their_project(
    project: ProjectStatusView,
    measured: Seq<MeasuredView>,
)
    ensures
        ({
            let after = with_measurements(project, measured);
            let own = measured.filter(|service: MeasuredView| service.project == project.name);
            &&& own.len() > 0 ==> after.services == own
            &&& own.len() == 0 ==> {
                &&& after.services.len() == project.services.len()
                &&& forall|i: int|
                    0 <= i < after.services.len() ==> {
                        &&& (#[trigger] after.services[i]).status == Health::Unknown
                        &&& after.services[i].message == Some("Service snapshot unavailable"@)
                        &&& after.services[i].latency_ms is None
                        &&& after.services[i].age_seconds is None
                        &&& after.services[i].service == project.services[i].service
                        &&& after.services[i].project == project.services[i].project
                    }
            }
            &&& !project.uses_service_probes ==> after.status == project.status && after.error
                == project.error
            &&& project.uses_service_probes ==> after.status == standing_of(after.services)
            &&& project.uses_service_probes && own.len() > 0 ==> after.error is None
            &&& project.uses_service_probes && own.len() == 0 ==> after.error == Some(
                "Service snapshot unavailable"@,
            )
            &&& after.name == project.name && after.health_url == project.health_url
            &&& after.records == project.records && after.config_error == project.config_error
            &&& after.checked_at == project.checked_at && after.latency_ms == project.latency_ms
            &&& after.http_status == project.http_status
            &&& after.uses_service_probes == project.uses_service_probes
        }),
{
    lemma_measured_for(measured, project.name);
}

/// Before any check a project is unknown, with one unknown entry for each of its services. What
/// keeps it from being checked is told: an error in its configuration before all else, then that
/// its probes wait for a snapshot, then that it has no URL, then that the URL is not one of HTTP.
/// Where nothing does, no error is told.
pub proof fn law_unchecked_projects_say_why(
    project: WebProjectView,
    parts: Option<UrlView>,
    checked_at: Text,
)
    ensures
        ({
            let start = unchecked(project, parts, checked_at);
            &&& start.status == Standing::Unknown
            &&& start.latency_ms is None && start.http_status is None
            &&& start.name == project.name && start.records == project.records
            &&& start.checked_at == checked_at && start.health_url == project.health_url
            &&& start.services.len() == project.service_names.len()
            &&& forall|i: int|
                0 <= i < start.services.len() ==> {
                    &&& (#[trigger] start.services[i]).service == project.service_names[i]
                    &&& start.services[i].project == project.name
                    &&& start.services[i].status == Health::Unknown
                }
            &&& project.config_error is Some ==> start.error == project.config_error
            &&& project.config_error is None && project.has_service_probes ==> start.error == Some(
                "Service snapshot unavailable"@,
            )
            &&& project.config_error is None && !project.has_service_probes
                && project.health_url is None ==> start.error == Some(
                "No deployment.health_url configured"@,
            )
            &&& project.config_error is None && !project.has_service_probes
                && project.health_url is Some ==> (start.error is None <==> {
                &&& parts matches Some(url)
                &&& url.has_host
                &&& url.scheme == "http"@ || url.scheme == "https"@
            })
        }),
{
}

/// A recorded backup is read from the members of its record: when it started, how long it took, how
/// it went and where it went to. It is read exactly where the first two are numbers, the third says
/// `success` or `failure`, and the last is missing, null or text.
pub proof fn law_backups_are_read_as_recorded(
    value: JsonView,
    started: Text,
    duration: Text,
    destination: Text,
)
    ensures
        attempt_in(value) matches Some(attempt) ==> {
            &&& member(value, "started_at_unix"@) == Some(JsonView::Number(started))
                ==> number_up_to(started, u64::MAX as nat) == Some(attempt.started_at_unix as nat)
            &&& member(value, "duration_ms"@) == Some(JsonView::Number(duration)) ==> number_up_to(
                duration,
                u64::MAX as nat,
            ) == Some(attempt.duration_ms as nat)
            &&& member(value, "result"@) == Some(
                JsonView::Text(
                    if attempt.result == BackupResult::Success {
                        "success"@
                    } else {
                        "failure"@
                    },
                ),
            )
            &&& member(value, "destination"@) == Some(JsonView::Text(destination))
                ==> attempt.destination == Some(destination)
            &&& (member(value, "destination"@) is None || member(value, "destination"@) == Some(
                JsonView::Null,
            )) ==> attempt.destination is None
        },
        ({
            &&& member(value, "started_at_unix"@) == Some(JsonView::Number(started))
            &&& number_up_to(started, u64::MAX as nat) is Some
            &&& member(value, "duration_ms"@) == Some(JsonView::Number(duration))
            &&& number_up_to(duration, u64::MAX as nat) is Some
            &&& member(value, "result"@) == Some(JsonView::Text("success"@)) || member(
                value,
                "result"@,
            ) == Some(JsonView::Text("failure"@))
            &&& member(value, "destination"@) is None || member(value, "destination"@) == Some(
                JsonView::Null,
            ) || member(value, "destination"@) == Some(JsonView::Text(destination))
        }) ==> attempt_in(value) is Some,
        !(member(value, "started_at_unix"@) matches Some(JsonView::Number(_))) ==> attempt_in(
            value,
        ) is None,
        !(member(value, "duration_ms"@) matches Some(JsonView::Number(_))) ==> attempt_in(
            value,
        ) is None,
{
    reveal_strlit("success");
    reveal_strlit("failure");
    assert("success"@[0] != "failure"@[0]);
}

/// The records of a project come from the members of its state that are named for them; the
/// snapshot of the host is no project and has none.
pub proof fn law_records_come_from_their_members(project: Text, state: JsonView)
    ensures
        project != "host"@ ==> {
            let records = records_in(project, Some(state));
            &&& member(state, "current"@) is Some && member(state, "current"@)->0 is Record
                ==> records.release == member(state, "current"@)
            &&& member(state, "current"@) is None ==> records.release is None
            &&& member(state, "pending"@) is Some && member(state, "pending"@)->0 is Record
                ==> records.pending_release == member(state, "pending"@)
            &&& member(state, "pending"@) is None ==> records.pending_release is None
            &&& member(state, "last_backup"@) is None ==> records.last_backup
                == BackupRecordView::Missing
            &&& member(state, "last_offsite"@) is None ==> records.last_offsite
                == BackupRecordView::Missing
            &&& member(state, "last_backup"@) matches Some(value) ==> (attempt_in(
                value,
            ) matches Some(attempt) ==> value !is Null ==> records.last_backup
                == BackupRecordView::Recorded(attempt))
            &&& member(state, "last_offsite"@) matches Some(value) ==> (attempt_in(
                value,
            ) matches Some(attempt) ==> value !is Null ==> records.last_offsite
                == BackupRecordView::Recorded(attempt))
        },
{
}

proof fn lemma_texts(list: Seq<Option<Text>>)
    ensures
        forall|text: Text| texts(list).contains(text) <==> #[trigger] list.contains(Some(text)),
        texts(list).len() <= list.len(),
        (forall|i: int| 0 <= i < list.len() ==> (#[trigger] list[i]) is Some) ==> texts(list).len()
            == list.len(),
    decreases list.len(),
{
    if list.len() > 0 {
        let shorter = list.drop_last();
        lemma_texts(shorter);
        assert forall|text: Text| texts(list).contains(text) <==> #[trigger] list.contains(
            Some(text),
        ) by {
            assert(shorter.contains(Some(text)) <==> texts(shorter).contains(text));
            assert(list =~= shorter.push(list.last()));
            if list.contains(Some(text)) {
                let k = choose|k: int| 0 <= k < list.len() && list[k] == Some(text);
                if k < shorter.len() {
                    assert(shorter[k] == Some(text));
                    let m = choose|m: int|
                        0 <= m < texts(shorter).len() && texts(shorter)[m] == text;
                    assert(texts(list)[m] == text);
                } else {
                    assert(texts(list)[texts(list).len() - 1] == text);
                }
            }
            if texts(list).contains(text) {
                let m = choose|m: int| 0 <= m < texts(list).len() && texts(list)[m] == text;
                if m < texts(shorter).len() {
                    assert(texts(shorter)[m] == text);
                    let k = choose|k: int| 0 <= k < shorter.len() && shorter[k] == Some(text);
                    assert(list[k] == Some(text));
                } else {
                    assert(list[list.len() - 1] == Some(text));
                }
            }
        }
        if forall|i: int| 0 <= i < list.len() ==> (#[trigger] list[i]) is Some {
            assert forall|i: int| 0 <= i < shorter.len() implies (
            #[trigger] shorter[i]) is Some by {
                assert(list[i] is Some);
            }
            assert(list[list.len() - 1] is Some);
        }
    }
}

/// The services of a project are those of its list, leaving out what is no text; only without a
/// list is it the one service. A configuration that could not be read gives no service, no URL and
/// no probes, and its error.
pub proof fn law_descriptions_follow_the_manifest(
    name: Text,
    manifest: ManifestView,
    message: Text,
    records: RecordsView,
)
    ensures
        manifest.services matches Some(list) ==> forall|text: Text|
            names_in(manifest).contains(text) <==> #[trigger] list.contains(Some(text)),
        manifest.services is None && manifest.service is Some ==> names_in(manifest) == seq![
            manifest.service->0,
        ],
        manifest.services is None && manifest.service is None ==> names_in(manifest).len() == 0,
        ({
            let project = project_of(name, Ok(manifest), records);
            &&& project.name == name && project.records == records
            &&& project.config_error is None
            &&& project.service_names == names_in(manifest)
            &&& project.has_service_probes <==> (manifest.probes is Some && manifest.probes->0 > 0)
            &&& project.health_url matches Some(url) ==> manifest.health_url is Some && url
                == trimmed(manifest.health_url->0) && url.len() > 0
            &&& project.health_url is None <==> (manifest.health_url matches Some(url) ==> trimmed(
                url,
            ).len() == 0)
        }),
        ({
            let project = project_of(name, Err(message), records);
            &&& project.name == name && project.records == records
            &&& project.config_error == Some(message)
            &&& project.health_url is None && !project.has_service_probes
            &&& project.service_names.len() == 0
        }),
{
    if let Some(list) = manifest.services {
        lemma_texts(list);
    }
}

/// The host view is called available exactly where its snapshot is, its age is told where it is
/// known, and whatever cannot be shown is said in words.
pub proof fn law_verdicts_are_put_into_words(
    verdict: HostVerdict,
    available: bool,
    word: &'static str,
    age: Option<u64>,
    message: &'static str,
)
    requires
        call_ensures(HostVerdict::is_available, (verdict,), available),
        call_ensures(HostVerdict::status, (verdict,), word),
        call_ensures(HostVerdict::age_seconds, (verdict,), age),
        call_ensures(HostVerdict::message, (verdict,), message),
    ensures
        available <==> verdict is Available,
        available ==> word@ == "available"@,
        !available ==> word@ == "unknown"@,
        verdict matches HostVerdict::Available { age: seconds } ==> age == Some(seconds),
        verdict matches HostVerdict::Stale { age: seconds } ==> age == Some(seconds) && message@
            == "Host snapshot stale"@,
        verdict is Missing ==> age is None && message@ == "Host snapshot unavailable"@,
        verdict is Invalid ==> age is None && message@ == "Host snapshot invalid"@,
        verdict is VersionUnknown ==> age is None && message@ == "Host snapshot version unknown"@,
        verdict is TimestampInvalid ==> age is None && message@
            == "Host snapshot timestamp invalid"@,
{
}

/// Each standing has the word of its own name.
pub proof fn law_standings_have_their_words()
    ensures
        standing_name(Standing::Operational) == "operational"@,
        standing_name(Standing::Down) == "down"@,
        standing_name(Standing::Healthy) == "healthy"@,
        standing_name(Standing::Degraded) == "degraded"@,
        standing_name(Standing::Unhealthy) == "unhealthy"@,
        standing_name(Standing::Unknown) == "unknown"@,
{
}

} // verus!
