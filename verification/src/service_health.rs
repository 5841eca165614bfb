//! The health of services, as their probes measure it.

use vstd::prelude::*;

use crate::config::{ConfigView, ProbeView, ProjectConfig, ServiceProbe};
use crate::host::{is_running, Container, ContainerView};
use crate::number::{decimal, number_up_to, parse_u64, to_decimal};
use crate::table::lookup;
use crate::text::{
    begins, holds_part, join, joined, lemma_holds_pair, lemma_joined_holds, lemma_parts_stay,
    lowercase, same, same_ignoring_case, Text,
};

verus! {

// ---------------------------------------------------------------------------------------------
// Health
// ---------------------------------------------------------------------------------------------

/// How a service is.
#[derive(Clone, Copy, Debug, PartialEq, Eq, Structural)]
pub enum Health {
    Healthy,
    Degraded,
    Unhealthy,
    Unknown,
}

/// The word for a state of health.
pub open spec fn health_name(health: Health) -> Text {
    match health {
        Health::Healthy => "Healthy"@,
        Health::Degraded => "Degraded"@,
        Health::Unhealthy => "Unhealthy"@,
        Health::Unknown => "Unknown"@,
    }
}

impl Health {
    /// The word for the state of health.
    pub fn name(self) -> (r: &'static str)
        ensures
            r@ == health_name(self),
    {
        match self {
            Health::Healthy => "Healthy",
            Health::Degraded => "Degraded",
            Health::Unhealthy => "Unhealthy",
            Health::Unknown => "Unknown",
        }
    }
}

/// Where the states of health begin.
#[derive(Clone, Copy, Debug, PartialEq, Eq, Structural)]
pub struct Thresholds {
    pub http_warn_ms: u64,
    pub http_crit_ms: u64,
    pub heartbeat_crit_multiplier: u64,
}

/// A positive number from a setting; any other setting does not count.
pub open spec fn positive(setting: Option<Text>, default: nat) -> nat {
    match setting {
        Some(text) => match number_up_to(text, u64::MAX as nat) {
            Some(n) => if n > 0 {
                n
            } else {
                default
            },
            None => default,
        },
        None => default,
    }
}

fn read_positive(setting: Option<&str>, default: u64) -> (r: u64)
    ensures
        r == positive(setting.deep_view(), default as nat),
        default > 0 ==> r > 0,
{
    match setting {
        Some(text) => match parse_u64(text) {
            Some(n) => if n > 0 {
                n
            } else {
                default
            },
            None => default,
        },
        None => default,
    }
}

/// The larger of two numbers.
pub open spec fn larger(a: nat, b: nat) -> nat {
    if a < b {
        b
    } else {
        a
    }
}

impl Thresholds {
    /// The thresholds, from the settings `YARD_HTTP_WARN_MS`, `YARD_HTTP_CRIT_MS` and
    /// `YARD_HEARTBEAT_CRIT_MULTIPLIER`.
    pub fn from_settings(warn: Option<&str>, crit: Option<&str>, multiplier: Option<&str>) -> (r:
        Self)
        ensures
            r.http_warn_ms == positive(warn.deep_view(), 500),
            r.http_crit_ms == larger(
                positive(crit.deep_view(), 2000),
                positive(warn.deep_view(), 500),
            ),
            r.heartbeat_crit_multiplier == larger(positive(multiplier.deep_view(), 2), 2),
            0 < r.http_warn_ms <= r.http_crit_ms,
    {
        let http_warn: u64 = read_positive(warn, 500);
        let http_crit: u64 = read_positive(crit, 2000);
        let factor: u64 = read_positive(multiplier, 2);
        Thresholds {
            http_warn_ms: http_warn,
            http_crit_ms: if http_crit < http_warn {
                http_warn
            } else {
                http_crit
            },
            heartbeat_crit_multiplier: if factor < 2 {
                2
            } else {
                factor
            },
        }
    }
}

/// The health behind a successful response that took some milliseconds.
pub open spec fn health_of_latency(ms: nat, thresholds: Thresholds) -> Health {
    if ms > thresholds.http_crit_ms {
        Health::Unhealthy
    } else if ms > thresholds.http_warn_ms {
        Health::Degraded
    } else {
        Health::Healthy
    }
}

/// The health behind a heartbeat of some age. A limit beyond every time is never passed.
pub open spec fn health_of_age(age: nat, max_age: nat, thresholds: Thresholds) -> Health {
    if age > max_age * thresholds.heartbeat_crit_multiplier {
        Health::Unhealthy
    } else if age > max_age {
        Health::Degraded
    } else {
        Health::Healthy
    }
}

/// The health behind a successful response that took `ms` milliseconds.
pub fn http_health(ms: u64, thresholds: Thresholds) -> (r: Health)
    ensures
        r == health_of_latency(ms as nat, thresholds),
{
    if ms > thresholds.http_crit_ms {
        Health::Unhealthy
    } else if ms > thresholds.http_warn_ms {
        Health::Degraded
    } else {
        Health::Healthy
    }
}

/// The health behind a heartbeat that is `age` seconds old.
pub fn heartbeat_health(age: u64, max_age: u64, thresholds: Thresholds) -> (r: Health)
    ensures
        r == health_of_age(age as nat, max_age as nat, thresholds),
{
    let factor: u64 = thresholds.heartbeat_crit_multiplier;
    let expired = match max_age.checked_mul(factor) {
        Some(limit) => age > limit,
        None => false,
    };
    if expired {
        Health::Unhealthy
    } else if age > max_age {
        Health::Degraded
    } else {
        Health::Healthy
    }
}

/// How far a state of health is from healthy.
pub open spec fn severity(health: Health) -> int {
    match health {
        Health::Healthy => 0,
        Health::Degraded => 1,
        Health::Unhealthy => 2,
        Health::Unknown => 3,
    }
}

/// A slower response is never healthier.
pub proof fn law_latency_only_worsens(faster: nat, slower: nat, thresholds: Thresholds)
    requires
        faster <= slower,
        thresholds.http_warn_ms <= thresholds.http_crit_ms,
    ensures
        severity(health_of_latency(faster, thresholds)) <= severity(
            health_of_latency(slower, thresholds),
        ),
{
}

/// An older heartbeat is never healthier.
pub proof fn law_age_only_worsens(younger: nat, older: nat, max_age: nat, thresholds: Thresholds)
    requires
        younger <= older,
        thresholds.heartbeat_crit_multiplier >= 1,
    ensures
        severity(health_of_age(younger, max_age, thresholds)) <= severity(
            health_of_age(older, max_age, thresholds),
        ),
{
    let factor = thresholds.heartbeat_crit_multiplier as nat;
    assert(max_age <= max_age * factor) by (nonlinear_arith)
        requires
            factor >= 1,
    ;
}

/// A heartbeat of exactly the limit is healthy, and of exactly the critical limit is degraded.
pub proof fn law_limits_are_strict(max_age: nat, thresholds: Thresholds)
    requires
        max_age > 0,
        thresholds.heartbeat_crit_multiplier >= 2,
    ensures
        health_of_age(max_age, max_age, thresholds) == Health::Healthy,
        health_of_age(max_age * thresholds.heartbeat_crit_multiplier as nat, max_age, thresholds)
            == Health::Degraded,
{
    let factor = thresholds.heartbeat_crit_multiplier as nat;
    assert(max_age < max_age * factor) by (nonlinear_arith)
        requires
            factor >= 2,
            max_age > 0,
    ;
}

// ---------------------------------------------------------------------------------------------
// Measuring
// ---------------------------------------------------------------------------------------------

/// The health of one service of a project, with what was measured.
#[derive(Debug)]
pub struct ServiceHealth {
    pub project: String,
    pub service: String,
    pub status: Health,
    pub kind: Option<&'static str>,
    pub latency_ms: Option<u64>,
    pub age_seconds: Option<u64>,
    pub heartbeat_at_unix: Option<u64>,
    pub max_age_seconds: Option<u64>,
    pub crit_multiplier: Option<u64>,
    pub message: Option<&'static str>,
}

#[verifier::ext_equal]
pub struct ServiceHealthView {
    pub project: Text,
    pub service: Text,
    pub status: Health,
    pub kind: Option<Text>,
    pub latency_ms: Option<u64>,
    pub age_seconds: Option<u64>,
    pub heartbeat_at_unix: Option<u64>,
    pub max_age_seconds: Option<u64>,
    pub crit_multiplier: Option<u64>,
    pub message: Option<Text>,
}

impl DeepView for ServiceHealth {
    type V = ServiceHealthView;

    open spec fn deep_view(&self) -> ServiceHealthView {
        ServiceHealthView {
            project: self.project@,
            service: self.service@,
            status: self.status,
            kind: self.kind.deep_view(),
            latency_ms: self.latency_ms,
            age_seconds: self.age_seconds,
            heartbeat_at_unix: self.heartbeat_at_unix,
            max_age_seconds: self.max_age_seconds,
            crit_multiplier: self.crit_multiplier,
            message: self.message.deep_view(),
        }
    }
}

/// How an HTTP request ended.
#[derive(Clone, Copy, Debug, PartialEq, Eq, Structural)]
pub enum HttpOutcome {
    Success,
    OtherStatus,
    Failed,
}

/// What carrying out a probe gave. An HTTP probe gives an outcome and the time it took; a
/// heartbeat probe gives the text of the time stamp, where it could be read, and the present time.
#[derive(Debug)]
pub struct Reading {
    pub outcome: HttpOutcome,
    pub elapsed_ms: u128,
    pub stamp: Option<String>,
    pub now: u64,
}

#[verifier::ext_equal]
pub struct ReadingView {
    pub outcome: HttpOutcome,
    pub elapsed_ms: u128,
    pub stamp: Option<Text>,
    pub now: u64,
}

impl DeepView for Reading {
    type V = ReadingView;

    open spec fn deep_view(&self) -> ReadingView {
        ReadingView {
            outcome: self.outcome,
            elapsed_ms: self.elapsed_ms,
            stamp: self.stamp.deep_view(),
            now: self.now,
        }
    }
}

/// Nothing measured.
pub open spec fn unmeasured(project: Text, service: Text) -> ServiceHealthView {
    ServiceHealthView {
        project,
        service,
        status: Health::Unknown,
        kind: None,
        latency_ms: None,
        age_seconds: None,
        heartbeat_at_unix: None,
        max_age_seconds: None,
        crit_multiplier: None,
        message: None,
    }
}

/// The word for the kind of a probe.
pub open spec fn kind_of(probe: ProbeView) -> Text {
    match probe {
        ProbeView::Http { .. } => "http"@,
        ProbeView::Heartbeat { .. } => "heartbeat"@,
    }
}

/// Whether a container of a service is listed.
pub open spec fn is_listed(containers: Option<Seq<ContainerView>>, service: Text) -> bool {
    containers matches Some(rows) && exists|i: int|
        0 <= i < rows.len() && (#[trigger] rows[i]).service == service
}

/// Whether a container of a service is listed that is not running.
pub open spec fn is_stopped(containers: Option<Seq<ContainerView>>, service: Text) -> bool {
    containers matches Some(rows) && exists|i: int|
        0 <= i < rows.len() && (#[trigger] rows[i]).service == service && !is_running(
            rows[i].state,
        )
}

/// Milliseconds as they are recorded.
pub open spec fn recorded_ms(elapsed: u128) -> u64 {
    if elapsed > u64::MAX {
        u64::MAX
    } else {
        elapsed as u64
    }
}

/// The health that an HTTP reading shows.
pub open spec fn http_result(
    project: Text,
    service: Text,
    outcome: HttpOutcome,
    elapsed_ms: u128,
    thresholds: Thresholds,
) -> ServiceHealthView {
    let ms = recorded_ms(elapsed_ms);
    ServiceHealthView {
        kind: Some("http"@),
        latency_ms: Some(ms),
        status: match outcome {
            HttpOutcome::Success => health_of_latency(ms as nat, thresholds),
            _ => Health::Unhealthy,
        },
        message: match outcome {
            HttpOutcome::Success => None,
            HttpOutcome::OtherStatus => Some("HTTP non-success response"@),
            HttpOutcome::Failed => Some("HTTP request failed or timed out"@),
        },
        ..unmeasured(project, service)
    }
}

/// The time of a heartbeat: what its stamp says, unless that lies in the future.
pub open spec fn beat(stamp: Option<Text>, now: u64) -> Option<u64> {
    match stamp {
        Some(text) => match number_up_to(text, u64::MAX as nat) {
            Some(at) => if at <= now {
                Some(at as u64)
            } else {
                None
            },
            None => None,
        },
        None => None,
    }
}

/// The health that a heartbeat reading shows.
pub open spec fn heartbeat_result(
    project: Text,
    service: Text,
    stamp: Option<Text>,
    now: u64,
    max_age: u64,
    thresholds: Thresholds,
) -> ServiceHealthView {
    let base = ServiceHealthView {
        kind: Some("heartbeat"@),
        max_age_seconds: Some(max_age),
        crit_multiplier: Some(thresholds.heartbeat_crit_multiplier),
        ..unmeasured(project, service)
    };
    match beat(stamp, now) {
        Some(at) => ServiceHealthView {
            age_seconds: Some((now - at) as u64),
            heartbeat_at_unix: Some(at),
            status: health_of_age((now - at) as nat, max_age as nat, thresholds),
            ..base
        },
        None => ServiceHealthView {
            message: Some("Heartbeat missing, unreadable or in the future"@),
            ..base
        },
    }
}

/// Whether the health of a service has to be measured: it has a probe and runs.
pub open spec fn to_measure(
    probe: Option<ProbeView>,
    containers: Option<Seq<ContainerView>>,
    service: Text,
) -> bool {
    probe is Some && is_listed(containers, service) && !is_stopped(containers, service)
}

/// The health of a service.
pub open spec fn assessed(
    project: Text,
    service: Text,
    probe: Option<ProbeView>,
    containers: Option<Seq<ContainerView>>,
    reading: ReadingView,
    thresholds: Thresholds,
) -> ServiceHealthView {
    let base = unmeasured(project, service);
    match probe {
        None => ServiceHealthView { message: Some("No service probe configured"@), ..base },
        Some(probe) => if !is_listed(containers, service) {
            ServiceHealthView {
                kind: Some(kind_of(probe)),
                message: Some("Container unavailable"@),
                ..base
            }
        } else if is_stopped(containers, service) {
            ServiceHealthView {
                kind: Some(kind_of(probe)),
                status: Health::Unhealthy,
                message: Some("Container stopped"@),
                ..base
            }
        } else {
            match probe {
                ProbeView::Http { .. } => http_result(
                    project,
                    service,
                    reading.outcome,
                    reading.elapsed_ms,
                    thresholds,
                ),
                ProbeView::Heartbeat { max_age_seconds, .. } => heartbeat_result(
                    project,
                    service,
                    reading.stamp,
                    reading.now,
                    max_age_seconds,
                    thresholds,
                ),
            }
        },
    }
}

fn blank_health(project: &str, service: &str) -> (r: ServiceHealth)
    ensures
        r.deep_view() == unmeasured(project@, service@),
{
    ServiceHealth {
        project: project.to_owned(),
        service: service.to_owned(),
        status: Health::Unknown,
        kind: None,
        latency_ms: None,
        age_seconds: None,
        heartbeat_at_unix: None,
        max_age_seconds: None,
        crit_multiplier: None,
        message: None,
    }
}

fn listed(containers: &Option<Vec<Container>>, service: &str) -> (r: bool)
    ensures
        r == is_listed(containers.deep_view(), service@),
{
    match containers {
        Some(rows) => {
            let mut i: usize = 0;
            while i < rows.len()
                invariant
                    containers.deep_view() == Some(rows.deep_view()),
                    i <= rows@.len(),
                    forall|j: int| 0 <= j < i ==> (#[trigger] rows@[j]).service@ != service@,
                decreases rows@.len() - i,
            {
                if same(rows[i].service.as_str(), service) {
                    assert(rows.deep_view()[i as int].service == service@);
                    return true;
                }
                i = i + 1;
            }
            assert forall|j: int| 0 <= j < rows.deep_view().len() implies (
            #[trigger] rows.deep_view()[j]).service != service@ by {
                assert(rows@[j].service@ != service@);
            }
            false
        },
        None => false,
    }
}

fn stopped(containers: &Option<Vec<Container>>, service: &str) -> (r: bool)
    ensures
        r == is_stopped(containers.deep_view(), service@),
{
    match containers {
        Some(rows) => {
            let mut i: usize = 0;
            while i < rows.len()
                invariant
                    containers.deep_view() == Some(rows.deep_view()),
                    i <= rows@.len(),
                    forall|j: int|
                        0 <= j < i ==> !((#[trigger] rows@[j]).service@ == service@ && !is_running(
                            rows@[j].state@,
                        )),
                decreases rows@.len() - i,
            {
                if same(rows[i].service.as_str(), service) && !same_ignoring_case(
                    rows[i].state.as_str(),
                    "running",
                ) {
                    assert(rows.deep_view()[i as int].service == service@);
                    return true;
                }
                i = i + 1;
            }
            assert forall|j: int| 0 <= j < rows.deep_view().len() implies !((
            #[trigger] rows.deep_view()[j]).service == service@ && !is_running(
                rows.deep_view()[j].state,
            )) by {
                assert(!(rows@[j].service@ == service@ && !is_running(rows@[j].state@)));
            }
            false
        },
        None => false,
    }
}

pub open spec fn probe_view(probe: Option<&ServiceProbe>) -> Option<ProbeView> {
    match probe {
        Some(probe) => Some(probe.deep_view()),
        None => None,
    }
}

/// Whether the health of a service has to be measured.
pub fn needs_reading(
    probe: Option<&ServiceProbe>,
    containers: &Option<Vec<Container>>,
    service: &str,
) -> (r: bool)
    ensures
        r == to_measure(probe_view(probe), containers.deep_view(), service@),
{
    probe.is_some() && listed(containers, service) && !stopped(containers, service)
}

/// The health of a service. The reading counts only where one had to be taken.
pub fn assess(
    project: &str,
    service: &str,
    probe: Option<&ServiceProbe>,
    containers: &Option<Vec<Container>>,
    reading: &Reading,
    thresholds: Thresholds,
) -> (r: ServiceHealth)
    ensures
        r.deep_view() == assessed(
            project@,
            service@,
            probe_view(probe),
            containers.deep_view(),
            reading.deep_view(),
            thresholds,
        ),
{
    let mut result = blank_health(project, service);
    let Some(probe) = probe else {
        result.message = Some("No service probe configured");
        return result;
    };
    result.kind = match probe {
        ServiceProbe::Http { .. } => Some("http"),
        ServiceProbe::Heartbeat { .. } => Some("heartbeat"),
    };
    if !listed(containers, service) {
        result.message = Some("Container unavailable");
        return result;
    }
    if stopped(containers, service) {
        result.status = Health::Unhealthy;
        result.message = Some("Container stopped");
        return result;
    }
    match probe {
        ServiceProbe::Http { .. } => {
            let ms: u64 = if reading.elapsed_ms > u64::MAX as u128 {
                u64::MAX
            } else {
                reading.elapsed_ms as u64
            };
            result.latency_ms = Some(ms);
            match reading.outcome {
                HttpOutcome::Success => {
                    result.status = http_health(ms, thresholds);
                },
                HttpOutcome::OtherStatus => {
                    result.status = Health::Unhealthy;
                    result.message = Some("HTTP non-success response");
                },
                HttpOutcome::Failed => {
                    result.status = Health::Unhealthy;
                    result.message = Some("HTTP request failed or timed out");
                },
            }
        },
        ServiceProbe::Heartbeat { max_age_seconds, .. } => {
            result.max_age_seconds = Some(*max_age_seconds);
            result.crit_multiplier = Some(thresholds.heartbeat_crit_multiplier);
            let stamp: Option<u64> = match &reading.stamp {
                Some(text) => parse_u64(text.as_str()),
                None => None,
            };
            match stamp {
                Some(at) if at <= reading.now => {
                    let age: u64 = reading.now - at;
                    result.age_seconds = Some(age);
                    result.heartbeat_at_unix = Some(at);
                    result.status = heartbeat_health(age, *max_age_seconds, thresholds);
                },
                _ => {
                    result.message = Some("Heartbeat missing, unreadable or in the future");
                },
            }
        },
    }
    result
}

/// The probe of a service in a manifest.
pub open spec fn probe_of(config: ConfigView, service: Text) -> Option<ProbeView> {
    lookup(config.service_health, service)
}

proof fn lemma_lookup_view(entries: Seq<(Text, ServiceProbe)>, name: Text)
    ensures
        lookup(crate::config::probes_view(entries), name) == (match lookup(entries, name) {
            Some(probe) => Some(probe.deep_view()),
            None => None,
        }),
    decreases entries.len(),
{
    if entries.len() > 0 {
        lemma_lookup_view(entries.skip(1), name);
        assert(crate::config::probes_view(entries).skip(1) =~= crate::config::probes_view(
            entries.skip(1),
        ));
    }
}

impl ProjectConfig {
    /// The probe of a service.
    pub fn probe(&self, service: &str) -> (r: Option<&ServiceProbe>)
        ensures
            probe_view(r) == probe_of(self.deep_view(), service@),
    {
        proof {
            lemma_lookup_view(self.service_health.view(), service@);
        }
        self.service_health.get(service)
    }
}

/// The health of every service of a project, in the order of the manifest. `readings` holds what
/// the probe of each gave, in the same order.
pub fn collect(
    project: &str,
    config: &ProjectConfig,
    containers: &Option<Vec<Container>>,
    readings: &Vec<Reading>,
    thresholds: Thresholds,
) -> (r: Vec<ServiceHealth>)
    requires
        readings@.len() == config.compose.services@.len(),
    ensures
        r.deep_view() == Seq::new(
            config.compose.services@.len(),
            |i: int|
                assessed(
                    project@,
                    config.compose.services@[i]@,
                    probe_of(config.deep_view(), config.compose.services@[i]@),
                    containers.deep_view(),
                    readings@[i].deep_view(),
                    thresholds,
                ),
        ),
{
    let mut out: Vec<ServiceHealth> = Vec::new();
    let mut i: usize = 0;
    while i < config.compose.services.len()
        invariant
            readings@.len() == config.compose.services@.len(),
            i <= readings@.len(),
            out@.len() == i,
            forall|j: int|
                0 <= j < i ==> (#[trigger] out@[j]).deep_view() == assessed(
                    project@,
                    config.compose.services@[j]@,
                    probe_of(config.deep_view(), config.compose.services@[j]@),
                    containers.deep_view(),
                    readings@[j].deep_view(),
                    thresholds,
                ),
        decreases readings@.len() - i,
    {
        let service = config.compose.services[i].as_str();
        out.push(
            assess(project, service, config.probe(service), containers, &readings[i], thresholds),
        );
        i = i + 1;
    }
    assert(out.deep_view() =~= Seq::new(
        config.compose.services@.len(),
        |i: int|
            assessed(
                project@,
                config.compose.services@[i]@,
                probe_of(config.deep_view(), config.compose.services@[i]@),
                containers.deep_view(),
                readings@[i].deep_view(),
                thresholds,
            ),
    ));
    out
}

/// A service is healthy only where it has a probe, its container is there and none is stopped,
/// and either a successful response or a readable heartbeat that is not in the future shows it.
pub proof fn law_healthy_needs_evidence(
    project: Text,
    service: Text,
    probe: Option<ProbeView>,
    containers: Option<Seq<ContainerView>>,
    reading: ReadingView,
    thresholds: Thresholds,
)
    ensures
        assessed(project, service, probe, containers, reading, thresholds).status
            == Health::Healthy ==> {
            &&& to_measure(probe, containers, service)
            &&& match probe->0 {
                ProbeView::Http { .. } => reading.outcome == HttpOutcome::Success,
                ProbeView::Heartbeat { max_age_seconds, .. } => beat(
                    reading.stamp,
                    reading.now,
                ) matches Some(at) && reading.now - at <= max_age_seconds,
            }
        },
{
}

/// A service without a probe is unknown, whatever was measured.
pub proof fn law_no_probe_is_unknown(
    project: Text,
    service: Text,
    containers: Option<Seq<ContainerView>>,
    reading: ReadingView,
    thresholds: Thresholds,
)
    ensures
        assessed(project, service, None, containers, reading, thresholds).status
            == Health::Unknown,
{
}

// ---------------------------------------------------------------------------------------------
// Report
// ---------------------------------------------------------------------------------------------

/// What was measured of a service, in words.
pub open spec fn measured(service: ServiceHealthView) -> Text {
    match (service.latency_ms, service.age_seconds, service.message) {
        (Some(ms), _, _) => decimal(ms as nat) + " ms"@,
        (None, Some(age), _) => decimal(age as nat) + " s since heartbeat"@,
        (None, None, Some(message)) => message,
        (None, None, None) => "unavailable"@,
    }
}

/// The line about a service.
pub open spec fn service_line(service: ServiceHealthView) -> Text {
    "  "@ + service.project + " / "@ + service.service + ": "@ + measured(service) + " ["@
        + health_name(service.status) + "]"@
}

/// The lines about services, under a heading.
pub open spec fn service_lines(services: Seq<ServiceHealthView>) -> Seq<Text> {
    seq!["Service health"@] + services.map_values(|service: ServiceHealthView| service_line(service))
}

/// The report about services.
pub open spec fn rendered(services: Seq<ServiceHealthView>) -> Text {
    joined(service_lines(services), "\n"@)
}

fn line(service: &ServiceHealth) -> (r: String)
    ensures
        r@ == service_line(service.deep_view()),
{
    let mut out = "  ".to_owned();
    out.append(service.project.as_str());
    out.append(" / ");
    out.append(service.service.as_str());
    out.append(": ");
    let measurement = match (service.latency_ms, service.age_seconds) {
        (Some(ms), _) => {
            let mut text = to_decimal(ms as u128);
            text.append(" ms");
            text
        },
        (None, Some(age)) => {
            let mut text = to_decimal(age as u128);
            text.append(" s since heartbeat");
            text
        },
        (None, None) => match service.message {
            Some(message) => message.to_owned(),
            None => "unavailable".to_owned(),
        },
    };
    out.append(measurement.as_str());
    out.append(" [");
    out.append(service.status.name());
    out.append("]");
    out
}

/// The report about services.
pub fn render(services: &Vec<ServiceHealth>) -> (r: String)
    ensures
        r@ == rendered(services.deep_view()),
{
    let ghost views = services.deep_view();
    let mut lines: Vec<String> = Vec::new();
    lines.push("Service health".to_owned());
    let mut i: usize = 0;
    while i < services.len()
        invariant
            views == services.deep_view(),
            i <= services@.len(),
            lines@.len() == i + 1,
            lines@[0]@ == "Service health"@,
            forall|j: int| 0 <= j < i ==> (#[trigger] lines@[j + 1])@ == service_line(views[j]),
        decreases services@.len() - i,
    {
        lines.push(line(&services[i]));
        i = i + 1;
    }
    assert(lines.deep_view() =~= service_lines(views)) by {
        assert forall|k: int| 0 <= k < lines@.len() implies #[trigger] lines.deep_view()[k]
            == service_lines(views)[k] by {
            if k > 0 {
                assert(lines@[(k - 1) + 1]@ == service_line(views[k - 1]));
            }
        }
    }
    join(&lines, "\n")
}

// ---------------------------------------------------------------------------------------------
// What a measurement means
// ---------------------------------------------------------------------------------------------

/// The thresholds without settings are 500 and 2000 milliseconds and a multiplier of 2. A setting
/// counts where it is a positive number; the critical latency is never below the other, and the
/// multiplier never below 2.
pub proof fn law_thresholds_follow_the_settings(
    warn: Option<&str>,
    crit: Option<&str>,
    multiplier: Option<&str>,
    r: Thresholds,
)
    requires
        call_ensures(Thresholds::from_settings, (warn, crit, multiplier), r),
    ensures
        warn is None ==> r.http_warn_ms == 500,
        warn is None && crit is None ==> r.http_crit_ms == 2000,
        multiplier is None ==> r.heartbeat_crit_multiplier == 2,
        warn matches Some(text) ==> (match number_up_to(text@, u64::MAX as nat) {
            Some(n) => n > 0 && r.http_warn_ms == n || n == 0 && r.http_warn_ms == 500,
            None => r.http_warn_ms == 500,
        }),
        crit matches Some(text) ==> (match number_up_to(text@, u64::MAX as nat) {
            Some(n) => n >= r.http_warn_ms ==> r.http_crit_ms == n,
            None => r.http_warn_ms <= 2000 ==> r.http_crit_ms == 2000,
        }),
        multiplier matches Some(text) ==> (match number_up_to(text@, u64::MAX as nat) {
            Some(n) => n >= 2 ==> r.heartbeat_crit_multiplier == n,
            None => r.heartbeat_crit_multiplier == 2,
        }),
        0 < r.http_warn_ms <= r.http_crit_ms,
        r.heartbeat_crit_multiplier >= 2,
{
}

/// A latency is unhealthy exactly above the critical one, degraded exactly above the other up to
/// it, and healthy otherwise; an age is unhealthy exactly above the allowed age times the
/// multiplier, degraded exactly above the allowed age up to that, and healthy otherwise.
pub proof fn law_limits_part_the_measurements(
    ms: nat,
    age: nat,
    max_age: nat,
    thresholds: Thresholds,
)
    ensures
        health_of_latency(ms, thresholds) == Health::Unhealthy <==> ms > thresholds.http_crit_ms,
        health_of_latency(ms, thresholds) == Health::Degraded <==> thresholds.http_warn_ms < ms
            <= thresholds.http_crit_ms,
        health_of_latency(ms, thresholds) == Health::Healthy <==> ms <= thresholds.http_warn_ms
            && ms <= thresholds.http_crit_ms,
        health_of_age(age, max_age, thresholds) == Health::Unhealthy <==> age > max_age
            * thresholds.heartbeat_crit_multiplier,
        health_of_age(age, max_age, thresholds) == Health::Degraded <==> max_age < age <= max_age
            * thresholds.heartbeat_crit_multiplier,
        health_of_age(age, max_age, thresholds) == Health::Healthy <==> age <= max_age && age
            <= max_age * thresholds.heartbeat_crit_multiplier,
{
}

/// A service that is asked over HTTP is measured by how long the answer took where it is one of
/// success, and is unhealthy otherwise; the time that it took stands either way, as far as it can be
/// counted.
pub proof fn law_answers_are_measured(
    project: Text,
    service: Text,
    elapsed_ms: u128,
    thresholds: Thresholds,
)
    ensures
        ({
            let ms = if elapsed_ms <= u64::MAX {
                elapsed_ms as u64
            } else {
                u64::MAX
            };
            let good = http_result(project, service, HttpOutcome::Success, elapsed_ms, thresholds);
            let other = http_result(
                project,
                service,
                HttpOutcome::OtherStatus,
                elapsed_ms,
                thresholds,
            );
            let failed = http_result(project, service, HttpOutcome::Failed, elapsed_ms, thresholds);
            &&& good.status == Health::Unhealthy <==> ms > thresholds.http_crit_ms
            &&& good.status == Health::Degraded <==> thresholds.http_warn_ms < ms
                <= thresholds.http_crit_ms
            &&& good.status != Health::Unknown
            &&& good.message is None
            &&& other.status == Health::Unhealthy && other.message == Some(
                "HTTP non-success response"@,
            )
            &&& failed.status == Health::Unhealthy && failed.message == Some(
                "HTTP request failed or timed out"@,
            )
            &&& good.latency_ms == Some(ms)
            &&& other.latency_ms == Some(ms)
            &&& failed.latency_ms == Some(ms)
            &&& good.project == project && good.service == service && good.kind == Some("http"@)
        }),
{
}

/// A heartbeat is as old as the time since its stamp. One without a stamp, whose stamp is no number
/// or lies in the future, is unknown.
pub proof fn law_heartbeats_are_measured(
    project: Text,
    service: Text,
    text: Text,
    now: u64,
    max_age: u64,
    thresholds: Thresholds,
)
    ensures
        ({
            let found = heartbeat_result(project, service, Some(text), now, max_age, thresholds);
            let none = heartbeat_result(project, service, None, now, max_age, thresholds);
            let stamp = number_up_to(text, u64::MAX as nat);
            &&& stamp matches Some(at) ==> at <= now ==> {
                &&& found.age_seconds == Some((now - at) as u64)
                &&& found.heartbeat_at_unix == Some(at as u64)
                &&& found.message is None
                &&& found.status == Health::Unhealthy <==> now - at > max_age
                    * thresholds.heartbeat_crit_multiplier
                &&& found.status == Health::Degraded <==> max_age < now - at <= max_age
                    * thresholds.heartbeat_crit_multiplier
                &&& found.status != Health::Unknown
            }
            &&& (stamp is None || stamp->0 > now) ==> found.status == Health::Unknown
                && found.age_seconds is None && found.message == Some(
                "Heartbeat missing, unreadable or in the future"@,
            )
            &&& none.status == Health::Unknown && none.age_seconds is None
            &&& found.max_age_seconds == Some(max_age)
            &&& found.crit_multiplier == Some(thresholds.heartbeat_crit_multiplier)
            &&& found.project == project && found.service == service && found.kind == Some(
                "heartbeat"@,
            )
        }),
{
}

/// A service with a probe is unknown where none of its containers is listed, unhealthy where one of
/// them does not run, and otherwise what its probe found.
pub proof fn law_containers_come_before_probes(
    project: Text,
    service: Text,
    probe: ProbeView,
    rows: Seq<ContainerView>,
    reading: ReadingView,
    thresholds: Thresholds,
)
    ensures
        ({
            let found = assessed(
                project,
                service,
                Some(probe),
                Some(rows),
                reading,
                thresholds,
            );
            let listed = exists|i: int| 0 <= i < rows.len() && (#[trigger] rows[i]).service
                == service;
            let stopped = exists|i: int|
                0 <= i < rows.len() && (#[trigger] rows[i]).service == service && lowercase(
                    rows[i].state,
                ) != lowercase("running"@);
            &&& !listed ==> found.status == Health::Unknown && found.message == Some(
                "Container unavailable"@,
            )
            &&& stopped ==> found.status == Health::Unhealthy && found.message == Some(
                "Container stopped"@,
            )
            &&& listed && !stopped ==> (match probe {
                ProbeView::Http { .. } => found == http_result(
                    project,
                    service,
                    reading.outcome,
                    reading.elapsed_ms,
                    thresholds,
                ),
                ProbeView::Heartbeat { max_age_seconds, .. } => found == heartbeat_result(
                    project,
                    service,
                    reading.stamp,
                    reading.now,
                    max_age_seconds,
                    thresholds,
                ),
            })
            &&& assessed(project, service, Some(probe), None, reading, thresholds).status
                == Health::Unknown
            &&& assessed(project, service, None, Some(rows), reading, thresholds).status
                == Health::Unknown
            &&& found.project == project && found.service == service
        }),
{
    assert(is_listed(Some(rows), service) <==> exists|i: int|
        0 <= i < rows.len() && (#[trigger] rows[i]).service == service);
    assert(is_stopped(Some(rows), service) <==> exists|i: int|
        0 <= i < rows.len() && (#[trigger] rows[i]).service == service && lowercase(rows[i].state)
            != lowercase("running"@));
    if is_stopped(Some(rows), service) {
        let i = choose|i: int|
            0 <= i < rows.len() && (#[trigger] rows[i]).service == service && !is_running(
                rows[i].state,
            );
        assert(rows[i].service == service);
        assert(is_listed(Some(rows), service));
    }
}

/// The line about a service names its project and itself, tells its latency, or the age of its
/// heartbeat, or what is amiss, and ends with its health.
pub proof fn law_service_lines_tell_the_measurement(service: ServiceHealthView)
    ensures
        ({
            let line = service_line(service);
            &&& begins(line, "  "@ + service.project + " / "@ + service.service + ": "@)
            &&& service.latency_ms matches Some(ms) ==> holds_part(
                line,
                ": "@ + (decimal(ms as nat) + " ms"@),
            )
            &&& service.latency_ms is None ==> (service.age_seconds matches Some(age)
                ==> holds_part(line, ": "@ + (decimal(age as nat) + " s since heartbeat"@)))
            &&& service.latency_ms is None && service.age_seconds is None ==> (
            service.message matches Some(message) ==> holds_part(line, ": "@ + message))
            &&& holds_part(
                line,
                " ["@ + (match service.status {
                    Health::Healthy => "Healthy"@,
                    Health::Degraded => "Degraded"@,
                    Health::Unhealthy => "Unhealthy"@,
                    Health::Unknown => "Unknown"@,
                }),
            )
        }),
{
    let before = "  "@ + service.project + " / "@ + service.service;
    let start = before + ": "@;
    let text = measured(service);
    let name = health_name(service.status);
    lemma_holds_pair(before, ": "@, text);
    let s = start + text;
    lemma_parts_stay(s, " ["@);
    lemma_parts_stay(s + " ["@, name);
    lemma_parts_stay(s + " ["@ + name, "]"@);
    assert(holds_part(s + " ["@, ": "@ + text));
    assert(holds_part(s + " ["@ + name, ": "@ + text));
    lemma_holds_pair(s, " ["@, name);
    let line = service_line(service);
    assert(line == s + " ["@ + name + "]"@);
    assert(line.take(start.len() as int) =~= start);
}

/// A probe is read exactly where there is one, a container of the service is listed and all of them
/// run.
pub proof fn law_only_running_services_are_probed(
    probe: ProbeView,
    rows: Seq<ContainerView>,
    service: Text,
)
    ensures
        !to_measure(None, Some(rows), service),
        !to_measure(Some(probe), None, service),
        to_measure(Some(probe), Some(rows), service) <==> {
            &&& exists|i: int| 0 <= i < rows.len() && (#[trigger] rows[i]).service == service
            &&& forall|i: int|
                0 <= i < rows.len() && (#[trigger] rows[i]).service == service ==> lowercase(
                    rows[i].state,
                ) == lowercase("running"@)
        },
{
    assert(is_stopped(Some(rows), service) <==> exists|i: int|
        0 <= i < rows.len() && (#[trigger] rows[i]).service == service && lowercase(rows[i].state)
            != lowercase("running"@));
}

/// The report on services holds a line for each of them, in their order.
pub proof fn law_every_service_has_its_line(services: Seq<ServiceHealthView>, i: int)
    requires
        0 <= i < services.len(),
    ensures
        service_lines(services).len() == services.len() + 1,
        service_lines(services)[0] == "Service health"@,
        service_lines(services)[i + 1] == service_line(services[i]),
        holds_part(rendered(services), service_line(services[i])),
{
    lemma_joined_holds(service_lines(services), "\n"@, i + 1);
}

} // verus!
