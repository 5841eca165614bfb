//! Bringing up the services of a release, and the gates that a new release has to pass.

use vstd::prelude::*;

use crate::config::{ConfigView, ProbeView, ProjectConfig, ServiceProbe};
use crate::error::{error_of, ErrorView, YardError};
use crate::json::{member, rows_of, JsonView};
use crate::operation::at_service;
use crate::project::{
    is_first_about, is_seen_running, law_matching_services_are_running, release_report,
    release_runs, Project,
};
use crate::service_health::{probe_of, probe_view, Health, ServiceHealth, ServiceHealthView};
use crate::command::add_word;
use crate::state::{Release, ReleaseView};
use crate::table::law_the_first_entry_is_found;
use crate::text::{begins, holds_part, join, joined, lemma_joined_holds, same, Text};

verus! {

// ---------------------------------------------------------------------------------------------
// Gates
// ---------------------------------------------------------------------------------------------

/// Whether a new release has to wait for the probe of a service.
pub open spec fn is_gated(config: ConfigView, service: Text) -> bool {
    match probe_of(config, service) {
        Some(ProbeView::Http { deployment_gate, .. }) => deployment_gate,
        Some(ProbeView::Heartbeat { deployment_gate, .. }) => deployment_gate,
        None => false,
    }
}

/// Whether a measurement lets a release pass whose services were started at a time: the service
/// is healthy, and a heartbeat was given in a later second than the start.
pub open spec fn lets_pass(probe: Option<ProbeView>, health: ServiceHealthView, started: u64) -> bool {
    &&& health.status == Health::Healthy
    &&& match probe {
        Some(ProbeView::Heartbeat { .. }) => match health.heartbeat_at_unix {
            Some(at) => at > started,
            None => false,
        },
        _ => true,
    }
}

/// The first measurement of a service.
pub open spec fn health_for(healths: Seq<ServiceHealthView>, service: Text) -> Option<
    ServiceHealthView,
>
    decreases healths.len(),
{
    if healths.len() == 0 {
        None
    } else if healths[0].service == service {
        Some(healths[0])
    } else {
        health_for(healths.skip(1), service)
    }
}

/// Whether a service holds a release back.
pub open spec fn blocks(
    config: ConfigView,
    healths: Seq<ServiceHealthView>,
    service: Text,
    started: u64,
) -> bool {
    is_gated(config, service) && match health_for(healths, service) {
        Some(health) => !lets_pass(probe_of(config, service), health, started),
        None => true,
    }
}

/// The services, among some, whose gates are closed.
pub open spec fn blocking(
    config: ConfigView,
    services: Seq<Text>,
    healths: Seq<ServiceHealthView>,
    started: u64,
) -> Seq<Text>
    decreases services.len(),
{
    if services.len() == 0 {
        Seq::empty()
    } else {
        let before = blocking(config, services.drop_last(), healths, started);
        if blocks(config, healths, services.last(), started) {
            before.push(services.last())
        } else {
            before
        }
    }
}

/// Whether a release of a project has to pass gates.
pub open spec fn has_gates(config: ConfigView, services: Seq<Text>) -> bool {
    exists|i: int| 0 <= i < services.len() && is_gated(config, #[trigger] services[i])
}

fn gated(config: &ProjectConfig, service: &str) -> (r: bool)
    ensures
        r == is_gated(config.deep_view(), service@),
{
    match config.probe(service) {
        Some(ServiceProbe::Http { deployment_gate, .. }) => *deployment_gate,
        Some(ServiceProbe::Heartbeat { deployment_gate, .. }) => *deployment_gate,
        None => false,
    }
}

fn any_gated(config: &ProjectConfig) -> (r: bool)
    ensures
        r == has_gates(config.deep_view(), config.compose.services.deep_view()),
{
    let ghost services = config.compose.services.deep_view();
    let mut i: usize = 0;
    while i < config.compose.services.len()
        invariant
            services == config.compose.services.deep_view(),
            i <= config.compose.services@.len(),
            forall|j: int| 0 <= j < i ==> !is_gated(config.deep_view(), #[trigger] services[j]),
        decreases config.compose.services@.len() - i,
    {
        if gated(config, config.compose.services[i].as_str()) {
            assert(is_gated(config.deep_view(), services[i as int]));
            return true;
        }
        i = i + 1;
    }
    false
}

fn find_health<'a>(healths: &'a Vec<ServiceHealth>, service: &str) -> (r: Option<
    &'a ServiceHealth,
>)
    ensures
        r.deep_view() == health_for(healths.deep_view(), service@),
{
    let ghost views = healths.deep_view();
    let mut i: usize = 0;
    assert(views.skip(0) =~= views);
    while i < healths.len()
        invariant
            views == healths.deep_view(),
            i <= healths@.len(),
            health_for(views, service@) == health_for(views.skip(i as int), service@),
        decreases healths@.len() - i,
    {
        assert(views.skip(i as int)[0] == healths@[i as int].deep_view());
        assert(views.skip(i as int).skip(1) =~= views.skip(i + 1));
        if same(healths[i].service.as_str(), service) {
            return Some(&healths[i]);
        }
        i = i + 1;
    }
    None
}

fn passes(probe: Option<&ServiceProbe>, health: &ServiceHealth, started: u64) -> (r: bool)
    ensures
        r == lets_pass(probe_view(probe), health.deep_view(), started),
{
    if health.status != Health::Healthy {
        return false;
    }
    match probe {
        Some(ServiceProbe::Heartbeat { .. }) => match health.heartbeat_at_unix {
            Some(at) => at > started,
            None => false,
        },
        _ => true,
    }
}

/// The services whose gates are closed, in the order of the manifest. `healths` are measurements
/// of the services, `started` is the second in which they had all been started.
pub fn closed_gates(config: &ProjectConfig, healths: &Vec<ServiceHealth>, started: u64) -> (r: Vec<
    String,
>)
    ensures
        r.deep_view() == blocking(
            config.deep_view(),
            config.compose.services.deep_view(),
            healths.deep_view(),
            started,
        ),
{
    let ghost services = config.compose.services.deep_view();
    let ghost views = healths.deep_view();
    let mut out: Vec<String> = Vec::new();
    let mut i: usize = 0;
    assert(services.take(0) =~= Seq::<Text>::empty());
    assert(out.deep_view() =~= Seq::<Text>::empty());
    while i < config.compose.services.len()
        invariant
            services == config.compose.services.deep_view(),
            views == healths.deep_view(),
            i <= config.compose.services@.len(),
            out.deep_view() == blocking(
                config.deep_view(),
                services.take(i as int),
                views,
                started,
            ),
        decreases config.compose.services@.len() - i,
    {
        let service = config.compose.services[i].as_str();
        assert(services.take(i + 1).drop_last() =~= services.take(i as int));
        assert(services.take(i + 1).last() == service@);
        if gated(config, service) {
            let open = match find_health(healths, service) {
                Some(health) => passes(config.probe(service), health, started),
                None => false,
            };
            if !open {
                add_word(&mut out, service);
            }
        }
        i = i + 1;
    }
    assert(services.take(i as int) =~= services);
    out
}

/// A gate opens for a healthy service only: one that is unknown, degraded or unhealthy, or that
/// was not measured, keeps it closed.
pub proof fn law_gate_needs_health(
    config: ConfigView,
    healths: Seq<ServiceHealthView>,
    service: Text,
    started: u64,
)
    requires
        is_gated(config, service),
        !blocks(config, healths, service, started),
    ensures
        health_for(healths, service) matches Some(health) && health.status == Health::Healthy,
{
}

/// A heartbeat from up to the second of the start never lets a gated service pass, however fresh
/// it is.
pub proof fn law_gate_ignores_earlier_heartbeats(
    config: ConfigView,
    healths: Seq<ServiceHealthView>,
    service: Text,
    started: u64,
)
    requires
        is_gated(config, service),
        probe_of(config, service) matches Some(ProbeView::Heartbeat { .. }),
        health_for(healths, service) matches Some(health) && health.heartbeat_at_unix matches Some(
            at,
        ) && at <= started,
    ensures
        blocks(config, healths, service, started),
{
}

/// No gate is closed exactly when none of the gated services blocks.
pub proof fn law_open_when_nothing_blocks(
    config: ConfigView,
    services: Seq<Text>,
    healths: Seq<ServiceHealthView>,
    started: u64,
)
    ensures
        blocking(config, services, healths, started).len() == 0 <==> forall|i: int|
            0 <= i < services.len() ==> !blocks(config, healths, #[trigger] services[i], started),
    decreases services.len(),
{
    if services.len() > 0 {
        let shorter = services.drop_last();
        law_open_when_nothing_blocks(config, shorter, healths, started);
        if blocking(config, services, healths, started).len() == 0 {
            assert forall|i: int| 0 <= i < services.len() implies !blocks(
                config,
                healths,
                #[trigger] services[i],
                started,
            ) by {
                if i < shorter.len() {
                    assert(shorter[i] == services[i]);
                }
            }
        } else if !blocks(config, healths, services.last(), started) {
            let i = choose|i: int|
                0 <= i < shorter.len() && blocks(config, healths, #[trigger] shorter[i], started);
            assert(services[i] == shorter[i]);
        }
    }
}

// ---------------------------------------------------------------------------------------------
// The procedure
// ---------------------------------------------------------------------------------------------

/// Where an activation stands. `attempt` counts from one; `started` is the second in which all
/// services had been started.
#[derive(Debug)]
pub enum Activation {
    Starting { next: usize },
    Checking { attempt: u32, started: u64 },
    Pausing { attempt: u32, started: u64 },
    Listing { started: u64 },
    Measuring { attempt: u32, started: u64 },
    GatePausing { attempt: u32, started: u64 },
    Ended { result: Result<(), YardError> },
}

#[verifier::ext_equal]
pub enum ActivationPhase {
    Starting { next: nat },
    Checking { attempt: nat, started: u64 },
    Pausing { attempt: nat, started: u64 },
    Listing { started: u64 },
    Measuring { attempt: nat, started: u64 },
    GatePausing { attempt: nat, started: u64 },
    Ended { outcome: Option<ErrorView> },
}

impl DeepView for Activation {
    type V = ActivationPhase;

    open spec fn deep_view(&self) -> ActivationPhase {
        match self {
            Activation::Starting { next } => ActivationPhase::Starting { next: *next as nat },
            Activation::Checking { attempt, started } => ActivationPhase::Checking {
                attempt: *attempt as nat,
                started: *started,
            },
            Activation::Pausing { attempt, started } => ActivationPhase::Pausing {
                attempt: *attempt as nat,
                started: *started,
            },
            Activation::Listing { started } => ActivationPhase::Listing { started: *started },
            Activation::Measuring { attempt, started } => ActivationPhase::Measuring {
                attempt: *attempt as nat,
                started: *started,
            },
            Activation::GatePausing { attempt, started } => ActivationPhase::GatePausing {
                attempt: *attempt as nat,
                started: *started,
            },
            Activation::Ended { result } => ActivationPhase::Ended { outcome: error_of(*result) },
        }
    }
}

/// What an activation asks for.
#[derive(Debug)]
pub enum ActivationAction {
    /// Start a service with the image of a tag.
    Up { tag: String, service: String },
    /// Send a request to the health URL.
    Request(String),
    /// Wait for some seconds.
    Sleep(u64),
    /// List the containers.
    List,
    /// Measure the health of the services.
    Measure,
    /// Nothing: the activation has ended.
    Finish,
}

#[verifier::ext_equal]
pub enum ActivationActionView {
    Up { tag: Text, service: Text },
    Request(Text),
    Sleep(u64),
    List,
    Measure,
    Finish,
}

impl DeepView for ActivationAction {
    type V = ActivationActionView;

    open spec fn deep_view(&self) -> ActivationActionView {
        match self {
            ActivationAction::Up { tag, service } => ActivationActionView::Up {
                tag: tag@,
                service: service@,
            },
            ActivationAction::Request(url) => ActivationActionView::Request(url@),
            ActivationAction::Sleep(seconds) => ActivationActionView::Sleep(*seconds),
            ActivationAction::List => ActivationActionView::List,
            ActivationAction::Measure => ActivationActionView::Measure,
            ActivationAction::Finish => ActivationActionView::Finish,
        }
    }
}

/// What came of it.
#[derive(Debug)]
pub enum ActivationReply {
    Done,
    /// Whether a response of success came.
    Healthy(bool),
    Listed(String),
    Measured(Vec<ServiceHealth>),
    Failed(YardError),
}

#[verifier::ext_equal]
pub enum ActivationReplyView {
    Done,
    Healthy(bool),
    Listed(Text),
    Measured(Seq<ServiceHealthView>),
    Failed(ErrorView),
}

impl DeepView for ActivationReply {
    type V = ActivationReplyView;

    open spec fn deep_view(&self) -> ActivationReplyView {
        match self {
            ActivationReply::Done => ActivationReplyView::Done,
            ActivationReply::Healthy(healthy) => ActivationReplyView::Healthy(*healthy),
            ActivationReply::Listed(output) => ActivationReplyView::Listed(output@),
            ActivationReply::Measured(healths) => ActivationReplyView::Measured(
                healths.deep_view(),
            ),
            ActivationReply::Failed(error) => ActivationReplyView::Failed(error.deep_view()),
        }
    }
}

pub open spec fn reply_failure(reply: ActivationReplyView) -> ErrorView {
    match reply {
        ActivationReplyView::Failed(error) => error,
        _ => ErrorView::Config("unexpected reply"@),
    }
}

fn failure(reply: ActivationReply) -> (r: YardError)
    ensures
        r.deep_view() == reply_failure(reply.deep_view()),
{
    match reply {
        ActivationReply::Failed(error) => error,
        _ => YardError::Config("unexpected reply".to_owned()),
    }
}

pub open spec fn ended(error: ErrorView) -> ActivationPhase {
    ActivationPhase::Ended { outcome: Some(error) }
}

/// The failure of the health check; it is put down to the first service.
pub open spec fn unhealthy(config: ConfigView, source: ErrorView) -> ErrorView {
    at_service(config.compose.services[0], source)
}

/// Where an activation stands once all services have been started: where a health URL is
/// configured, it is asked first.
pub open spec fn started_at(config: ConfigView, now: u64) -> ActivationPhase {
    match config.deployment.health_url {
        Some(url) => if config.deployment.health_attempts == 0 {
            ended(unhealthy(config, ErrorView::HealthCheck(url)))
        } else {
            ActivationPhase::Checking { attempt: 1, started: now }
        },
        None => ActivationPhase::Listing { started: now },
    }
}

/// Where the activation of a release begins.
pub open spec fn beginning(config: ConfigView, release: ReleaseView, now: u64) -> ActivationPhase {
    if release.services.len() == 0 {
        started_at(config, now)
    } else {
        ActivationPhase::Starting { next: 0 }
    }
}

/// What an activation waits for.
pub open spec fn awaited(
    config: ConfigView,
    release: ReleaseView,
    phase: ActivationPhase,
) -> ActivationActionView {
    match phase {
        ActivationPhase::Starting { next } => if next < release.services.len() {
            ActivationActionView::Up {
                tag: release.tag,
                service: release.services[next as int].name,
            }
        } else {
            ActivationActionView::Finish
        },
        ActivationPhase::Checking { .. } => match config.deployment.health_url {
            Some(url) => ActivationActionView::Request(url),
            None => ActivationActionView::Finish,
        },
        ActivationPhase::Pausing { .. } => ActivationActionView::Sleep(
            config.deployment.health_interval_seconds,
        ),
        ActivationPhase::Listing { .. } => ActivationActionView::List,
        ActivationPhase::Measuring { .. } => ActivationActionView::Measure,
        ActivationPhase::GatePausing { .. } => ActivationActionView::Sleep(
            config.deployment.gate_interval_seconds,
        ),
        ActivationPhase::Ended { .. } => ActivationActionView::Finish,
    }
}

/// Where an activation stands when the running services match the release.
pub open spec fn verified(config: ConfigView, gated: bool, started: u64) -> ActivationPhase {
    if !gated || !has_gates(config, config.compose.services) {
        ActivationPhase::Ended { outcome: None }
    } else if config.deployment.gate_attempts == 0 {
        ended(gate_failure(config, config.compose.services, Seq::empty(), started))
    } else {
        ActivationPhase::Measuring { attempt: 1, started }
    }
}

/// The failure that names the services whose gates stayed closed.
pub open spec fn gate_failure(
    config: ConfigView,
    services: Seq<Text>,
    healths: Seq<ServiceHealthView>,
    started: u64,
) -> ErrorView {
    at_service(
        joined(blocking(config, services, healths, started), ", "@),
        ErrorView::Gate(config.deployment.gate_attempts as nat),
    )
}

/// Where an activation stands after a reply, at a time.
pub open spec fn after(
    config: ConfigView,
    release: ReleaseView,
    gated: bool,
    phase: ActivationPhase,
    reply: ActivationReplyView,
    now: u64,
) -> ActivationPhase {
    match phase {
        ActivationPhase::Starting { next } => match reply {
            ActivationReplyView::Done => if next + 1 < release.services.len() {
                ActivationPhase::Starting { next: next + 1 }
            } else {
                started_at(config, now)
            },
            _ => if next < release.services.len() {
                ended(at_service(release.services[next as int].name, reply_failure(reply)))
            } else {
                ended(reply_failure(reply))
            },
        },
        ActivationPhase::Checking { attempt, started } => match reply {
            ActivationReplyView::Healthy(healthy) => if healthy {
                ActivationPhase::Listing { started }
            } else if attempt < config.deployment.health_attempts {
                ActivationPhase::Pausing { attempt, started }
            } else {
                ended(
                    unhealthy(
                        config,
                        ErrorView::HealthCheck(
                            match config.deployment.health_url {
                                Some(url) => url,
                                None => Seq::empty(),
                            },
                        ),
                    ),
                )
            },
            _ => ended(unhealthy(config, reply_failure(reply))),
        },
        ActivationPhase::Pausing { attempt, started } => ActivationPhase::Checking {
            attempt: attempt + 1,
            started,
        },
        ActivationPhase::Listing { started } => match reply {
            ActivationReplyView::Listed(output) => match rows_of(output) {
                Ok(rows) => if release_runs(rows, release.services) {
                    verified(config, gated, started)
                } else {
                    ended(
                        ErrorView::Config(
                            "release does not match Docker Compose: "@ + release_report(
                                rows,
                                release.services,
                            ),
                        ),
                    )
                },
                Err(message) => ended(ErrorView::Json(message)),
            },
            _ => ended(reply_failure(reply)),
        },
        ActivationPhase::Measuring { attempt, started } => match reply {
            ActivationReplyView::Measured(healths) => if blocking(
                config,
                config.compose.services,
                healths,
                started,
            ).len() == 0 {
                ActivationPhase::Ended { outcome: None }
            } else if attempt < config.deployment.gate_attempts {
                ActivationPhase::GatePausing { attempt, started }
            } else {
                ended(gate_failure(config, config.compose.services, healths, started))
            },
            _ => ended(reply_failure(reply)),
        },
        ActivationPhase::GatePausing { attempt, started } => ActivationPhase::Measuring {
            attempt: attempt + 1,
            started,
        },
        ActivationPhase::Ended { .. } => phase,
    }
}

/// Whether the attempts of a phase are within what the manifest allows; those of a pause leave
/// room for one more.
pub open spec fn in_bounds(config: ConfigView, phase: ActivationPhase) -> bool {
    match phase {
        ActivationPhase::Checking { attempt, .. } => 1 <= attempt
            <= config.deployment.health_attempts,
        ActivationPhase::Pausing { attempt, .. } => 1 <= attempt
            < config.deployment.health_attempts,
        ActivationPhase::Measuring { attempt, .. } => 1 <= attempt
            <= config.deployment.gate_attempts,
        ActivationPhase::GatePausing { attempt, .. } => 1 <= attempt
            < config.deployment.gate_attempts,
        _ => true,
    }
}

fn unhealthy_error(config: &ProjectConfig, source: YardError) -> (r: Activation)
    requires
        config.compose.services@.len() > 0,
    ensures
        r.deep_view() == ended(unhealthy(config.deep_view(), source.deep_view())),
{
    Activation::Ended {
        result: Err(
            YardError::Service {
                service: config.compose.services[0].clone(),
                source: Box::new(source),
            },
        ),
    }
}

fn all_started(config: &ProjectConfig, now: u64) -> (r: Activation)
    requires
        config.compose.services@.len() > 0,
    ensures
        r.deep_view() == started_at(config.deep_view(), now),
{
    match &config.deployment.health_url {
        Some(url) => {
            if config.deployment.health_attempts == 0 {
                unhealthy_error(config, YardError::HealthCheck(url.clone()))
            } else {
                Activation::Checking { attempt: 1, started: now }
            }
        },
        None => Activation::Listing { started: now },
    }
}

fn closed(config: &ProjectConfig, healths: &Vec<ServiceHealth>, started: u64) -> (r: Activation)
    ensures
        r.deep_view() == ended(
            gate_failure(
                config.deep_view(),
                config.compose.services.deep_view(),
                healths.deep_view(),
                started,
            ),
        ),
{
    let names = closed_gates(config, healths, started);
    let source = YardError::Gate(config.deployment.gate_attempts);
    assert(source.deep_view() == ErrorView::Gate(config.deployment.gate_attempts as nat));
    Activation::Ended {
        result: Err(
            YardError::Service { service: join(&names, ", "), source: Box::new(source) },
        ),
    }
}

fn verify(config: &ProjectConfig, gated: bool, started: u64) -> (r: Activation)
    ensures
        r.deep_view() == verified(config.deep_view(), gated, started),
{
    if !gated || !any_gated(config) {
        return Activation::Ended { result: Ok(()) };
    }
    if config.deployment.gate_attempts == 0 {
        let none: Vec<ServiceHealth> = Vec::new();
        assert(none.deep_view() =~= Seq::<ServiceHealthView>::empty());
        return closed(config, &none, started);
    }
    Activation::Measuring { attempt: 1, started }
}

impl Activation {
    /// The activation of a release, which has not begun.
    pub fn start(config: &ProjectConfig, release: &Release, now: u64) -> (r: Self)
        requires
            config.compose.services@.len() > 0,
        ensures
            r.deep_view() == beginning(config.deep_view(), release.deep_view(), now),
            in_bounds(config.deep_view(), r.deep_view()),
    {
        if release.services.len() == 0 {
            assert(release.services.deep_view().len() == 0);
            all_started(config, now)
        } else {
            assert(release.services.deep_view().len() > 0);
            Activation::Starting { next: 0 }
        }
    }

    /// What the activation waits for.
    pub fn action(&self, config: &ProjectConfig, release: &Release) -> (r: ActivationAction)
        ensures
            r.deep_view() == awaited(config.deep_view(), release.deep_view(), self.deep_view()),
    {
        match self {
            Activation::Starting { next } => {
                if *next < release.services.len() {
                    ActivationAction::Up {
                        tag: release.tag.clone(),
                        service: release.services[*next].name.clone(),
                    }
                } else {
                    ActivationAction::Finish
                }
            },
            Activation::Checking { .. } => match &config.deployment.health_url {
                Some(url) => ActivationAction::Request(url.clone()),
                None => ActivationAction::Finish,
            },
            Activation::Pausing { .. } => ActivationAction::Sleep(
                config.deployment.health_interval_seconds,
            ),
            Activation::Listing { .. } => ActivationAction::List,
            Activation::Measuring { .. } => ActivationAction::Measure,
            Activation::GatePausing { .. } => ActivationAction::Sleep(
                config.deployment.gate_interval_seconds,
            ),
            Activation::Ended { .. } => ActivationAction::Finish,
        }
    }

    /// Goes on by what came of the action. `now` is the present time; `gated` tells whether the
    /// release has to pass the gates.
    pub fn step(
        self,
        config: &ProjectConfig,
        release: &Release,
        gated: bool,
        reply: ActivationReply,
        now: u64,
    ) -> (r: Self)
        requires
            config.compose.services@.len() > 0,
            in_bounds(config.deep_view(), self.deep_view()),
        ensures
            r.deep_view() == after(
                config.deep_view(),
                release.deep_view(),
                gated,
                self.deep_view(),
                reply.deep_view(),
                now,
            ),
            in_bounds(config.deep_view(), r.deep_view()),
    {
        match self {
            Activation::Starting { next } => match reply {
                ActivationReply::Done => {
                    if next < release.services.len() && next + 1 < release.services.len() {
                        Activation::Starting { next: next + 1 }
                    } else {
                        all_started(config, now)
                    }
                },
                _ => {
                    let source = failure(reply);
                    if next < release.services.len() {
                        Activation::Ended {
                            result: Err(
                                YardError::Service {
                                    service: release.services[next].name.clone(),
                                    source: Box::new(source),
                                },
                            ),
                        }
                    } else {
                        Activation::Ended { result: Err(source) }
                    }
                },
            },
            Activation::Checking { attempt, started } => match reply {
                ActivationReply::Healthy(healthy) => {
                    if healthy {
                        Activation::Listing { started }
                    } else if attempt < config.deployment.health_attempts {
                        Activation::Pausing { attempt, started }
                    } else {
                        let url = match &config.deployment.health_url {
                            Some(url) => url.clone(),
                            None => String::new(),
                        };
                        assert(url@ =~= match config.deployment.health_url.deep_view() {
                            Some(url) => url,
                            None => Seq::empty(),
                        });
                        unhealthy_error(config, YardError::HealthCheck(url))
                    }
                },
                _ => unhealthy_error(config, failure(reply)),
            },
            Activation::Pausing { attempt, started } => Activation::Checking {
                attempt: attempt + 1,
                started,
            },
            Activation::Listing { started } => match reply {
                ActivationReply::Listed(output) => {
                    match Project::runtime_report_from_output(&release.services, output.as_str()) {
                        Ok((matched, report)) => {
                            if matched {
                                verify(config, gated, started)
                            } else {
                                let mut message =
                                    "release does not match Docker Compose: ".to_owned();
                                message.append(report.as_str());
                                Activation::Ended { result: Err(YardError::Config(message)) }
                            }
                        },
                        Err(error) => Activation::Ended { result: Err(error) },
                    }
                },
                _ => Activation::Ended { result: Err(failure(reply)) },
            },
            Activation::Measuring { attempt, started } => match reply {
                ActivationReply::Measured(healths) => {
                    let names = closed_gates(config, &healths, started);
                    if names.len() == 0 {
                        assert(names.deep_view().len() == 0);
                        Activation::Ended { result: Ok(()) }
                    } else {
                        assert(names.deep_view().len() > 0);
                        if attempt < config.deployment.gate_attempts {
                            Activation::GatePausing { attempt, started }
                        } else {
                            closed(config, &healths, started)
                        }
                    }
                },
                _ => Activation::Ended { result: Err(failure(reply)) },
            },
            Activation::GatePausing { attempt, started } => Activation::Measuring {
                attempt: attempt + 1,
                started,
            },
            Activation::Ended { result } => Activation::Ended { result },
        }
    }
}

// ---------------------------------------------------------------------------------------------
// Laws
// ---------------------------------------------------------------------------------------------

/// Where an activation stands after replies, each at a time; it began at the time `now`.
pub open spec fn phase_after(
    config: ConfigView,
    release: ReleaseView,
    gated: bool,
    now: u64,
    replies: Seq<(ActivationReplyView, u64)>,
) -> ActivationPhase
    decreases replies.len(),
{
    if replies.len() == 0 {
        beginning(config, release, now)
    } else {
        after(
            config,
            release,
            gated,
            phase_after(config, release, gated, now, replies.drop_last()),
            replies.last().0,
            replies.last().1,
        )
    }
}

/// Whether an activation succeeds with a reply.
pub open spec fn succeeds(
    config: ConfigView,
    release: ReleaseView,
    gated: bool,
    phase: ActivationPhase,
    reply: ActivationReplyView,
    now: u64,
) -> bool {
    !(phase is Ended) && after(config, release, gated, phase, reply, now) == (
    ActivationPhase::Ended { outcome: None })
}

/// An activation succeeds only with a listing in which every service of the release runs its
/// image, or, behind such a listing, with a measurement that leaves no gate closed. A release
/// that has to pass gates never succeeds with the listing alone.
pub proof fn law_success_is_verified(
    config: ConfigView,
    release: ReleaseView,
    gated: bool,
    phase: ActivationPhase,
    reply: ActivationReplyView,
    now: u64,
)
    requires
        succeeds(config, release, gated, phase, reply, now),
    ensures
        match phase {
            ActivationPhase::Listing { .. } => {
                &&& reply matches ActivationReplyView::Listed(output) && rows_of(
                    output,
                ) matches Ok(rows) && release_runs(rows, release.services)
                &&& !gated || !has_gates(config, config.compose.services)
            },
            ActivationPhase::Measuring { started, .. } => reply
                matches ActivationReplyView::Measured(healths) && blocking(
                config,
                config.compose.services,
                healths,
                started,
            ).len() == 0,
            _ => false,
        },
{
}

/// Gates are measured only after a listing in which every service of the release runs its image.
pub proof fn law_gates_come_after_the_listing(
    config: ConfigView,
    release: ReleaseView,
    gated: bool,
    phase: ActivationPhase,
    reply: ActivationReplyView,
    now: u64,
)
    ensures
        after(config, release, gated, phase, reply, now) is Measuring ==> phase is GatePausing || (
        phase is Listing && gated && (reply matches ActivationReplyView::Listed(output) && rows_of(
            output,
        ) matches Ok(rows) && release_runs(rows, release.services))),
{
}

/// An activation never makes more health requests, nor more gate measurements, than the manifest
/// allows.
pub proof fn law_attempts_are_bounded(
    config: ConfigView,
    release: ReleaseView,
    gated: bool,
    now: u64,
    replies: Seq<(ActivationReplyView, u64)>,
)
    ensures
        in_bounds(config, phase_after(config, release, gated, now, replies)),
    decreases replies.len(),
{
    if replies.len() > 0 {
        law_attempts_are_bounded(config, release, gated, now, replies.drop_last());
    }
}

/// How much of an activation lies behind a phase.
pub open spec fn progress(release: ReleaseView, phase: ActivationPhase) -> (int, int) {
    match phase {
        ActivationPhase::Starting { next } => (0, next - release.services.len()),
        ActivationPhase::Checking { attempt, .. } => (1, 2 * attempt as int),
        ActivationPhase::Pausing { attempt, .. } => (1, 2 * attempt as int + 1),
        ActivationPhase::Listing { .. } => (2, 0),
        ActivationPhase::Measuring { attempt, .. } => (3, 2 * attempt as int),
        ActivationPhase::GatePausing { attempt, .. } => (3, 2 * attempt as int + 1),
        ActivationPhase::Ended { .. } => (4, 0),
    }
}

/// Every reply moves an activation forward until it has ended. With bounded attempts, it ends.
pub proof fn law_activation_moves_forward(
    config: ConfigView,
    release: ReleaseView,
    gated: bool,
    phase: ActivationPhase,
    reply: ActivationReplyView,
    now: u64,
)
    requires
        !(phase is Ended),
    ensures
        ({
            let from = progress(release, phase);
            let to = progress(release, after(config, release, gated, phase, reply, now));
            from.0 < to.0 || (from.0 == to.0 && from.1 < to.1)
        }),
{
}

/// Whether an activation asked for something and got a reply.
pub open spec fn was_told(
    config: ConfigView,
    release: ReleaseView,
    gated: bool,
    now: u64,
    replies: Seq<(ActivationReplyView, u64)>,
    action: ActivationActionView,
    reply: ActivationReplyView,
) -> bool {
    exists|k: int|
        0 <= k < replies.len() && awaited(
            config,
            release,
            phase_after(config, release, gated, now, #[trigger] replies.take(k)),
        ) == action && replies[k].0 == reply
}

proof fn lemma_told(
    config: ConfigView,
    release: ReleaseView,
    gated: bool,
    now: u64,
    replies: Seq<(ActivationReplyView, u64)>,
)
    requires
        replies.len() > 0,
    ensures
        was_told(
            config,
            release,
            gated,
            now,
            replies,
            awaited(
                config,
                release,
                phase_after(config, release, gated, now, replies.drop_last()),
            ),
            replies.last().0,
        ),
        forall|action: ActivationActionView, reply: ActivationReplyView|
            was_told(config, release, gated, now, replies.drop_last(), action, reply)
                ==> #[trigger] was_told(config, release, gated, now, replies, action, reply),
{
    let shorter = replies.drop_last();
    assert(replies.take(replies.len() - 1) =~= shorter);
    assert forall|action: ActivationActionView, reply: ActivationReplyView|
        was_told(config, release, gated, now, shorter, action, reply) implies #[trigger] was_told(
        config,
        release,
        gated,
        now,
        replies,
        action,
        reply,
    ) by {
        let k = choose|k: int|
            0 <= k < shorter.len() && awaited(
                config,
                release,
                phase_after(config, release, gated, now, #[trigger] shorter.take(k)),
            ) == action && shorter[k].0 == reply;
        assert(shorter.take(k) =~= replies.take(k));
    }
}

/// The action of starting a service of a release.
pub open spec fn start_of(release: ReleaseView, i: int) -> ActivationActionView {
    ActivationActionView::Up { tag: release.tag, service: release.services[i].name }
}

/// Whether a listing was told in which every service of a release is seen running with its image.
pub open spec fn was_seen_running(
    config: ConfigView,
    release: ReleaseView,
    gated: bool,
    now: u64,
    replies: Seq<(ActivationReplyView, u64)>,
) -> bool {
    exists|output: Text, rows: Seq<JsonView>|
        #![trigger rows_of(output), is_listed_running(rows, release)]
        was_told(
            config,
            release,
            gated,
            now,
            replies,
            ActivationActionView::List,
            ActivationReplyView::Listed(output),
        ) && rows_of(output) == Ok::<Seq<JsonView>, Text>(rows) && is_listed_running(rows, release)
}

/// Whether every service of a release is seen running with its image.
pub open spec fn is_listed_running(rows: Seq<JsonView>, release: ReleaseView) -> bool {
    forall|i: int|
        0 <= i < release.services.len() && (#[trigger] release.services[i]).image != "unknown"@
            ==> is_seen_running(rows, release.services[i].name, release.services[i].image)
}

/// Whether the first measurement of every gated service is healthy and, for a heartbeat, newer
/// than the start.
pub open spec fn gates_are_open(
    config: ConfigView,
    healths: Seq<ServiceHealthView>,
    started: u64,
) -> bool {
    forall|i: int|
        0 <= i < config.compose.services.len() && is_gated(
            config,
            #[trigger] config.compose.services[i],
        ) ==> exists|k: int|
            #![trigger healths[k]]
            0 <= k < healths.len() && healths[k].service == config.compose.services[i]
                && healths[k].status == Health::Healthy && (probe_of(
                config,
                config.compose.services[i],
            ) matches Some(ProbeView::Heartbeat { .. }) ==> (healths[k].heartbeat_at_unix
                matches Some(at) && at > started))
}

proof fn lemma_health_for(healths: Seq<ServiceHealthView>, service: Text)
    ensures
        health_for(healths, service) matches Some(health) ==> exists|k: int|
            0 <= k < healths.len() && #[trigger] healths[k] == health && health.service == service,
    decreases healths.len(),
{
    if healths.len() > 0 && healths[0].service != service {
        let rest = healths.skip(1);
        lemma_health_for(rest, service);
        if let Some(health) = health_for(rest, service) {
            let k = choose|k: int|
                0 <= k < rest.len() && #[trigger] rest[k] == health && health.service == service;
            assert(healths[k + 1] == health);
        }
    } else if healths.len() > 0 {
        assert(healths[0] == healths[0]);
    }
}

proof fn lemma_open_gates(config: ConfigView, healths: Seq<ServiceHealthView>, started: u64)
    requires
        blocking(config, config.compose.services, healths, started).len() == 0,
    ensures
        gates_are_open(config, healths, started),
{
    let services = config.compose.services;
    law_open_when_nothing_blocks(config, services, healths, started);
    assert forall|i: int|
        0 <= i < services.len() && is_gated(config, #[trigger] services[i]) implies exists|k: int|
        #![trigger healths[k]]
        0 <= k < healths.len() && healths[k].service == services[i] && healths[k].status
            == Health::Healthy && (probe_of(config, services[i]) matches Some(
            ProbeView::Heartbeat { .. },
        ) ==> (healths[k].heartbeat_at_unix matches Some(at) && at > started)) by {
        assert(!blocks(config, healths, services[i], started));
        lemma_health_for(healths, services[i]);
    }
}

/// Whether the health of a release was asked for, where there is something to ask, and found.
pub open spec fn was_healthy(
    config: ConfigView,
    release: ReleaseView,
    gated: bool,
    now: u64,
    replies: Seq<(ActivationReplyView, u64)>,
) -> bool {
    config.deployment.health_url matches Some(url) ==> was_told(
        config,
        release,
        gated,
        now,
        replies,
        ActivationActionView::Request(url),
        ActivationReplyView::Healthy(true),
    )
}

/// Whether the first services of a release were started.
pub open spec fn were_started(
    config: ConfigView,
    release: ReleaseView,
    gated: bool,
    now: u64,
    replies: Seq<(ActivationReplyView, u64)>,
    count: int,
) -> bool {
    forall|i: int|
        0 <= i < count && i < release.services.len() ==> was_told(
            config,
            release,
            gated,
            now,
            replies,
            #[trigger] start_of(release, i),
            ActivationReplyView::Done,
        )
}

#[verifier::rlimit(40)]
proof fn lemma_activation(
    config: ConfigView,
    release: ReleaseView,
    gated: bool,
    now: u64,
    replies: Seq<(ActivationReplyView, u64)>,
)
    ensures
        match phase_after(config, release, gated, now, replies) {
            ActivationPhase::Starting { next } => were_started(
                config,
                release,
                gated,
                now,
                replies,
                next as int,
            ),
            ActivationPhase::Ended { outcome } => outcome is None ==> {
                &&& were_started(
                    config,
                    release,
                    gated,
                    now,
                    replies,
                    release.services.len() as int,
                )
                &&& was_healthy(config, release, gated, now, replies)
                &&& was_seen_running(config, release, gated, now, replies)
                &&& gated && has_gates(config, config.compose.services) ==> exists|
                    healths: Seq<ServiceHealthView>,
                    started: u64,
                |
                    #[trigger] gates_are_open(config, healths, started) && was_told(
                        config,
                        release,
                        gated,
                        now,
                        replies,
                        ActivationActionView::Measure,
                        ActivationReplyView::Measured(healths),
                    )
            },
            phase => {
                &&& were_started(
                    config,
                    release,
                    gated,
                    now,
                    replies,
                    release.services.len() as int,
                )
                &&& phase is Listing ==> was_healthy(config, release, gated, now, replies)
                &&& phase is Measuring || phase is GatePausing ==> was_healthy(
                    config,
                    release,
                    gated,
                    now,
                    replies,
                ) && was_seen_running(config, release, gated, now, replies)
            },
        },
    decreases replies.len(),
{
    if replies.len() > 0 {
        let shorter = replies.drop_last();
        lemma_activation(config, release, gated, now, shorter);
        lemma_told(config, release, gated, now, replies);
        let before = phase_after(config, release, gated, now, shorter);
        let reply = replies.last().0;
        if was_seen_running(config, release, gated, now, shorter) {
            let (output, rows) = choose|output: Text, rows: Seq<JsonView>|
                #![trigger rows_of(output), is_listed_running(rows, release)]
                was_told(
                    config,
                    release,
                    gated,
                    now,
                    shorter,
                    ActivationActionView::List,
                    ActivationReplyView::Listed(output),
                ) && rows_of(output) == Ok::<Seq<JsonView>, Text>(rows) && is_listed_running(
                    rows,
                    release,
                );
            assert(was_told(
                config,
                release,
                gated,
                now,
                replies,
                ActivationActionView::List,
                ActivationReplyView::Listed(output),
            ));
            assert(was_seen_running(config, release, gated, now, replies));
        }
        match before {
            ActivationPhase::Starting { next } => {
                if reply is Done {
                    assert forall|i: int|
                        0 <= i < next + 1 && i < release.services.len() implies was_told(
                        config,
                        release,
                        gated,
                        now,
                        replies,
                        #[trigger] start_of(release, i),
                        ActivationReplyView::Done,
                    ) by {
                        if i < next {
                            assert(was_told(
                                config,
                                release,
                                gated,
                                now,
                                shorter,
                                start_of(release, i),
                                ActivationReplyView::Done,
                            ));
                        }
                    }
                }
            },
            _ => {},
        }
        if !(before is Starting) {
            assert forall|i: int|
                0 <= i < release.services.len() && were_started(
                    config,
                    release,
                    gated,
                    now,
                    shorter,
                    release.services.len() as int,
                ) implies was_told(
                config,
                release,
                gated,
                now,
                replies,
                #[trigger] start_of(release, i),
                ActivationReplyView::Done,
            ) by {
                assert(was_told(
                    config,
                    release,
                    gated,
                    now,
                    shorter,
                    start_of(release, i),
                    ActivationReplyView::Done,
                ));
            }
        }
        if let ActivationPhase::Listing { started } = before {
            if let ActivationReplyView::Listed(output) = reply {
                if let Ok(rows) = rows_of(output) {
                    if release_runs(rows, release.services) {
                        assert forall|i: int|
                            0 <= i < release.services.len() && (
                            #[trigger] release.services[i]).image != "unknown"@ implies is_seen_running(
                            rows,
                            release.services[i].name,
                            release.services[i].image,
                        ) by {
                            law_matching_services_are_running(rows, release.services, i);
                        }
                        assert(is_listed_running(rows, release));
                        assert(was_seen_running(config, release, gated, now, replies));
                    }
                }
            }
        }
        if let ActivationPhase::Measuring { started, .. } = before {
            if let ActivationReplyView::Measured(healths) = reply {
                if blocking(config, config.compose.services, healths, started).len() == 0 {
                    lemma_open_gates(config, healths, started);
                }
            }
        }
        if let ActivationPhase::Ended { outcome } = before {
            if outcome is None && gated && has_gates(config, config.compose.services) {
                let (healths, started) = choose|healths: Seq<ServiceHealthView>, started: u64|
                    #[trigger] gates_are_open(config, healths, started) && was_told(
                        config,
                        release,
                        gated,
                        now,
                        shorter,
                        ActivationActionView::Measure,
                        ActivationReplyView::Measured(healths),
                    );
                assert(was_told(
                    config,
                    release,
                    gated,
                    now,
                    replies,
                    ActivationActionView::Measure,
                    ActivationReplyView::Measured(healths),
                ));
            }
        }
    }
}

/// An activation succeeds only if every service of the release was started under its tag, the
/// configured URL answered with success, a listing showed every service in the state `running`
/// with the recorded image, and, where gates count, every gated service was measured healthy, by a
/// heartbeat newer than the start.
pub proof fn law_success_needs_all_evidence(
    config: ConfigView,
    release: ReleaseView,
    gated: bool,
    now: u64,
    replies: Seq<(ActivationReplyView, u64)>,
)
    requires
        phase_after(config, release, gated, now, replies) == (ActivationPhase::Ended {
            outcome: None,
        }),
    ensures
        forall|i: int|
            0 <= i < release.services.len() ==> was_told(
                config,
                release,
                gated,
                now,
                replies,
                #[trigger] start_of(release, i),
                ActivationReplyView::Done,
            ),
        config.deployment.health_url matches Some(url) ==> was_told(
            config,
            release,
            gated,
            now,
            replies,
            ActivationActionView::Request(url),
            ActivationReplyView::Healthy(true),
        ),
        was_seen_running(config, release, gated, now, replies),
        gated && has_gates(config, config.compose.services) ==> exists|
            healths: Seq<ServiceHealthView>,
            started: u64,
        |
            #[trigger] gates_are_open(config, healths, started) && was_told(
                config,
                release,
                gated,
                now,
                replies,
                ActivationActionView::Measure,
                ActivationReplyView::Measured(healths),
            ),
{
    lemma_activation(config, release, gated, now, replies);
}

/// A listing in which the container of a service is in another state than `running` never lets an
/// activation pass; the failure tells what was seen.
pub proof fn law_stopped_service_fails_the_activation(
    config: ConfigView,
    release: ReleaseView,
    gated: bool,
    started: u64,
    output: Text,
    rows: Seq<JsonView>,
    i: int,
    k: int,
    now: u64,
)
    requires
        rows_of(output) == Ok::<Seq<JsonView>, Text>(rows),
        0 <= i < release.services.len(),
        is_first_about(rows, release.services[i].name, k),
        member(rows[k], "State"@) != Some(JsonView::Text("running"@)),
    ensures
        after(
            config,
            release,
            gated,
            ActivationPhase::Listing { started },
            ActivationReplyView::Listed(output),
            now,
        ) matches ActivationPhase::Ended { outcome: Some(ErrorView::Config(reason)) } && begins(
            reason,
            "release does not match Docker Compose: "@,
        ),
{
    if release_runs(rows, release.services) {
        law_matching_services_are_running(rows, release.services, i);
        let name = release.services[i].name;
        let other = choose|other: int| #[trigger]
            is_first_about(rows, name, other) && member(rows[other], "State"@) == Some(
                JsonView::Text("running"@),
            );
        if other < k {
            assert(member(rows[other], "Service"@) != Some(JsonView::Text(name)));
        } else if k < other {
            assert(member(rows[k], "Service"@) != Some(JsonView::Text(name)));
        }
    } else {
        let start = "release does not match Docker Compose: "@;
        let reason = start + release_report(rows, release.services);
        assert(reason.take(start.len() as int) =~= start);
    }
}

/// A URL that does not answer with success is asked again, after the configured pause, until it
/// was asked as often as configured; only then does the activation fail, and it names the URL.
pub proof fn law_health_is_asked_as_often_as_configured(
    config: ConfigView,
    release: ReleaseView,
    gated: bool,
    attempt: nat,
    started: u64,
    now: u64,
    reply: ActivationReplyView,
    later: u64,
)
    requires
        config.deployment.health_url is Some,
        1 <= attempt <= config.deployment.health_attempts,
        config.compose.services.len() > 0,
    ensures
        ({
            let asked = ActivationPhase::Checking { attempt, started };
            let next = after(
                config,
                release,
                gated,
                asked,
                ActivationReplyView::Healthy(false),
                now,
            );
            if attempt == config.deployment.health_attempts {
                next == (ActivationPhase::Ended {
                    outcome: Some(
                        ErrorView::Service {
                            service: config.compose.services[0],
                            source: Box::new(
                                ErrorView::HealthCheck(config.deployment.health_url->0),
                            ),
                        },
                    ),
                })
            } else {
                &&& awaited(config, release, next) == ActivationActionView::Sleep(
                    config.deployment.health_interval_seconds,
                )
                &&& after(config, release, gated, next, reply, later) == (
                ActivationPhase::Checking { attempt: attempt + 1, started })
            }
        }),
{
}

/// Closed gates are measured again, after the configured pause, until they were measured as often
/// as configured.
pub proof fn law_gates_are_measured_as_often_as_configured(
    config: ConfigView,
    release: ReleaseView,
    gated: bool,
    attempt: nat,
    started: u64,
    healths: Seq<ServiceHealthView>,
    now: u64,
    reply: ActivationReplyView,
    later: u64,
)
    requires
        1 <= attempt <= config.deployment.gate_attempts,
        blocking(config, config.compose.services, healths, started).len() > 0,
    ensures
        ({
            let next = after(
                config,
                release,
                gated,
                ActivationPhase::Measuring { attempt, started },
                ActivationReplyView::Measured(healths),
                now,
            );
            if attempt == config.deployment.gate_attempts {
                next matches ActivationPhase::Ended { outcome } && outcome is Some
            } else {
                &&& awaited(config, release, next) == ActivationActionView::Sleep(
                    config.deployment.gate_interval_seconds,
                )
                &&& after(config, release, gated, next, reply, later) == (
                ActivationPhase::Measuring { attempt: attempt + 1, started })
            }
        }),
{
}

// ---------------------------------------------------------------------------------------------
// How an activation goes on
// ---------------------------------------------------------------------------------------------

/// A service is gated exactly where its probe says so.
pub proof fn law_gates_are_configured(config: ConfigView, i: int, service: Text)
    ensures
        0 <= i < config.service_health.len() && (forall|j: int|
            0 <= j < i ==> (#[trigger] config.service_health[j]).0 != config.service_health[i].0)
            ==> (is_gated(config, config.service_health[i].0) <==> (
        match config.service_health[i].1 {
            ProbeView::Http { deployment_gate, .. } => deployment_gate,
            ProbeView::Heartbeat { deployment_gate, .. } => deployment_gate,
        })),
        (forall|j: int|
            0 <= j < config.service_health.len() ==> (#[trigger] config.service_health[j]).0
                != service) ==> !is_gated(config, service),
{
    law_the_first_entry_is_found(config.service_health, i, service);
}

/// The first measurement of a service is the one that counts at a gate.
pub proof fn law_first_measurement_counts(
    healths: Seq<ServiceHealthView>,
    service: Text,
    k: int,
)
    requires
        0 <= k < healths.len(),
        healths[k].service == service,
        forall|j: int| 0 <= j < k ==> (#[trigger] healths[j]).service != service,
    ensures
        health_for(healths, service) == Some(healths[k]),
    decreases healths.len(),
{
    if k > 0 {
        let rest = healths.skip(1);
        assert(healths[0].service != service);
        assert forall|j: int| 0 <= j < k - 1 implies (#[trigger] rest[j]).service != service by {
            assert(rest[j] == healths[j + 1]);
        }
        law_first_measurement_counts(rest, service, k - 1);
    }
}

/// Whether all services of a release had been started at a time: the last was, at that time, or the
/// release has none and the activation began then.
pub open spec fn had_started_at(
    config: ConfigView,
    release: ReleaseView,
    gated: bool,
    now: u64,
    replies: Seq<(ActivationReplyView, u64)>,
    started: u64,
) -> bool {
    ||| release.services.len() == 0 && started == now
    ||| exists|k: int|
        0 <= k < replies.len() && awaited(
            config,
            release,
            phase_after(config, release, gated, now, #[trigger] replies.take(k)),
        ) == start_of(release, release.services.len() - 1) && replies[k] == (
            ActivationReplyView::Done,
            started,
        )
}

proof fn lemma_started(
    config: ConfigView,
    release: ReleaseView,
    gated: bool,
    now: u64,
    replies: Seq<(ActivationReplyView, u64)>,
)
    ensures
        match phase_after(config, release, gated, now, replies) {
            ActivationPhase::Starting { next } => next < release.services.len(),
            ActivationPhase::Checking { started, .. } => had_started_at(
                config,
                release,
                gated,
                now,
                replies,
                started,
            ),
            ActivationPhase::Pausing { started, .. } => had_started_at(
                config,
                release,
                gated,
                now,
                replies,
                started,
            ),
            ActivationPhase::Listing { started } => had_started_at(
                config,
                release,
                gated,
                now,
                replies,
                started,
            ),
            ActivationPhase::Measuring { started, .. } => had_started_at(
                config,
                release,
                gated,
                now,
                replies,
                started,
            ),
            ActivationPhase::GatePausing { started, .. } => had_started_at(
                config,
                release,
                gated,
                now,
                replies,
                started,
            ),
            ActivationPhase::Ended { .. } => true,
        },
    decreases replies.len(),
{
    if replies.len() > 0 {
        let shorter = replies.drop_last();
        lemma_started(config, release, gated, now, shorter);
        let before = phase_after(config, release, gated, now, shorter);
        assert forall|started: u64|
            had_started_at(
                config,
                release,
                gated,
                now,
                shorter,
                started,
            ) implies #[trigger] had_started_at(
            config,
            release,
            gated,
            now,
            replies,
            started,
        ) by {
            if !(release.services.len() == 0 && started == now) {
                let k = choose|k: int|
                    0 <= k < shorter.len() && awaited(
                        config,
                        release,
                        phase_after(config, release, gated, now, #[trigger] shorter.take(k)),
                    ) == start_of(release, release.services.len() - 1) && shorter[k] == (
                        ActivationReplyView::Done,
                        started,
                    );
                assert(shorter.take(k) =~= replies.take(k));
                assert(replies[k] == shorter[k]);
            }
        }
        if let ActivationPhase::Starting { next } = before {
            if replies.last().0 is Done && next + 1 >= release.services.len() {
                let k = replies.len() - 1;
                assert(replies.take(k) =~= shorter);
                assert(replies[k] == (ActivationReplyView::Done, replies.last().1));
                assert(had_started_at(config, release, gated, now, replies, replies.last().1));
            }
        }
    }
}

/// Where gates count, an activation succeeds only by a measurement after which every gate is open;
/// the heartbeats in it are newer than the time at which the last service of the release had been
/// started.
pub proof fn law_gates_need_heartbeats_from_after_the_start(
    config: ConfigView,
    release: ReleaseView,
    now: u64,
    replies: Seq<(ActivationReplyView, u64)>,
)
    requires
        has_gates(config, config.compose.services),
        phase_after(config, release, true, now, replies) == (ActivationPhase::Ended {
            outcome: None,
        }),
    ensures
        exists|healths: Seq<ServiceHealthView>, started: u64|
            #[trigger] gates_are_open(config, healths, started) && was_told(
                config,
                release,
                true,
                now,
                replies,
                ActivationActionView::Measure,
                ActivationReplyView::Measured(healths),
            ) && had_started_at(config, release, true, now, replies, started),
    decreases replies.len(),
{
    if replies.len() > 0 {
        let shorter = replies.drop_last();
        let before = phase_after(config, release, true, now, shorter);
        lemma_started(config, release, true, now, shorter);
        lemma_told(config, release, true, now, replies);
        if before == (ActivationPhase::Ended { outcome: None }) {
            law_gates_need_heartbeats_from_after_the_start(config, release, now, shorter);
            let (healths, started) = choose|healths: Seq<ServiceHealthView>, started: u64|
                #[trigger] gates_are_open(config, healths, started) && was_told(
                    config,
                    release,
                    true,
                    now,
                    shorter,
                    ActivationActionView::Measure,
                    ActivationReplyView::Measured(healths),
                ) && had_started_at(config, release, true, now, shorter, started);
            lemma_started_stays(config, release, true, now, replies, started);
            assert(gates_are_open(config, healths, started) && was_told(
                config,
                release,
                true,
                now,
                replies,
                ActivationActionView::Measure,
                ActivationReplyView::Measured(healths),
            ));
        } else {
            assert(before is Measuring);
            let started = before->Measuring_started;
            let healths = replies.last().0->Measured_0;
            lemma_open_gates(config, healths, started);
            lemma_started_stays(config, release, true, now, replies, started);
            assert(gates_are_open(config, healths, started) && was_told(
                config,
                release,
                true,
                now,
                replies,
                ActivationActionView::Measure,
                ActivationReplyView::Measured(healths),
            ));
        }
    }
}

proof fn lemma_started_stays(
    config: ConfigView,
    release: ReleaseView,
    gated: bool,
    now: u64,
    replies: Seq<(ActivationReplyView, u64)>,
    started: u64,
)
    requires
        replies.len() > 0,
        had_started_at(config, release, gated, now, replies.drop_last(), started),
    ensures
        had_started_at(config, release, gated, now, replies, started),
{
    let shorter = replies.drop_last();
    if !(release.services.len() == 0 && started == now) {
        let k = choose|k: int|
            0 <= k < shorter.len() && awaited(
                config,
                release,
                phase_after(config, release, gated, now, #[trigger] shorter.take(k)),
            ) == start_of(release, release.services.len() - 1) && shorter[k] == (
                ActivationReplyView::Done,
                started,
            );
        assert(shorter.take(k) =~= replies.take(k));
        assert(replies[k] == shorter[k]);
    }
}

/// An activation starts the services of its release in their order; then it asks the configured URL,
/// where there is one, and lists what runs; it ends well behind a listing that shows the release
/// running, unless gates count: then behind a measurement that opens them.
pub proof fn law_good_replies_lead_to_success(
    config: ConfigView,
    release: ReleaseView,
    gated: bool,
    next: nat,
    attempt: nat,
    started: u64,
    output: Text,
    rows: Seq<JsonView>,
    healths: Seq<ServiceHealthView>,
    now: u64,
)
    requires
        config.deployment.health_attempts > 0,
        config.deployment.gate_attempts > 0,
        next < release.services.len(),
        rows_of(output) == Ok::<Seq<JsonView>, Text>(rows),
        release_runs(rows, release.services),
    ensures
        awaited(config, release, beginning(config, release, now)) == start_of(release, 0),
        ({
            let after_start = after(
                config,
                release,
                gated,
                ActivationPhase::Starting { next },
                ActivationReplyView::Done,
                now,
            );
            &&& next + 1 < release.services.len() ==> awaited(config, release, after_start)
                == start_of(release, next as int + 1)
            &&& next + 1 == release.services.len() ==> (
            match config.deployment.health_url {
                Some(url) => awaited(config, release, after_start) == ActivationActionView::Request(
                    url,
                ),
                None => awaited(config, release, after_start) is List,
            })
        }),
        awaited(
            config,
            release,
            after(
                config,
                release,
                gated,
                ActivationPhase::Checking { attempt, started },
                ActivationReplyView::Healthy(true),
                now,
            ),
        ) is List,
        ({
            let listed = after(
                config,
                release,
                gated,
                ActivationPhase::Listing { started },
                ActivationReplyView::Listed(output),
                now,
            );
            let counts = gated && exists|i: int|
                0 <= i < config.compose.services.len() && is_gated(
                    config,
                    #[trigger] config.compose.services[i],
                );
            &&& !counts ==> listed == (ActivationPhase::Ended { outcome: None })
            &&& counts ==> listed == (ActivationPhase::Measuring { attempt: 1, started })
                && awaited(config, release, listed) is Measure
        }),
        (forall|i: int|
            0 <= i < config.compose.services.len() ==> !blocks(
                config,
                healths,
                #[trigger] config.compose.services[i],
                started,
            )) ==> after(
            config,
            release,
            gated,
            ActivationPhase::Measuring { attempt, started },
            ActivationReplyView::Measured(healths),
            now,
        ) == (ActivationPhase::Ended { outcome: None }),
{
    law_open_when_nothing_blocks(config, config.compose.services, healths, started);
}

/// A failure ends an activation: that of a start names the service, that of the URL the first
/// service, that of a listing or a measurement stands for itself.
pub proof fn law_failures_end_the_activation(
    config: ConfigView,
    release: ReleaseView,
    gated: bool,
    next: nat,
    attempt: nat,
    started: u64,
    error: ErrorView,
    now: u64,
)
    requires
        next < release.services.len(),
        config.compose.services.len() > 0,
    ensures
        after(
            config,
            release,
            gated,
            ActivationPhase::Starting { next },
            ActivationReplyView::Failed(error),
            now,
        ) == (ActivationPhase::Ended {
            outcome: Some(
                ErrorView::Service {
                    service: release.services[next as int].name,
                    source: Box::new(error),
                },
            ),
        }),
        after(
            config,
            release,
            gated,
            ActivationPhase::Checking { attempt, started },
            ActivationReplyView::Failed(error),
            now,
        ) == (ActivationPhase::Ended {
            outcome: Some(
                ErrorView::Service {
                    service: config.compose.services[0],
                    source: Box::new(error),
                },
            ),
        }),
        after(
            config,
            release,
            gated,
            ActivationPhase::Listing { started },
            ActivationReplyView::Failed(error),
            now,
        ) == (ActivationPhase::Ended { outcome: Some(error) }),
        after(
            config,
            release,
            gated,
            ActivationPhase::Measuring { attempt, started },
            ActivationReplyView::Failed(error),
            now,
        ) == (ActivationPhase::Ended { outcome: Some(error) }),
{
}

/// Gates that stay closed fail the activation with the names of the services that closed them and
/// the number of measurements.
pub proof fn law_closed_gates_are_named(
    config: ConfigView,
    release: ReleaseView,
    started: u64,
    healths: Seq<ServiceHealthView>,
    now: u64,
    i: int,
)
    requires
        0 <= i < config.compose.services.len(),
        blocks(config, healths, config.compose.services[i], started),
    ensures
        after(
            config,
            release,
            true,
            ActivationPhase::Measuring {
                attempt: config.deployment.gate_attempts as nat,
                started,
            },
            ActivationReplyView::Measured(healths),
            now,
        ) matches ActivationPhase::Ended { outcome: Some(ErrorView::Service { service, source }) }
            && holds_part(service, config.compose.services[i]) && *source == ErrorView::Gate(
            config.deployment.gate_attempts as nat,
        ),
{
    lemma_blocking(config, config.compose.services, healths, started, i);
    let names = blocking(config, config.compose.services, healths, started);
    let k = choose|k: int| 0 <= k < names.len() && names[k] == config.compose.services[i];
    lemma_joined_holds(names, ", "@, k);
}

proof fn lemma_blocking(
    config: ConfigView,
    services: Seq<Text>,
    healths: Seq<ServiceHealthView>,
    started: u64,
    i: int,
)
    requires
        0 <= i < services.len(),
        blocks(config, healths, services[i], started),
    ensures
        blocking(config, services, healths, started).contains(services[i]),
    decreases services.len(),
{
    let shorter = services.drop_last();
    let all = blocking(config, services, healths, started);
    let before = blocking(config, shorter, healths, started);
    if i < shorter.len() {
        lemma_blocking(config, shorter, healths, started, i);
        let k = choose|k: int| 0 <= k < before.len() && before[k] == services[i];
        assert(all[k] == services[i]);
    } else {
        assert(all[all.len() - 1] == services[i]);
    }
}

} // verus!
