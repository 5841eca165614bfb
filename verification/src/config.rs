//! Project manifests.

use vstd::prelude::*;

use crate::error::{error_of, ErrorView, YardError};
use crate::table::Table;
use crate::text::{
    blank, chars, contains, digit, is_blank, is_digit, is_letter, is_space, letter, Text,
};
use crate::url::{is_plain_http, parts, plain_http, url_of, UrlParts, UrlView};

verus! {

/// The manifest of a project that the tool deploys.
#[derive(Debug)]
pub struct ProjectConfig {
    pub repo: String,
    pub branch: String,
    pub remote: String,
    pub compose: ComposeConfig,
    pub image: ImageConfig,
    pub deployment: DeploymentConfig,
    pub service_health: Table<ServiceProbe>,
    pub backup: Option<BackupConfig>,
}

/// Where the Compose project is, and its application services.
#[derive(Debug)]
pub struct ComposeConfig {
    pub directory: String,
    pub file: String,
    pub env_file: String,
    pub services: Vec<String>,
}

/// The name of the image, and the variable that carries its tag.
#[derive(Debug)]
pub struct ImageConfig {
    pub name: String,
    pub tag_env: String,
}

/// How the health of one service is measured.
#[derive(Debug)]
pub enum ServiceProbe {
    Http { url: String, timeout_ms: u64, deployment_gate: bool },
    Heartbeat { path: String, max_age_seconds: u64, deployment_gate: bool },
}

/// How a release is brought up and checked.
#[derive(Debug)]
pub struct DeploymentConfig {
    pub migration_service: Option<String>,
    pub health_url: Option<String>,
    pub health_attempts: u32,
    pub health_interval_seconds: u64,
    pub gate_attempts: u32,
    pub gate_interval_seconds: u64,
}

/// How a project is backed up.
#[derive(Debug)]
pub struct BackupConfig {
    pub command: Vec<String>,
    pub directory: Option<String>,
    pub extension: Option<String>,
    pub offsite_command: Option<Vec<String>>,
    pub offsite_destination: Option<String>,
}

pub const DEFAULT_ATTEMPTS: u32 = 30;

pub const DEFAULT_INTERVAL_SECONDS: u64 = 2;

// ---------------------------------------------------------------------------------------------
// What a manifest holds
// ---------------------------------------------------------------------------------------------

#[verifier::ext_equal]
pub enum ProbeView {
    Http { url: Text, timeout_ms: u64, deployment_gate: bool },
    Heartbeat { path: Text, max_age_seconds: u64, deployment_gate: bool },
}

#[verifier::ext_equal]
pub struct ComposeView {
    pub directory: Text,
    pub file: Text,
    pub env_file: Text,
    pub services: Seq<Text>,
}

#[verifier::ext_equal]
pub struct ImageView {
    pub name: Text,
    pub tag_env: Text,
}

#[verifier::ext_equal]
pub struct DeploymentView {
    pub migration_service: Option<Text>,
    pub health_url: Option<Text>,
    pub health_attempts: u32,
    pub health_interval_seconds: u64,
    pub gate_attempts: u32,
    pub gate_interval_seconds: u64,
}

#[verifier::ext_equal]
pub struct BackupView {
    pub command: Seq<Text>,
    pub directory: Option<Text>,
    pub extension: Option<Text>,
    pub offsite_command: Option<Seq<Text>>,
    pub offsite_destination: Option<Text>,
}

#[verifier::ext_equal]
pub struct ConfigView {
    pub repo: Text,
    pub branch: Text,
    pub remote: Text,
    pub compose: ComposeView,
    pub image: ImageView,
    pub deployment: DeploymentView,
    pub service_health: Seq<(Text, ProbeView)>,
    pub backup: Option<BackupView>,
}

impl DeepView for ServiceProbe {
    type V = ProbeView;

    open spec fn deep_view(&self) -> ProbeView {
        match self {
            ServiceProbe::Http { url, timeout_ms, deployment_gate } => ProbeView::Http {
                url: url@,
                timeout_ms: *timeout_ms,
                deployment_gate: *deployment_gate,
            },
            ServiceProbe::Heartbeat { path, max_age_seconds, deployment_gate } =>
            ProbeView::Heartbeat {
                path: path@,
                max_age_seconds: *max_age_seconds,
                deployment_gate: *deployment_gate,
            },
        }
    }
}

impl DeepView for ComposeConfig {
    type V = ComposeView;

    open spec fn deep_view(&self) -> ComposeView {
        ComposeView {
            directory: self.directory@,
            file: self.file@,
            env_file: self.env_file@,
            services: self.services.deep_view(),
        }
    }
}

impl DeepView for ImageConfig {
    type V = ImageView;

    open spec fn deep_view(&self) -> ImageView {
        ImageView { name: self.name@, tag_env: self.tag_env@ }
    }
}

impl DeepView for DeploymentConfig {
    type V = DeploymentView;

    open spec fn deep_view(&self) -> DeploymentView {
        DeploymentView {
            migration_service: self.migration_service.deep_view(),
            health_url: self.health_url.deep_view(),
            health_attempts: self.health_attempts,
            health_interval_seconds: self.health_interval_seconds,
            gate_attempts: self.gate_attempts,
            gate_interval_seconds: self.gate_interval_seconds,
        }
    }
}

impl DeepView for BackupConfig {
    type V = BackupView;

    open spec fn deep_view(&self) -> BackupView {
        BackupView {
            command: self.command.deep_view(),
            directory: self.directory.deep_view(),
            extension: self.extension.deep_view(),
            offsite_command: self.offsite_command.deep_view(),
            offsite_destination: self.offsite_destination.deep_view(),
        }
    }
}

/// The probes of a table, by what they hold.
pub open spec fn probes_view(entries: Seq<(Text, ServiceProbe)>) -> Seq<(Text, ProbeView)> {
    entries.map_values(|entry: (Text, ServiceProbe)| (entry.0, entry.1.deep_view()))
}

impl DeepView for ProjectConfig {
    type V = ConfigView;

    open spec fn deep_view(&self) -> ConfigView {
        ConfigView {
            repo: self.repo@,
            branch: self.branch@,
            remote: self.remote@,
            compose: self.compose.deep_view(),
            image: self.image.deep_view(),
            deployment: self.deployment.deep_view(),
            service_health: probes_view(self.service_health.view()),
            backup: self.backup.deep_view(),
        }
    }
}

// ---------------------------------------------------------------------------------------------
// Defaults
// ---------------------------------------------------------------------------------------------

impl Default for DeploymentConfig {
    fn default() -> (r: Self)
        ensures
            r.deep_view() == (DeploymentView {
                migration_service: None,
                health_url: None,
                health_attempts: 30,
                health_interval_seconds: 2,
                gate_attempts: 30,
                gate_interval_seconds: 2,
            }),
    {
        DeploymentConfig {
            migration_service: None,
            health_url: None,
            health_attempts: DEFAULT_ATTEMPTS,
            health_interval_seconds: DEFAULT_INTERVAL_SECONDS,
            gate_attempts: DEFAULT_ATTEMPTS,
            gate_interval_seconds: DEFAULT_INTERVAL_SECONDS,
        }
    }
}

/// The remote of a manifest that names none.
pub fn default_remote() -> (r: String)
    ensures
        r@ == "origin"@,
{
    "origin".to_owned()
}

/// The services of a Compose section, from its two keys: `service` names one, `services` lists
/// them. Exactly one of the keys has to be there; the message says so otherwise.
pub fn choose_services(service: Option<String>, services: Option<Vec<String>>) -> (r: Result<
    Vec<String>,
    String,
>)
    ensures
        match (service.deep_view(), services.deep_view()) {
            (Some(_), Some(_)) => r matches Err(message) && message@
                == "compose.service and compose.services are mutually exclusive"@,
            (Some(one), None) => r matches Ok(list) && list.deep_view() == seq![one],
            (None, Some(all)) => r matches Ok(list) && list.deep_view() == all,
            (None, None) => r matches Err(message) && message@
                == "compose.service or compose.services is required"@,
        },
{
    match (service, services) {
        (Some(_), Some(_)) => Err(
            "compose.service and compose.services are mutually exclusive".to_owned(),
        ),
        (Some(one), None) => {
            let ghost view = one@;
            let mut list: Vec<String> = Vec::new();
            list.push(one);
            assert(list.deep_view() =~= seq![view]);
            Ok(list)
        },
        (None, Some(all)) => Ok(all),
        (None, None) => Err("compose.service or compose.services is required".to_owned()),
    }
}

// ---------------------------------------------------------------------------------------------
// Names and paths
// ---------------------------------------------------------------------------------------------

/// Whether a piece of text names an environment variable.
pub open spec fn is_env_name(s: Text) -> bool {
    &&& s.len() > 0
    &&& !is_digit(s[0])
    &&& forall|i: int| 0 <= i < s.len() ==> (#[trigger] s[i]) == '_' || is_letter(s[i]) || is_digit(
        s[i],
    )
}

/// Whether a piece of text names a Compose service.
pub open spec fn is_service_name(s: Text) -> bool {
    &&& s.len() > 0
    &&& is_letter(s[0]) || is_digit(s[0])
    &&& forall|i: int|
        0 <= i < s.len() ==> is_letter(#[trigger] s[i]) || is_digit(s[i]) || s[i] == '_' || s[i]
            == '-' || s[i] == '.'
}

/// Whether `value` names an environment variable.
pub fn valid_env_name(value: &str) -> (r: bool)
    ensures
        r == is_env_name(value@),
{
    let cs = chars(value);
    if cs.len() == 0 || digit(cs[0]) {
        return false;
    }
    let mut i: usize = 0;
    while i < cs.len()
        invariant
            cs@ == value@,
            i <= cs@.len(),
            forall|j: int|
                0 <= j < i ==> (#[trigger] cs@[j]) == '_' || is_letter(cs@[j]) || is_digit(cs@[j]),
        decreases cs@.len() - i,
    {
        if !(cs[i] == '_' || letter(cs[i]) || digit(cs[i])) {
            assert(value@[i as int] == cs@[i as int]);
            return false;
        }
        i = i + 1;
    }
    true
}

/// Whether `value` names a Compose service.
pub fn valid_service_name(value: &str) -> (r: bool)
    ensures
        r == is_service_name(value@),
{
    let cs = chars(value);
    if cs.len() == 0 || !(letter(cs[0]) || digit(cs[0])) {
        return false;
    }
    let mut i: usize = 0;
    while i < cs.len()
        invariant
            cs@ == value@,
            i <= cs@.len(),
            forall|j: int|
                0 <= j < i ==> is_letter(#[trigger] cs@[j]) || is_digit(cs@[j]) || cs@[j] == '_'
                    || cs@[j] == '-' || cs@[j] == '.',
        decreases cs@.len() - i,
    {
        let c = cs[i];
        if !(letter(c) || digit(c) || c == '_' || c == '-' || c == '.') {
            assert(value@[i as int] == cs@[i as int]);
            return false;
        }
        i = i + 1;
    }
    true
}

/// Whether a path begins at the root.
pub open spec fn is_absolute(path: Text) -> bool {
    path.len() > 0 && path[0] == '/'
}

/// Whether one of the components of a path is `..`: the two dots stand between slashes or the
/// ends of the path.
pub open spec fn climbs(path: Text) -> bool {
    exists|i: int| climbs_at(path, i)
}

pub open spec fn climbs_at(path: Text, i: int) -> bool {
    &&& 0 <= i
    &&& i + 1 < path.len()
    &&& path[i] == '.'
    &&& path[i + 1] == '.'
    &&& i == 0 || path[i - 1] == '/'
    &&& i + 2 == path.len() || path[i + 2] == '/'
}

fn absolute(path: &str) -> (r: bool)
    ensures
        r == is_absolute(path@),
{
    let cs = chars(path);
    cs.len() > 0 && cs[0] == '/'
}

fn has_parent_component(path: &str) -> (r: bool)
    ensures
        r == climbs(path@),
{
    let cs = chars(path);
    let total: usize = cs.len();
    let mut i: usize = 0;
    while i < total
        invariant
            cs@ == path@,
            total == cs@.len(),
            i <= total,
            forall|j: int| 0 <= j < i ==> !#[trigger] climbs_at(path@, j),
        decreases total - i,
    {
        if total - i >= 2 && cs[i] == '.' && cs[i + 1] == '.' && (i == 0 || cs[i - 1] == '/') && (
        total - i == 2 || cs[i + 2] == '/') {
            assert(climbs_at(path@, i as int));
            return true;
        }
        i = i + 1;
    }
    false
}

/// A path beneath a directory. An absolute path stands for itself.
pub open spec fn joined_path(directory: Text, path: Text) -> Text {
    if is_absolute(path) {
        path
    } else if directory.len() == 0 || directory.last() == '/' {
        directory + path
    } else {
        directory + "/"@ + path
    }
}

/// The path beneath a directory.
pub fn join_path(directory: &str, path: &str) -> (r: String)
    ensures
        r@ == joined_path(directory@, path@),
{
    if absolute(path) {
        return path.to_owned();
    }
    let cs = chars(directory);
    let mut out = directory.to_owned();
    if cs.len() > 0 && cs[cs.len() - 1] != '/' {
        out.append("/");
    }
    out.append(path);
    out
}

// ---------------------------------------------------------------------------------------------
// Validity
// ---------------------------------------------------------------------------------------------

/// What is wrong with the service at a place of the list.
pub open spec fn service_fault(services: Seq<Text>, at: int) -> Option<Text> {
    let service = services[at];
    if is_blank(service) {
        Some("compose.services contains an empty name"@)
    } else if !is_service_name(service) {
        Some("compose.services contains invalid service name: "@ + service)
    } else if services.take(at).contains(service) {
        Some("compose.services contains duplicate service: "@ + service)
    } else {
        None
    }
}

/// What is wrong with the first faulty service among the first `n`.
pub open spec fn services_fault(services: Seq<Text>, n: nat) -> Option<Text>
    decreases n,
{
    if n == 0 {
        None
    } else {
        match services_fault(services, (n - 1) as nat) {
            Some(message) => Some(message),
            None => service_fault(services, n - 1),
        }
    }
}

/// Whether a probe can be carried out. `parts` are those of the URL of an HTTP probe.
pub open spec fn probe_usable(probe: ProbeView, parts: Option<UrlView>) -> bool {
    match probe {
        ProbeView::Http { timeout_ms, .. } => is_plain_http(parts) && timeout_ms > 0,
        ProbeView::Heartbeat { path, max_age_seconds, .. } => is_absolute(path) && !climbs(path)
            && max_age_seconds > 0,
    }
}

/// The parts of the URL of a probe, where it has one.
pub open spec fn probe_url(probe: ProbeView) -> Option<UrlView> {
    match probe {
        ProbeView::Http { url, .. } => url_of(url),
        ProbeView::Heartbeat { .. } => None,
    }
}

/// What is wrong with the probe of a service.
pub open spec fn probe_fault(services: Seq<Text>, name: Text, probe: ProbeView) -> Option<Text> {
    if !services.contains(name) {
        Some("service_health."@ + name + " is not a configured Compose service"@)
    } else if !probe_usable(probe, probe_url(probe)) {
        Some(
            "service_health."@ + name + (match probe {
                ProbeView::Http { .. } =>
                " requires an HTTP(S) URL without credentials and a positive timeout_ms"@,
                ProbeView::Heartbeat { .. } =>
                " requires an absolute path without '..' and a positive max_age_seconds"@,
            }),
        )
    } else {
        None
    }
}

/// What is wrong with the first faulty probe among the first `n`.
pub open spec fn probes_fault(
    services: Seq<Text>,
    probes: Seq<(Text, ProbeView)>,
    n: nat,
) -> Option<Text>
    decreases n,
{
    if n == 0 {
        None
    } else {
        match probes_fault(services, probes, (n - 1) as nat) {
            Some(message) => Some(message),
            None => probe_fault(services, probes[n - 1].0, probes[n - 1].1),
        }
    }
}

/// What is wrong with a backup section.
pub open spec fn backup_fault(backup: Option<BackupView>) -> Option<Text> {
    match backup {
        Some(backup) => if backup.command.len() == 0 || is_blank(backup.command[0]) {
            Some("backup.command must contain an executable"@)
        } else if backup.extension is Some && is_blank(backup.extension->0) {
            Some("backup.extension must not be empty when configured"@)
        } else {
            None
        },
        None => None,
    }
}

/// The first thing that is wrong with a manifest.
pub open spec fn config_fault(config: ConfigView) -> Option<Text> {
    let services = config.compose.services;
    if is_blank(config.branch) {
        Some("branch must not be empty"@)
    } else if is_blank(config.remote) {
        Some("remote must not be empty"@)
    } else if is_blank(config.compose.file) {
        Some("compose.file must not be empty"@)
    } else if services.len() == 0 {
        Some("compose.services must not be empty"@)
    } else if services_fault(services, services.len()) is Some {
        services_fault(services, services.len())
    } else if is_blank(config.compose.env_file) {
        Some("compose.env_file must not be empty"@)
    } else if is_blank(config.image.name) {
        Some("image.name must not be empty"@)
    } else if !is_env_name(config.image.tag_env) {
        Some(
            "image.tag_env is not a valid environment variable name: "@ + config.image.tag_env,
        )
    } else if config.deployment.health_attempts == 0 {
        Some("deployment.health_attempts must be greater than zero"@)
    } else if config.deployment.health_interval_seconds == 0 {
        Some("deployment.health_interval_seconds must be greater than zero"@)
    } else if config.deployment.gate_attempts == 0 {
        Some("deployment.gate_attempts must be greater than zero"@)
    } else if config.deployment.gate_interval_seconds == 0 {
        Some("deployment.gate_interval_seconds must be greater than zero"@)
    } else if probes_fault(services, config.service_health, config.service_health.len()) is Some {
        probes_fault(services, config.service_health, config.service_health.len())
    } else {
        backup_fault(config.backup)
    }
}

/// Whether a manifest can be worked with.
pub open spec fn valid(config: ConfigView) -> bool {
    let services = config.compose.services;
    &&& !is_blank(config.branch)
    &&& !is_blank(config.remote)
    &&& !is_blank(config.compose.file)
    &&& !is_blank(config.compose.env_file)
    &&& !is_blank(config.image.name)
    &&& is_env_name(config.image.tag_env)
    &&& services.len() > 0
    &&& services.no_duplicates()
    &&& forall|i: int| 0 <= i < services.len() ==> is_service_name(#[trigger] services[i])
    &&& config.deployment.health_attempts > 0
    &&& config.deployment.health_interval_seconds > 0
    &&& config.deployment.gate_attempts > 0
    &&& config.deployment.gate_interval_seconds > 0
    &&& forall|i: int|
        0 <= i < config.service_health.len() ==> {
            let (name, probe) = #[trigger] config.service_health[i];
            services.contains(name) && probe_usable(probe, probe_url(probe))
        }
    &&& config.backup matches Some(backup) ==> backup.command.len() > 0 && !is_blank(
        backup.command[0],
    ) && (backup.extension matches Some(extension) ==> !is_blank(extension))
}

/// Whether a probe can be carried out, given the parts of the URL of an HTTP probe.
pub fn usable(probe: &ServiceProbe, parts: &Option<UrlParts>) -> (r: bool)
    ensures
        r == probe_usable(probe.deep_view(), parts.deep_view()),
{
    match probe {
        ServiceProbe::Http { timeout_ms, .. } => plain_http(parts) && *timeout_ms > 0,
        ServiceProbe::Heartbeat { path, max_age_seconds, .. } => absolute(path.as_str())
            && !has_parent_component(path.as_str()) && *max_age_seconds > 0,
    }
}

fn fault(message: &str) -> (r: Result<(), YardError>)
    ensures
        error_of(r) == Some(ErrorView::Config(message@)),
{
    Err(YardError::Config(message.to_owned()))
}

fn fault_about(message: &str, subject: &str) -> (r: Result<(), YardError>)
    ensures
        error_of(r) == Some(ErrorView::Config(message@ + subject@)),
{
    let mut out = message.to_owned();
    out.append(subject);
    Err(YardError::Config(out))
}

fn check_services(services: &Vec<String>) -> (r: Result<(), YardError>)
    ensures
        error_of(r) == (match services_fault(services.deep_view(), services@.len()) {
            Some(message) => Some(ErrorView::Config(message)),
            None => None,
        }),
{
    let ghost all = services.deep_view();
    let mut seen: Vec<String> = Vec::new();
    let mut i: usize = 0;
    assert(seen.deep_view() =~= all.take(0));
    while i < services.len()
        invariant
            all == services.deep_view(),
            i <= services@.len(),
            seen.deep_view() == all.take(i as int),
            services_fault(all, i as nat) is None,
        decreases services@.len() - i,
    {
        let service = services[i].as_str();
        let ghost message = service_fault(all, i as int);
        assert(all[i as int] == service@);
        assert(services_fault(all, (i + 1) as nat) == message);
        if blank(service) || !valid_service_name(service) || contains(&seen, service) {
            proof {
                lemma_services_fault_stays(all, (i + 1) as nat, all.len());
            }
            if blank(service) {
                return fault("compose.services contains an empty name");
            }
            if !valid_service_name(service) {
                return fault_about("compose.services contains invalid service name: ", service);
            }
            return fault_about("compose.services contains duplicate service: ", service);
        }
        let ghost before = seen.deep_view();
        seen.push(services[i].clone());
        assert(seen.deep_view() =~= before.push(all[i as int]));
        assert(before.push(all[i as int]) =~= all.take(i + 1));
        i = i + 1;
    }
    Ok(())
}

proof fn lemma_services_fault_stays(services: Seq<Text>, n: nat, m: nat)
    requires
        n <= m,
        services_fault(services, n) is Some,
    ensures
        services_fault(services, m) == services_fault(services, n),
    decreases m,
{
    if n < m {
        lemma_services_fault_stays(services, n, (m - 1) as nat);
    }
}

fn check_probes(services: &Vec<String>, probes: &Table<ServiceProbe>) -> (r: Result<(), YardError>)
    ensures
        error_of(r) == (match probes_fault(
            services.deep_view(),
            probes_view(probes.view()),
            probes.view().len(),
        ) {
            Some(message) => Some(ErrorView::Config(message)),
            None => None,
        }),
{
    let ghost names = services.deep_view();
    let ghost all = probes_view(probes.view());
    let total: usize = probes.len();
    let mut i: usize = 0;
    while i < total
        invariant
            names == services.deep_view(),
            all == probes_view(probes.view()),
            total == all.len(),
            i <= total,
            probes_fault(names, all, i as nat) is None,
        decreases total - i,
    {
        let name = probes.name(i).as_str();
        let probe = probes.value(i);
        assert(all[i as int] == (name@, probe.deep_view()));
        assert(probes_fault(names, all, (i + 1) as nat) == probe_fault(
            names,
            name@,
            probe.deep_view(),
        ));
        if !contains(services, name) {
            proof {
                lemma_probes_fault_stays(names, all, (i + 1) as nat, all.len());
            }
            let mut message = "service_health.".to_owned();
            message.append(name);
            message.append(" is not a configured Compose service");
            return Err(YardError::Config(message));
        }
        let found = match probe {
            ServiceProbe::Http { url, .. } => parts(url.as_str()),
            ServiceProbe::Heartbeat { .. } => None,
        };
        if !usable(probe, &found) {
            proof {
                lemma_probes_fault_stays(names, all, (i + 1) as nat, all.len());
            }
            let mut message = "service_health.".to_owned();
            message.append(name);
            match probe {
                ServiceProbe::Http { .. } => message.append(
                    " requires an HTTP(S) URL without credentials and a positive timeout_ms",
                ),
                ServiceProbe::Heartbeat { .. } => message.append(
                    " requires an absolute path without '..' and a positive max_age_seconds",
                ),
            }
            return Err(YardError::Config(message));
        }
        i = i + 1;
    }
    Ok(())
}

proof fn lemma_probes_fault_stays(
    services: Seq<Text>,
    probes: Seq<(Text, ProbeView)>,
    n: nat,
    m: nat,
)
    requires
        n <= m,
        probes_fault(services, probes, n) is Some,
    ensures
        probes_fault(services, probes, m) == probes_fault(services, probes, n),
    decreases m,
{
    if n < m {
        lemma_probes_fault_stays(services, probes, n, (m - 1) as nat);
    }
}

fn check_backup(backup: &Option<BackupConfig>) -> (r: Result<(), YardError>)
    ensures
        error_of(r) == (match backup_fault(backup.deep_view()) {
            Some(message) => Some(ErrorView::Config(message)),
            None => None,
        }),
{
    if let Some(backup) = backup {
        if backup.command.len() == 0 || blank(backup.command[0].as_str()) {
            return fault("backup.command must contain an executable");
        }
        if let Some(extension) = &backup.extension {
            if blank(extension.as_str()) {
                return fault("backup.extension must not be empty when configured");
            }
        }
    }
    Ok(())
}

impl ProjectConfig {
    /// Whether the manifest can be worked with; if not, the first thing that is wrong with it.
    pub fn validate(&self) -> (r: Result<(), YardError>)
        ensures
            error_of(r) == (match config_fault(self.deep_view()) {
                Some(message) => Some(ErrorView::Config(message)),
                None => None,
            }),
    {
        if blank(self.branch.as_str()) {
            return fault("branch must not be empty");
        }
        if blank(self.remote.as_str()) {
            return fault("remote must not be empty");
        }
        if blank(self.compose.file.as_str()) {
            return fault("compose.file must not be empty");
        }
        if self.compose.services.len() == 0 {
            return fault("compose.services must not be empty");
        }
        check_services(&self.compose.services)?;
        if blank(self.compose.env_file.as_str()) {
            return fault("compose.env_file must not be empty");
        }
        if blank(self.image.name.as_str()) {
            return fault("image.name must not be empty");
        }
        if !valid_env_name(self.image.tag_env.as_str()) {
            return fault_about(
                "image.tag_env is not a valid environment variable name: ",
                self.image.tag_env.as_str(),
            );
        }
        if self.deployment.health_attempts == 0 {
            return fault("deployment.health_attempts must be greater than zero");
        }
        if self.deployment.health_interval_seconds == 0 {
            return fault("deployment.health_interval_seconds must be greater than zero");
        }
        if self.deployment.gate_attempts == 0 {
            return fault("deployment.gate_attempts must be greater than zero");
        }
        if self.deployment.gate_interval_seconds == 0 {
            return fault("deployment.gate_interval_seconds must be greater than zero");
        }
        check_probes(&self.compose.services, &self.service_health)?;
        check_backup(&self.backup)
    }

    /// The path of the Compose file.
    pub fn compose_file_path(&self) -> (r: String)
        ensures
            r@ == compose_file_of(self.deep_view()),
    {
        join_path(self.compose.directory.as_str(), self.compose.file.as_str())
    }

    /// The path of the environment file of Compose.
    pub fn compose_env_path(&self) -> (r: String)
        ensures
            r@ == compose_env_of(self.deep_view()),
    {
        join_path(self.compose.directory.as_str(), self.compose.env_file.as_str())
    }
}

/// The path of the Compose file.
pub open spec fn compose_file_of(config: ConfigView) -> Text {
    joined_path(config.compose.directory, config.compose.file)
}

/// The path of the environment file of Compose.
pub open spec fn compose_env_of(config: ConfigView) -> Text {
    joined_path(config.compose.directory, config.compose.env_file)
}

// ---------------------------------------------------------------------------------------------
// Laws
// ---------------------------------------------------------------------------------------------

proof fn lemma_services_fault(services: Seq<Text>, n: nat)
    requires
        n <= services.len(),
    ensures
        services_fault(services, n) is None <==> {
            &&& services.take(n as int).no_duplicates()
            &&& forall|i: int| 0 <= i < n ==> is_service_name(#[trigger] services[i])
        },
    decreases n,
{
    if n > 0 {
        lemma_services_fault(services, (n - 1) as nat);
        let shorter = services.take(n - 1);
        let longer = services.take(n as int);
        let service = services[n - 1];
        assert(longer =~= shorter.push(service));
        if is_service_name(service) {
            lemma_service_names_are_not_blank(service);
        }
        if shorter.no_duplicates() && !shorter.contains(service) {
            assert forall|i: int, j: int|
                0 <= i < longer.len() && 0 <= j < longer.len() && i != j implies longer[i]
                != longer[j] by {
                if i < n - 1 {
                    assert(shorter[i] == longer[i]);
                }
                if j < n - 1 {
                    assert(shorter[j] == longer[j]);
                }
            }
        }
        if longer.no_duplicates() {
            assert forall|i: int, j: int|
                0 <= i < shorter.len() && 0 <= j < shorter.len() && i != j implies shorter[i]
                != shorter[j] by {
                assert(shorter[i] == longer[i] && shorter[j] == longer[j]);
            }
            if shorter.contains(service) {
                let i = choose|i: int| 0 <= i < shorter.len() && shorter[i] == service;
                assert(longer[i] == longer[n - 1]);
            }
        }
    }
}

proof fn lemma_service_names_are_not_blank(name: Text)
    requires
        is_service_name(name),
    ensures
        !is_blank(name),
{
    assert(!is_space(name[0]));
}

proof fn lemma_probes_fault(services: Seq<Text>, probes: Seq<(Text, ProbeView)>, n: nat)
    requires
        n <= probes.len(),
    ensures
        probes_fault(services, probes, n) is None <==> forall|i: int|
            0 <= i < n ==> {
                let (name, probe) = #[trigger] probes[i];
                services.contains(name) && probe_usable(probe, probe_url(probe))
            },
    decreases n,
{
    if n > 0 {
        lemma_probes_fault(services, probes, (n - 1) as nat);
    }
}

/// Nothing is found wrong with a manifest exactly when it can be worked with: every name is
/// there, the services are distinct, the waits are positive, every probe belongs to a service and
/// can be carried out, and a backup section names a command.
pub proof fn law_faultless_is_valid(config: ConfigView)
    ensures
        config_fault(config) is None <==> valid(config),
{
    let services = config.compose.services;
    lemma_services_fault(services, services.len());
    assert(services.take(services.len() as int) =~= services);
    lemma_probes_fault(services, config.service_health, config.service_health.len());
}

/// The name of an environment variable begins with a letter or an underscore and holds nothing but
/// those and digits; that of a service begins with a letter or a digit and holds nothing but those,
/// underscores, hyphens and dots. Letters and digits are those of ASCII.
pub proof fn law_names_hold_plain_characters(name: Text, i: int)
    requires
        0 <= i < name.len(),
    ensures
        is_env_name(name) ==> ('a' <= name[i] <= 'z' || 'A' <= name[i] <= 'Z' || name[i] == '_' || (
        i > 0 && '0' <= name[i] <= '9')),
        is_service_name(name) ==> ('a' <= name[i] <= 'z' || 'A' <= name[i] <= 'Z' || '0' <= name[i]
            <= '9' || (i > 0 && (name[i] == '_' || name[i] == '-' || name[i] == '.'))),
        (forall|j: int|
            0 <= j < name.len() ==> ('a' <= #[trigger] name[j] <= 'z' || 'A' <= name[j] <= 'Z' || (j
                > 0 && '0' <= name[j] <= '9') || name[j] == '_')) ==> is_env_name(name),
        (forall|j: int|
            0 <= j < name.len() ==> ('a' <= #[trigger] name[j] <= 'z' || 'A' <= name[j] <= 'Z' || '0'
                <= name[j] <= '9' || (j > 0 && (name[j] == '_' || name[j] == '-' || name[j] == '.'))))
            ==> is_service_name(name),
{
    if is_env_name(name) {
        assert(name[i] == '_' || is_letter(name[i]) || is_digit(name[i]));
    }
    if is_service_name(name) {
        assert(is_letter(name[i]) || is_digit(name[i]) || name[i] == '_' || name[i] == '-' || name[i]
            == '.');
    }
    if forall|j: int|
        0 <= j < name.len() ==> ('a' <= #[trigger] name[j] <= 'z' || 'A' <= name[j] <= 'Z' || (j > 0
            && '0' <= name[j] <= '9') || name[j] == '_') {
        assert('a' <= name[0] <= 'z' || 'A' <= name[0] <= 'Z' || name[0] == '_');
    }
    if forall|j: int|
        0 <= j < name.len() ==> ('a' <= #[trigger] name[j] <= 'z' || 'A' <= name[j] <= 'Z' || '0'
            <= name[j] <= '9' || (j > 0 && (name[j] == '_' || name[j] == '-' || name[j] == '.'))) {
        assert('a' <= name[0] <= 'z' || 'A' <= name[0] <= 'Z' || '0' <= name[0] <= '9');
    }
}

/// A probe over HTTP is usable exactly with a plain HTTP URL and a timeout; one by heartbeat exactly
/// with an absolute path that does not climb and an allowed age.
pub proof fn law_probes_are_usable(probe: ProbeView, parts: Option<UrlView>)
    ensures
        probe matches ProbeView::Http { timeout_ms, .. } ==> (probe_usable(probe, parts) <==> {
            &&& timeout_ms > 0
            &&& parts matches Some(url) && (url.scheme == "http"@ || url.scheme == "https"@)
                && url.has_host && url.username.len() == 0 && url.password is None
        }),
        probe matches ProbeView::Heartbeat { path, max_age_seconds, .. } ==> (probe_usable(
            probe,
            parts,
        ) <==> max_age_seconds > 0 && path.len() > 0 && path[0] == '/' && !(exists|i: int|
            climbs_at(path, i))),
{
}

/// A path that goes up at any of its parts climbs: `..` between slashes or at an end.
pub proof fn law_climbing_paths_are_found(before: Text, after: Text)
    ensures
        climbs(before + "/../"@ + after),
        climbs(before + "/.."@),
        climbs("../"@ + after),
        climbs(".."@),
{
    reveal_strlit("/../");
    reveal_strlit("/..");
    reveal_strlit("../");
    reveal_strlit("..");
    let n = before.len() as int;
    assert(climbs_at(before + "/../"@ + after, n + 1));
    assert(climbs_at(before + "/.."@, n + 1));
    assert(climbs_at("../"@ + after, 0));
    assert(climbs_at(".."@, 0));
}

/// An absolute path stays as it is; another is looked for in its directory.
pub proof fn law_paths_are_joined(directory: Text, path: Text)
    ensures
        path.len() > 0 && path[0] == '/' ==> joined_path(directory, path) == path,
        (path.len() == 0 || path[0] != '/') && directory.len() > 0 && directory.last() != '/'
            ==> joined_path(directory, path) == directory + "/"@ + path,
        (path.len() == 0 || path[0] != '/') && directory.len() > 0 && directory.last() == '/'
            ==> joined_path(directory, path) == directory + path,
        (path.len() == 0 || path[0] != '/') && directory.len() == 0 ==> joined_path(directory, path)
            == path,
{
    if directory.len() == 0 {
        assert(directory + path =~= path);
    }
}

/// A Compose section names its services under exactly one of its two keys.
pub proof fn law_services_stand_under_one_key(
    service: Option<String>,
    services: Option<Vec<String>>,
    r: Result<Vec<String>, String>,
)
    requires
        call_ensures(choose_services, (service, services), r),
    ensures
        r is Ok <==> (service is Some && services is None) || (service is None && services is Some),
        service is Some && services is None ==> r is Ok && (r->Ok_0).deep_view() == seq![
            service->0@,
        ],
        service is None && services is Some ==> r is Ok && (r->Ok_0).deep_view() == (
        services->0).deep_view(),
{
}

/// What a manifest leaves out: thirty attempts, two seconds apart, at the remote `origin`.
pub proof fn law_defaults_of_a_manifest(remote: String)
    requires
        call_ensures(default_remote, (), remote),
    ensures
        DEFAULT_ATTEMPTS == 30,
        DEFAULT_INTERVAL_SECONDS == 2,
        remote@ == "origin"@,
{
}

/// A path climbs exactly where one of its parts is `..`: nothing or a slash stands before it, and
/// nothing or a slash behind.
pub proof fn law_only_two_dots_climb(path: Text)
    ensures
        climbs(path) <==> exists|before: Text, behind: Text|
            path == #[trigger] (before + ".."@ + behind) && (before.len() == 0 || before.last()
                == '/') && (behind.len() == 0 || behind[0] == '/'),
{
    reveal_strlit("..");
    if climbs(path) {
        let i = choose|i: int| climbs_at(path, i);
        let before = path.take(i);
        let behind = path.skip(i + 2);
        assert(path =~= before + ".."@ + behind);
    }
    if exists|before: Text, behind: Text|
        path == #[trigger] (before + ".."@ + behind) && (before.len() == 0 || before.last() == '/')
            && (behind.len() == 0 || behind[0] == '/') {
        let (before, behind) = choose|before: Text, behind: Text|
            path == #[trigger] (before + ".."@ + behind) && (before.len() == 0 || before.last()
                == '/') && (behind.len() == 0 || behind[0] == '/');
        assert(climbs_at(path, before.len() as int));
    }
}

} // verus!
