//! The command line.

use vstd::prelude::*;

use crate::text::Text;

verus! {

/// A command line.
#[derive(Debug)]
pub struct Cli {
    pub projects_dir: Option<String>,
    pub state_dir: Option<String>,
    pub command: Command,
}

/// What the tool is asked to do.
#[derive(Debug)]
pub enum Command {
    List,
    Status { project: Option<String> },
    Host,
    Images { prune: bool, yes: bool },
    Deploy { project: String },
    Rollback { project: String, revision: Option<String>, yes: bool },
    Restore { project: String, revision: Option<String>, yes: bool },
    RestorePoints { project: String },
    RestoreLog { project: String },
    Logs {
        project: String,
        tail: u32,
        service: Option<String>,
        since: Option<String>,
        follow: bool,
        no_follow: bool,
    },
    Backup { project: String },
}

/// The first that is given: what the command line says, what the environment says, or the
/// default.
pub open spec fn first_given(flag: Option<Text>, environment: Option<Text>, default: Text) -> Text {
    match flag {
        Some(flag) => flag,
        None => match environment {
            Some(environment) => environment,
            None => default,
        },
    }
}

fn choose_directory(flag: &Option<String>, environment: &Option<String>, default: &str) -> (r:
    String)
    ensures
        r@ == first_given(flag.deep_view(), environment.deep_view(), default@),
{
    match flag {
        Some(flag) => flag.clone(),
        None => match environment {
            Some(environment) => environment.clone(),
            None => default.to_owned(),
        },
    }
}

impl Cli {
    /// The directory of the manifests.
    pub fn projects_directory(&self, environment: &Option<String>) -> (r: String)
        ensures
            r@ == first_given(
                self.projects_dir.deep_view(),
                environment.deep_view(),
                "/etc/yard/projects"@,
            ),
    {
        choose_directory(&self.projects_dir, environment, "/etc/yard/projects")
    }

    /// The directory of the recorded states.
    pub fn state_directory(&self, environment: &Option<String>) -> (r: String)
        ensures
            r@ == first_given(
                self.state_dir.deep_view(),
                environment.deep_view(),
                "/var/lib/yard"@,
            ),
    {
        choose_directory(&self.state_dir, environment, "/var/lib/yard")
    }
}

impl Command {
    /// Whether logs are followed: they are unless the command says otherwise.
    pub fn follows(&self) -> (r: bool)
        ensures
            r == match self {
                Command::Logs { follow, no_follow, .. } => *follow || !*no_follow,
                _ => false,
            },
    {
        match self {
            Command::Logs { follow, no_follow, .. } => *follow || !*no_follow,
            _ => false,
        }
    }

    /// Whether images are removed: only where both the pruning and its confirmation are asked for.
    pub fn removes_images(&self) -> (r: bool)
        ensures
            r == match self {
                Command::Images { prune, yes } => *prune && *yes,
                _ => false,
            },
    {
        match self {
            Command::Images { prune, yes } => *prune && *yes,
            _ => false,
        }
    }
}

/// A directory that the command line gives comes before the one that the environment gives, and
/// that before the default.
pub proof fn law_the_command_line_comes_first(flag: Text, environment: Text, default: Text)
    ensures
        first_given(Some(flag), Some(environment), default) == flag,
        first_given(Some(flag), None, default) == flag,
        first_given(None, Some(environment), default) == environment,
        first_given(None, None, default) == default,
{
}

/// Without a word on them, the manifests are under `/etc/yard/projects` and the states under
/// `/var/lib/yard`.
pub proof fn law_default_directories(cli: Cli, projects: String, states: String)
    requires
        cli.projects_dir is None,
        cli.state_dir is None,
        call_ensures(Cli::projects_directory, (&cli, &None), projects),
        call_ensures(Cli::state_directory, (&cli, &None), states),
    ensures
        projects@ == "/etc/yard/projects"@,
        states@ == "/var/lib/yard"@,
{
}

/// Images are removed only by the command for images, with both the pruning and its confirmation.
pub proof fn law_images_are_removed_only_when_asked(command: Command, r: bool)
    requires
        call_ensures(Command::removes_images, (&command,), r),
    ensures
        r ==> command is Images,
        command matches Command::Images { prune, yes } ==> (r <==> prune && yes),
{
}

/// Logs are followed unless the command says that they are not to be; nothing else is followed.
pub proof fn law_logs_are_followed_unless_told_otherwise(command: Command, r: bool)
    requires
        call_ensures(Command::follows, (&command,), r),
    ensures
        r ==> command is Logs,
        command matches Command::Logs { follow, no_follow, .. } ==> (follow ==> r) && (!no_follow
            ==> r) && (no_follow && !follow ==> !r),
{
}

} // verus!
