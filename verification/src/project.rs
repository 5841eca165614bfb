//! Projects: their names, the commands that act on them, and what those commands tell.

use vstd::prelude::*;

use crate::command::{add_word, add_words, is_command_failure};
use crate::config::{
    compose_env_of, compose_file_of, joined_path, ConfigView, ProjectConfig,
};
use crate::error::{error_of, ErrorView, YardError};
use crate::json::{member, member_text, parse, rows, rows_of, document, Json, JsonView};
use crate::number::{decimal, to_decimal};
use crate::order::{in_order, sorted};
use crate::state::{ReleaseService, ServiceView};
use crate::text::{
    begins, blank, chars, contains, copy_all, cut_last, empty, ends, ends_with, is_blank, is_space,
    join, joined, law_cut_at_the_last_separator, rsplit_once, same, string, Text,
};

verus! {

/// A configured project.
#[derive(Debug)]
pub struct Project {
    pub name: String,
    pub config: ProjectConfig,
    pub state_path: String,
}

// ---------------------------------------------------------------------------------------------
// Names
// ---------------------------------------------------------------------------------------------

/// Whether a project of a name can be loaded. The name `host` is taken by the host snapshot; any
/// other needs a manifest.
pub open spec fn name_fault(name: Text, has_manifest: bool) -> Option<ErrorView> {
    if name == "host"@ {
        Some(ErrorView::Config("project name 'host' is reserved for the host snapshot"@))
    } else if !has_manifest {
        Some(ErrorView::ProjectNotFound(name))
    } else {
        None
    }
}

/// Whether a project of a name can be loaded.
pub fn check_name(name: &str, has_manifest: bool) -> (r: Result<(), YardError>)
    ensures
        error_of(r) == name_fault(name@, has_manifest),
{
    if same(name, "host") {
        return Err(
            YardError::Config("project name 'host' is reserved for the host snapshot".to_owned()),
        );
    }
    if !has_manifest {
        return Err(YardError::ProjectNotFound(name.to_owned()));
    }
    Ok(())
}

/// The name of the project that a manifest of a file name is for.
pub open spec fn manifest_name(file: Text) -> Option<Text> {
    match cut_last(file, '.') {
        Some((stem, extension)) => if extension == "toml"@ && stem.len() > 0 && stem != "host"@ {
            Some(stem)
        } else {
            None
        },
        None => None,
    }
}

/// The names of the projects that manifests are for, file by file.
pub open spec fn manifest_names(files: Seq<Text>) -> Seq<Text>
    decreases files.len(),
{
    if files.len() == 0 {
        Seq::empty()
    } else {
        match manifest_name(files.last()) {
            Some(name) => manifest_names(files.drop_last()).push(name),
            None => manifest_names(files.drop_last()),
        }
    }
}

fn read_manifest_name(file: &str) -> (r: Option<String>)
    ensures
        r.deep_view() == manifest_name(file@),
{
    let (stem, extension) = rsplit_once(file, '.')?;
    if same(extension.as_str(), "toml") && !empty(stem.as_str()) && !same(stem.as_str(), "host") {
        Some(stem)
    } else {
        None
    }
}

/// The names of the projects that manifests are for, file by file.
pub fn names_of(files: &Vec<String>) -> (r: Vec<String>)
    ensures
        r.deep_view() == manifest_names(files.deep_view()),
{
    let ghost views = files.deep_view();
    let mut names: Vec<String> = Vec::new();
    let mut i: usize = 0;
    assert(views.take(0) =~= Seq::<Text>::empty());
    assert(names.deep_view() =~= Seq::<Text>::empty());
    while i < files.len()
        invariant
            views == files.deep_view(),
            i <= files@.len(),
            names.deep_view() == manifest_names(views.take(i as int)),
        decreases files@.len() - i,
    {
        assert(views.take(i + 1).drop_last() =~= views.take(i as int));
        assert(views.take(i + 1).last() == files@[i as int]@);
        if let Some(name) = read_manifest_name(files[i].as_str()) {
            add_word(&mut names, name.as_str());
        }
        i = i + 1;
    }
    assert(views.take(i as int) =~= views);
    names
}

impl Project {
    /// The configured projects, in order, from the names of the files in the manifest directory.
    pub fn list(files: &Vec<String>) -> (r: Vec<String>)
        ensures
            in_order(r.deep_view()),
            r.deep_view().to_multiset() == manifest_names(files.deep_view()).to_multiset(),
    {
        sorted(&names_of(files))
    }
}

/// No listed project has the name that the host snapshot takes.
pub proof fn law_host_is_never_listed(files: Seq<Text>)
    ensures
        !manifest_names(files).contains("host"@),
    decreases files.len(),
{
    if files.len() > 0 {
        law_host_is_never_listed(files.drop_last());
        let before = manifest_names(files.drop_last());
        if let Some(name) = manifest_name(files.last()) {
            assert forall|i: int| 0 <= i < before.push(name).len() implies before.push(name)[i]
                != "host"@ by {
                if i < before.len() {
                    assert(before[i] != "host"@) by {
                        if before[i] == "host"@ {
                            assert(before.contains("host"@));
                        }
                    }
                }
            }
        }
    }
}

/// The tag of the images of a revision: its first twelve characters.
pub open spec fn tag_of(revision: Text) -> Text {
    if revision.len() <= 12 {
        revision
    } else {
        revision.take(12)
    }
}

impl Project {
    /// The tag of the images of a revision.
    pub fn tag_for_revision(revision: &str) -> (r: String)
        ensures
            r@ == tag_of(revision@),
    {
        let cs = chars(revision);
        if cs.len() <= 12 {
            revision.to_owned()
        } else {
            string(vstd::slice::slice_subrange(cs.as_slice(), 0, 12))
        }
    }
}

// ---------------------------------------------------------------------------------------------
// Git
// ---------------------------------------------------------------------------------------------

pub(crate) fn one(a: &str) -> (r: Vec<String>)
    ensures
        r.deep_view() == seq![a@],
{
    let mut out: Vec<String> = Vec::new();
    assert(out.deep_view() =~= Seq::<Text>::empty());
    add_word(&mut out, a);
    assert(out.deep_view() =~= seq![a@]);
    out
}

pub(crate) fn two(a: &str, b: &str) -> (r: Vec<String>)
    ensures
        r.deep_view() == seq![a@, b@],
{
    let mut out = one(a);
    add_word(&mut out, b);
    assert(out.deep_view() =~= seq![a@, b@]);
    out
}

pub(crate) fn three(a: &str, b: &str, c: &str) -> (r: Vec<String>)
    ensures
        r.deep_view() == seq![a@, b@, c@],
{
    let mut out = two(a, b);
    add_word(&mut out, c);
    assert(out.deep_view() =~= seq![a@, b@, c@]);
    out
}

/// The Git command that lists tracked local changes.
pub fn git_changes() -> (r: Vec<String>)
    ensures
        r.deep_view() == seq!["status"@, "--porcelain"@, "--untracked-files=no"@],
{
    three("status", "--porcelain", "--untracked-files=no")
}

/// The Git command that tells the checked out revision.
pub fn git_head() -> (r: Vec<String>)
    ensures
        r.deep_view() == seq!["rev-parse"@, "HEAD"@],
{
    two("rev-parse", "HEAD")
}

/// The Git command that tells the checked out branch.
pub fn git_branch() -> (r: Vec<String>)
    ensures
        r.deep_view() == seq!["branch"@, "--show-current"@],
{
    two("branch", "--show-current")
}

/// The Git command that tells the commit that a revision stands for.
pub fn git_resolve(revision: &str) -> (r: Vec<String>)
    ensures
        r.deep_view() == seq!["rev-parse"@, revision@ + "^{commit}"@],
{
    let mut commit = revision.to_owned();
    commit.append("^{commit}");
    two("rev-parse", commit.as_str())
}

impl Project {
    /// The Git command that checks out the configured branch.
    pub fn git_switch(&self) -> (r: Vec<String>)
        ensures
            r.deep_view() == seq!["switch"@, self.config.branch@],
    {
        two("switch", self.config.branch.as_str())
    }

    /// The Git command that fetches the configured branch.
    pub fn git_fetch(&self) -> (r: Vec<String>)
        ensures
            r.deep_view() == seq!["fetch"@, self.config.remote@, self.config.branch@],
    {
        three("fetch", self.config.remote.as_str(), self.config.branch.as_str())
    }

    /// The Git command that moves the checkout forward to what was fetched.
    pub fn git_merge(&self) -> (r: Vec<String>)
        ensures
            r.deep_view() == seq!["merge"@, "--ff-only"@, self.config.remote@ + "/"@ + self.config.branch@],
    {
        let mut from = self.config.remote.clone();
        from.append("/");
        from.append(self.config.branch.as_str());
        three("merge", "--ff-only", from.as_str())
    }

    /// Whether a checkout may be deployed from, given the list of its tracked local changes.
    pub fn check_clean(&self, changes: &str) -> (r: Result<(), YardError>)
        ensures
            error_of(r) == (if is_blank(changes@) {
                None
            } else {
                Some(
                    ErrorView::Config(
                        self.config.repo@ + " has tracked local changes; refusing to deploy"@,
                    ),
                )
            }),
    {
        if blank(changes) {
            return Ok(());
        }
        let mut message = self.config.repo.clone();
        message.append(" has tracked local changes; refusing to deploy");
        Err(YardError::Config(message))
    }
}

// ---------------------------------------------------------------------------------------------
// Compose
// ---------------------------------------------------------------------------------------------

/// What every Compose command of a project begins with.
pub open spec fn compose_prefix(config: ConfigView) -> Seq<Text> {
    seq!["compose"@, "--env-file"@, compose_env_of(config), "-f"@, compose_file_of(config)]
}

impl Project {
    /// What every Compose command of the project begins with.
    pub fn compose_command_args(&self) -> (r: Vec<String>)
        ensures
            r.deep_view() == compose_prefix(self.config.deep_view()),
    {
        let env_file = self.config.compose_env_path();
        let file = self.config.compose_file_path();
        let mut args = three("compose", "--env-file", env_file.as_str());
        add_word(&mut args, "-f");
        add_word(&mut args, file.as_str());
        assert(args.deep_view() =~= compose_prefix(self.config.deep_view()));
        args
    }

    /// The Compose command that prints the resolved configuration.
    pub fn compose_config(&self) -> (r: Vec<String>)
        ensures
            r.deep_view() == compose_prefix(self.config.deep_view()) + seq![
                "config"@,
                "--format"@,
                "json"@,
            ],
    {
        let mut args = self.compose_command_args();
        let more = three("config", "--format", "json");
        add_words(&mut args, &more);
        args
    }

    /// The Compose command that builds the image of a service.
    pub fn compose_build(&self, service: &str) -> (r: Vec<String>)
        ensures
            r.deep_view() == compose_prefix(self.config.deep_view()) + seq!["build"@, service@],
    {
        let mut args = self.compose_command_args();
        let more = two("build", service);
        add_words(&mut args, &more);
        args
    }

    /// The Compose command that runs the migrations, where a service for them is configured.
    pub fn compose_migrate(&self) -> (r: Option<Vec<String>>)
        ensures
            r.deep_view() == (match self.config.deployment.migration_service.deep_view() {
                Some(service) => Some(
                    compose_prefix(self.config.deep_view()) + seq!["run"@, "--rm"@, service],
                ),
                None => None,
            }),
    {
        match &self.config.deployment.migration_service {
            Some(service) => {
                let mut args = self.compose_command_args();
                let more = three("run", "--rm", service.as_str());
                add_words(&mut args, &more);
                Some(args)
            },
            None => None,
        }
    }

    /// The Compose command that starts a service and none of those that it depends on.
    pub fn compose_up(&self, service: &str) -> (r: Vec<String>)
        ensures
            r.deep_view() == compose_prefix(self.config.deep_view()) + seq![
                "up"@,
                "-d"@,
                "--no-build"@,
                "--no-deps"@,
                service@,
            ],
    {
        let mut args = self.compose_command_args();
        let mut more = three("up", "-d", "--no-build");
        add_word(&mut more, "--no-deps");
        add_word(&mut more, service);
        assert(more.deep_view() =~= seq![
            "up"@,
            "-d"@,
            "--no-build"@,
            "--no-deps"@,
            service@,
        ]);
        add_words(&mut args, &more);
        args
    }

    /// The Compose command that lists the containers, stopped ones too.
    pub fn compose_ps(&self) -> (r: Vec<String>)
        ensures
            r.deep_view() == compose_prefix(self.config.deep_view()) + seq![
                "ps"@,
                "--all"@,
                "--format"@,
                "json"@,
            ],
    {
        let mut args = self.compose_command_args();
        let mut more = three("ps", "--all", "--format");
        add_word(&mut more, "json");
        assert(more.deep_view() =~= seq!["ps"@, "--all"@, "--format"@, "json"@]);
        add_words(&mut args, &more);
        args
    }

    /// The Compose command that tells when a file in a container of a service was last touched.
    pub fn compose_stat(&self, service: &str, path: &str) -> (r: Vec<String>)
        ensures
            r.deep_view() == compose_prefix(self.config.deep_view()) + seq![
                "exec"@,
                "-T"@,
                service@,
                "stat"@,
                "-c"@,
                "%Y"@,
                "--"@,
                path@,
            ],
    {
        let mut args = self.compose_command_args();
        let mut more = three("exec", "-T", service);
        add_word(&mut more, "stat");
        add_word(&mut more, "-c");
        add_word(&mut more, "%Y");
        add_word(&mut more, "--");
        add_word(&mut more, path);
        assert(more.deep_view() =~= seq![
            "exec"@,
            "-T"@,
            service@,
            "stat"@,
            "-c"@,
            "%Y"@,
            "--"@,
            path@,
        ]);
        add_words(&mut args, &more);
        args
    }

    /// The environment that carries the tag of a release to Compose.
    pub fn tag_env(&self, tag: &str) -> (r: (String, String))
        ensures
            r.0@ == self.config.image.tag_env@,
            r.1@ == tag@,
    {
        (self.config.image.tag_env.clone(), tag.to_owned())
    }
}

/// The failure that reports an unknown service, with the services that there are.
pub open spec fn unknown_service(service: Text, services: Seq<Text>) -> ErrorView {
    ErrorView::Config(
        "unknown service "@ + service + "; configured services: "@ + joined(services, ", "@),
    )
}

/// What a Compose command for logs ends with.
pub open spec fn log_arguments(
    tail: nat,
    follow: bool,
    since: Option<Text>,
    services: Seq<Text>,
) -> Seq<Text> {
    seq!["logs"@, "--tail"@, decimal(tail)] + (if follow {
        seq!["--follow"@]
    } else {
        Seq::empty()
    }) + (match since {
        Some(since) => seq!["--since"@, since],
        None => Seq::empty(),
    }) + services
}

impl Project {
    /// The Compose command that shows logs, of one configured service or of all.
    pub fn compose_logs(
        &self,
        tail: u32,
        follow: bool,
        service: Option<&str>,
        since: Option<&str>,
    ) -> (r: Result<Vec<String>, YardError>)
        ensures
            match service.deep_view() {
                Some(service) => if self.config.compose.services.deep_view().contains(service) {
                    r matches Ok(args) && args.deep_view() == compose_prefix(self.config.deep_view())
                        + log_arguments(tail as nat, follow, since.deep_view(), seq![service])
                } else {
                    error_of(r) == Some(unknown_service(service, self.config.compose.services.deep_view()))
                },
                None => r matches Ok(args) && args.deep_view() == compose_prefix(self.config.deep_view())
                    + log_arguments(
                    tail as nat,
                    follow,
                    since.deep_view(),
                    self.config.compose.services.deep_view(),
                ),
            },
    {
        let services = match service {
            Some(service) => {
                if !contains(&self.config.compose.services, service) {
                    let mut message = "unknown service ".to_owned();
                    message.append(service);
                    message.append("; configured services: ");
                    message.append(join(&self.config.compose.services, ", ").as_str());
                    return Err(YardError::Config(message));
                }
                one(service)
            },
            None => copy_all(&self.config.compose.services),
        };
        let count = to_decimal(tail as u128);
        let mut more = three("logs", "--tail", count.as_str());
        if follow {
            add_word(&mut more, "--follow");
        }
        if let Some(since) = since {
            add_word(&mut more, "--since");
            add_word(&mut more, since);
        }
        add_words(&mut more, &services);
        assert(more.deep_view() =~= log_arguments(
            tail as nat,
            follow,
            since.deep_view(),
            services.deep_view(),
        ));
        let mut args = self.compose_command_args();
        add_words(&mut args, &more);
        Ok(args)
    }
}

// ---------------------------------------------------------------------------------------------
// Images
// ---------------------------------------------------------------------------------------------

/// The Docker command that looks at an image.
pub fn image_inspect(image: &str) -> (r: Vec<String>)
    ensures
        r.deep_view() == seq!["image"@, "inspect"@, image@],
{
    three("image", "inspect", image)
}

/// Whether an image is there, from the outcome of looking at it: a command that fails says no,
/// one that cannot be run says nothing.
pub fn image_exists(outcome: Result<String, YardError>) -> (r: Result<bool, YardError>)
    ensures
        match outcome {
            Ok(_) => r matches Ok(found) && found,
            Err(error) => if error.deep_view() is CommandFailed {
                r matches Ok(found) && !found
            } else {
                error_of(r) == Some(error.deep_view())
            },
        },
{
    match outcome {
        Ok(_) => Ok(true),
        Err(error) => {
            if is_command_failure(&error) {
                Ok(false)
            } else {
                Err(error)
            }
        },
    }
}

/// The image that the resolved Compose configuration gives a service.
pub open spec fn image_of(config: JsonView, service: Text) -> Option<Text> {
    match member(config, "services"@) {
        Some(services) => match member(services, service) {
            Some(entry) => member_text(entry, "image"@),
            None => None,
        },
        None => None,
    }
}

/// A service of a release, or what is wrong with it: its image has to be there and to carry the
/// tag of the release.
pub open spec fn release_service(config: JsonView, name: Text, tag: Text) -> Result<
    ServiceView,
    ErrorView,
> {
    match image_of(config, name) {
        Some(image) => if ends(image, ":"@ + tag) {
            Ok(ServiceView { name, image })
        } else {
            Err(
                ErrorView::Config(
                    "Compose service "@ + name + " image "@ + image + " must be tagged with "@
                        + tag,
                ),
            )
        },
        None => Err(
            ErrorView::Config("Compose service "@ + name + " requires an image reference"@),
        ),
    }
}

/// The services of a release, or what is wrong with the first that is wrong.
pub open spec fn release_services(config: JsonView, names: Seq<Text>, tag: Text) -> Result<
    Seq<ServiceView>,
    ErrorView,
>
    decreases names.len(),
{
    if names.len() == 0 {
        Ok(Seq::empty())
    } else {
        match release_services(config, names.drop_last(), tag) {
            Ok(before) => match release_service(config, names.last(), tag) {
                Ok(service) => Ok(before.push(service)),
                Err(error) => Err(error),
            },
            Err(error) => Err(error),
        }
    }
}

proof fn lemma_release_services_fail(config: JsonView, names: Seq<Text>, tag: Text, n: int)
    requires
        0 <= n <= names.len(),
        release_services(config, names.take(n), tag) is Err,
    ensures
        release_services(config, names, tag) == release_services(config, names.take(n), tag),
    decreases names.len() - n,
{
    if n == names.len() {
        assert(names.take(n) =~= names);
    } else {
        assert(names.take(n + 1).drop_last() =~= names.take(n));
        lemma_release_services_fail(config, names, tag, n + 1);
    }
}

fn find_image(config: &Json, service: &str) -> (r: Option<String>)
    ensures
        r.deep_view() == image_of(config.deep_view(), service@),
{
    match config.member("services") {
        Some(services) => match services.member(service) {
            Some(entry) => entry.member_text("image"),
            None => None,
        },
        None => None,
    }
}

fn one_service(config: &Json, name: &str, tag: &str) -> (r: Result<ReleaseService, YardError>)
    ensures
        match r {
            Ok(service) => release_service(config.deep_view(), name@, tag@) == Ok::<
                ServiceView,
                ErrorView,
            >(service.deep_view()),
            Err(error) => release_service(config.deep_view(), name@, tag@) == Err::<
                ServiceView,
                ErrorView,
            >(error.deep_view()),
        },
{
    match find_image(config, name) {
        Some(image) => {
            let mut suffix = ":".to_owned();
            suffix.append(tag);
            if ends_with(image.as_str(), suffix.as_str()) {
                Ok(ReleaseService { name: name.to_owned(), image })
            } else {
                let mut message = "Compose service ".to_owned();
                message.append(name);
                message.append(" image ");
                message.append(image.as_str());
                message.append(" must be tagged with ");
                message.append(tag);
                Err(YardError::Config(message))
            }
        },
        None => {
            let mut message = "Compose service ".to_owned();
            message.append(name);
            message.append(" requires an image reference");
            Err(YardError::Config(message))
        },
    }
}

/// The services of a release, from the resolved Compose configuration for its tag.
pub fn services_from_config(names: &Vec<String>, config: &Json, tag: &str) -> (r: Result<
    Vec<ReleaseService>,
    YardError,
>)
    ensures
        match r {
            Ok(services) => release_services(config.deep_view(), names.deep_view(), tag@) == Ok::<
                Seq<ServiceView>,
                ErrorView,
            >(services.deep_view()),
            Err(error) => release_services(config.deep_view(), names.deep_view(), tag@) == Err::<
                Seq<ServiceView>,
                ErrorView,
            >(error.deep_view()),
        },
{
    let ghost views = names.deep_view();
    let mut out: Vec<ReleaseService> = Vec::new();
    let mut i: usize = 0;
    assert(views.take(0) =~= Seq::<Text>::empty());
    assert(out.deep_view() =~= Seq::<ServiceView>::empty());
    while i < names.len()
        invariant
            views == names.deep_view(),
            i <= names@.len(),
            release_services(config.deep_view(), views.take(i as int), tag@) == Ok::<
                Seq<ServiceView>,
                ErrorView,
            >(out.deep_view()),
        decreases names@.len() - i,
    {
        assert(views.take(i + 1).drop_last() =~= views.take(i as int));
        assert(views.take(i + 1).last() == names@[i as int]@);
        match one_service(config, names[i].as_str(), tag) {
            Ok(service) => {
                let ghost before = out.deep_view();
                out.push(service);
                assert(out.deep_view() =~= before.push(service.deep_view()));
            },
            Err(error) => {
                proof {
                    lemma_release_services_fail(config.deep_view(), views, tag@, i + 1);
                }
                return Err(error);
            },
        }
        i = i + 1;
    }
    assert(views.take(i as int) =~= views);
    Ok(out)
}

/// The services of a release, from the text of the resolved Compose configuration for its tag.
pub open spec fn services_of_text(text: Text, names: Seq<Text>, tag: Text) -> Result<
    Seq<ServiceView>,
    ErrorView,
> {
    match document(text) {
        Ok(config) => release_services(config, names, tag),
        Err(message) => Err(ErrorView::Json(message)),
    }
}

impl Project {
    /// The services of a release, from the output of the Compose command that prints the resolved
    /// configuration for its tag.
    pub fn release_services(&self, output: &str, tag: &str) -> (r: Result<
        Vec<ReleaseService>,
        YardError,
    >)
        ensures
            match r {
                Ok(services) => services_of_text(
                    output@,
                    self.config.compose.services.deep_view(),
                    tag@,
                ) == Ok::<Seq<ServiceView>, ErrorView>(services.deep_view()),
                Err(error) => services_of_text(
                    output@,
                    self.config.compose.services.deep_view(),
                    tag@,
                ) == Err::<Seq<ServiceView>, ErrorView>(error.deep_view()),
            },
    {
        match parse(output) {
            Ok(config) => services_from_config(&self.config.compose.services, &config, tag),
            Err(message) => Err(YardError::Json(message)),
        }
    }
}

/// Every service of a release carries the tag of the release, and the services are those of the
/// manifest in their order.
pub proof fn law_release_images_carry_the_tag(config: JsonView, names: Seq<Text>, tag: Text)
    ensures
        release_services(config, names, tag) matches Ok(services) ==> {
            &&& services.len() == names.len()
            &&& forall|i: int|
                0 <= i < services.len() ==> {
                    &&& (#[trigger] services[i]).name == names[i]
                    &&& ends(services[i].image, ":"@ + tag)
                }
        },
    decreases names.len(),
{
    if names.len() > 0 {
        law_release_images_carry_the_tag(config, names.drop_last(), tag);
    }
}

// ---------------------------------------------------------------------------------------------
// What runs
// ---------------------------------------------------------------------------------------------

/// The first row about a service.
pub open spec fn row_for(rows: Seq<JsonView>, service: Text) -> Option<JsonView>
    decreases rows.len(),
{
    if rows.len() == 0 {
        None
    } else if member(rows[0], "Service"@) == Some(JsonView::Text(service)) {
        Some(rows[0])
    } else {
        row_for(rows.skip(1), service)
    }
}

/// A field of the row about a service, in words.
pub open spec fn observed(rows: Seq<JsonView>, service: Text, field: Text) -> Text {
    match row_for(rows, service) {
        Some(row) => match member_text(row, field) {
            Some(text) => text,
            None => "unknown"@,
        },
        None => "missing"@,
    }
}

/// Whether a service runs the image of a release.
pub open spec fn service_matches(rows: Seq<JsonView>, service: ServiceView) -> bool {
    observed(rows, service.name, "Image"@) == service.image && observed(
        rows,
        service.name,
        "State"@,
    ) == "running"@
}

/// Whether every service of a release runs its image.
pub open spec fn release_runs(rows: Seq<JsonView>, services: Seq<ServiceView>) -> bool {
    forall|i: int| 0 <= i < services.len() ==> service_matches(rows, #[trigger] services[i])
}

/// What is seen of a service of a release.
pub open spec fn service_report(rows: Seq<JsonView>, service: ServiceView) -> Text {
    service.name + ": "@ + observed(rows, service.name, "Image"@) + " ("@ + observed(
        rows,
        service.name,
        "State"@,
    ) + ", expected "@ + service.image + ")"@
}

/// What is seen of the services of a release.
pub open spec fn release_report(rows: Seq<JsonView>, services: Seq<ServiceView>) -> Text {
    joined(services.map_values(|service: ServiceView| service_report(rows, service)), "; "@)
}

/// Whether a row is the first of a listing about a service.
pub open spec fn is_first_about(rows: Seq<JsonView>, service: Text, k: int) -> bool {
    &&& 0 <= k < rows.len()
    &&& member(rows[k], "Service"@) == Some(JsonView::Text(service))
    &&& forall|j: int|
        0 <= j < k ==> member(#[trigger] rows[j], "Service"@) != Some(JsonView::Text(service))
}

proof fn lemma_first_row(rows: Seq<JsonView>, service: Text)
    ensures
        row_for(rows, service) matches Some(row) ==> exists|k: int|
            #[trigger] is_first_about(rows, service, k) && rows[k] == row,
        forall|k: int| #[trigger]
            is_first_about(rows, service, k) ==> row_for(rows, service) == Some(rows[k]),
    decreases rows.len(),
{
    if rows.len() > 0 {
        let rest = rows.skip(1);
        lemma_first_row(rest, service);
        if member(rows[0], "Service"@) == Some(JsonView::Text(service)) {
            assert(is_first_about(rows, service, 0));
            assert forall|k: int| #[trigger] is_first_about(rows, service, k) implies row_for(
                rows,
                service,
            ) == Some(rows[k]) by {
                if k > 0 {
                    assert(member(rows[0], "Service"@) != Some(JsonView::Text(service)));
                }
            }
        } else {
            if let Some(row) = row_for(rows, service) {
                let k = choose|k: int| #[trigger]
                    is_first_about(rest, service, k) && rest[k] == row;
                assert forall|j: int| 0 <= j < k + 1 implies member(
                    #[trigger] rows[j],
                    "Service"@,
                ) != Some(JsonView::Text(service)) by {
                    if j > 0 {
                        assert(rest[j - 1] == rows[j]);
                    }
                }
                assert(is_first_about(rows, service, k + 1));
            }
            assert forall|k: int| #[trigger] is_first_about(rows, service, k) implies row_for(
                rows,
                service,
            ) == Some(rows[k]) by {
                assert(k > 0);
                assert forall|j: int| 0 <= j < k - 1 implies member(
                    #[trigger] rest[j],
                    "Service"@,
                ) != Some(JsonView::Text(service)) by {
                    assert(rest[j] == rows[j + 1]);
                }
                assert(rest[k - 1] == rows[k]);
                assert(is_first_about(rest, service, k - 1));
            }
        }
    }
}

/// Whether the first row about a service says that it is running, and runs an image.
pub open spec fn is_seen_running(rows: Seq<JsonView>, service: Text, image: Text) -> bool {
    exists|k: int| #[trigger]
        is_first_about(rows, service, k) && member(rows[k], "State"@) == Some(
            JsonView::Text("running"@),
        ) && member(rows[k], "Image"@) == Some(JsonView::Text(image))
}

/// A release that matches a listing runs: of each of its services there is a row, and the first
/// one has the state `running`, exactly so, and the recorded image. A container in any other state
/// never matches. (`unknown` is what an image that is not told is called.)
pub proof fn law_matching_services_are_running(
    rows: Seq<JsonView>,
    services: Seq<ServiceView>,
    i: int,
)
    requires
        release_runs(rows, services),
        0 <= i < services.len(),
    ensures
        exists|k: int| #[trigger]
            is_first_about(rows, services[i].name, k) && member(rows[k], "State"@) == Some(
                JsonView::Text("running"@),
            ) && (member(rows[k], "Image"@) == Some(JsonView::Text(services[i].image))
                || services[i].image == "unknown"@),
        services[i].image != "unknown"@ ==> is_seen_running(
            rows,
            services[i].name,
            services[i].image,
        ),
{
    let service = services[i];
    assert(service_matches(rows, service));
    lemma_first_row(rows, service.name);
    reveal_strlit("running");
    reveal_strlit("unknown");
    reveal_strlit("missing");
    assert("running"@[0] == 'r' && "unknown"@[0] == 'u' && "missing"@[0] == 'm');
    assert(row_for(rows, service.name) is Some);
    let k = choose|k: int| #[trigger]
        is_first_about(rows, service.name, k) && rows[k] == row_for(rows, service.name)->0;
    assert(is_first_about(rows, service.name, k));
}

/// A release matches a listing as soon as each of its services is seen running with its image,
/// whatever else is listed.
pub proof fn law_running_services_match(rows: Seq<JsonView>, services: Seq<ServiceView>)
    requires
        forall|i: int|
            0 <= i < services.len() ==> is_seen_running(
                rows,
                (#[trigger] services[i]).name,
                services[i].image,
            ),
    ensures
        release_runs(rows, services),
{
    assert forall|i: int| 0 <= i < services.len() implies service_matches(
        rows,
        #[trigger] services[i],
    ) by {
        lemma_first_row(rows, services[i].name);
        assert(is_seen_running(rows, services[i].name, services[i].image));
        let k = choose|k: int| #[trigger]
            is_first_about(rows, services[i].name, k) && member(rows[k], "State"@) == Some(
                JsonView::Text("running"@),
            ) && member(rows[k], "Image"@) == Some(JsonView::Text(services[i].image));
        assert(row_for(rows, services[i].name) == Some(rows[k]));
    }
}

/// What is reported of a service is what its row says, beside what is expected of it; a service
/// without a row is called missing.
pub proof fn law_report_tells_what_is_seen(
    rows: Seq<JsonView>,
    service: ServiceView,
    k: int,
    image: Text,
    state: Text,
)
    ensures
        is_first_about(rows, service.name, k) && member(rows[k], "Image"@) == Some(
            JsonView::Text(image),
        ) && member(rows[k], "State"@) == Some(JsonView::Text(state)) ==> service_report(
            rows,
            service,
        ) == service.name + ": "@ + image + " ("@ + state + ", expected "@ + service.image + ")"@,
        (forall|j: int|
            0 <= j < rows.len() ==> member(#[trigger] rows[j], "Service"@) != Some(
                JsonView::Text(service.name),
            )) ==> service_report(rows, service) == service.name
            + ": missing (missing, expected "@ + service.image + ")"@,
{
    lemma_first_row(rows, service.name);
    if forall|j: int|
        0 <= j < rows.len() ==> member(#[trigger] rows[j], "Service"@) != Some(
            JsonView::Text(service.name),
        ) {
        if row_for(rows, service.name) is Some {
            let k = choose|k: int| #[trigger] is_first_about(rows, service.name, k);
            assert(member(rows[k], "Service"@) == Some(JsonView::Text(service.name)));
        }
        reveal_strlit(": ");
        reveal_strlit("missing");
        reveal_strlit(" (");
        reveal_strlit(", expected ");
        reveal_strlit(": missing (missing, expected ");
        assert(": missing (missing, expected "@ =~= ": "@ + "missing"@ + " ("@ + "missing"@
            + ", expected "@);
        assert(service_report(rows, service) =~= service.name + ": missing (missing, expected "@
            + service.image + ")"@);
    }
}

fn find_row<'a>(rows: &'a Vec<Json>, service: &str) -> (r: Option<&'a Json>)
    ensures
        r.deep_view() == row_for(rows.deep_view(), service@),
{
    let ghost views = rows.deep_view();
    let mut i: usize = 0;
    assert(views.skip(0) =~= views);
    while i < rows.len()
        invariant
            views == rows.deep_view(),
            i <= rows@.len(),
            row_for(views, service@) == row_for(views.skip(i as int), service@),
        decreases rows@.len() - i,
    {
        assert(views.skip(i as int)[0] == rows@[i as int].deep_view());
        assert(views.skip(i as int).skip(1) =~= views.skip(i + 1));
        if let Some(name) = rows[i].member_text("Service") {
            if same(name.as_str(), service) {
                return Some(&rows[i]);
            }
        }
        i = i + 1;
    }
    None
}

fn observe(row: Option<&Json>, field: &str) -> (r: String)
    ensures
        r@ == (match row.deep_view() {
            Some(row) => match member_text(row, field@) {
                Some(text) => text,
                None => "unknown"@,
            },
            None => "missing"@,
        }),
{
    match row {
        Some(row) => match row.member_text(field) {
            Some(text) => text,
            None => "unknown".to_owned(),
        },
        None => "missing".to_owned(),
    }
}

/// Whether every service of a release runs its image, and what is seen of them, from the rows of
/// `docker compose ps`.
pub fn report_from_rows(services: &Vec<ReleaseService>, rows: &Vec<Json>) -> (r: (bool, String))
    ensures
        r.0 == release_runs(rows.deep_view(), services.deep_view()),
        r.1@ == release_report(rows.deep_view(), services.deep_view()),
{
    let ghost views = services.deep_view();
    let ghost all = rows.deep_view();
    let ghost reports = views.map_values(|service: ServiceView| service_report(all, service));
    let mut matched = true;
    let mut details: Vec<String> = Vec::new();
    let mut i: usize = 0;
    assert(details.deep_view() =~= reports.take(0));
    while i < services.len()
        invariant
            views == services.deep_view(),
            all == rows.deep_view(),
            reports == views.map_values(|service: ServiceView| service_report(all, service)),
            i <= services@.len(),
            matched == (forall|j: int| 0 <= j < i ==> service_matches(all, #[trigger] views[j])),
            details.deep_view() == reports.take(i as int),
        decreases services@.len() - i,
    {
        let service = &services[i];
        assert(views[i as int] == service.deep_view());
        let row = find_row(rows, service.name.as_str());
        let actual = observe(row, "Image");
        let state = observe(row, "State");
        if !same(actual.as_str(), service.image.as_str()) || !same(state.as_str(), "running") {
            matched = false;
            assert(!service_matches(all, views[i as int]));
        }
        let mut detail = service.name.clone();
        detail.append(": ");
        detail.append(actual.as_str());
        detail.append(" (");
        detail.append(state.as_str());
        detail.append(", expected ");
        detail.append(service.image.as_str());
        detail.append(")");
        add_word(&mut details, detail.as_str());
        assert(reports.take(i + 1) =~= reports.take(i as int).push(detail@));
        i = i + 1;
    }
    assert(reports.take(i as int) =~= reports);
    (matched, join(&details, "; "))
}

impl Project {
    /// Whether every service of a release runs its image, and what is seen of them, from the output
    /// of `docker compose ps`.
    pub fn runtime_report_from_output(services: &Vec<ReleaseService>, output: &str) -> (r: Result<
        (bool, String),
        YardError,
    >)
        ensures
            match rows_of(output@) {
                Ok(rows) => r matches Ok(report) && report.0 == release_runs(rows, services.deep_view())
                    && report.1@ == release_report(rows, services.deep_view()),
                Err(message) => error_of(r) == Some(ErrorView::Json(message)),
            },
    {
        match rows(output) {
            Ok(rows) => Ok(report_from_rows(services, &rows)),
            Err(message) => Err(YardError::Json(message)),
        }
    }
}

// ---------------------------------------------------------------------------------------------
// Names, tags and commands
// ---------------------------------------------------------------------------------------------

/// A project is named by a file exactly where the file is its name and `.toml`; neither the empty
/// name nor that of the host snapshot counts.
pub proof fn law_manifests_end_in_toml(file: Text, name: Text)
    ensures
        manifest_name(file) == Some(name) <==> file == name + ".toml"@ && name.len() > 0 && name
            != "host"@,
{
    reveal_strlit(".toml");
    reveal_strlit("toml");
    assert(".toml"@ =~= seq!['.'] + "toml"@);
    law_cut_at_the_last_separator(file, '.');
    if manifest_name(file) == Some(name) {
        assert(name.push('.') + "toml"@ =~= name + ".toml"@);
    }
    if file == name + ".toml"@ {
        let at = name.len() as int;
        assert(file[at] == '.');
        assert(file.contains('.'));
        let (stem, extension) = cut_last(file, '.')->0;
        let x = stem.len() as int;
        assert(file[x] == '.');
        assert(file.len() == x + 1 + extension.len());
        if x < at {
            assert(extension[at - x - 1] == file[at]);
            assert(extension.contains('.'));
        } else if at < x {
            assert(file[x] == ".toml"@[x - at]);
        }
        assert(stem =~= file.take(x));
        assert(name =~= file.take(at));
        assert(extension =~= file.skip(x + 1));
        assert("toml"@ =~= file.skip(at + 1));
    }
}

proof fn lemma_manifest_names(files: Seq<Text>, name: Text)
    ensures
        manifest_names(files).contains(name) <==> exists|i: int|
            0 <= i < files.len() && manifest_name(#[trigger] files[i]) == Some(name),
    decreases files.len(),
{
    if files.len() > 0 {
        let shorter = files.drop_last();
        lemma_manifest_names(shorter, name);
        let all = manifest_names(files);
        let before = manifest_names(shorter);
        if all.contains(name) {
            let k = choose|k: int| 0 <= k < all.len() && all[k] == name;
            if k < before.len() {
                assert(before[k] == name);
                let i = choose|i: int|
                    0 <= i < shorter.len() && manifest_name(#[trigger] shorter[i]) == Some(name);
                assert(files[i] == shorter[i]);
            } else {
                assert(manifest_name(files[files.len() - 1]) == Some(name));
            }
        }
        if exists|i: int| 0 <= i < files.len() && manifest_name(#[trigger] files[i]) == Some(name) {
            let i = choose|i: int|
                0 <= i < files.len() && manifest_name(#[trigger] files[i]) == Some(name);
            if i < shorter.len() {
                assert(shorter[i] == files[i]);
                let k = choose|k: int| 0 <= k < before.len() && before[k] == name;
                assert(all[k] == name);
            } else {
                assert(all[all.len() - 1] == name);
            }
        }
    }
}

/// A project is listed exactly where its manifest is among the files.
pub proof fn law_projects_are_those_with_a_manifest(files: Seq<Text>, name: Text)
    ensures
        manifest_names(files).contains(name) <==> files.contains(name + ".toml"@) && name.len() > 0
            && name != "host"@,
{
    lemma_manifest_names(files, name);
    assert forall|file: Text| #[trigger] manifest_name(file) == Some(name) <==> file == name
        + ".toml"@ && name.len() > 0 && name != "host"@ by {
        law_manifests_end_in_toml(file, name);
    }
    if files.contains(name + ".toml"@) {
        let i = choose|i: int| 0 <= i < files.len() && files[i] == name + ".toml"@;
        law_manifests_end_in_toml(files[i], name);
    }
}

/// A name is refused exactly where it is that of the host snapshot or has no manifest.
pub proof fn law_names_need_a_manifest(name: Text, has_manifest: bool)
    ensures
        name_fault(name, has_manifest) is None <==> name != "host"@ && has_manifest,
        name == "host"@ ==> name_fault(name, has_manifest) is Some && name_fault(
            name,
            has_manifest,
        )->0 is Config,
        name != "host"@ && !has_manifest ==> name_fault(name, has_manifest) == Some(
            ErrorView::ProjectNotFound(name),
        ),
{
}

/// The tag of a revision is what the revision begins with: twelve characters, or all of them where
/// there are fewer.
pub proof fn law_tags_begin_revisions(revision: Text)
    ensures
        begins(revision, tag_of(revision)),
        revision.len() >= 12 ==> tag_of(revision).len() == 12,
        revision.len() < 12 ==> tag_of(revision) == revision,
        tag_of(tag_of(revision)) == tag_of(revision),
{
    assert(revision.take(revision.len() as int) =~= revision);
}

proof fn lemma_release_services(config: JsonView, names: Seq<Text>, tag: Text)
    ensures
        match release_services(config, names, tag) {
            Ok(list) => list.len() == names.len() && forall|i: int|
                0 <= i < names.len() ==> release_service(config, #[trigger] names[i], tag) == Ok::<
                    ServiceView,
                    ErrorView,
                >(list[i]),
            Err(error) => exists|i: int|
                0 <= i < names.len() && release_service(config, #[trigger] names[i], tag) == Err::<
                    ServiceView,
                    ErrorView,
                >(error),
        },
    decreases names.len(),
{
    if names.len() > 0 {
        let shorter = names.drop_last();
        lemma_release_services(config, shorter, tag);
        match release_services(config, names, tag) {
            Ok(list) => {
                assert forall|i: int| 0 <= i < names.len() implies release_service(
                    config,
                    #[trigger] names[i],
                    tag,
                ) == Ok::<ServiceView, ErrorView>(list[i]) by {
                    if i < shorter.len() {
                        assert(shorter[i] == names[i]);
                    }
                }
            },
            Err(error) => {
                if release_services(config, shorter, tag) is Err {
                    let i = choose|i: int|
                        0 <= i < shorter.len() && release_service(
                            config,
                            #[trigger] shorter[i],
                            tag,
                        ) == Err::<ServiceView, ErrorView>(error);
                    assert(names[i] == shorter[i]);
                } else {
                    assert(release_service(config, names[names.len() - 1], tag) == Err::<
                        ServiceView,
                        ErrorView,
                    >(error));
                }
            },
        }
    }
}

/// The image of a service in a Compose configuration, under its names.
pub open spec fn is_configured(config: JsonView, service: Text, image: Text) -> bool {
    member(config, "services"@) matches Some(services) && (member(
        services,
        service,
    ) matches Some(entry) && member(entry, "image"@) == Some(JsonView::Text(image)))
}

/// The services of a release are those that were asked for, in their order, each with the image
/// that the configuration gives it, and each image ends with the tag of the release. They can be
/// told exactly where every service has such an image.
pub proof fn law_releases_take_the_configured_images(
    config: JsonView,
    names: Seq<Text>,
    tag: Text,
    images: Seq<Text>,
)
    ensures
        release_services(config, names, tag) matches Ok(list) ==> {
            &&& list.len() == names.len()
            &&& forall|i: int|
                0 <= i < list.len() ==> {
                    &&& (#[trigger] list[i]).name == names[i]
                    &&& is_configured(config, names[i], list[i].image)
                    &&& ends(list[i].image, ":"@ + tag)
                }
        },
        images.len() == names.len() && (forall|i: int|
            0 <= i < names.len() ==> is_configured(config, #[trigger] names[i], images[i]) && ends(
                images[i],
                ":"@ + tag,
            )) ==> release_services(config, names, tag) is Ok,
{
    lemma_release_services(config, names, tag);
    match release_services(config, names, tag) {
        Ok(list) => {
            assert forall|i: int| 0 <= i < list.len() implies (#[trigger] list[i]).name == names[i]
                && is_configured(config, names[i], list[i].image) && ends(
                list[i].image,
                ":"@ + tag,
            ) by {
                assert(release_service(config, names[i], tag) == Ok::<ServiceView, ErrorView>(
                    list[i],
                ));
            }
        },
        Err(error) => {
            if images.len() == names.len() && (forall|i: int|
                0 <= i < names.len() ==> is_configured(config, #[trigger] names[i], images[i])
                    && ends(images[i], ":"@ + tag)) {
                let i = choose|i: int|
                    0 <= i < names.len() && release_service(config, #[trigger] names[i], tag)
                        == Err::<ServiceView, ErrorView>(error);
                assert(is_configured(config, names[i], images[i]));
            }
        },
    }
}

/// The command for logs asks for as many lines as were asked for, follows them where that was asked
/// for, goes back as far as was asked for, and ends with the services.
pub proof fn law_log_commands_say_what_was_asked(
    tail: nat,
    since: Text,
    services: Seq<Text>,
)
    ensures
        log_arguments(tail, false, None, services) == seq!["logs"@, "--tail"@, decimal(tail)]
            + services,
        log_arguments(tail, true, None, services) == seq![
            "logs"@,
            "--tail"@,
            decimal(tail),
            "--follow"@,
        ] + services,
        log_arguments(tail, false, Some(since), services) == seq![
            "logs"@,
            "--tail"@,
            decimal(tail),
            "--since"@,
            since,
        ] + services,
        log_arguments(tail, true, Some(since), services) == seq![
            "logs"@,
            "--tail"@,
            decimal(tail),
            "--follow"@,
            "--since"@,
            since,
        ] + services,
{
    assert(log_arguments(tail, false, None, services) =~= seq!["logs"@, "--tail"@, decimal(tail)]
        + services);
    assert(log_arguments(tail, true, None, services) =~= seq![
        "logs"@,
        "--tail"@,
        decimal(tail),
        "--follow"@,
    ] + services);
    assert(log_arguments(tail, false, Some(since), services) =~= seq![
        "logs"@,
        "--tail"@,
        decimal(tail),
        "--since"@,
        since,
    ] + services);
    assert(log_arguments(tail, true, Some(since), services) =~= seq![
        "logs"@,
        "--tail"@,
        decimal(tail),
        "--follow"@,
        "--since"@,
        since,
    ] + services);
}

/// Logs are shown of a configured service, or of all; another service is refused.
pub proof fn law_logs_are_of_configured_services(
    project: Project,
    tail: u32,
    follow: bool,
    service: &str,
    r: Result<Vec<String>, YardError>,
    all: Result<Vec<String>, YardError>,
)
    requires
        call_ensures(Project::compose_logs, (&project, tail, follow, Some(service), None), r),
        call_ensures(Project::compose_logs, (&project, tail, follow, None, None), all),
    ensures
        r is Ok <==> project.config.compose.services.deep_view().contains(service@),
        r matches Ok(args) ==> args.deep_view().len() > 0 && args.deep_view().last() == service@,
        all is Ok,
{
    if let Ok(args) = r {
        let end = log_arguments(tail as nat, follow, None, seq![service@]);
        assert(end.last() == service@);
        assert(args.deep_view().last() == end.last());
    }
}

/// Every Compose command uses the configured environment file and the configured file.
pub proof fn law_compose_commands_use_the_configured_files(config: ConfigView)
    ensures
        compose_prefix(config) == seq![
            "compose"@,
            "--env-file"@,
            joined_path(config.compose.directory, config.compose.env_file),
            "-f"@,
            joined_path(config.compose.directory, config.compose.file),
        ],
{
}

/// Only fast-forward merges of the configured branch at the configured remote are made.
pub proof fn law_checkouts_only_move_forward(project: Project, r: Vec<String>)
    requires
        call_ensures(Project::git_merge, (&project,), r),
    ensures
        r.deep_view() == seq![
            "merge"@,
            "--ff-only"@,
            project.config.remote@ + "/"@ + project.config.branch@,
        ],
{
}

/// A checkout with tracked changes is refused, and one without any is not.
pub proof fn law_changes_refuse_a_deployment(
    project: Project,
    changes: &str,
    r: Result<(), YardError>,
)
    requires
        call_ensures(Project::check_clean, (&project, changes), r),
    ensures
        r is Ok <==> forall|i: int| 0 <= i < changes@.len() ==> is_space(#[trigger] changes@[i]),
{
}

/// An image is there exactly where looking at it succeeded, and is missing exactly where the command
/// ran and failed; any other failure tells nothing.
pub proof fn law_images_are_there_when_found(
    outcome: Result<String, YardError>,
    r: Result<bool, YardError>,
)
    requires
        call_ensures(image_exists, (outcome,), r),
    ensures
        r matches Ok(found) ==> (found <==> outcome is Ok),
        r is Err <==> (outcome matches Err(error) && !(error.deep_view() is CommandFailed)),
{
}

/// Services are started by themselves, in the background, from images that are there; containers are
/// listed with those that have stopped; a service is built by itself; and migrations run in a
/// container that is removed.
pub proof fn law_compose_commands_do_one_thing(
    project: Project,
    service: &str,
    up: Vec<String>,
    ps: Vec<String>,
    build: Vec<String>,
    migrate: Option<Vec<String>>,
)
    requires
        call_ensures(Project::compose_up, (&project, service), up),
        call_ensures(Project::compose_ps, (&project,), ps),
        call_ensures(Project::compose_build, (&project, service), build),
        call_ensures(Project::compose_migrate, (&project,), migrate),
    ensures
        ({
            let prefix = compose_prefix(project.config.deep_view());
            &&& up.deep_view() == prefix + seq![
                "up"@,
                "-d"@,
                "--no-build"@,
                "--no-deps"@,
                service@,
            ]
            &&& ps.deep_view() == prefix + seq!["ps"@, "--all"@, "--format"@, "json"@]
            &&& build.deep_view() == prefix + seq!["build"@, service@]
            &&& migrate is Some <==> project.config.deployment.migration_service is Some
            &&& migrate matches Some(args) ==> args.deep_view() == prefix + seq![
                "run"@,
                "--rm"@,
                project.config.deployment.migration_service->0@,
            ]
        }),
{
}

/// The time of a heartbeat is that of its file in a container of the service.
pub proof fn law_heartbeats_are_read_in_the_container(
    project: Project,
    service: &str,
    path: &str,
    r: Vec<String>,
)
    requires
        call_ensures(Project::compose_stat, (&project, service, path), r),
    ensures
        r.deep_view() == compose_prefix(project.config.deep_view()) + seq![
            "exec"@,
            "-T"@,
            service@,
            "stat"@,
            "-c"@,
            "%Y"@,
            "--"@,
            path@,
        ],
{
}

/// Git is asked for tracked changes only, for the commit that a revision stands for, and for the
/// configured branch at the configured remote.
pub proof fn law_git_is_asked_for_the_configured_branch(
    project: Project,
    revision: &str,
    changes: Vec<String>,
    commit: Vec<String>,
    switched: Vec<String>,
    fetched: Vec<String>,
)
    requires
        call_ensures(git_changes, (), changes),
        call_ensures(git_resolve, (revision,), commit),
        call_ensures(Project::git_switch, (&project,), switched),
        call_ensures(Project::git_fetch, (&project,), fetched),
    ensures
        changes.deep_view() == seq!["status"@, "--porcelain"@, "--untracked-files=no"@],
        commit.deep_view() == seq!["rev-parse"@, revision@ + "^{commit}"@],
        switched.deep_view() == seq!["switch"@, project.config.branch@],
        fetched.deep_view() == seq!["fetch"@, project.config.remote@, project.config.branch@],
{
}

/// The tag of a release reaches Compose under the configured name.
pub proof fn law_tags_stand_under_the_configured_name(
    project: Project,
    tag: &str,
    r: (String, String),
)
    requires
        call_ensures(Project::tag_env, (&project, tag), r),
    ensures
        r.0@ == project.config.image.tag_env@,
        r.1@ == tag@,
{
}

} // verus!
