//! A conservative inventory of the images of recorded releases, and the removal of those that no
//! release needs.

use vstd::prelude::*;

use crate::command::add_word;
use crate::error::{error_of, message_of, ErrorView, YardError};
use crate::number::{decimal, to_decimal};
use crate::project::three;
use crate::state::{
    ProjectState, Release, ReleaseService, ReleaseView, ServiceView, StateView,
};
use crate::table::{
    law_put_then_lookup, lemma_put_ordered, lookup, put, strictly_ordered, Table,
};
use crate::text::{
    after_prefix, begins, chars, contains, cut_last, digit, empty, is_hex_digit, is_space,
    law_cut_at_the_last_separator, rsplit_once, same, space, strip_prefix, Text,
};

verus! {

// ---------------------------------------------------------------------------------------------
// Names
// ---------------------------------------------------------------------------------------------

/// Whether a piece of text is an image identifier.
pub open spec fn is_image_id(id: Text) -> bool {
    after_prefix(id, "sha256:"@) matches Some(rest) && rest.len() > 0
}

/// Whether `id` is an image identifier.
pub fn valid_id(id: &str) -> (r: bool)
    ensures
        r == is_image_id(id@),
{
    match strip_prefix(id, "sha256:") {
        Some(rest) => !empty(rest.as_str()),
        None => false,
    }
}

/// Whether a tag is one that a deployment gives: twelve hexadecimal digits.
pub open spec fn is_revision_tag(tag: Text) -> bool {
    tag.len() == 12 && forall|i: int| 0 <= i < tag.len() ==> is_hex_digit(#[trigger] tag[i])
}

fn hex_digit(c: char) -> (r: bool)
    ensures
        r == is_hex_digit(c),
{
    digit(c) || ('a' <= c && c <= 'f') || ('A' <= c && c <= 'F')
}

/// Whether `tag` is one that a deployment gives.
pub fn yard_tag(tag: &str) -> (r: bool)
    ensures
        r == is_revision_tag(tag@),
{
    let cs = chars(tag);
    if cs.len() != 12 {
        return false;
    }
    let mut i: usize = 0;
    while i < cs.len()
        invariant
            cs@ == tag@,
            i <= cs@.len(),
            forall|j: int| 0 <= j < i ==> is_hex_digit(#[trigger] cs@[j]),
        decreases cs@.len() - i,
    {
        if !hex_digit(cs[i]) {
            assert(!is_hex_digit(tag@[i as int]));
            return false;
        }
        i = i + 1;
    }
    true
}

/// Whether a line is a container identifier: it is not empty and holds no white space.
pub open spec fn is_container_id(line: Text) -> bool {
    line.len() > 0 && forall|i: int| 0 <= i < line.len() ==> !is_space(#[trigger] line[i])
}

fn container_id(line: &str) -> (r: bool)
    ensures
        r == is_container_id(line@),
{
    let cs = chars(line);
    if cs.len() == 0 {
        return false;
    }
    let mut i: usize = 0;
    while i < cs.len()
        invariant
            cs@ == line@,
            i <= cs@.len(),
            forall|j: int| 0 <= j < i ==> !is_space(#[trigger] cs@[j]),
        decreases cs@.len() - i,
    {
        if space(cs[i]) {
            assert(is_space(line@[i as int]));
            return false;
        }
        i = i + 1;
    }
    true
}

// ---------------------------------------------------------------------------------------------
// Refusals
// ---------------------------------------------------------------------------------------------

/// The refusal to remove images.
pub open spec fn refusal(reason: Text) -> ErrorView {
    ErrorView::Config("suppression refusée : "@ + reason)
}

/// The refusal to remove images.
pub fn refused(reason: &str) -> (r: YardError)
    ensures
        r.deep_view() == refusal(reason@),
{
    let mut message = "suppression refusée : ".to_owned();
    message.append(reason);
    YardError::Config(message)
}

/// A failed Docker command refuses the removal.
pub fn refused_by(error: &YardError) -> (r: YardError)
    ensures
        r.deep_view() == refusal(message_of(error.deep_view())),
{
    refused(error.message().as_str())
}

/// Refuses the removal unless a line names a container.
pub fn check_container(line: &str) -> (r: Result<(), YardError>)
    ensures
        error_of(r) == (if is_container_id(line@) {
            None
        } else {
            Some(refusal("identifiant de conteneur inattendu"@))
        }),
{
    if container_id(line) {
        Ok(())
    } else {
        Err(refused("identifiant de conteneur inattendu"))
    }
}

/// Refuses the removal unless the image of a container is known.
pub fn check_running_image(id: &str) -> (r: Result<(), YardError>)
    ensures
        error_of(r) == (if is_image_id(id@) {
            None
        } else {
            Some(refusal("image du conteneur non inspectable"@))
        }),
{
    if valid_id(id) {
        Ok(())
    } else {
        Err(refused("image du conteneur non inspectable"))
    }
}

// ---------------------------------------------------------------------------------------------
// Commands
// ---------------------------------------------------------------------------------------------

/// The Docker command that lists the running containers.
pub fn container_list() -> (r: Vec<String>)
    ensures
        r.deep_view() == seq!["container"@, "ls"@, "-q"@, "--no-trunc"@],
{
    let mut args = three("container", "ls", "-q");
    add_word(&mut args, "--no-trunc");
    assert(args.deep_view() =~= seq!["container"@, "ls"@, "-q"@, "--no-trunc"@]);
    args
}

/// The Docker command that tells the image of a container.
pub fn container_image(container: &str) -> (r: Vec<String>)
    ensures
        r.deep_view() == seq![
            "container"@,
            "inspect"@,
            "--format"@,
            "{{.Image}}"@,
            container@,
        ],
{
    let mut args = three("container", "inspect", "--format");
    add_word(&mut args, "{{.Image}}");
    add_word(&mut args, container);
    assert(args.deep_view() =~= seq![
        "container"@,
        "inspect"@,
        "--format"@,
        "{{.Image}}"@,
        container@,
    ]);
    args
}

/// The Docker command that lists the images, one JSON row on each line.
pub fn image_list() -> (r: Vec<String>)
    ensures
        r.deep_view() == seq!["image"@, "ls"@, "--format"@, "{{json .}}"@],
{
    let mut args = three("image", "ls", "--format");
    add_word(&mut args, "{{json .}}");
    assert(args.deep_view() =~= seq!["image"@, "ls"@, "--format"@, "{{json .}}"@]);
    args
}

/// The Docker command that removes an image, without force.
pub fn image_remove(reference: &str) -> (r: Vec<String>)
    ensures
        r.deep_view() == seq!["image"@, "rm"@, reference@],
{
    three("image", "rm", reference)
}

// ---------------------------------------------------------------------------------------------
// What releases need
// ---------------------------------------------------------------------------------------------

/// The names in a table.
pub open spec fn holds(entries: Seq<(Text, ())>, name: Text) -> bool {
    lookup(entries, name) is Some
}

/// A table with the images of services added.
pub open spec fn with_images(entries: Seq<(Text, ())>, services: Seq<ServiceView>) -> Seq<
    (Text, ()),
>
    decreases services.len(),
{
    if services.len() == 0 {
        entries
    } else {
        put(with_images(entries, services.drop_last()), services.last().image, ())
    }
}

/// The repository of an image: what stands before its tag.
pub open spec fn repository_of(image: Text) -> Text {
    match cut_last(image, ':') {
        Some((repository, _)) => repository,
        None => image,
    }
}

/// A table with the repositories of services added.
pub open spec fn with_repositories(entries: Seq<(Text, ())>, services: Seq<ServiceView>) -> Seq<
    (Text, ()),
>
    decreases services.len(),
{
    if services.len() == 0 {
        entries
    } else {
        put(
            with_repositories(entries, services.drop_last()),
            repository_of(services.last().image),
            (),
        )
    }
}

/// Whether a service name stands among the first services.
pub open spec fn named_before(services: Seq<ServiceView>, at: int) -> bool {
    exists|i: int| 0 <= i < at && (#[trigger] services[i]).name == services[at].name
}

/// What is wrong with a service of a release.
pub open spec fn service_fault(
    project: Text,
    allowed: Seq<Text>,
    release: ReleaseView,
    at: int,
) -> Option<ErrorView> {
    let service = release.services[at];
    match cut_last(service.image, ':') {
        Some((repository, tag)) => if repository.len() == 0 || tag != release.tag
            || !allowed.contains(service.name) || named_before(release.services, at) {
            Some(refusal(project + " : référence de release incohérente"@))
        } else {
            None
        },
        None => Some(refusal("référence d'image invalide"@)),
    }
}

/// What is wrong with the first faulty service among the first `n` of a release.
pub open spec fn services_fault(
    project: Text,
    allowed: Seq<Text>,
    release: ReleaseView,
    n: nat,
) -> Option<ErrorView>
    decreases n,
{
    if n == 0 {
        None
    } else {
        match services_fault(project, allowed, release, (n - 1) as nat) {
            Some(error) => Some(error),
            None => service_fault(project, allowed, release, n - 1),
        }
    }
}

/// What is wrong with a recorded release: it has to record an image of its tag for each
/// configured service.
pub open spec fn release_fault(project: Text, allowed: Seq<Text>, release: ReleaseView) -> Option<
    ErrorView,
> {
    if release.tag.len() == 0 || release.services.len() != allowed.len() {
        Some(refusal(project + " : images de release manquantes"@))
    } else {
        services_fault(project, allowed, release, release.services.len())
    }
}

/// The images of a project that no release needs any more.
#[derive(Debug)]
pub struct Candidate {
    pub reference: String,
    pub id: String,
    pub size: u64,
}

/// The images of a project.
#[derive(Debug)]
pub struct Inventory {
    pub name: String,
    pub kept: Table<()>,
    pub repositories: Table<()>,
    pub running: Vec<String>,
    pub candidates: Vec<Candidate>,
}

#[verifier::ext_equal]
pub struct CandidateView {
    pub reference: Text,
    pub id: Text,
    pub size: u64,
}

#[verifier::ext_equal]
pub struct InventoryView {
    pub name: Text,
    pub kept: Seq<(Text, ())>,
    pub repositories: Seq<(Text, ())>,
    pub running: Seq<Text>,
    pub candidates: Seq<CandidateView>,
}

impl DeepView for Candidate {
    type V = CandidateView;

    open spec fn deep_view(&self) -> CandidateView {
        CandidateView { reference: self.reference@, id: self.id@, size: self.size }
    }
}

impl DeepView for Inventory {
    type V = InventoryView;

    open spec fn deep_view(&self) -> InventoryView {
        InventoryView {
            name: self.name@,
            kept: self.kept.view(),
            repositories: self.repositories.view(),
            running: self.running.deep_view(),
            candidates: self.candidates.deep_view(),
        }
    }
}

/// An inventory with the images of a release to keep.
pub open spec fn keeping(inventory: InventoryView, release: ReleaseView) -> InventoryView {
    InventoryView {
        kept: with_images(inventory.kept, release.services),
        repositories: with_repositories(inventory.repositories, release.services),
        ..inventory
    }
}

/// An inventory of nothing.
pub open spec fn empty_inventory(name: Text) -> InventoryView {
    InventoryView {
        name,
        kept: Seq::empty(),
        repositories: Seq::empty(),
        running: Seq::empty(),
        candidates: Seq::empty(),
    }
}

fn name_repeats(services: &Vec<ReleaseService>, at: usize) -> (r: bool)
    requires
        at < services@.len(),
    ensures
        r == named_before(services.deep_view(), at as int),
{
    let ghost views = services.deep_view();
    let mut i: usize = 0;
    while i < at
        invariant
            views == services.deep_view(),
            i <= at < services@.len(),
            forall|j: int| 0 <= j < i ==> (#[trigger] views[j]).name != views[at as int].name,
        decreases at - i,
    {
        assert(views[i as int] == services@[i as int].deep_view());
        assert(views[at as int] == services@[at as int].deep_view());
        if same(services[i].name.as_str(), services[at].name.as_str()) {
            return true;
        }
        i = i + 1;
    }
    false
}

proof fn lemma_services_fault_stays(
    project: Text,
    allowed: Seq<Text>,
    release: ReleaseView,
    n: nat,
    m: nat,
)
    requires
        n <= m,
        services_fault(project, allowed, release, n) is Some,
    ensures
        services_fault(project, allowed, release, m) == services_fault(
            project,
            allowed,
            release,
            n,
        ),
    decreases m,
{
    if n < m {
        lemma_services_fault_stays(project, allowed, release, n, (m - 1) as nat);
    }
}

/// Adds the images of a recorded release to those that are kept.
pub fn release_images(
    project: &str,
    allowed: &Vec<String>,
    release: &Release,
    inventory: &mut Inventory,
) -> (r: Result<(), YardError>)
    ensures
        error_of(r) == release_fault(project@, allowed.deep_view(), release.deep_view()),
        r is Ok ==> final(inventory).deep_view() == keeping(
            old(inventory).deep_view(),
            release.deep_view(),
        ),
        final(inventory).name@ == old(inventory).name@,
        final(inventory).running.deep_view() == old(inventory).running.deep_view(),
        final(inventory).candidates.deep_view() == old(inventory).candidates.deep_view(),
{
    let ghost view = release.deep_view();
    let ghost services = view.services;
    let ghost before = inventory.deep_view();
    assert(services.len() == release.services@.len());
    if empty(release.tag.as_str()) || release.services.len() != allowed.len() {
        let mut reason = project.to_owned();
        reason.append(" : images de release manquantes");
        return Err(refused(reason.as_str()));
    }
    let mut i: usize = 0;
    assert(services.take(0) =~= Seq::<ServiceView>::empty());
    while i < release.services.len()
        invariant
            view == release.deep_view(),
            services == view.services,
            services.len() == release.services@.len(),
            services.len() == allowed@.len(),
            view.tag.len() > 0,
            i <= services.len(),
            services_fault(project@, allowed.deep_view(), view, i as nat) is None,
            before == old(inventory).deep_view(),
            inventory.name@ == before.name,
            inventory.running.deep_view() == before.running,
            inventory.candidates.deep_view() == before.candidates,
            inventory.kept.view() == with_images(before.kept, services.take(i as int)),
            inventory.repositories.view() == with_repositories(
                before.repositories,
                services.take(i as int),
            ),
        decreases services.len() - i,
    {
        let service = &release.services[i];
        assert(services[i as int] == service.deep_view());
        assert(services.take(i + 1).drop_last() =~= services.take(i as int));
        assert(services.take(i + 1).last() == services[i as int]);
        assert(services_fault(project@, allowed.deep_view(), view, (i + 1) as nat)
            == service_fault(project@, allowed.deep_view(), view, i as int));
        match rsplit_once(service.image.as_str(), ':') {
            Some((repository, tag)) => {
                if empty(repository.as_str()) || !same(tag.as_str(), release.tag.as_str())
                    || !contains(allowed, service.name.as_str()) || name_repeats(
                    &release.services,
                    i,
                ) {
                    proof {
                        lemma_services_fault_stays(
                            project@,
                            allowed.deep_view(),
                            view,
                            (i + 1) as nat,
                            services.len(),
                        );
                    }
                    let mut reason = project.to_owned();
                    reason.append(" : référence de release incohérente");
                    return Err(refused(reason.as_str()));
                }
                inventory.kept.insert(service.image.clone(), ());
                inventory.repositories.insert(repository, ());
            },
            None => {
                proof {
                    lemma_services_fault_stays(
                        project@,
                        allowed.deep_view(),
                        view,
                        (i + 1) as nat,
                        services.len(),
                    );
                }
                return Err(refused("référence d'image invalide"));
            },
        }
        i = i + 1;
    }
    assert(services.take(i as int) =~= services);
    Ok(())
}

/// The inventory of a project, or why it cannot be taken.
pub open spec fn inventory_of(name: Text, allowed: Seq<Text>, state: Option<StateView>) -> Result<
    InventoryView,
    ErrorView,
> {
    match state {
        Some(state) => if state.pending is Some {
            Err(refusal("déploiement en cours"@))
        } else {
            match state.current {
                Some(current) => if release_fault(name, allowed, current) is Some {
                    Err(release_fault(name, allowed, current)->0)
                } else {
                    let kept = keeping(empty_inventory(name), current);
                    match state.previous {
                        Some(previous) => if release_fault(name, allowed, previous) is Some {
                            Err(release_fault(name, allowed, previous)->0)
                        } else {
                            Ok(keeping(kept, previous))
                        },
                        None => Ok(kept),
                    }
                },
                None => Err(refusal("release courante absente"@)),
            }
        },
        None => Err(refusal("état absent"@)),
    }
}

/// The inventory of a project: the images of its recorded releases. A project without a recorded
/// state, or with a release under way, has none: an absent record does not prove that no release
/// needs its image.
pub fn take_inventory(name: &str, allowed: &Vec<String>, state: Option<&ProjectState>) -> (r:
    Result<Inventory, YardError>)
    ensures
        match r {
            Ok(inventory) => inventory_of(
                name@,
                allowed.deep_view(),
                state.deep_view(),
            ) == Ok::<InventoryView, ErrorView>(inventory.deep_view()),
            Err(error) => inventory_of(name@, allowed.deep_view(), state.deep_view()) == Err::<
                InventoryView,
                ErrorView,
            >(error.deep_view()),
        },
{
    let Some(state) = state else {
        return Err(refused("état absent"));
    };
    if state.pending.is_some() {
        return Err(refused("déploiement en cours"));
    }
    let Some(current) = &state.current else {
        return Err(refused("release courante absente"));
    };
    let mut inventory = Inventory {
        name: name.to_owned(),
        kept: Table::new(),
        repositories: Table::new(),
        running: Vec::new(),
        candidates: Vec::new(),
    };
    assert(inventory.deep_view() =~= empty_inventory(name@));
    if let Err(error) = release_images(name, allowed, current, &mut inventory) {
        return Err(error);
    }
    if let Some(previous) = &state.previous {
        if let Err(error) = release_images(name, allowed, previous, &mut inventory) {
            return Err(error);
        }
    }
    Ok(inventory)
}

// ---------------------------------------------------------------------------------------------
// The survey
// ---------------------------------------------------------------------------------------------

/// A row of `docker image ls`.
#[derive(Debug)]
pub struct ListedImage {
    pub repository: String,
    pub tag: String,
}

/// What `docker image inspect` tells of an image.
#[derive(Debug)]
pub struct InspectedImage {
    pub id: String,
    pub size: u64,
    pub repo_tags: Vec<String>,
}

#[verifier::ext_equal]
pub struct InspectedView {
    pub id: Text,
    pub size: u64,
    pub repo_tags: Seq<Text>,
}

impl DeepView for InspectedImage {
    type V = InspectedView;

    open spec fn deep_view(&self) -> InspectedView {
        InspectedView { id: self.id@, size: self.size, repo_tags: self.repo_tags.deep_view() }
    }
}

/// The image that was asked for, from what `docker image inspect` told. It has to be exactly one,
/// with an identifier, and known under the reference that was asked for.
pub open spec fn inspected_of(reference: Text, images: Seq<InspectedView>) -> Result<
    InspectedView,
    ErrorView,
> {
    if images.len() != 1 {
        Err(refusal("inspection d'image ambiguë : "@ + reference))
    } else if !is_image_id(images[0].id) || !images[0].repo_tags.contains(reference) {
        Err(refusal("inspection d'image incohérente : "@ + reference))
    } else {
        Ok(images[0])
    }
}

/// The image that was asked for, from what `docker image inspect` told.
pub fn inspected(reference: &str, images: Vec<InspectedImage>) -> (r: Result<
    InspectedImage,
    YardError,
>)
    ensures
        match r {
            Ok(image) => inspected_of(reference@, images.deep_view()) == Ok::<
                InspectedView,
                ErrorView,
            >(image.deep_view()),
            Err(error) => inspected_of(reference@, images.deep_view()) == Err::<
                InspectedView,
                ErrorView,
            >(error.deep_view()),
        },
{
    let mut images = images;
    let ghost all = images.deep_view();
    if images.len() != 1 {
        let mut reason = "inspection d'image ambiguë : ".to_owned();
        reason.append(reference);
        return Err(refused(reason.as_str()));
    }
    let image = images.remove(0);
    assert(all =~= seq![image.deep_view()]);
    if !valid_id(image.id.as_str()) || !contains(&image.repo_tags, reference) {
        let mut reason = "inspection d'image incohérente : ".to_owned();
        reason.append(reference);
        return Err(refused(reason.as_str()));
    }
    Ok(image)
}

/// Whether a recorded release of any project needs an image.
pub open spec fn is_protected(inventories: Seq<InventoryView>, reference: Text) -> bool {
    exists|i: int| 0 <= i < inventories.len() && holds((#[trigger] inventories[i]).kept, reference)
}

/// The first project, from a place on, with a repository.
pub open spec fn owner_from(inventories: Seq<InventoryView>, repository: Text, at: nat) -> Option<
    nat,
>
    decreases inventories.len() - at,
{
    if at >= inventories.len() {
        None
    } else if holds(inventories[at as int].repositories, repository) {
        Some(at)
    } else {
        owner_from(inventories, repository, at + 1)
    }
}

/// Whether an image is a candidate already.
pub open spec fn is_candidate(inventory: InventoryView, reference: Text) -> bool {
    exists|i: int|
        0 <= i < inventory.candidates.len() && (#[trigger] inventory.candidates[i]).reference
            == reference
}

/// The reference of an image.
pub open spec fn reference_of(repository: Text, tag: Text) -> Text {
    repository + ":"@ + tag
}

/// Whether a listed image has to be looked at, and for which project: it carries the tag of a
/// revision, no release needs it, and its repository is one of a recorded release.
pub open spec fn to_inspect(inventories: Seq<InventoryView>, repository: Text, tag: Text) -> Option<
    nat,
> {
    let reference = reference_of(repository, tag);
    if !is_revision_tag(tag) || is_protected(inventories, reference) {
        None
    } else {
        match owner_from(inventories, repository, 0) {
            Some(owner) => if is_candidate(inventories[owner as int], reference) {
                None
            } else {
                Some(owner)
            },
            None => None,
        }
    }
}

/// An inventory with an image placed: one that a container runs is kept, any other is a
/// candidate.
pub open spec fn placed(
    inventory: InventoryView,
    reference: Text,
    image: InspectedView,
    running: Seq<Text>,
) -> InventoryView {
    if running.contains(image.id) {
        InventoryView { running: inventory.running.push(reference), ..inventory }
    } else {
        InventoryView {
            candidates: inventory.candidates.push(
                CandidateView { reference, id: image.id, size: image.size },
            ),
            ..inventory
        }
    }
}

fn protected(inventories: &Vec<Inventory>, reference: &str) -> (r: bool)
    ensures
        r == is_protected(inventories.deep_view(), reference@),
{
    let ghost views = inventories.deep_view();
    let mut i: usize = 0;
    while i < inventories.len()
        invariant
            views == inventories.deep_view(),
            i <= inventories@.len(),
            forall|j: int| 0 <= j < i ==> !holds((#[trigger] views[j]).kept, reference@),
        decreases inventories@.len() - i,
    {
        assert(views[i as int] == inventories@[i as int].deep_view());
        if inventories[i].kept.get(reference).is_some() {
            assert(holds(views[i as int].kept, reference@));
            return true;
        }
        i = i + 1;
    }
    false
}

fn find_owner(inventories: &Vec<Inventory>, repository: &str) -> (r: Option<usize>)
    ensures
        match r {
            Some(owner) => owner < inventories@.len() && owner_from(
                inventories.deep_view(),
                repository@,
                0,
            ) == Some(owner as nat),
            None => owner_from(inventories.deep_view(), repository@, 0) is None,
        },
{
    let ghost views = inventories.deep_view();
    let mut i: usize = 0;
    while i < inventories.len()
        invariant
            views == inventories.deep_view(),
            i <= inventories@.len(),
            owner_from(views, repository@, 0) == owner_from(views, repository@, i as nat),
        decreases inventories@.len() - i,
    {
        assert(views[i as int] == inventories@[i as int].deep_view());
        if inventories[i].repositories.get(repository).is_some() {
            return Some(i);
        }
        i = i + 1;
    }
    None
}

fn already_candidate(inventory: &Inventory, reference: &str) -> (r: bool)
    ensures
        r == is_candidate(inventory.deep_view(), reference@),
{
    let ghost views = inventory.candidates.deep_view();
    let mut i: usize = 0;
    while i < inventory.candidates.len()
        invariant
            views == inventory.candidates.deep_view(),
            i <= inventory.candidates@.len(),
            forall|j: int| 0 <= j < i ==> (#[trigger] views[j]).reference != reference@,
        decreases inventory.candidates@.len() - i,
    {
        assert(views[i as int] == inventory.candidates@[i as int].deep_view());
        if same(inventory.candidates[i].reference.as_str(), reference) {
            assert(inventory.deep_view().candidates[i as int].reference == reference@);
            return true;
        }
        i = i + 1;
    }
    false
}

/// The reference of an image.
pub fn reference(listed: &ListedImage) -> (r: String)
    ensures
        r@ == reference_of(listed.repository@, listed.tag@),
{
    let mut out = listed.repository.clone();
    out.append(":");
    out.append(listed.tag.as_str());
    out
}

/// Whether a listed image has to be looked at, and for which project.
pub fn candidate_owner(inventories: &Vec<Inventory>, listed: &ListedImage) -> (r: Option<usize>)
    ensures
        match r {
            Some(owner) => owner < inventories@.len() && to_inspect(
                inventories.deep_view(),
                listed.repository@,
                listed.tag@,
            ) == Some(owner as nat),
            None => to_inspect(inventories.deep_view(), listed.repository@, listed.tag@) is None,
        },
{
    let name = reference(listed);
    if !yard_tag(listed.tag.as_str()) || protected(inventories, name.as_str()) {
        return None;
    }
    let owner: usize = find_owner(inventories, listed.repository.as_str())?;
    assert(inventories.deep_view()[owner as int] == inventories@[owner as int].deep_view());
    if already_candidate(&inventories[owner], name.as_str()) {
        return None;
    }
    Some(owner)
}

/// Places an image that was looked at. `running` holds the identifiers of the images that
/// containers run.
pub fn place(
    inventory: &mut Inventory,
    reference: String,
    image: &InspectedImage,
    running: &Vec<String>,
)
    ensures
        final(inventory).deep_view() == placed(
            old(inventory).deep_view(),
            reference@,
            image.deep_view(),
            running.deep_view(),
        ),
{
    let ghost before = inventory.deep_view();
    let ghost name = reference@;
    if contains(running, image.id.as_str()) {
        inventory.running.push(reference);
        assert(inventory.running.deep_view() =~= before.running.push(name));
    } else {
        let candidate = Candidate { reference, id: image.id.clone(), size: image.size };
        inventory.candidates.push(candidate);
        assert(inventory.candidates.deep_view() =~= before.candidates.push(
            candidate.deep_view(),
        ));
    }
}

/// A row of the listing of images, which may not be readable.
#[derive(Debug)]
pub enum ListedRow {
    Image(ListedImage),
    Unreadable(String),
}

#[verifier::ext_equal]
pub enum ListedRowView {
    Image { repository: Text, tag: Text },
    Unreadable(Text),
}

impl DeepView for ListedRow {
    type V = ListedRowView;

    open spec fn deep_view(&self) -> ListedRowView {
        match self {
            ListedRow::Image(image) => ListedRowView::Image {
                repository: image.repository@,
                tag: image.tag@,
            },
            ListedRow::Unreadable(message) => ListedRowView::Unreadable(message@),
        }
    }
}

/// A survey of the listed images: the inventories so far, the images that containers run, the
/// rows of the listing, and the row that the survey has come to.
#[derive(Debug)]
pub struct Survey {
    inventories: Vec<Inventory>,
    running: Vec<String>,
    rows: Vec<ListedRow>,
    next: usize,
}

#[verifier::ext_equal]
pub struct SurveyView {
    pub inventories: Seq<InventoryView>,
    pub running: Seq<Text>,
    pub rows: Seq<ListedRowView>,
    pub next: nat,
}

impl DeepView for Survey {
    type V = SurveyView;

    closed spec fn deep_view(&self) -> SurveyView {
        SurveyView {
            inventories: self.inventories.deep_view(),
            running: self.running.deep_view(),
            rows: self.rows.deep_view(),
            next: self.next as nat,
        }
    }
}

/// Whether a survey stops at a row: it cannot be read, or its image has to be looked at.
pub open spec fn stops_at(inventories: Seq<InventoryView>, row: ListedRowView) -> bool {
    match row {
        ListedRowView::Image { repository, tag } => to_inspect(inventories, repository, tag) is Some,
        ListedRowView::Unreadable(_) => true,
    }
}

/// The first row, from one on, that a survey stops at; the end of the listing where there is none.
pub open spec fn stop_from(
    inventories: Seq<InventoryView>,
    rows: Seq<ListedRowView>,
    at: nat,
) -> nat
    decreases rows.len() - at,
{
    if at >= rows.len() || stops_at(inventories, rows[at as int]) {
        at
    } else {
        stop_from(inventories, rows, at + 1)
    }
}

/// A survey that begins.
pub open spec fn survey_of(
    inventories: Seq<InventoryView>,
    running: Seq<Text>,
    rows: Seq<ListedRowView>,
) -> SurveyView {
    SurveyView { inventories, running, rows, next: stop_from(inventories, rows, 0) }
}

/// The image that a survey wants to look at.
pub open spec fn survey_awaited(survey: SurveyView) -> Option<Text> {
    if survey.next < survey.rows.len() {
        match survey.rows[survey.next as int] {
            ListedRowView::Image { repository, tag } => Some(reference_of(repository, tag)),
            ListedRowView::Unreadable(_) => None,
        }
    } else {
        None
    }
}

/// A survey after what it wanted to look at was told.
pub open spec fn survey_after(survey: SurveyView, images: Seq<InspectedView>) -> Result<
    SurveyView,
    ErrorView,
> {
    if survey.next < survey.rows.len() {
        match survey.rows[survey.next as int] {
            ListedRowView::Image { repository, tag } => match to_inspect(
                survey.inventories,
                repository,
                tag,
            ) {
                Some(owner) => match inspected_of(reference_of(repository, tag), images) {
                    Ok(image) => {
                        let inventories = survey.inventories.update(
                            owner as int,
                            placed(
                                survey.inventories[owner as int],
                                reference_of(repository, tag),
                                image,
                                survey.running,
                            ),
                        );
                        Ok(
                            SurveyView {
                                inventories,
                                next: stop_from(inventories, survey.rows, survey.next + 1),
                                ..survey
                            },
                        )
                    },
                    Err(error) => Err(error),
                },
                None => Ok(survey),
            },
            ListedRowView::Unreadable(_) => Ok(survey),
        }
    } else {
        Ok(survey)
    }
}

/// What came of a survey that wants to look at nothing more: the inventories, unless a row could
/// not be read.
pub open spec fn survey_result(survey: SurveyView) -> Result<Seq<InventoryView>, ErrorView> {
    if survey.next < survey.rows.len() && survey.rows[survey.next as int] is Unreadable {
        Err(refusal(survey.rows[survey.next as int]->Unreadable_0))
    } else {
        Ok(survey.inventories)
    }
}

fn find_stop(inventories: &Vec<Inventory>, rows: &Vec<ListedRow>, at: usize) -> (r: usize)
    requires
        at <= rows@.len(),
    ensures
        r == stop_from(inventories.deep_view(), rows.deep_view(), at as nat),
{
    let ghost views = rows.deep_view();
    let mut i: usize = at;
    while i < rows.len()
        invariant
            views == rows.deep_view(),
            at <= i <= rows@.len(),
            stop_from(inventories.deep_view(), views, at as nat) == stop_from(
                inventories.deep_view(),
                views,
                i as nat,
            ),
        decreases rows@.len() - i,
    {
        assert(views[i as int] == rows@[i as int].deep_view());
        match &rows[i] {
            ListedRow::Image(image) => {
                if candidate_owner(inventories, image).is_some() {
                    return i;
                }
            },
            ListedRow::Unreadable(_) => {
                return i;
            },
        }
        i = i + 1;
    }
    i
}

impl Survey {
    /// A survey of listed images. `running` holds the identifiers of the images that containers
    /// run.
    pub fn start(inventories: Vec<Inventory>, running: Vec<String>, rows: Vec<ListedRow>) -> (r:
        Self)
        ensures
            r.deep_view() == survey_of(
                inventories.deep_view(),
                running.deep_view(),
                rows.deep_view(),
            ),
    {
        let next: usize = find_stop(&inventories, &rows, 0);
        Survey { inventories, running, rows, next }
    }

    /// The image that the survey wants to look at.
    pub fn wanted(&self) -> (r: Option<String>)
        ensures
            r.deep_view() == survey_awaited(self.deep_view()),
    {
        if self.next < self.rows.len() {
            assert(self.rows.deep_view()[self.next as int] == self.rows@[self.next as int].deep_view());
            match &self.rows[self.next] {
                ListedRow::Image(image) => Some(reference(image)),
                ListedRow::Unreadable(_) => None,
            }
        } else {
            None
        }
    }

    /// Goes on with what was told of the image that the survey wanted to look at.
    pub fn step(self, images: Vec<InspectedImage>) -> (r: Result<Self, YardError>)
        ensures
            match r {
                Ok(survey) => survey_after(self.deep_view(), images.deep_view()) == Ok::<
                    SurveyView,
                    ErrorView,
                >(survey.deep_view()),
                Err(error) => survey_after(self.deep_view(), images.deep_view()) == Err::<
                    SurveyView,
                    ErrorView,
                >(error.deep_view()),
            },
    {
        if self.next >= self.rows.len() {
            return Ok(self);
        }
        let ghost before = self.deep_view();
        assert(self.rows.deep_view()[self.next as int] == self.rows@[self.next as int].deep_view());
        let (owner, name) = match &self.rows[self.next] {
            ListedRow::Image(image) => match candidate_owner(&self.inventories, image) {
                Some(owner) => (owner, reference(image)),
                None => {
                    return Ok(self);
                },
            },
            ListedRow::Unreadable(_) => {
                return Ok(self);
            },
        };
        let image = match inspected(name.as_str(), images) {
            Ok(image) => image,
            Err(error) => {
                return Err(error);
            },
        };
        let Survey { inventories, running, rows, next } = self;
        let mut inventories = inventories;
        let ghost start = inventories.deep_view();
        let ghost changed = placed(
            start[owner as int],
            name@,
            image.deep_view(),
            running.deep_view(),
        );
        assert(start[owner as int] == inventories@[owner as int].deep_view());
        place(&mut inventories[owner], name, &image, &running);
        assert(inventories.deep_view() =~= start.update(owner as int, changed));
        let next: usize = find_stop(&inventories, &rows, next + 1);
        Ok(Survey { inventories, running, rows, next })
    }

    /// What came of a survey that wants to look at nothing more.
    pub fn finish(self) -> (r: Result<Vec<Inventory>, YardError>)
        ensures
            match r {
                Ok(inventories) => survey_result(self.deep_view()) == Ok::<
                    Seq<InventoryView>,
                    ErrorView,
                >(inventories.deep_view()),
                Err(error) => survey_result(self.deep_view()) == Err::<
                    Seq<InventoryView>,
                    ErrorView,
                >(error.deep_view()),
            },
    {
        if self.next < self.rows.len() {
            assert(self.rows.deep_view()[self.next as int] == self.rows@[self.next as int].deep_view());
            if let ListedRow::Unreadable(message) = &self.rows[self.next] {
                return Err(refused(message.as_str()));
            }
        }
        Ok(self.inventories)
    }
}

/// Whether a candidate may be removed: no release needs it, no container ran it when it was
/// looked at, and it is an image of a revision in a repository of a release of its project.
pub open spec fn is_removable(
    inventories: Seq<InventoryView>,
    running: Seq<Text>,
    owner: int,
    candidate: CandidateView,
) -> bool {
    &&& !is_protected(inventories, candidate.reference)
    &&& !running.contains(candidate.id)
    &&& exists|repository: Text, tag: Text|
        #![trigger reference_of(repository, tag)]
        candidate.reference == reference_of(repository, tag) && is_revision_tag(tag) && holds(
            inventories[owner].repositories,
            repository,
        )
}

/// Whether every candidate may be removed.
pub open spec fn is_safe(inventories: Seq<InventoryView>, running: Seq<Text>) -> bool {
    forall|i: int, j: int|
        0 <= i < inventories.len() && 0 <= j < inventories[i].candidates.len() ==> is_removable(
            inventories,
            running,
            i,
            #[trigger] inventories[i].candidates[j],
        )
}

/// A survey of listed images only ever finds candidates that may be removed.
pub proof fn law_survey_stays_safe(
    inventories: Seq<InventoryView>,
    running: Seq<Text>,
    repository: Text,
    tag: Text,
    image: InspectedView,
)
    requires
        is_safe(inventories, running),
        to_inspect(inventories, repository, tag) is Some,
    ensures
        ({
            let owner = to_inspect(inventories, repository, tag)->0 as int;
            &&& 0 <= owner < inventories.len()
            &&& is_safe(
                inventories.update(
                    owner,
                    placed(
                        inventories[owner],
                        reference_of(repository, tag),
                        image,
                        running,
                    ),
                ),
                running,
            )
        }),
{
    lemma_owner(inventories, repository, 0);
    let owner = to_inspect(inventories, repository, tag)->0 as int;
    let reference = reference_of(repository, tag);
    let after = inventories.update(
        owner,
        placed(inventories[owner], reference, image, running),
    );
    assert forall|name: Text| is_protected(after, name) == is_protected(inventories, name) by {
        if is_protected(after, name) {
            let i = choose|i: int|
                0 <= i < after.len() && holds((#[trigger] after[i]).kept, name);
            assert(holds(inventories[i].kept, name));
        }
        if is_protected(inventories, name) {
            let i = choose|i: int|
                0 <= i < inventories.len() && holds((#[trigger] inventories[i]).kept, name);
            assert(holds(after[i].kept, name));
        }
    }
    assert forall|i: int, j: int|
        0 <= i < after.len() && 0 <= j < after[i].candidates.len() implies is_removable(
        after,
        running,
        i,
        #[trigger] after[i].candidates[j],
    ) by {
        let candidate = after[i].candidates[j];
        if i != owner || j < inventories[i].candidates.len() {
            assert(candidate == inventories[i].candidates[j]);
            assert(is_removable(inventories, running, i, inventories[i].candidates[j]));
            let (r, t) = choose|repository: Text, tag: Text|
                #![trigger reference_of(repository, tag)]
                candidate.reference == reference_of(repository, tag) && is_revision_tag(tag)
                    && holds(inventories[i].repositories, repository);
            assert(candidate.reference == reference_of(r, t));
            assert(holds(after[i].repositories, r));
        } else {
            assert(candidate.reference == reference_of(repository, tag));
            assert(holds(after[owner].repositories, repository));
        }
    }
}

proof fn lemma_owner(inventories: Seq<InventoryView>, repository: Text, at: nat)
    ensures
        owner_from(inventories, repository, at) matches Some(owner) ==> at <= owner
            < inventories.len() && holds(inventories[owner as int].repositories, repository),
    decreases inventories.len() - at,
{
    if at < inventories.len() && !holds(inventories[at as int].repositories, repository) {
        lemma_owner(inventories, repository, at + 1);
    }
}

/// A survey after several images were looked at.
pub open spec fn survey_run(survey: SurveyView, told: Seq<Seq<InspectedView>>) -> Result<
    SurveyView,
    ErrorView,
>
    decreases told.len(),
{
    if told.len() == 0 {
        Ok(survey)
    } else {
        match survey_run(survey, told.drop_last()) {
            Ok(survey) => survey_after(survey, told.last()),
            Err(error) => Err(error),
        }
    }
}

/// Whatever is told of the images, a survey only ever finds candidates that may be removed, and
/// it keeps what is to be kept.
pub proof fn law_surveyed_candidates_are_removable(
    survey: SurveyView,
    told: Seq<Seq<InspectedView>>,
    end: SurveyView,
)
    requires
        is_safe(survey.inventories, survey.running),
        survey_run(survey, told) == Ok::<SurveyView, ErrorView>(end),
    ensures
        is_safe(end.inventories, survey.running),
        end.running == survey.running,
        end.inventories.len() == survey.inventories.len(),
        forall|i: int|
            0 <= i < end.inventories.len() ==> (#[trigger] end.inventories[i]).kept
                == survey.inventories[i].kept,
    decreases told.len(),
{
    if told.len() > 0 {
        let before = survey_run(survey, told.drop_last())->Ok_0;
        law_surveyed_candidates_are_removable(survey, told.drop_last(), before);
        if before.next < before.rows.len() {
            if let ListedRowView::Image { repository, tag } = before.rows[before.next as int] {
                if to_inspect(before.inventories, repository, tag) is Some {
                    let name = reference_of(repository, tag);
                    if let Ok(image) = inspected_of(name, told.last()) {
                        law_survey_stays_safe(
                            before.inventories,
                            before.running,
                            repository,
                            tag,
                            image,
                        );
                    }
                }
            }
        }
    }
}

/// Whether an image is one that can be done without, as far as the records tell: it carries the
/// tag of a revision, is in a repository of a recorded release, and no release needs it.
pub open spec fn is_spare(inventories: Seq<InventoryView>, repository: Text, tag: Text) -> bool {
    &&& is_revision_tag(tag)
    &&& !is_protected(inventories, reference_of(repository, tag))
    &&& owner_from(inventories, repository, 0) is Some
}

/// Whether what is told of the images of a survey agrees with what they are.
pub open spec fn is_told(
    survey: SurveyView,
    told: Seq<Seq<InspectedView>>,
    images: spec_fn(Text) -> InspectedView,
) -> bool {
    forall|k: int|
        0 <= k < told.len() ==> match survey_run(survey, #[trigger] told.take(k)) {
            Ok(at) => survey_awaited(at) matches Some(name) ==> inspected_of(name, told[k]) == Ok::<
                InspectedView,
                ErrorView,
            >(images(name)),
            Err(_) => true,
        }
}

/// Whether inventories differ in their candidates and running images alone.
spec fn are_alike(a: Seq<InventoryView>, b: Seq<InventoryView>) -> bool {
    &&& a.len() == b.len()
    &&& forall|i: int|
        0 <= i < a.len() ==> (#[trigger] a[i]).kept == b[i].kept && a[i].repositories
            == b[i].repositories
}

proof fn lemma_alike_owner(
    a: Seq<InventoryView>,
    b: Seq<InventoryView>,
    repository: Text,
    at: nat,
)
    requires
        are_alike(a, b),
    ensures
        owner_from(a, repository, at) == owner_from(b, repository, at),
    decreases a.len() - at,
{
    if at < a.len() {
        assert(a[at as int].repositories == b[at as int].repositories);
        lemma_alike_owner(a, b, repository, at + 1);
    }
}

proof fn lemma_alike_protection(a: Seq<InventoryView>, b: Seq<InventoryView>, reference: Text)
    requires
        are_alike(a, b),
    ensures
        is_protected(a, reference) == is_protected(b, reference),
{
    if is_protected(a, reference) {
        let i = choose|i: int| 0 <= i < a.len() && holds((#[trigger] a[i]).kept, reference);
        assert(holds(b[i].kept, reference));
    }
    if is_protected(b, reference) {
        let i = choose|i: int| 0 <= i < b.len() && holds((#[trigger] b[i]).kept, reference);
        assert(a[i].kept == b[i].kept);
        assert(holds(a[i].kept, reference));
    }
}

proof fn lemma_reference_is_unique(repository: Text, tag: Text, other: Text, another: Text)
    requires
        is_revision_tag(tag),
        is_revision_tag(another),
        reference_of(repository, tag) == reference_of(other, another),
    ensures
        repository == other,
        tag == another,
{
    reveal_strlit(":");
    let (a, b) = (reference_of(repository, tag), reference_of(other, another));
    let n = repository.len() as int;
    assert(a.len() == n + 1 + 12);
    assert(a.take(n) =~= repository);
    assert(b.take(n) =~= other);
    assert(a.skip(n + 1) =~= tag);
    assert(b.skip(n + 1) =~= another);
}

proof fn lemma_stop(inventories: Seq<InventoryView>, rows: Seq<ListedRowView>, at: nat)
    requires
        at <= rows.len(),
    ensures
        at <= stop_from(inventories, rows, at) <= rows.len(),
        forall|k: int|
            at <= k < stop_from(inventories, rows, at) ==> !stops_at(
                inventories,
                #[trigger] rows[k],
            ),
    decreases rows.len() - at,
{
    if at < rows.len() && !stops_at(inventories, rows[at as int]) {
        lemma_stop(inventories, rows, at + 1);
    }
}

/// Whether a candidate is one of the images that the survey is about, at its place.
spec fn is_placed(
    start: SurveyView,
    images: spec_fn(Text) -> InspectedView,
    owner: int,
    candidate: CandidateView,
) -> bool {
    &&& candidate.id == images(candidate.reference).id
    &&& candidate.size == images(candidate.reference).size
    &&& !start.running.contains(candidate.id)
    &&& is_listed(start, owner, candidate)
}

/// Whether a candidate of a project is a listed image that can be done without.
pub open spec fn is_listed(start: SurveyView, owner: int, candidate: CandidateView) -> bool {
    exists|k: int|
        0 <= k < start.rows.len() && is_row_of(start, #[trigger] start.rows[k], owner, candidate)
}

/// Whether a row lists a candidate, which can be done without and belongs to a project by its
/// repository.
pub open spec fn is_row_of(
    start: SurveyView,
    row: ListedRowView,
    owner: int,
    candidate: CandidateView,
) -> bool {
    row matches ListedRowView::Image { repository, tag } && {
        &&& candidate.reference == reference_of(repository, tag)
        &&& is_spare(start.inventories, repository, tag)
        &&& owner_from(start.inventories, repository, 0) == Some(owner as nat)
        &&& owner >= 0
    }
}

/// Whether a row that the survey has passed was dealt with: a spare image is a candidate, or is
/// kept because a container runs it.
spec fn is_settled(
    start: SurveyView,
    images: spec_fn(Text) -> InspectedView,
    inventories: Seq<InventoryView>,
    row: ListedRowView,
) -> bool {
    row matches ListedRowView::Image { repository, tag } && {
        is_spare(start.inventories, repository, tag) ==> {
            let reference = reference_of(repository, tag);
            let owner = owner_from(start.inventories, repository, 0)->0 as int;
            ||| is_candidate(inventories[owner], reference)
            ||| start.running.contains(images(reference).id)
                && inventories[owner].running.contains(reference)
        }
    }
}

spec fn has_no_repeats(candidates: Seq<CandidateView>) -> bool {
    forall|i: int, j: int|
        0 <= i < j < candidates.len() ==> (#[trigger] candidates[i]).reference != (
        #[trigger] candidates[j]).reference
}

spec fn is_on_its_way(
    start: SurveyView,
    images: spec_fn(Text) -> InspectedView,
    survey: SurveyView,
) -> bool {
    &&& survey.rows == start.rows
    &&& survey.running == start.running
    &&& are_alike(survey.inventories, start.inventories)
    &&& survey.next <= survey.rows.len()
    &&& forall|i: int, j: int|
        0 <= i < survey.inventories.len() && 0 <= j < survey.inventories[i].candidates.len()
            ==> is_placed(start, images, i, #[trigger] survey.inventories[i].candidates[j])
    &&& forall|i: int|
        0 <= i < survey.inventories.len() ==> has_no_repeats(
            (#[trigger] survey.inventories[i]).candidates,
        )
    &&& forall|k: int|
        0 <= k < survey.next ==> is_settled(
            start,
            images,
            survey.inventories,
            #[trigger] survey.rows[k],
        )
}

/// A row at which a survey does not stop needs nothing to be done.
proof fn lemma_passed_row(
    start: SurveyView,
    images: spec_fn(Text) -> InspectedView,
    inventories: Seq<InventoryView>,
    row: ListedRowView,
)
    requires
        are_alike(inventories, start.inventories),
        !stops_at(inventories, row),
    ensures
        is_settled(start, images, inventories, row),
{
    if let ListedRowView::Image { repository, tag } = row {
        lemma_alike_owner(inventories, start.inventories, repository, 0);
        lemma_alike_protection(inventories, start.inventories, reference_of(repository, tag));
    }
}

/// A row that was dealt with stays so.
proof fn lemma_settled_stays(
    start: SurveyView,
    images: spec_fn(Text) -> InspectedView,
    before: Seq<InventoryView>,
    after: Seq<InventoryView>,
    row: ListedRowView,
)
    requires
        is_settled(start, images, before, row),
        before.len() == after.len(),
        start.inventories.len() == before.len(),
        forall|i: int|
            0 <= i < before.len() ==> (#[trigger] before[i]).candidates.is_prefix_of(
                after[i].candidates,
            ) && before[i].running.is_prefix_of(after[i].running),
    ensures
        is_settled(start, images, after, row),
{
    if let ListedRowView::Image { repository, tag } = row {
        if is_spare(start.inventories, repository, tag) {
            let reference = reference_of(repository, tag);
            let owner = owner_from(start.inventories, repository, 0)->0 as int;
            lemma_owner(start.inventories, repository, 0);
            let (old, new) = (before[owner], after[owner]);
            assert(old.candidates.is_prefix_of(new.candidates));
            if is_candidate(old, reference) {
                let i = choose|i: int|
                    0 <= i < old.candidates.len() && (#[trigger] old.candidates[i]).reference
                        == reference;
                assert(new.candidates[i] == new.candidates.subrange(
                    0,
                    old.candidates.len() as int,
                )[i]);
                assert(new.candidates[i].reference == reference);
            } else {
                let i = choose|i: int| 0 <= i < old.running.len() && old.running[i] == reference;
                assert(new.running[i] == new.running.subrange(0, old.running.len() as int)[i]);
                assert(new.running[i] == reference);
            }
        }
    }
}

proof fn lemma_survey_step(
    start: SurveyView,
    images: spec_fn(Text) -> InspectedView,
    before: SurveyView,
    told: Seq<InspectedView>,
    after: SurveyView,
)
    requires
        is_on_its_way(start, images, before),
        survey_after(before, told) == Ok::<SurveyView, ErrorView>(after),
        survey_awaited(before) matches Some(name) ==> inspected_of(name, told) == Ok::<
            InspectedView,
            ErrorView,
        >(images(name)),
    ensures
        is_on_its_way(start, images, after),
{
    if before.next < before.rows.len() && before.rows[before.next as int] is Image {
        let row = before.rows[before.next as int];
        let (repository, tag) = (row->repository, row->tag);
        let reference = reference_of(repository, tag);
        if to_inspect(before.inventories, repository, tag) is Some {
            let owner = to_inspect(before.inventories, repository, tag)->0 as int;
            let image = images(reference);
            lemma_owner(before.inventories, repository, 0);
            lemma_alike_owner(before.inventories, start.inventories, repository, 0);
            lemma_alike_protection(before.inventories, start.inventories, reference);
            let old = before.inventories[owner];
            let new = placed(old, reference, image, before.running);
            assert(after.inventories == before.inventories.update(owner, new));
            lemma_stop(after.inventories, before.rows, before.next + 1);
            let candidate = CandidateView { reference, id: image.id, size: image.size };
            assert(is_row_of(start, start.rows[before.next as int], owner, candidate));
            assert forall|i: int, j: int|
                0 <= i < after.inventories.len() && 0 <= j
                    < after.inventories[i].candidates.len() implies is_placed(
                start,
                images,
                i,
                #[trigger] after.inventories[i].candidates[j],
            ) by {
                if i != owner || j < old.candidates.len() {
                    assert(after.inventories[i].candidates[j]
                        == before.inventories[i].candidates[j]);
                } else {
                    assert(after.inventories[i].candidates[j] == candidate);
                }
            }
            assert(has_no_repeats(new.candidates)) by {
                assert(has_no_repeats(old.candidates));
                assert(!is_candidate(old, reference));
            }
            assert forall|i: int| 0 <= i < after.inventories.len() implies has_no_repeats(
                (#[trigger] after.inventories[i]).candidates,
            ) by {
                if i != owner {
                    assert(after.inventories[i] == before.inventories[i]);
                }
            }
            assert(old.candidates.is_prefix_of(new.candidates)) by {
                assert(new.candidates.subrange(0, old.candidates.len() as int)
                    =~= old.candidates);
            }
            assert(old.running.is_prefix_of(new.running)) by {
                assert(new.running.subrange(0, old.running.len() as int) =~= old.running);
            }
            assert forall|i: int| 0 <= i < before.inventories.len() implies (
            #[trigger] before.inventories[i]).candidates.is_prefix_of(
                after.inventories[i].candidates,
            ) && before.inventories[i].running.is_prefix_of(after.inventories[i].running) by {
                if i != owner {
                    let same = before.inventories[i];
                    assert(same.candidates.subrange(0, same.candidates.len() as int)
                        =~= same.candidates);
                    assert(same.running.subrange(0, same.running.len() as int) =~= same.running);
                }
            }
            assert(is_settled(start, images, after.inventories, row)) by {
                if before.running.contains(image.id) {
                    assert(new.running[old.running.len() as int] == reference);
                } else {
                    assert(new.candidates[old.candidates.len() as int].reference == reference);
                    assert(is_candidate(new, reference));
                }
            }
            assert forall|k: int| 0 <= k < after.next implies is_settled(
                start,
                images,
                after.inventories,
                #[trigger] after.rows[k],
            ) by {
                if k < before.next {
                    assert(is_settled(start, images, before.inventories, before.rows[k]));
                    lemma_settled_stays(
                        start,
                        images,
                        before.inventories,
                        after.inventories,
                        before.rows[k],
                    );
                } else if k > before.next {
                    lemma_passed_row(start, images, after.inventories, before.rows[k]);
                }
            }
        }
    }
}

proof fn lemma_survey_run(
    start: SurveyView,
    images: spec_fn(Text) -> InspectedView,
    told: Seq<Seq<InspectedView>>,
    end: SurveyView,
)
    requires
        start == survey_of(start.inventories, start.running, start.rows),
        forall|i: int|
            0 <= i < start.inventories.len() ==> (#[trigger] start.inventories[i]).candidates.len()
                == 0,
        is_told(start, told, images),
        survey_run(start, told) == Ok::<SurveyView, ErrorView>(end),
    ensures
        is_on_its_way(start, images, end),
    decreases told.len(),
{
    if told.len() == 0 {
        lemma_stop(start.inventories, start.rows, 0);
        assert forall|k: int| 0 <= k < start.next implies is_settled(
            start,
            images,
            start.inventories,
            #[trigger] start.rows[k],
        ) by {
            lemma_passed_row(start, images, start.inventories, start.rows[k]);
        }
    } else {
        let n = told.len() - 1;
        let shorter = told.drop_last();
        assert(told.take(n) =~= shorter);
        assert forall|k: int| 0 <= k < shorter.len() implies #[trigger] shorter.take(k)
            == told.take(k) by {
            assert(shorter.take(k) =~= told.take(k));
        }
        let before = survey_run(start, shorter)->Ok_0;
        lemma_survey_run(start, images, shorter, before);
        assert(survey_run(start, told.take(n)) == Ok::<SurveyView, ErrorView>(before));
        lemma_survey_step(start, images, before, told.last(), end);
    }
}

/// A candidate that has the reference of a spare image belongs to the owner of its repository.
proof fn lemma_found(
    start: SurveyView,
    images: spec_fn(Text) -> InspectedView,
    end: SurveyView,
    repository: Text,
    tag: Text,
    i: int,
    j: int,
)
    requires
        is_on_its_way(start, images, end),
        0 <= i < end.inventories.len(),
        0 <= j < end.inventories[i].candidates.len(),
        end.inventories[i].candidates[j].reference == reference_of(repository, tag),
        is_revision_tag(tag),
    ensures
        owner_from(start.inventories, repository, 0) == Some(i as nat),
        is_spare(start.inventories, repository, tag),
        !start.running.contains(images(reference_of(repository, tag)).id),
{
    let candidate = end.inventories[i].candidates[j];
    assert(is_placed(start, images, i, candidate));
    let k = choose|k: int|
        0 <= k < start.rows.len() && is_row_of(start, #[trigger] start.rows[k], i, candidate);
    let row = start.rows[k];
    lemma_reference_is_unique(row->repository, row->tag, repository, tag);
}

/// A finished survey finds every image that can be removed, exactly once: each listed image that
/// can be done without becomes a candidate of one project where no container runs it, and is kept
/// where one does. It finds no others.
pub proof fn law_survey_finds_every_candidate_once(
    start: SurveyView,
    images: spec_fn(Text) -> InspectedView,
    told: Seq<Seq<InspectedView>>,
    end: SurveyView,
    k: int,
)
    requires
        start == survey_of(start.inventories, start.running, start.rows),
        forall|i: int|
            0 <= i < start.inventories.len() ==> (#[trigger] start.inventories[i]).candidates.len()
                == 0,
        is_told(start, told, images),
        survey_run(start, told) == Ok::<SurveyView, ErrorView>(end),
        survey_awaited(end) is None,
        survey_result(end) is Ok,
        0 <= k < start.rows.len(),
    ensures
        start.rows[k] matches ListedRowView::Image { repository, tag } && {
            let reference = reference_of(repository, tag);
            let found = |i: int, j: int|
                0 <= i < end.inventories.len() && 0 <= j < end.inventories[i].candidates.len()
                    && end.inventories[i].candidates[j].reference == reference;
            &&& is_revision_tag(tag) ==> (is_spare(start.inventories, repository, tag)
                && !start.running.contains(images(reference).id) <==> exists|i: int, j: int|
                #[trigger] found(i, j))
            &&& is_revision_tag(tag) ==> forall|i: int, j: int, x: int, y: int| #[trigger]
                found(i, j) && #[trigger] found(x, y) ==> i == x && j == y
            &&& is_spare(start.inventories, repository, tag) && start.running.contains(
                images(reference).id,
            ) ==> exists|i: int|
                0 <= i < end.inventories.len() && (#[trigger] end.inventories[i]).running.contains(
                    reference,
                )
        },
        forall|i: int, j: int|
            0 <= i < end.inventories.len() && 0 <= j < end.inventories[i].candidates.len()
                ==> is_listed(start, i, #[trigger] end.inventories[i].candidates[j]),
{
    lemma_survey_run(start, images, told, end);
    assert forall|i: int, j: int|
        0 <= i < end.inventories.len() && 0 <= j < end.inventories[i].candidates.len() implies is_listed(
        start,
        i,
        #[trigger] end.inventories[i].candidates[j],
    ) by {
        assert(is_placed(start, images, i, end.inventories[i].candidates[j]));
    }
    assert(end.next == end.rows.len());
    let row = start.rows[k];
    assert(is_settled(start, images, end.inventories, end.rows[k]));
    let (repository, tag) = (row->repository, row->tag);
    let reference = reference_of(repository, tag);
    let found = |i: int, j: int|
        0 <= i < end.inventories.len() && 0 <= j < end.inventories[i].candidates.len()
            && end.inventories[i].candidates[j].reference == reference;
    lemma_owner(start.inventories, repository, 0);
    if is_spare(start.inventories, repository, tag) {
        let owner = owner_from(start.inventories, repository, 0)->0 as int;
        if !start.running.contains(images(reference).id) {
            let own = end.inventories[owner];
            assert(is_candidate(own, reference));
            let j = choose|j: int|
                0 <= j < own.candidates.len() && (#[trigger] own.candidates[j]).reference
                    == reference;
            assert(found(owner, j));
        }
    }
    assert forall|i: int, j: int| #[trigger] found(i, j) && is_revision_tag(tag) implies i
        == owner_from(start.inventories, repository, 0)->0 && is_spare(
        start.inventories,
        repository,
        tag,
    ) && !start.running.contains(images(reference).id) by {
        lemma_found(start, images, end, repository, tag, i, j);
    }
    assert forall|i: int, j: int, x: int, y: int| #[trigger]
        found(i, j) && #[trigger] found(x, y) && is_revision_tag(tag) implies i == x && j == y by {
        assert(i == x);
        assert(has_no_repeats(end.inventories[i].candidates));
        if j < y {
            assert(end.inventories[i].candidates[j].reference
                != end.inventories[i].candidates[y].reference);
        } else if y < j {
            assert(end.inventories[i].candidates[y].reference
                != end.inventories[i].candidates[j].reference);
        }
    }
}

proof fn lemma_images_ordered(entries: Seq<(Text, ())>, services: Seq<ServiceView>)
    requires
        strictly_ordered(entries),
    ensures
        strictly_ordered(with_images(entries, services)),
    decreases services.len(),
{
    if services.len() > 0 {
        lemma_images_ordered(entries, services.drop_last());
        lemma_put_ordered(
            with_images(entries, services.drop_last()),
            services.last().image,
            (),
        );
    }
}

/// Every image of a recorded release is among those that are kept.
pub proof fn law_release_images_are_kept(
    entries: Seq<(Text, ())>,
    services: Seq<ServiceView>,
    at: int,
)
    requires
        strictly_ordered(entries),
        0 <= at < services.len(),
    ensures
        holds(with_images(entries, services), services[at].image),
    decreases services.len(),
{
    let shorter = services.drop_last();
    lemma_images_ordered(entries, shorter);
    law_put_then_lookup(
        with_images(entries, shorter),
        services.last().image,
        (),
        services[at].image,
    );
    if at < shorter.len() {
        law_release_images_are_kept(entries, shorter, at);
    }
}

/// Keeping the images of one more release lets go of none.
pub proof fn law_kept_images_stay(
    entries: Seq<(Text, ())>,
    services: Seq<ServiceView>,
    reference: Text,
)
    requires
        strictly_ordered(entries),
        holds(entries, reference),
    ensures
        holds(with_images(entries, services), reference),
    decreases services.len(),
{
    if services.len() > 0 {
        let shorter = services.drop_last();
        law_kept_images_stay(entries, shorter, reference);
        lemma_images_ordered(entries, shorter);
        law_put_then_lookup(
            with_images(entries, shorter),
            services.last().image,
            (),
            reference,
        );
    }
}

/// The inventory of a project keeps every image of its current and its previous release, and has
/// no candidates yet.
pub proof fn law_recorded_images_are_kept(name: Text, allowed: Seq<Text>, state: StateView)
    requires
        inventory_of(name, allowed, Some(state)) is Ok,
    ensures
        ({
            let inventory = inventory_of(name, allowed, Some(state))->Ok_0;
            &&& inventory.candidates.len() == 0
            &&& state.current is Some
            &&& forall|at: int|
                0 <= at < state.current->0.services.len() ==> holds(
                    inventory.kept,
                    (#[trigger] state.current->0.services[at]).image,
                )
            &&& state.previous matches Some(previous) ==> forall|at: int|
                0 <= at < previous.services.len() ==> holds(
                    inventory.kept,
                    (#[trigger] previous.services[at]).image,
                )
        }),
{
    let current = state.current->0;
    let none = Seq::<(Text, ())>::empty();
    let first = with_images(none, current.services);
    lemma_images_ordered(none, current.services);
    assert forall|at: int| 0 <= at < current.services.len() implies holds(
        first,
        (#[trigger] current.services[at]).image,
    ) by {
        law_release_images_are_kept(none, current.services, at);
    }
    if let Some(previous) = state.previous {
        assert forall|at: int| 0 <= at < current.services.len() implies holds(
            with_images(first, previous.services),
            (#[trigger] current.services[at]).image,
        ) by {
            law_kept_images_stay(first, previous.services, current.services[at].image);
        }
        assert forall|at: int| 0 <= at < previous.services.len() implies holds(
            with_images(first, previous.services),
            (#[trigger] previous.services[at]).image,
        ) by {
            law_release_images_are_kept(first, previous.services, at);
        }
    }
}

/// A project without a record, with a release under way, or whose releases do not record their
/// images cannot be accounted for.
pub proof fn law_unaccounted_projects_block(name: Text, allowed: Seq<Text>, state: StateView)
    ensures
        inventory_of(name, allowed, None) is Err,
        state.pending is Some ==> inventory_of(name, allowed, Some(state)) is Err,
        state.current is None ==> inventory_of(name, allowed, Some(state)) is Err,
        allowed.len() > 0 && (state.current matches Some(current) && current.services.len() == 0)
            ==> inventory_of(name, allowed, Some(state)) is Err,
{
}

// ---------------------------------------------------------------------------------------------
// Reports
// ---------------------------------------------------------------------------------------------

/// Why one project blocks the removal, as it is shown.
pub fn blocked_line(name: &str, error: &YardError) -> (r: String)
    ensures
        r@ == name@ + " : "@ + message_of(error.deep_view()),
{
    let mut out = name.to_owned();
    out.append(" : ");
    out.append(error.message().as_str());
    out
}

/// Why the removal is refused while projects are blocked.
pub open spec fn blocked_refusal(blocked: Seq<Text>) -> Option<ErrorView> {
    if blocked.len() == 0 {
        None
    } else {
        Some(refusal("au moins un projet n'est pas inspectable ; aucune image supprimée"@))
    }
}

/// Refuses the removal while a project is blocked.
pub fn check_blocked(blocked: &Vec<String>) -> (r: Result<(), YardError>)
    ensures
        error_of(r) == blocked_refusal(blocked.deep_view()),
{
    if blocked.len() == 0 {
        Ok(())
    } else {
        Err(refused("au moins un projet n'est pas inspectable ; aucune image supprimée"))
    }
}

/// The sizes of candidates together, or the largest number where they are more.
pub open spec fn reclaimable(candidates: Seq<CandidateView>) -> nat
    decreases candidates.len(),
{
    if candidates.len() == 0 {
        0
    } else {
        let total = reclaimable(candidates.drop_last()) + candidates.last().size;
        if total > u64::MAX {
            u64::MAX as nat
        } else {
            total as nat
        }
    }
}

/// The lines about the images of a project.
pub open spec fn inventory_lines(inventory: InventoryView) -> Seq<Text> {
    seq!["Project: "@ + inventory.name] + inventory.kept.map_values(
        |entry: (Text, ())| "  keep "@ + entry.0,
    ) + inventory.running.map_values(
        |reference: Text| "  keep "@ + reference + " (running container)"@,
    ) + inventory.candidates.map_values(
        |candidate: CandidateView|
            "  candidate "@ + candidate.reference + " ("@ + decimal(candidate.size as nat)
                + " bytes)"@,
    ) + seq![
        "  reclaimable: "@ + decimal(reclaimable(inventory.candidates))
            + " bytes (estimate; shared layers may reduce savings)"@,
    ]
}

/// The line about an image that a container runs.
pub open spec fn running_line(reference: Text) -> Text {
    "  keep "@ + reference + " (running container)"@
}

fn show_running(reference: &str) -> (r: String)
    ensures
        r@ == running_line(reference@),
{
    let mut line = "  keep ".to_owned();
    line.append(reference);
    line.append(" (running container)");
    line
}

/// The lines about the images of a project.
pub fn describe(inventory: &Inventory) -> (r: Vec<String>)
    ensures
        r.deep_view() == inventory_lines(inventory.deep_view()),
{
    let ghost view = inventory.deep_view();
    let mut lines: Vec<String> = Vec::new();
    assert(lines.deep_view() =~= Seq::<Text>::empty());
    let mut heading = "Project: ".to_owned();
    heading.append(inventory.name.as_str());
    add_word(&mut lines, heading.as_str());
    let ghost first = lines.deep_view();
    assert(first =~= seq![heading@]);
    let ghost kept = view.kept.map_values(|entry: (Text, ())| "  keep "@ + entry.0);
    let total: usize = inventory.kept.len();
    let mut i: usize = 0;
    assert(first + kept.take(0) =~= first);
    while i < total
        invariant
            view == inventory.deep_view(),
            kept == view.kept.map_values(|entry: (Text, ())| "  keep "@ + entry.0),
            total == view.kept.len(),
            total == inventory.kept.view().len(),
            i <= total,
            lines.deep_view() == first + kept.take(i as int),
        decreases total - i,
    {
        let mut line = "  keep ".to_owned();
        line.append(inventory.kept.name(i).as_str());
        add_word(&mut lines, line.as_str());
        assert(first + kept.take(i + 1) =~= (first + kept.take(i as int)).push(line@));
        i = i + 1;
    }
    assert(kept.take(i as int) =~= kept);
    let ghost second = lines.deep_view();
    let ghost running = view.running.map_values(
        |reference: Text| "  keep "@ + reference + " (running container)"@,
    );
    let mut k: usize = 0;
    assert(second + running.take(0) =~= second);
    while k < inventory.running.len()
        invariant
            view == inventory.deep_view(),
            running == view.running.map_values(
                |reference: Text| "  keep "@ + reference + " (running container)"@,
            ),
            k <= inventory.running@.len(),
            lines.deep_view() == second + running.take(k as int),
        decreases inventory.running@.len() - k,
    {
        let line = show_running(inventory.running[k].as_str());
        add_word(&mut lines, line.as_str());
        assert(second + running.take(k + 1) =~= (second + running.take(k as int)).push(line@));
        k = k + 1;
    }
    assert(running.take(k as int) =~= running);
    let ghost third = lines.deep_view();
    let ghost views = view.candidates;
    let ghost candidates = views.map_values(
        |candidate: CandidateView|
            "  candidate "@ + candidate.reference + " ("@ + decimal(candidate.size as nat)
                + " bytes)"@,
    );
    let mut sum: u64 = 0;
    let mut n: usize = 0;
    assert(third + candidates.take(0) =~= third);
    assert(views.take(0) =~= Seq::<CandidateView>::empty());
    while n < inventory.candidates.len()
        invariant
            views == inventory.candidates.deep_view(),
            candidates == views.map_values(
                |candidate: CandidateView|
                    "  candidate "@ + candidate.reference + " ("@ + decimal(candidate.size as nat)
                        + " bytes)"@,
            ),
            n <= inventory.candidates@.len(),
            sum == reclaimable(views.take(n as int)),
            lines.deep_view() == third + candidates.take(n as int),
        decreases inventory.candidates@.len() - n,
    {
        let candidate = &inventory.candidates[n];
        assert(views[n as int] == candidate.deep_view());
        assert(views.take(n + 1).drop_last() =~= views.take(n as int));
        assert(views.take(n + 1).last() == views[n as int]);
        let mut line = "  candidate ".to_owned();
        line.append(candidate.reference.as_str());
        line.append(" (");
        line.append(to_decimal(candidate.size as u128).as_str());
        line.append(" bytes)");
        add_word(&mut lines, line.as_str());
        assert(third + candidates.take(n + 1) =~= (third + candidates.take(n as int)).push(line@));
        sum = match sum.checked_add(candidate.size) {
            Some(more) => more,
            None => u64::MAX,
        };
        n = n + 1;
    }
    assert(candidates.take(n as int) =~= candidates);
    assert(views.take(n as int) =~= views);
    let ghost fourth = lines.deep_view();
    let mut total_line = "  reclaimable: ".to_owned();
    total_line.append(to_decimal(sum as u128).as_str());
    total_line.append(" bytes (estimate; shared layers may reduce savings)");
    add_word(&mut lines, total_line.as_str());
    assert(lines.deep_view() =~= inventory_lines(view));
    lines
}

// ---------------------------------------------------------------------------------------------
// The removal
// ---------------------------------------------------------------------------------------------

/// Where the removal of candidates stands.
#[derive(Debug)]
pub enum Prune {
    Checking { next: usize },
    Removing { next: usize },
    Ended { result: Result<(), YardError> },
}

#[verifier::ext_equal]
pub enum PrunePhase {
    Checking { next: nat },
    Removing { next: nat },
    Ended { outcome: Option<ErrorView> },
}

impl DeepView for Prune {
    type V = PrunePhase;

    open spec fn deep_view(&self) -> PrunePhase {
        match self {
            Prune::Checking { next } => PrunePhase::Checking { next: *next as nat },
            Prune::Removing { next } => PrunePhase::Removing { next: *next as nat },
            Prune::Ended { result } => PrunePhase::Ended { outcome: error_of(*result) },
        }
    }
}

/// What the removal asks for.
#[derive(Debug)]
pub enum PruneAction {
    /// Tell the images that containers run now.
    ListRunning,
    /// Remove an image, without force.
    Remove(String),
    /// Nothing: the removal has ended.
    Finish,
}

#[verifier::ext_equal]
pub enum PruneActionView {
    ListRunning,
    Remove(Text),
    Finish,
}

impl DeepView for PruneAction {
    type V = PruneActionView;

    open spec fn deep_view(&self) -> PruneActionView {
        match self {
            PruneAction::ListRunning => PruneActionView::ListRunning,
            PruneAction::Remove(reference) => PruneActionView::Remove(reference@),
            PruneAction::Finish => PruneActionView::Finish,
        }
    }
}

/// What came of it.
#[derive(Debug)]
pub enum PruneReply {
    Running(Vec<String>),
    Removed,
    Failed(YardError),
}

#[verifier::ext_equal]
pub enum PruneReplyView {
    Running(Seq<Text>),
    Removed,
    Failed(ErrorView),
}

impl DeepView for PruneReply {
    type V = PruneReplyView;

    open spec fn deep_view(&self) -> PruneReplyView {
        match self {
            PruneReply::Running(ids) => PruneReplyView::Running(ids.deep_view()),
            PruneReply::Removed => PruneReplyView::Removed,
            PruneReply::Failed(error) => PruneReplyView::Failed(error.deep_view()),
        }
    }
}

/// The failure behind a reply that is not the expected one.
pub open spec fn prune_failure(reply: PruneReplyView) -> PrunePhase {
    PrunePhase::Ended {
        outcome: Some(
            match reply {
                PruneReplyView::Failed(error) => error,
                _ => ErrorView::Config("unexpected reply"@),
            },
        ),
    }
}

/// Where the removal stands before a candidate; behind the last it has ended.
pub open spec fn turn_of(candidates: Seq<CandidateView>, next: nat) -> PrunePhase {
    if next < candidates.len() {
        PrunePhase::Checking { next }
    } else {
        PrunePhase::Ended { outcome: None }
    }
}

/// Where the removal begins: it is refused while a project is blocked, and nothing is to be done
/// unless it was confirmed.
pub open spec fn beginning(
    blocked: Seq<Text>,
    confirmed: bool,
    candidates: Seq<CandidateView>,
) -> PrunePhase {
    if blocked_refusal(blocked) is Some {
        PrunePhase::Ended { outcome: blocked_refusal(blocked) }
    } else if !confirmed {
        PrunePhase::Ended { outcome: None }
    } else {
        turn_of(candidates, 0)
    }
}

/// What the removal waits for.
pub open spec fn prune_awaited(
    candidates: Seq<CandidateView>,
    phase: PrunePhase,
) -> PruneActionView {
    match phase {
        PrunePhase::Checking { .. } => PruneActionView::ListRunning,
        PrunePhase::Removing { next } => if next < candidates.len() {
            PruneActionView::Remove(candidates[next as int].reference)
        } else {
            PruneActionView::Finish
        },
        PrunePhase::Ended { .. } => PruneActionView::Finish,
    }
}

/// Where the removal stands after a reply. Each candidate is checked again right before it is
/// removed.
pub open spec fn prune_after(
    candidates: Seq<CandidateView>,
    phase: PrunePhase,
    reply: PruneReplyView,
) -> PrunePhase {
    match phase {
        PrunePhase::Checking { next } => match reply {
            PruneReplyView::Running(ids) => if next < candidates.len() && !ids.contains(
                candidates[next as int].id,
            ) {
                PrunePhase::Removing { next }
            } else {
                turn_of(candidates, next + 1)
            },
            _ => prune_failure(reply),
        },
        PrunePhase::Removing { next } => match reply {
            PruneReplyView::Removed => turn_of(candidates, next + 1),
            _ => prune_failure(reply),
        },
        PrunePhase::Ended { .. } => phase,
    }
}

/// The line that tells of a step of the removal.
pub open spec fn prune_said(
    candidates: Seq<CandidateView>,
    phase: PrunePhase,
    reply: PruneReplyView,
) -> Option<Text> {
    match (phase, reply) {
        (PrunePhase::Checking { next }, PruneReplyView::Running(ids)) => if next < candidates.len()
            && ids.contains(candidates[next as int].id) {
            Some(running_line(candidates[next as int].reference))
        } else {
            None
        },
        (PrunePhase::Removing { next }, PruneReplyView::Removed) => if next < candidates.len() {
            Some("  removed "@ + candidates[next as int].reference)
        } else {
            None
        },
        _ => None,
    }
}

fn prune_stop(reply: PruneReply) -> (r: Prune)
    ensures
        r.deep_view() == prune_failure(reply.deep_view()),
{
    match reply {
        PruneReply::Failed(error) => Prune::Ended { result: Err(error) },
        _ => Prune::Ended { result: Err(YardError::Config("unexpected reply".to_owned())) },
    }
}

fn prune_turn(candidates: &Vec<Candidate>, at: usize) -> (r: Prune)
    requires
        at <= candidates@.len(),
    ensures
        r.deep_view() == turn_of(candidates.deep_view(), at as nat),
{
    if at < candidates.len() {
        Prune::Checking { next: at }
    } else {
        Prune::Ended { result: Ok(()) }
    }
}

fn prune_next(candidates: &Vec<Candidate>, next: usize) -> (r: Prune)
    ensures
        r.deep_view() == turn_of(candidates.deep_view(), next as nat + 1),
{
    if next < candidates.len() {
        prune_turn(candidates, next + 1)
    } else {
        Prune::Ended { result: Ok(()) }
    }
}

impl Prune {
    /// The removal of candidates, which has not begun.
    pub fn start(candidates: &Vec<Candidate>) -> (r: Self)
        ensures
            r.deep_view() == turn_of(candidates.deep_view(), 0),
    {
        prune_turn(candidates, 0)
    }

    /// The removal of candidates where it may begin. `blocked` holds the projects that could not
    /// be accounted for.
    pub fn begin(blocked: &Vec<String>, confirmed: bool, candidates: &Vec<Candidate>) -> (r: Self)
        ensures
            r.deep_view() == beginning(
                blocked.deep_view(),
                confirmed,
                candidates.deep_view(),
            ),
    {
        match check_blocked(blocked) {
            Err(error) => Prune::Ended { result: Err(error) },
            Ok(()) => {
                if confirmed {
                    Prune::start(candidates)
                } else {
                    Prune::Ended { result: Ok(()) }
                }
            },
        }
    }

    /// What the removal waits for.
    pub fn action(&self, candidates: &Vec<Candidate>) -> (r: PruneAction)
        ensures
            r.deep_view() == prune_awaited(candidates.deep_view(), self.deep_view()),
    {
        match self {
            Prune::Checking { .. } => PruneAction::ListRunning,
            Prune::Removing { next } => {
                if *next < candidates.len() {
                    PruneAction::Remove(candidates[*next].reference.clone())
                } else {
                    PruneAction::Finish
                }
            },
            Prune::Ended { .. } => PruneAction::Finish,
        }
    }

    /// The line that tells of the step that a reply completes.
    pub fn announce(&self, candidates: &Vec<Candidate>, reply: &PruneReply) -> (r: Option<String>)
        ensures
            r.deep_view() == prune_said(
                candidates.deep_view(),
                self.deep_view(),
                reply.deep_view(),
            ),
    {
        match (self, reply) {
            (Prune::Checking { next }, PruneReply::Running(ids)) => {
                if *next < candidates.len() && contains(ids, candidates[*next].id.as_str()) {
                    Some(show_running(candidates[*next].reference.as_str()))
                } else {
                    None
                }
            },
            (Prune::Removing { next }, PruneReply::Removed) => {
                if *next < candidates.len() {
                    let mut line = "  removed ".to_owned();
                    line.append(candidates[*next].reference.as_str());
                    Some(line)
                } else {
                    None
                }
            },
            _ => None,
        }
    }

    /// Goes on by what came of the action.
    pub fn step(self, candidates: &Vec<Candidate>, reply: PruneReply) -> (r: Self)
        ensures
            r.deep_view() == prune_after(
                candidates.deep_view(),
                self.deep_view(),
                reply.deep_view(),
            ),
    {
        match self {
            Prune::Checking { next } => match reply {
                PruneReply::Running(ids) => {
                    if next < candidates.len() && !contains(&ids, candidates[next].id.as_str()) {
                        Prune::Removing { next }
                    } else {
                        prune_next(candidates, next)
                    }
                },
                _ => prune_stop(reply),
            },
            Prune::Removing { next } => match reply {
                PruneReply::Removed => prune_next(candidates, next),
                _ => prune_stop(reply),
            },
            Prune::Ended { result } => Prune::Ended { result },
        }
    }
}

/// What is said where candidates are shown but not removed.
pub fn simulation(confirmed: bool) -> (r: Option<String>)
    ensures
        r.deep_view() == (if confirmed {
            None
        } else {
            Some("Simulation only; run yard images --prune --yes to remove candidates."@)
        }),
{
    if confirmed {
        None
    } else {
        Some("Simulation only; run yard images --prune --yes to remove candidates.".to_owned())
    }
}

/// Where a removal stands after replies.
pub open spec fn prune_run(
    candidates: Seq<CandidateView>,
    start: PrunePhase,
    replies: Seq<PruneReplyView>,
) -> PrunePhase
    decreases replies.len(),
{
    if replies.len() == 0 {
        start
    } else {
        prune_after(candidates, prune_run(candidates, start, replies.drop_last()), replies.last())
    }
}

/// Nothing is removed while a project is blocked, or without a confirmation, whatever is replied.
pub proof fn law_nothing_is_removed_unasked(
    blocked: Seq<Text>,
    confirmed: bool,
    candidates: Seq<CandidateView>,
    replies: Seq<PruneReplyView>,
)
    requires
        blocked.len() > 0 || !confirmed,
    ensures
        prune_awaited(
            candidates,
            prune_run(candidates, beginning(blocked, confirmed, candidates), replies),
        ) is Finish,
        prune_run(candidates, beginning(blocked, confirmed, candidates), replies) == (
        PrunePhase::Ended { outcome: blocked_refusal(blocked) }),
    decreases replies.len(),
{
    if replies.len() > 0 {
        law_nothing_is_removed_unasked(blocked, confirmed, candidates, replies.drop_last());
    }
}

/// An image is removed only if it is a candidate, and only right after a check that no container
/// runs it.
pub proof fn law_checked_right_before_removal(
    candidates: Seq<CandidateView>,
    phase: PrunePhase,
    reply: PruneReplyView,
    reference: Text,
)
    requires
        !(phase is Removing),
        prune_awaited(candidates, prune_after(candidates, phase, reply))
            == PruneActionView::Remove(reference),
    ensures
        phase matches PrunePhase::Checking { next } && next < candidates.len()
            && candidates[next as int].reference == reference && (reply
            matches PruneReplyView::Running(ids) && !ids.contains(candidates[next as int].id)),
{
}

/// After an image has been removed, the next one is checked first.
pub proof fn law_every_removal_is_followed_by_a_check(
    candidates: Seq<CandidateView>,
    next: nat,
    reply: PruneReplyView,
)
    ensures
        !(prune_after(candidates, PrunePhase::Removing { next }, reply) is Removing),
{
}

// ---------------------------------------------------------------------------------------------
// What counts, and what is said
// ---------------------------------------------------------------------------------------------

/// A tag is that of a revision exactly where it is of twelve hexadecimal digits; an identifier is
/// that of an image exactly where something follows `sha256:`; a line is the identifier of a
/// container exactly where it is not empty and holds no white space.
pub proof fn law_names_are_recognized(text: Text)
    ensures
        is_revision_tag(text) <==> text.len() == 12 && forall|i: int|
            0 <= i < text.len() ==> ('0' <= #[trigger] text[i] <= '9' || 'a' <= text[i] <= 'f' || 'A'
                <= text[i] <= 'F'),
        is_image_id(text) <==> begins(text, "sha256:"@) && text.len() > "sha256:"@.len(),
        is_container_id(text) <==> text.len() > 0 && forall|i: int|
            0 <= i < text.len() ==> !is_space(#[trigger] text[i]),
{
    if is_revision_tag(text) {
        assert forall|i: int| 0 <= i < text.len() implies ('0' <= #[trigger] text[i] <= '9' || 'a'
            <= text[i] <= 'f' || 'A' <= text[i] <= 'F') by {
            assert(is_hex_digit(text[i]));
        }
    }
}

/// An image was inspected exactly where one image was found, with an identifier of an image and
/// with the reference among its tags.
pub proof fn law_inspections_are_unambiguous(reference: Text, images: Seq<InspectedView>)
    ensures
        inspected_of(reference, images) matches Ok(image) ==> images == seq![image],
        inspected_of(reference, images) is Ok <==> images.len() == 1 && begins(
            images[0].id,
            "sha256:"@,
        ) && images[0].id.len() > "sha256:"@.len() && images[0].repo_tags.contains(reference),
{
    if inspected_of(reference, images) is Ok {
        assert(images =~= seq![images[0]]);
    }
}

/// Whether a release records an image with its own tag for each of the services of a project, and
/// for nothing else.
pub open spec fn is_complete(release: ReleaseView, allowed: Seq<Text>) -> bool {
    &&& release.tag.len() > 0
    &&& release.services.len() == allowed.len()
    &&& forall|i: int|
        0 <= i < release.services.len() ==> {
            &&& exists|repository: Text| #[trigger]
                repository.len() > 0 && (#[trigger] release.services[i]).image == repository + ":"@
                    + release.tag
            &&& allowed.contains(release.services[i].name)
        }
    &&& forall|i: int, j: int|
        0 <= i < j < release.services.len() ==> (#[trigger] release.services[i]).name != (
        #[trigger] release.services[j]).name
    &&& !release.tag.contains(':')
}

proof fn lemma_services_fault(
    project: Text,
    allowed: Seq<Text>,
    release: ReleaseView,
    n: nat,
)
    requires
        n <= release.services.len(),
    ensures
        services_fault(project, allowed, release, n) is None <==> forall|i: int|
            0 <= i < n ==> #[trigger] service_fault(project, allowed, release, i) is None,
    decreases n,
{
    if n > 0 {
        lemma_services_fault(project, allowed, release, (n - 1) as nat);
    }
}

proof fn lemma_image_is_cut(image: Text, tag: Text)
    ensures
        (cut_last(image, ':') matches Some((repository, end)) && repository.len() > 0 && end == tag)
            <==> !tag.contains(':') && exists|repository: Text| #[trigger]
            repository.len() > 0 && image == repository + ":"@ + tag,
        cut_last(image, ':') matches Some((repository, end)) ==> image == repository + ":"@ + end,
{
    reveal_strlit(":");
    law_cut_at_the_last_separator(image, ':');
    if let Some((repository, end)) = cut_last(image, ':') {
        assert(repository.push(':') + end =~= repository + ":"@ + end);
        if repository.len() > 0 && end == tag {
            assert(image == repository + ":"@ + tag);
        }
    }
    if !tag.contains(':') && exists|repository: Text| #[trigger]
        repository.len() > 0 && image == repository + ":"@ + tag {
        let repository = choose|repository: Text| #[trigger]
            repository.len() > 0 && image == repository + ":"@ + tag;
        let at = repository.len() as int;
        assert(image[at] == ':');
        assert(image.contains(':'));
        let (other, end) = cut_last(image, ':')->0;
        let x = other.len() as int;
        assert(image[x] == ':');
        assert(image.len() == x + 1 + end.len());
        assert(image.len() == at + 1 + tag.len());
        if x < at {
            assert(end[at - x - 1] == image[at]);
            assert(end.contains(':'));
        } else if at < x {
            assert(tag[x - at - 1] == image[x]);
            assert(tag.contains(':'));
        }
        assert(other =~= image.take(x));
        assert(repository =~= image.take(at));
        assert(end =~= image.skip(x + 1));
        assert(tag =~= image.skip(at + 1));
    }
}

proof fn lemma_release_fault(project: Text, allowed: Seq<Text>, release: ReleaseView)
    ensures
        release_fault(project, allowed, release) is None ==> is_complete(release, allowed)
            || release.services.len() == 0,
        is_complete(release, allowed) ==> release_fault(project, allowed, release) is None,
{
    let services = release.services;
    lemma_services_fault(project, allowed, release, services.len());
    assert forall|i: int| 0 <= i < services.len() implies (#[trigger] service_fault(
        project,
        allowed,
        release,
        i,
    ) is None <==> !release.tag.contains(':') && (exists|repository: Text| #[trigger]
        repository.len() > 0 && services[i].image == repository + ":"@ + release.tag)
        && allowed.contains(services[i].name) && !named_before(services, i)) by {
        lemma_image_is_cut(services[i].image, release.tag);
    }
    if release_fault(project, allowed, release) is None && services.len() > 0 {
        assert(service_fault(project, allowed, release, 0) is None);
        assert forall|i: int| 0 <= i < services.len() implies (exists|repository: Text| #[trigger]
            repository.len() > 0 && (#[trigger] services[i]).image == repository + ":"@
                + release.tag) && allowed.contains(services[i].name) by {
            assert(service_fault(project, allowed, release, i) is None);
        }
        assert forall|i: int, j: int| 0 <= i < j < services.len() implies (
        #[trigger] services[i]).name != (#[trigger] services[j]).name by {
            assert(service_fault(project, allowed, release, j) is None);
        }
    }
    if is_complete(release, allowed) {
        assert forall|i: int| 0 <= i < services.len() implies #[trigger] service_fault(
            project,
            allowed,
            release,
            i,
        ) is None by {
            assert(allowed.contains(services[i].name));
            if named_before(services, i) {
                let j = choose|j: int| 0 <= j < i && (#[trigger] services[j]).name
                    == services[i].name;
                assert(services[j].name != services[i].name);
            }
        }
    }
}

/// A project with services is accounted for exactly where its state is known, nothing is pending, a
/// current release is recorded, and that and the previous, where there is one, are complete.
pub proof fn law_only_complete_records_account(name: Text, allowed: Seq<Text>, state: StateView)
    requires
        allowed.len() > 0,
    ensures
        inventory_of(name, allowed, None) is Err,
        inventory_of(name, allowed, Some(state)) is Ok <==> {
            &&& state.pending is None
            &&& state.current matches Some(current) && is_complete(current, allowed)
            &&& state.previous matches Some(previous) ==> is_complete(previous, allowed)
        },
        inventory_of(name, allowed, Some(state)) matches Ok(inventory) ==> inventory.name == name,
{
    if let Some(current) = state.current {
        lemma_release_fault(name, allowed, current);
    }
    if let Some(previous) = state.previous {
        lemma_release_fault(name, allowed, previous);
    }
}

proof fn lemma_images_held(
    entries: Seq<(Text, ())>,
    services: Seq<ServiceView>,
    reference: Text,
)
    requires
        strictly_ordered(entries),
    ensures
        strictly_ordered(with_images(entries, services)),
        holds(with_images(entries, services), reference) <==> holds(entries, reference) || exists|
            i: int,
        |
            0 <= i < services.len() && (#[trigger] services[i]).image == reference,
        strictly_ordered(with_repositories(entries, services)),
        holds(with_repositories(entries, services), reference) <==> holds(entries, reference)
            || exists|i: int|
            0 <= i < services.len() && repository_of((#[trigger] services[i]).image) == reference,
    decreases services.len(),
{
    if services.len() > 0 {
        let shorter = services.drop_last();
        let last = services.last();
        lemma_images_held(entries, shorter, reference);
        let a = with_images(entries, shorter);
        let b = with_repositories(entries, shorter);
        lemma_put_ordered(a, last.image, ());
        lemma_put_ordered(b, repository_of(last.image), ());
        law_put_then_lookup(a, last.image, (), reference);
        law_put_then_lookup(b, repository_of(last.image), (), reference);
        assert(services[services.len() - 1] == last);
        if exists|i: int| 0 <= i < shorter.len() && (#[trigger] shorter[i]).image == reference {
            let i = choose|i: int|
                0 <= i < shorter.len() && (#[trigger] shorter[i]).image == reference;
            assert(services[i].image == reference);
        }
        if exists|i: int|
            0 <= i < shorter.len() && repository_of((#[trigger] shorter[i]).image) == reference {
            let i = choose|i: int|
                0 <= i < shorter.len() && repository_of((#[trigger] shorter[i]).image)
                    == reference;
            assert(repository_of(services[i].image) == reference);
        }
        if exists|i: int| 0 <= i < services.len() && (#[trigger] services[i]).image == reference {
            let i = choose|i: int|
                0 <= i < services.len() && (#[trigger] services[i]).image == reference;
            if i < shorter.len() {
                assert(shorter[i].image == reference);
            }
        }
        if exists|i: int|
            0 <= i < services.len() && repository_of((#[trigger] services[i]).image) == reference {
            let i = choose|i: int|
                0 <= i < services.len() && repository_of((#[trigger] services[i]).image)
                    == reference;
            if i < shorter.len() {
                assert(repository_of(shorter[i].image) == reference);
            }
        }
    }
}

/// The services that a release records, where there is one.
pub open spec fn recorded(release: Option<ReleaseView>) -> Seq<ServiceView> {
    match release {
        Some(release) => release.services,
        None => Seq::empty(),
    }
}

/// An inventory keeps exactly the images that the current and the previous release record, and the
/// project owns exactly their repositories: what stands before the last colon of an image.
pub proof fn law_only_recorded_images_are_kept(
    name: Text,
    allowed: Seq<Text>,
    state: StateView,
    text: Text,
)
    requires
        inventory_of(name, allowed, Some(state)) is Ok,
    ensures
        ({
            let inventory = inventory_of(name, allowed, Some(state))->Ok_0;
            let current = recorded(state.current);
            let previous = recorded(state.previous);
            &&& holds(inventory.kept, text) <==> (exists|i: int|
                0 <= i < current.len() && (#[trigger] current[i]).image == text) || (exists|i: int|
                0 <= i < previous.len() && (#[trigger] previous[i]).image == text)
            &&& holds(inventory.repositories, text) <==> (exists|i: int|
                0 <= i < current.len() && is_repository_of(text, (#[trigger] current[i]).image))
                || (exists|i: int|
                0 <= i < previous.len() && is_repository_of(text, (#[trigger] previous[i]).image))
            &&& inventory.running.len() == 0 && inventory.candidates.len() == 0
        }),
{
    let none = Seq::<(Text, ())>::empty();
    let current = recorded(state.current);
    let previous = recorded(state.previous);
    assert(!holds(none, text));
    lemma_images_held(none, current, text);
    lemma_images_held(with_images(none, current), previous, text);
    lemma_images_held(with_repositories(none, current), previous, text);
    assert forall|image: Text|
        #![trigger repository_of(image)]
        #![trigger is_repository_of(text, image)]
        repository_of(image) == text <==> is_repository_of(text, image) by {
        lemma_repository(text, image);
    }
    let inventory = inventory_of(name, allowed, Some(state))->Ok_0;
    let kept = with_images(with_images(none, current), previous);
    let owned = with_repositories(with_repositories(none, current), previous);
    assert(inventory.kept == kept);
    assert(inventory.repositories == owned);
    assert(holds(kept, text) <==> (exists|i: int|
        0 <= i < current.len() && (#[trigger] current[i]).image == text) || (exists|i: int|
        0 <= i < previous.len() && (#[trigger] previous[i]).image == text));
    if holds(owned, text) {
        if exists|i: int|
            0 <= i < current.len() && repository_of((#[trigger] current[i]).image) == text {
            let i = choose|i: int|
                0 <= i < current.len() && repository_of((#[trigger] current[i]).image) == text;
            assert(is_repository_of(text, current[i].image));
        } else {
            let i = choose|i: int|
                0 <= i < previous.len() && repository_of((#[trigger] previous[i]).image) == text;
            assert(is_repository_of(text, previous[i].image));
        }
    }
    if exists|i: int|
        0 <= i < current.len() && is_repository_of(text, (#[trigger] current[i]).image) {
        let i = choose|i: int|
            0 <= i < current.len() && is_repository_of(text, (#[trigger] current[i]).image);
        assert(repository_of(current[i].image) == text);
        assert(holds(with_repositories(none, current), text));
    }
    if exists|i: int|
        0 <= i < previous.len() && is_repository_of(text, (#[trigger] previous[i]).image) {
        let i = choose|i: int|
            0 <= i < previous.len() && is_repository_of(text, (#[trigger] previous[i]).image);
        assert(repository_of(previous[i].image) == text);
    }
}

/// Whether a piece of text is what stands before the last colon of an image, or all of it where it
/// has none.
pub open spec fn is_repository_of(repository: Text, image: Text) -> bool {
    ||| !image.contains(':') && repository == image
    ||| exists|tag: Text| !(#[trigger] tag.contains(':')) && image == repository + ":"@ + tag
}

proof fn lemma_repository(repository: Text, image: Text)
    ensures
        repository_of(image) == repository <==> is_repository_of(repository, image),
{
    reveal_strlit(":");
    law_cut_at_the_last_separator(image, ':');
    match cut_last(image, ':') {
        Some((start, end)) => {
            assert(start.push(':') + end =~= start + ":"@ + end);
            assert(image[start.len() as int] == ':');
            if start == repository {
                assert(!end.contains(':'));
                assert(image == repository + ":"@ + end);
            }
            if exists|tag: Text| !(#[trigger] tag.contains(':')) && image == repository + ":"@ + tag {
                let tag = choose|tag: Text|
                    !(#[trigger] tag.contains(':')) && image == repository + ":"@ + tag;
                let at = repository.len() as int;
                let x = start.len() as int;
                assert(image[at] == ':');
                if x < at {
                    assert(end[at - x - 1] == image[at]);
                    assert(end.contains(':'));
                } else if at < x {
                    assert(tag[x - at - 1] == image[x]);
                    assert(tag.contains(':'));
                }
                assert(start =~= image.take(x));
                assert(repository =~= image.take(at));
            }
        },
        None => {
            if exists|tag: Text| !(#[trigger] tag.contains(':')) && image == repository + ":"@ + tag {
                let tag = choose|tag: Text|
                    !(#[trigger] tag.contains(':')) && image == repository + ":"@ + tag;
                assert(image[repository.len() as int] == ':');
            }
        },
    }
}

/// An image that a container runs is kept and never becomes a candidate; any other becomes one
/// under its reference, with its identifier and size.
pub proof fn law_running_images_are_no_candidates(
    inventory: InventoryView,
    reference: Text,
    image: InspectedView,
    running: Seq<Text>,
)
    ensures
        ({
            let after = placed(inventory, reference, image, running);
            &&& running.contains(image.id) ==> after.candidates == inventory.candidates
                && after.running == inventory.running.push(reference)
            &&& !running.contains(image.id) ==> after.running == inventory.running
                && after.candidates == inventory.candidates.push(
                CandidateView { reference, id: image.id, size: image.size },
            )
            &&& after.name == inventory.name && after.kept == inventory.kept && after.repositories
                == inventory.repositories
        }),
{
}

/// What can be reclaimed is the sum of the sizes of the candidates, as far as it can be counted.
pub proof fn law_reclaimable_is_the_sum(
    candidates: Seq<CandidateView>,
    more: CandidateView,
)
    ensures
        reclaimable(Seq::empty()) == 0,
        reclaimable(candidates) + more.size <= u64::MAX ==> reclaimable(candidates.push(more))
            == reclaimable(candidates) + more.size,
        reclaimable(candidates) + more.size > u64::MAX ==> reclaimable(candidates.push(more))
            == u64::MAX,
{
    assert(candidates.push(more).drop_last() =~= candidates);
}

/// The report on a project shows what is kept and why, and each candidate with its size.
pub proof fn law_inventories_show_what_they_hold(inventory: InventoryView, i: int)
    ensures
        ({
            let lines = inventory_lines(inventory);
            &&& lines.len() == inventory.kept.len() + inventory.running.len()
                + inventory.candidates.len() + 2
            &&& lines[0] == "Project: "@ + inventory.name
            &&& 0 <= i < inventory.kept.len() ==> lines[1 + i] == "  keep "@ + inventory.kept[i].0
            &&& 0 <= i < inventory.running.len() ==> lines[1 + inventory.kept.len() + i]
                == "  keep "@ + inventory.running[i] + " (running container)"@
            &&& 0 <= i < inventory.candidates.len() ==> lines[1 + inventory.kept.len()
                + inventory.running.len() + i] == "  candidate "@
                + inventory.candidates[i].reference + " ("@ + decimal(
                inventory.candidates[i].size as nat,
            ) + " bytes)"@
            &&& begins(
                lines.last(),
                "  reclaimable: "@ + decimal(reclaimable(inventory.candidates)),
            )
        }),
{
    let lines = inventory_lines(inventory);
    let start = "  reclaimable: "@ + decimal(reclaimable(inventory.candidates));
    assert(lines.last().take(start.len() as int) =~= start);
}

/// Whether a removal was told of a candidate that it is gone, or that a container runs its image.
pub open spec fn is_dealt_with(
    candidates: Seq<CandidateView>,
    start: PrunePhase,
    replies: Seq<PruneReplyView>,
    i: int,
) -> bool {
    exists|k: int|
        0 <= k < replies.len() && {
            let phase = prune_run(candidates, start, #[trigger] replies.take(k));
            ||| prune_awaited(candidates, phase) == PruneActionView::Remove(candidates[i].reference)
                && replies[k] is Removed
            ||| prune_awaited(candidates, phase) is ListRunning && (
            replies[k] matches PruneReplyView::Running(ids) && ids.contains(candidates[i].id))
        }
}

proof fn lemma_dealt_with(
    candidates: Seq<CandidateView>,
    start: PrunePhase,
    replies: Seq<PruneReplyView>,
    i: int,
)
    requires
        replies.len() > 0,
        0 <= i < candidates.len(),
    ensures
        is_dealt_with(candidates, start, replies.drop_last(), i) ==> is_dealt_with(
            candidates,
            start,
            replies,
            i,
        ),
        ({
            let phase = prune_run(candidates, start, replies.drop_last());
            ||| prune_awaited(candidates, phase) == PruneActionView::Remove(candidates[i].reference)
                && replies.last() is Removed
            ||| prune_awaited(candidates, phase) is ListRunning && (
            replies.last() matches PruneReplyView::Running(ids) && ids.contains(candidates[i].id))
        }) ==> is_dealt_with(candidates, start, replies, i),
{
    let shorter = replies.drop_last();
    if is_dealt_with(candidates, start, shorter, i) {
        let k = choose|k: int|
            0 <= k < shorter.len() && {
                let phase = prune_run(candidates, start, #[trigger] shorter.take(k));
                ||| prune_awaited(candidates, phase) == PruneActionView::Remove(
                    candidates[i].reference,
                ) && shorter[k] is Removed
                ||| prune_awaited(candidates, phase) is ListRunning && (
                shorter[k] matches PruneReplyView::Running(ids) && ids.contains(candidates[i].id))
            };
        assert(shorter.take(k) =~= replies.take(k));
        assert(replies[k] == shorter[k]);
    }
    assert(replies.take(replies.len() - 1) =~= shorter);
    assert(replies[replies.len() - 1] == replies.last());
}

proof fn lemma_prune_order(candidates: Seq<CandidateView>, replies: Seq<PruneReplyView>)
    ensures
        ({
            let start = turn_of(candidates, 0);
            match prune_run(candidates, start, replies) {
                PrunePhase::Checking { next } => next < candidates.len() && forall|i: int|
                    0 <= i < next ==> #[trigger] is_dealt_with(candidates, start, replies, i),
                PrunePhase::Removing { next } => next < candidates.len() && forall|i: int|
                    0 <= i < next ==> #[trigger] is_dealt_with(candidates, start, replies, i),
                PrunePhase::Ended { outcome } => outcome is None ==> forall|i: int|
                    0 <= i < candidates.len() ==> #[trigger] is_dealt_with(
                        candidates,
                        start,
                        replies,
                        i,
                    ),
            }
        }),
    decreases replies.len(),
{
    let start = turn_of(candidates, 0);
    if replies.len() > 0 {
        lemma_prune_order(candidates, replies.drop_last());
        assert forall|i: int|
            0 <= i < candidates.len() && is_dealt_with(
                candidates,
                start,
                replies.drop_last(),
                i,
            ) implies #[trigger] is_dealt_with(candidates, start, replies, i) by {
            lemma_dealt_with(candidates, start, replies, i);
        }
        match prune_run(candidates, start, replies.drop_last()) {
            PrunePhase::Checking { next } => {
                lemma_dealt_with(candidates, start, replies, next as int);
            },
            PrunePhase::Removing { next } => {
                lemma_dealt_with(candidates, start, replies, next as int);
            },
            _ => {},
        }
    }
}

/// A removal that ends well has removed every candidate, but for those whose image a container was
/// found to run.
pub proof fn law_every_candidate_is_dealt_with(
    candidates: Seq<CandidateView>,
    replies: Seq<PruneReplyView>,
    i: int,
)
    requires
        0 <= i < candidates.len(),
        prune_run(candidates, turn_of(candidates, 0), replies) == (PrunePhase::Ended {
            outcome: None,
        }),
    ensures
        is_dealt_with(candidates, turn_of(candidates, 0), replies, i),
{
    lemma_prune_order(candidates, replies);
}

/// A removal that is confirmed and not blocked begins with a look at what runs, and a failure ends
/// it with that failure.
pub proof fn law_removals_begin_and_fail_openly(
    candidates: Seq<CandidateView>,
    blocked: Text,
    phase: PrunePhase,
    error: ErrorView,
)
    ensures
        candidates.len() > 0 ==> prune_awaited(
            candidates,
            beginning(Seq::empty(), true, candidates),
        ) is ListRunning,
        candidates.len() == 0 ==> beginning(Seq::empty(), true, candidates) == (PrunePhase::Ended {
            outcome: None,
        }),
        beginning(seq![blocked], true, candidates) matches PrunePhase::Ended { outcome: Some(_) },
        beginning(seq![blocked], false, candidates) matches PrunePhase::Ended { outcome: Some(_) },
        !(phase is Ended) ==> prune_after(candidates, phase, PruneReplyView::Failed(error)) == (
        PrunePhase::Ended { outcome: Some(error) }),
{
}

/// What is said of a step tells of its own candidate: that its image is kept where a container runs
/// it, and that it is gone where it was removed.
pub proof fn law_steps_tell_of_their_candidate(
    candidates: Seq<CandidateView>,
    next: nat,
    ids: Seq<Text>,
)
    requires
        next < candidates.len(),
    ensures
        prune_said(
            candidates,
            PrunePhase::Removing { next },
            PruneReplyView::Removed,
        ) == Some("  removed "@ + candidates[next as int].reference),
        ids.contains(candidates[next as int].id) ==> prune_said(
            candidates,
            PrunePhase::Checking { next },
            PruneReplyView::Running(ids),
        ) == Some("  keep "@ + candidates[next as int].reference + " (running container)"@),
        !ids.contains(candidates[next as int].id) ==> prune_said(
            candidates,
            PrunePhase::Checking { next },
            PruneReplyView::Running(ids),
        ) is None,
{
}

/// A repository belongs to the first project that owns it, and a tag of a revision that no project
/// keeps is looked at for that project, unless it is a candidate already.
pub proof fn law_images_belong_to_the_first_owner(
    inventories: Seq<InventoryView>,
    repository: Text,
    tag: Text,
    i: int,
)
    requires
        0 <= i < inventories.len(),
        holds(inventories[i].repositories, repository),
        forall|j: int|
            0 <= j < i ==> !holds((#[trigger] inventories[j]).repositories, repository),
    ensures
        owner_from(inventories, repository, 0) == Some(i as nat),
        is_revision_tag(tag) && (forall|j: int|
            0 <= j < inventories.len() ==> !holds(
                (#[trigger] inventories[j]).kept,
                repository + ":"@ + tag,
            )) && (forall|j: int|
            0 <= j < inventories[i].candidates.len() ==> (
            #[trigger] inventories[i].candidates[j]).reference != repository + ":"@ + tag)
            ==> to_inspect(inventories, repository, tag) == Some(i as nat),
        !is_revision_tag(tag) ==> to_inspect(inventories, repository, tag) is None,
{
    lemma_first_owner(inventories, repository, 0, i as nat);
}

proof fn lemma_first_owner(
    inventories: Seq<InventoryView>,
    repository: Text,
    at: nat,
    i: nat,
)
    requires
        at <= i < inventories.len(),
        holds(inventories[i as int].repositories, repository),
        forall|j: int|
            0 <= j < i ==> !holds((#[trigger] inventories[j]).repositories, repository),
    ensures
        owner_from(inventories, repository, at) == Some(i),
    decreases i - at,
{
    if at < i {
        assert(!holds(inventories[at as int].repositories, repository));
        lemma_first_owner(inventories, repository, at + 1, i);
    }
}

/// Without a confirmation it is said that nothing is removed, and with one nothing is said.
pub proof fn law_simulations_are_called_so(confirmed: bool, r: Option<String>)
    requires
        call_ensures(simulation, (confirmed,), r),
    ensures
        r is None <==> confirmed,
        !confirmed ==> r.deep_view() == Some(
            "Simulation only; run yard images --prune --yes to remove candidates."@,
        ),
{
}

} // verus!
