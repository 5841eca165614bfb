use yard::cli::Command;
use yard::error::YardError;
use yard::images::{
    blocked_line, check_blocked, check_container, check_running_image, container_image,
    container_list, describe, image_list, image_remove, inspected, take_inventory, valid_id,
    yard_tag, Candidate, InspectedImage, Inventory, ListedImage, ListedRow, Prune, PruneAction,
    PruneReply, simulation, Survey,
};
use yard::state::{ProjectState, Release, ReleaseService};

fn release(image: &str, tag: &str) -> Release {
    Release {
        revision: tag.to_owned(),
        tag: tag.to_owned(),
        deployed_at_unix: 1,
        services: vec![ReleaseService { name: "api".to_owned(), image: format!("{image}:{tag}") }],
        status: "active".to_owned(),
    }
}

fn state(current: Option<Release>, previous: Option<Release>) -> ProjectState {
    ProjectState { current, previous, ..ProjectState::default() }
}

fn allowed() -> Vec<String> {
    vec!["api".to_owned()]
}

fn inventories() -> Vec<Inventory> {
    let demo = state(
        Some(release("demo-api", "aaaaaaaaaaaa")),
        Some(release("demo-api", "bbbbbbbbbbbb")),
    );
    let other = state(Some(release("other-api", "cccccccccccc")), None);
    vec![
        take_inventory("demo", &allowed(), Some(&demo)).unwrap(),
        take_inventory("other", &allowed(), Some(&other)).unwrap(),
    ]
}

fn inspect(reference: &str) -> Vec<InspectedImage> {
    let id = format!("sha256:{}", reference.replace(':', "-"));
    vec![InspectedImage { id, size: 1024, repo_tags: vec![reference.to_owned()] }]
}

fn row(repository: &str, tag: &str) -> ListedRow {
    ListedRow::Image(ListedImage { repository: repository.to_owned(), tag: tag.to_owned() })
}

fn rows() -> Vec<ListedRow> {
    vec![
        row("demo-api", "aaaaaaaaaaaa"),
        row("demo-api", "bbbbbbbbbbbb"),
        row("demo-api", "cccccccccccc"),
        row("demo-api", "dddddddddddd"),
        row("demo-api", "dddddddddddd"),
        row("demo-api", "latest"),
        row("other-api", "cccccccccccc"),
        row("foreign", "cccccccccccc"),
    ]
}

fn survey(running: &[&str]) -> Vec<Inventory> {
    let running: Vec<String> = running.iter().map(|id| (*id).to_owned()).collect();
    let mut survey = Survey::start(inventories(), running, rows());
    while let Some(reference) = survey.wanted() {
        survey = survey.step(inspect(&reference)).unwrap();
    }
    survey.finish().unwrap()
}

#[test]
fn a_row_that_cannot_be_read_ends_the_survey() {
    let mut listing = rows();
    listing.insert(3, ListedRow::Unreadable("expected value".to_owned()));
    let mut survey = Survey::start(inventories(), Vec::new(), listing);
    assert_eq!(survey.wanted().as_deref(), Some("demo-api:cccccccccccc"));
    survey = survey.step(inspect("demo-api:cccccccccccc")).unwrap();
    assert_eq!(survey.wanted(), None);
    let message = survey.finish().unwrap_err().message();
    assert!(message.contains("refus") && message.contains("expected value"), "{message}");
    let survey = Survey::start(inventories(), Vec::new(), rows());
    assert!(survey.step(Vec::new()).unwrap_err().message().contains("refus"));
}

fn shown(inventories: &[Inventory]) -> String {
    inventories.iter().flat_map(describe).collect::<Vec<_>>().join("\n")
}

#[test]
fn inventory_keeps_both_releases_and_never_claims_foreign_images() {
    let text = shown(&survey(&[]));
    assert_eq!(
        text,
        "Project: demo\n  keep demo-api:aaaaaaaaaaaa\n  keep demo-api:bbbbbbbbbbbb\n  candidate demo-api:cccccccccccc (1024 bytes)\n  candidate demo-api:dddddddddddd (1024 bytes)\n  reclaimable: 2048 bytes (estimate; shared layers may reduce savings)\nProject: other\n  keep other-api:cccccccccccc\n  reclaimable: 0 bytes (estimate; shared layers may reduce savings)"
    );
}

fn prune(candidates: &Vec<Candidate>, running: &[Vec<String>], fail: bool) -> (Vec<String>, Vec<String>, bool) {
    let yes = Command::Images { prune: true, yes: true };
    remove(&Vec::new(), &yes, candidates, running, fail)
}

fn remove(
    blocked: &Vec<String>,
    command: &Command,
    candidates: &Vec<Candidate>,
    running: &[Vec<String>],
    fail: bool,
) -> (Vec<String>, Vec<String>, bool) {
    let mut machine = Prune::begin(blocked, command.removes_images(), candidates);
    let (mut removed, mut printed) = (Vec::new(), Vec::new());
    let mut checks = running.iter();
    loop {
        let reply = match machine.action(candidates) {
            PruneAction::ListRunning => {
                PruneReply::Running(checks.next().cloned().unwrap_or_default())
            }
            PruneAction::Remove(reference) => {
                removed.push(reference);
                if fail {
                    PruneReply::Failed(YardError::Config("refused".to_owned()))
                } else {
                    PruneReply::Removed
                }
            }
            PruneAction::Finish => match machine {
                Prune::Ended { result } => return (removed, printed, result.is_ok()),
                _ => unreachable!(),
            },
        };
        printed.extend(machine.announce(candidates, &reply));
        machine = machine.step(candidates, reply);
    }
}

#[test]
fn prune_requires_both_flags_and_only_removes_candidates() {
    let inventories = survey(&[]);
    for (prune, yes) in [(false, false), (true, false), (false, true)] {
        let command = Command::Images { prune, yes };
        let (removed, printed, ok) =
            remove(&Vec::new(), &command, &inventories[0].candidates, &[], false);
        assert!(ok && removed.is_empty() && printed.is_empty());
        assert!(simulation(command.removes_images()).unwrap().starts_with("Simulation only;"));
    }
    assert_eq!(simulation(true), None);
    let (removed, printed, ok) = prune(&inventories[0].candidates, &[], false);
    assert!(ok);
    assert_eq!(removed, ["demo-api:cccccccccccc", "demo-api:dddddddddddd"]);
    assert_eq!(
        printed,
        ["  removed demo-api:cccccccccccc", "  removed demo-api:dddddddddddd"]
    );
    let (removed, _, ok) = prune(&inventories[1].candidates, &[], false);
    assert!(ok && removed.is_empty());
}

#[test]
fn running_image_is_never_removed_even_when_confirmed() {
    let inventories = survey(&["sha256:demo-api-cccccccccccc"]);
    assert!(shown(&inventories).contains("  keep demo-api:cccccccccccc (running container)"));
    let (removed, _, ok) = prune(&inventories[0].candidates, &[], false);
    assert!(ok);
    assert_eq!(removed, ["demo-api:dddddddddddd"]);
}

#[test]
fn container_starting_after_inventory_prevents_removal() {
    let inventories = survey(&[]);
    let late = vec![vec!["sha256:demo-api-cccccccccccc".to_owned()]];
    let (removed, printed, ok) = prune(&inventories[0].candidates, &late, false);
    assert!(ok);
    assert_eq!(removed, ["demo-api:dddddddddddd"]);
    assert_eq!(printed[0], "  keep demo-api:cccccccccccc (running container)");
}

#[test]
fn invalid_state_or_inspection_blocks_all_deletion() {
    let error = YardError::Json("expected value".to_owned());
    let blocked = vec![blocked_line("other", &error)];
    assert_eq!(blocked[0], "other : invalid state file: expected value");
    assert!(check_blocked(&blocked).unwrap_err().message().contains("refus"));
    assert!(check_blocked(&Vec::new()).is_ok());
    let command = Command::Images { prune: true, yes: true };
    let candidates = &survey(&[])[0].candidates;
    let (removed, _, ok) = remove(&blocked, &command, candidates, &[], false);
    assert!(!ok && removed.is_empty());
    let reference = "demo-api:cccccccccccc";
    let image = |id: &str, tag: &str| InspectedImage {
        id: id.to_owned(),
        size: 1,
        repo_tags: vec![tag.to_owned()],
    };
    for images in [
        Vec::new(),
        vec![image("sha256:a", reference), image("sha256:b", reference)],
        vec![image("a", reference)],
        vec![image("sha256:", reference)],
        vec![image("sha256:a", "demo-api:other")],
    ] {
        assert!(inspected(reference, images).unwrap_err().message().contains("refus"));
    }
    assert!(check_container("container1").is_ok());
    for line in ["", " a", "a b", "a\tb"] {
        assert!(check_container(line).unwrap_err().message().contains("refus"));
    }
    assert!(check_running_image("sha256:a").is_ok());
    assert!(check_running_image("").is_err());
}

#[test]
fn docker_removal_error_stops_before_next_candidate() {
    let inventories = survey(&[]);
    let (removed, printed, ok) = prune(&inventories[0].candidates, &[], true);
    assert!(!ok);
    assert_eq!(removed, ["demo-api:cccccccccccc"]);
    assert!(printed.is_empty());
}

#[test]
fn incomplete_release_or_pending_deploy_blocks_prune() {
    let mut bare = release("demo-api", "aaaaaaaaaaaa");
    bare.services.clear();
    let mut pending = state(Some(release("demo-api", "aaaaaaaaaaaa")), None);
    pending.pending = Some(release("demo-api", "dddddddddddd"));
    let mut wrong = release("demo-api", "aaaaaaaaaaaa");
    wrong.services[0].image = "demo-api:bbbbbbbbbbbb".to_owned();
    for state in [state(Some(bare), None), pending, state(None, None), state(Some(wrong), None)] {
        let error = take_inventory("demo", &allowed(), Some(&state)).unwrap_err();
        assert!(error.message().contains("refus"), "{}", error.message());
    }
    assert!(take_inventory("demo", &allowed(), None).is_err());
}

#[test]
fn tags_and_identifiers_are_recognized() {
    assert!(yard_tag("0123456789aB"));
    assert!(!yard_tag("0123456789a"));
    assert!(!yard_tag("0123456789ag"));
    assert!(valid_id("sha256:x"));
    assert!(!valid_id("sha256:"));
    assert_eq!(container_list(), ["container", "ls", "-q", "--no-trunc"]);
    assert_eq!(
        container_image("c"),
        ["container", "inspect", "--format", "{{.Image}}", "c"]
    );
    assert_eq!(image_list(), ["image", "ls", "--format", "{{json .}}"]);
    assert_eq!(image_remove("a:b"), ["image", "rm", "a:b"]);
}
