use yard::atomic_file::{temporary_name, AtomicWrite, WriteAction, WriteReply};
use yard::copies::{Copies, CopyAction, CopyReply, Part};
use yard::error::YardError;

fn failure() -> YardError {
    YardError::Io("disk full".to_owned())
}

/// Replaces a file; `reply` gives the outcome of each step.
fn replace(reply: impl Fn(WriteAction, usize) -> WriteReply) -> (Vec<WriteAction>, Result<(), String>) {
    let mut machine = AtomicWrite::start();
    let mut steps = Vec::new();
    loop {
        let action = machine.action();
        if action == WriteAction::Finish {
            match machine {
                AtomicWrite::Ended { result } => {
                    return (steps, result.map_err(|error| error.message()))
                }
                _ => unreachable!(),
            }
        }
        let outcome = reply(action, steps.len());
        steps.push(action);
        machine = machine.step("/state/demo.json", outcome);
    }
}

#[test]
fn a_new_file_is_private_and_put_in_place_at_the_end() {
    let (steps, result) = replace(|action, _| match action {
        WriteAction::Inspect => WriteReply::Absent,
        _ => WriteReply::Done,
    });
    assert_eq!(result, Ok(()));
    assert_eq!(
        steps,
        [
            WriteAction::Inspect,
            WriteAction::Name,
            WriteAction::Create,
            WriteAction::Fill,
            WriteAction::Permit { keep: false },
            WriteAction::Flush,
            WriteAction::Rename,
            WriteAction::FlushDirectory,
        ]
    );
}

#[test]
fn existing_mode_is_preserved() {
    let (steps, result) = replace(|action, _| match action {
        WriteAction::Inspect => WriteReply::Present,
        _ => WriteReply::Done,
    });
    assert_eq!(result, Ok(()));
    assert!(steps.contains(&WriteAction::Permit { keep: true }));
}

#[test]
fn a_taken_name_is_never_written_to() {
    let (steps, result) = replace(|action, at| match action {
        WriteAction::Inspect => WriteReply::Absent,
        WriteAction::Create if at < 3 => WriteReply::Taken,
        _ => WriteReply::Done,
    });
    assert_eq!(result, Ok(()));
    assert_eq!(steps[2..5], [WriteAction::Create, WriteAction::Name, WriteAction::Create]);
    let (steps, result) = replace(|action, _| match action {
        WriteAction::Inspect => WriteReply::Absent,
        WriteAction::Create => WriteReply::Taken,
        _ => WriteReply::Done,
    });
    assert_eq!(result, Err("I/O error: unable to allocate temporary file".to_owned()));
    assert_eq!(steps.iter().filter(|step| **step == WriteAction::Create).count(), 8);
    assert!(!steps.contains(&WriteAction::Fill));
}

#[test]
fn failed_rename_cleans_its_temporary_file() {
    for failing in [WriteAction::Fill, WriteAction::Permit { keep: false }, WriteAction::Flush, WriteAction::Rename] {
        let (steps, result) = replace(|action, _| match action {
            WriteAction::Inspect => WriteReply::Absent,
            action if action == failing => WriteReply::Failed(failure()),
            _ => WriteReply::Done,
        });
        assert_eq!(result, Err("I/O error: disk full".to_owned()));
        assert_eq!(steps.last(), Some(&WriteAction::Discard));
    }
}

#[test]
fn symbolic_links_are_not_replaced() {
    let (steps, result) = replace(|_, _| WriteReply::Link);
    assert_eq!(steps, [WriteAction::Inspect]);
    assert_eq!(
        result,
        Err("configuration error: refusing symbolic link at /state/demo.json".to_owned())
    );
}

#[test]
fn temporary_names_stand_beside_the_file() {
    assert_eq!(temporary_name(Some("a.json"), &vec![0, 255, 16]), ".a.json.00ff10.tmp");
    assert_eq!(temporary_name(None, &vec![171]), ".yard.ab.tmp");
}

/// Runs two replacements of one file, step by step in the given order, over a folder in memory.
fn overlap(order: &[bool]) -> Vec<Option<String>> {
    let contents = ["first contents", "second contents"];
    let mut machines = [Some(AtomicWrite::start()), Some(AtomicWrite::start())];
    let mut names = [String::new(), String::new()];
    let mut temporaries: Vec<(String, String)> = Vec::new();
    let mut file: Option<String> = None;
    let mut seen = vec![file.clone()];
    for second in order {
        let who = usize::from(*second);
        let machine = machines[who].take().unwrap();
        let own = temporaries.iter().position(|(name, _)| *name == names[who]);
        let reply = match machine.action() {
            WriteAction::Inspect => match file {
                Some(_) => WriteReply::Present,
                None => WriteReply::Absent,
            },
            WriteAction::Name => {
                names[who] = temporary_name(Some("host.json"), &vec![who as u8]);
                WriteReply::Done
            }
            WriteAction::Create => match own {
                Some(_) => WriteReply::Taken,
                None => {
                    temporaries.push((names[who].clone(), "fir".to_owned()));
                    WriteReply::Done
                }
            },
            WriteAction::Fill => {
                temporaries[own.unwrap()].1 = contents[who].to_owned();
                WriteReply::Done
            }
            WriteAction::Rename => {
                file = Some(temporaries.remove(own.unwrap()).1);
                WriteReply::Done
            }
            _ => WriteReply::Done,
        };
        machines[who] = Some(machine.step("/state/host.json", reply));
        seen.push(file.clone());
    }
    for machine in machines {
        assert!(matches!(machine, Some(AtomicWrite::Ended { result: Ok(()) })));
    }
    assert!(temporaries.is_empty());
    seen
}

#[test]
fn overlapping_replacements_leave_one_whole_file() {
    let mut state: u64 = 7;
    for _ in 0..200 {
        let mut left = [8, 8];
        let mut order = Vec::new();
        while left != [0, 0] {
            state = state.wrapping_mul(6_364_136_223_846_793_005).wrapping_add(1);
            let mut who = usize::from(state >> 63 == 1);
            if left[who] == 0 {
                who = 1 - who;
            }
            left[who] -= 1;
            order.push(who == 1);
        }
        let seen = overlap(&order);
        for moment in &seen {
            let whole = [None, Some("first contents"), Some("second contents")];
            assert!(whole.contains(&moment.as_deref()));
        }
        assert!(seen.last().unwrap().is_some());
    }
}

fn copy(reply: impl Fn(CopyAction, usize) -> CopyReply) -> (Vec<CopyAction>, Result<(), String>) {
    let mut machine = Copies::start();
    let mut steps = Vec::new();
    loop {
        let action = machine.action();
        if action == CopyAction::Finish {
            return (steps, machine.result().map_err(|error| error.message()));
        }
        let outcome = reply(action, steps.len());
        steps.push(action);
        machine = machine.step("/state/demo.json", outcome);
    }
}

#[test]
fn both_files_are_read_before_either_is_copied() {
    let (steps, result) = copy(|_, _| CopyReply::Done);
    assert_eq!(result, Ok(()));
    assert_eq!(
        steps,
        [
            CopyAction::MakeDirectory,
            CopyAction::Inspect,
            CopyAction::Read(Part::State),
            CopyAction::Read(Part::Environment),
            CopyAction::Name,
            CopyAction::Create(Part::State),
            CopyAction::Fill(Part::State),
            CopyAction::Create(Part::Environment),
            CopyAction::Fill(Part::Environment),
            CopyAction::FlushDirectory,
        ]
    );
}

#[test]
fn copies_never_overwrite_and_give_up() {
    let (steps, result) = copy(|action, _| match action {
        CopyAction::Create(Part::State) => CopyReply::Taken,
        _ => CopyReply::Done,
    });
    assert_eq!(
        result,
        Err("configuration error: could not allocate a unique restore snapshot".to_owned())
    );
    assert_eq!(steps.iter().filter(|step| **step == CopyAction::Name).count(), 8);
    let (_, result) = copy(|action, _| match action {
        CopyAction::Inspect => CopyReply::Link,
        _ => CopyReply::Done,
    });
    assert_eq!(
        result,
        Err("configuration error: refusing symbolic link at /state/demo.json".to_owned())
    );
    let (steps, result) = copy(|action, _| match action {
        CopyAction::Create(Part::Environment) => CopyReply::Failed(failure()),
        _ => CopyReply::Done,
    });
    assert_eq!(result, Err("I/O error: disk full".to_owned()));
    assert_eq!(steps.last(), Some(&CopyAction::Create(Part::Environment)));
}
