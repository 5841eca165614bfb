//! Backing up a project: a local command, and a copy off site behind it.

use vstd::prelude::*;

use crate::command::add_word;
use crate::config::{BackupConfig, BackupView};
use crate::error::{error_of, ErrorView, YardError};
use crate::state::{AttemptView, BackupAttempt, BackupResult, ProjectState, StateView};
use crate::text::{copy_all, copy_option, Text};

verus! {

/// Where a backup stands.
#[derive(Debug)]
pub enum Backup {
    Running { state: ProjectState },
    Recording { state: ProjectState, result: Result<(), YardError> },
    Copying { state: ProjectState },
    RecordingCopy { state: ProjectState, result: Result<(), YardError> },
    Ended { state: ProjectState, result: Result<(), YardError> },
}

#[verifier::ext_equal]
pub enum BackupPhase {
    Running { state: StateView },
    Recording { state: StateView, outcome: Option<ErrorView> },
    Copying { state: StateView },
    RecordingCopy { state: StateView, outcome: Option<ErrorView> },
    Ended { state: StateView, outcome: Option<ErrorView> },
}

impl DeepView for Backup {
    type V = BackupPhase;

    open spec fn deep_view(&self) -> BackupPhase {
        match self {
            Backup::Running { state } => BackupPhase::Running { state: state.deep_view() },
            Backup::Recording { state, result } => BackupPhase::Recording {
                state: state.deep_view(),
                outcome: error_of(*result),
            },
            Backup::Copying { state } => BackupPhase::Copying { state: state.deep_view() },
            Backup::RecordingCopy { state, result } => BackupPhase::RecordingCopy {
                state: state.deep_view(),
                outcome: error_of(*result),
            },
            Backup::Ended { state, result } => BackupPhase::Ended {
                state: state.deep_view(),
                outcome: error_of(*result),
            },
        }
    }
}

/// What a backup asks for.
#[derive(Debug)]
pub enum BackupAction {
    /// Run a command, and tell when it began and how long it took.
    Run(Vec<String>),
    /// Replace the recorded state.
    Save(ProjectState),
    /// Nothing: the backup has ended.
    Finish,
}

#[verifier::ext_equal]
pub enum BackupActionView {
    Run(Seq<Text>),
    Save(StateView),
    Finish,
}

impl DeepView for BackupAction {
    type V = BackupActionView;

    open spec fn deep_view(&self) -> BackupActionView {
        match self {
            BackupAction::Run(command) => BackupActionView::Run(command.deep_view()),
            BackupAction::Save(state) => BackupActionView::Save(state.deep_view()),
            BackupAction::Finish => BackupActionView::Finish,
        }
    }
}

/// What came of it.
#[derive(Debug)]
pub enum BackupReply {
    Ran { started_at_unix: u64, duration_ms: u128, result: Result<(), YardError> },
    Saved,
    Failed(YardError),
}

#[verifier::ext_equal]
pub enum BackupReplyView {
    Ran { started_at_unix: u64, duration_ms: u128, outcome: Option<ErrorView> },
    Saved,
    Failed(ErrorView),
}

impl DeepView for BackupReply {
    type V = BackupReplyView;

    open spec fn deep_view(&self) -> BackupReplyView {
        match self {
            BackupReply::Ran { started_at_unix, duration_ms, result } => BackupReplyView::Ran {
                started_at_unix: *started_at_unix,
                duration_ms: *duration_ms,
                outcome: error_of(*result),
            },
            BackupReply::Saved => BackupReplyView::Saved,
            BackupReply::Failed(error) => BackupReplyView::Failed(error.deep_view()),
        }
    }
}

/// The record of a run of a command.
pub open spec fn attempt(
    started_at_unix: u64,
    duration_ms: u128,
    outcome: Option<ErrorView>,
    destination: Option<Text>,
) -> AttemptView {
    AttemptView {
        started_at_unix,
        duration_ms,
        result: if outcome is None {
            BackupResult::Success
        } else {
            BackupResult::Failure
        },
        destination,
    }
}

/// The failure behind a reply that is not the expected one.
pub open spec fn reply_failure(reply: BackupReplyView) -> ErrorView {
    match reply {
        BackupReplyView::Failed(error) => error,
        _ => ErrorView::Config("unexpected reply"@),
    }
}

/// Where the backup of a project begins. A project without a backup section has nothing to do;
/// otherwise the outcome of the last copy is dropped: a failed local attempt has no new copy.
pub open spec fn beginning(backup: Option<BackupView>, state: StateView) -> BackupPhase {
    match backup {
        Some(_) => BackupPhase::Running { state: StateView { last_offsite: None, ..state } },
        None => BackupPhase::Ended { state, outcome: None },
    }
}

/// What a backup waits for.
pub open spec fn awaited(backup: BackupView, phase: BackupPhase) -> BackupActionView {
    match phase {
        BackupPhase::Running { .. } => BackupActionView::Run(backup.command),
        BackupPhase::Recording { state, .. } => BackupActionView::Save(state),
        BackupPhase::Copying { .. } => match backup.offsite_command {
            Some(command) => BackupActionView::Run(command),
            None => BackupActionView::Finish,
        },
        BackupPhase::RecordingCopy { state, .. } => BackupActionView::Save(state),
        BackupPhase::Ended { .. } => BackupActionView::Finish,
    }
}

/// Where a backup stands after a reply.
pub open spec fn after(
    backup: BackupView,
    phase: BackupPhase,
    reply: BackupReplyView,
) -> BackupPhase {
    match phase {
        BackupPhase::Running { state } => match reply {
            BackupReplyView::Ran { started_at_unix, duration_ms, outcome } =>
            BackupPhase::Recording {
                state: StateView {
                    last_backup: Some(
                        attempt(started_at_unix, duration_ms, outcome, backup.directory),
                    ),
                    ..state
                },
                outcome,
            },
            _ => BackupPhase::Ended { state, outcome: Some(reply_failure(reply)) },
        },
        BackupPhase::Recording { state, outcome } => match reply {
            BackupReplyView::Saved => if outcome is None && backup.offsite_command is Some {
                BackupPhase::Copying { state }
            } else {
                BackupPhase::Ended { state, outcome }
            },
            _ => BackupPhase::Ended { state, outcome: Some(reply_failure(reply)) },
        },
        BackupPhase::Copying { state } => match reply {
            BackupReplyView::Ran { started_at_unix, duration_ms, outcome } =>
            BackupPhase::RecordingCopy {
                state: StateView {
                    last_offsite: Some(
                        attempt(
                            started_at_unix,
                            duration_ms,
                            outcome,
                            backup.offsite_destination,
                        ),
                    ),
                    ..state
                },
                outcome,
            },
            _ => BackupPhase::Ended { state, outcome: Some(reply_failure(reply)) },
        },
        BackupPhase::RecordingCopy { state, outcome } => match reply {
            BackupReplyView::Saved => BackupPhase::Ended {
                state,
                outcome: match outcome {
                    Some(error) => Some(ErrorView::Offsite(Box::new(error))),
                    None => None,
                },
            },
            _ => BackupPhase::Ended { state, outcome: Some(reply_failure(reply)) },
        },
        BackupPhase::Ended { .. } => phase,
    }
}

fn failure(reply: BackupReply) -> (r: YardError)
    ensures
        r.deep_view() == reply_failure(reply.deep_view()),
{
    match reply {
        BackupReply::Failed(error) => error,
        _ => YardError::Config("unexpected reply".to_owned()),
    }
}

fn record(
    started_at_unix: u64,
    duration_ms: u128,
    result: &Result<(), YardError>,
    destination: &Option<String>,
) -> (r: BackupAttempt)
    ensures
        r.deep_view() == attempt(
            started_at_unix,
            duration_ms,
            error_of(*result),
            destination.deep_view(),
        ),
{
    BackupAttempt {
        started_at_unix,
        duration_ms,
        result: match result {
            Ok(_) => BackupResult::Success,
            Err(_) => BackupResult::Failure,
        },
        destination: copy_option(destination),
    }
}

impl Backup {
    /// The backup of a project, which has not begun.
    pub fn start(backup: &Option<BackupConfig>, state: ProjectState) -> (r: Self)
        ensures
            r.deep_view() == beginning(backup.deep_view(), state.deep_view()),
    {
        match backup {
            Some(_) => {
                let mut state = state;
                state.last_offsite = None;
                Backup::Running { state }
            },
            None => Backup::Ended { state, result: Ok(()) },
        }
    }

    /// What the backup waits for.
    pub fn action(&self, backup: &BackupConfig) -> (r: BackupAction)
        ensures
            r.deep_view() == awaited(backup.deep_view(), self.deep_view()),
    {
        match self {
            Backup::Running { .. } => BackupAction::Run(copy_all(&backup.command)),
            Backup::Recording { state, .. } => BackupAction::Save(state.clone()),
            Backup::Copying { .. } => match &backup.offsite_command {
                Some(command) => BackupAction::Run(copy_all(command)),
                None => BackupAction::Finish,
            },
            Backup::RecordingCopy { state, .. } => BackupAction::Save(state.clone()),
            Backup::Ended { .. } => BackupAction::Finish,
        }
    }

    /// Goes on by what came of the action.
    pub fn step(self, backup: &BackupConfig, reply: BackupReply) -> (r: Self)
        ensures
            r.deep_view() == after(backup.deep_view(), self.deep_view(), reply.deep_view()),
    {
        match self {
            Backup::Running { state } => match reply {
                BackupReply::Ran { started_at_unix, duration_ms, result } => {
                    let mut state = state;
                    state.last_backup = Some(
                        record(started_at_unix, duration_ms, &result, &backup.directory),
                    );
                    Backup::Recording { state, result }
                },
                _ => Backup::Ended { state, result: Err(failure(reply)) },
            },
            Backup::Recording { state, result } => match reply {
                BackupReply::Saved => {
                    let succeeded = match &result {
                        Ok(_) => true,
                        Err(_) => false,
                    };
                    if succeeded && backup.offsite_command.is_some() {
                        Backup::Copying { state }
                    } else {
                        Backup::Ended { state, result }
                    }
                },
                _ => Backup::Ended { state, result: Err(failure(reply)) },
            },
            Backup::Copying { state } => match reply {
                BackupReply::Ran { started_at_unix, duration_ms, result } => {
                    let mut state = state;
                    state.last_offsite = Some(
                        record(started_at_unix, duration_ms, &result, &backup.offsite_destination),
                    );
                    Backup::RecordingCopy { state, result }
                },
                _ => Backup::Ended { state, result: Err(failure(reply)) },
            },
            Backup::RecordingCopy { state, result } => match reply {
                BackupReply::Saved => {
                    let result = match result {
                        Ok(()) => Ok(()),
                        Err(error) => Err(YardError::Offsite(Box::new(error))),
                    };
                    Backup::Ended { state, result }
                },
                _ => Backup::Ended { state, result: Err(failure(reply)) },
            },
            Backup::Ended { state, result } => Backup::Ended { state, result },
        }
    }
}

/// The program and the arguments of a command.
pub fn command_parts(command: &Vec<String>) -> (r: Result<(String, Vec<String>), YardError>)
    ensures
        match r {
            Ok((program, args)) => command@.len() > 0 && command.deep_view() == seq![program@]
                + args.deep_view(),
            Err(error) => command@.len() == 0 && error.deep_view() == ErrorView::Config(
                "backup command is empty"@,
            ),
        },
{
    if command.len() == 0 {
        return Err(YardError::Config("backup command is empty".to_owned()));
    }
    let ghost all = command.deep_view();
    let mut args: Vec<String> = Vec::new();
    let mut i: usize = 1;
    assert(args.deep_view() =~= all.subrange(1, 1));
    while i < command.len()
        invariant
            all == command.deep_view(),
            1 <= i <= command@.len(),
            args.deep_view() == all.subrange(1, i as int),
        decreases command@.len() - i,
    {
        add_word(&mut args, command[i].as_str());
        i = i + 1;
        assert(all.subrange(1, i as int) =~= all.subrange(1, i - 1).push(all[i - 1]));
    }
    assert(all =~= seq![all[0]] + all.subrange(1, i as int));
    Ok((command[0].clone(), args))
}

/// The refusal of a backup that is asked for where none is configured.
pub fn check_configured(name: &str, backup: &Option<BackupConfig>) -> (r: Result<(), YardError>)
    ensures
        error_of(r) == (match backup {
            Some(_) => None,
            None => Some(ErrorView::Config(name@ + " has no backup command configured"@)),
        }),
{
    match backup {
        Some(_) => Ok(()),
        None => {
            let mut message = name.to_owned();
            message.append(" has no backup command configured");
            Err(YardError::Config(message))
        },
    }
}

// ---------------------------------------------------------------------------------------------
// Laws
// ---------------------------------------------------------------------------------------------

/// Where a backup stands after replies.
pub open spec fn phase_after(
    backup: BackupView,
    state: StateView,
    replies: Seq<BackupReplyView>,
) -> BackupPhase
    decreases replies.len(),
{
    if replies.len() == 0 {
        beginning(Some(backup), state)
    } else {
        after(backup, phase_after(backup, state, replies.drop_last()), replies.last())
    }
}

/// The state that a phase carries.
pub open spec fn state_of(phase: BackupPhase) -> StateView {
    match phase {
        BackupPhase::Running { state } => state,
        BackupPhase::Recording { state, .. } => state,
        BackupPhase::Copying { state } => state,
        BackupPhase::RecordingCopy { state, .. } => state,
        BackupPhase::Ended { state, .. } => state,
    }
}

/// Whether the last recorded local backup succeeded.
pub open spec fn locally_backed_up(state: StateView) -> bool {
    state.last_backup matches Some(attempt) && attempt.result == BackupResult::Success
}

/// A backup never touches the recorded releases.
pub proof fn law_backup_leaves_releases(
    backup: BackupView,
    state: StateView,
    replies: Seq<BackupReplyView>,
)
    ensures
        ({
            let now = state_of(phase_after(backup, state, replies));
            now.current == state.current && now.previous == state.previous && now.pending
                == state.pending
        }),
    decreases replies.len(),
{
    if replies.len() > 0 {
        law_backup_leaves_releases(backup, state, replies.drop_last());
    }
}

/// The copy is made only behind a local backup that succeeded and was recorded, and whatever
/// becomes of the copy, the local backup stays recorded as a success. Until a copy has been made,
/// none is on record.
pub proof fn law_copy_follows_local_success(
    backup: BackupView,
    state: StateView,
    replies: Seq<BackupReplyView>,
)
    ensures
        match phase_after(backup, state, replies) {
            BackupPhase::Copying { state } => locally_backed_up(state) && state.last_offsite is None,
            BackupPhase::RecordingCopy { state, outcome } => {
                &&& locally_backed_up(state)
                &&& state.last_offsite matches Some(attempt) && (attempt.result
                    == BackupResult::Success <==> outcome is None)
            },
            BackupPhase::Running { state } => state.last_offsite is None,
            BackupPhase::Recording { state, outcome } => {
                &&& state.last_offsite is None
                &&& locally_backed_up(state) <==> outcome is None
            },
            BackupPhase::Ended { state, outcome } => {
                &&& state.last_offsite is Some ==> locally_backed_up(state)
                &&& outcome is None ==> locally_backed_up(state)
            },
        },
    decreases replies.len(),
{
    if replies.len() > 0 {
        law_copy_follows_local_success(backup, state, replies.drop_last());
    }
}

/// A failed local backup ends the procedure: the command for the copy is not run.
pub proof fn law_local_failure_skips_the_copy(
    backup: BackupView,
    state: StateView,
    error: ErrorView,
    reply: BackupReplyView,
)
    ensures
        after(backup, BackupPhase::Recording { state, outcome: Some(error) }, reply) is Ended,
{
}

/// A failed copy fails the backup, with a message of its own.
pub proof fn law_failed_copy_fails_the_backup(
    backup: BackupView,
    state: StateView,
    error: ErrorView,
)
    ensures
        after(
            backup,
            BackupPhase::RecordingCopy { state, outcome: Some(error) },
            BackupReplyView::Saved,
        ) == (BackupPhase::Ended { state, outcome: Some(ErrorView::Offsite(Box::new(error))) }),
{
}

/// What a backup is told of its local command is what it saves: when it started, how long it took,
/// a success exactly where no error came, and the configured directory. Nothing else changes. Behind
/// a success that was saved the command for the copy is run, where one is configured.
pub proof fn law_local_backup_is_recorded(
    backup: BackupView,
    state: StateView,
    started_at_unix: u64,
    duration_ms: u128,
    outcome: Option<ErrorView>,
)
    ensures
        awaited(backup, beginning(Some(backup), state)) == BackupActionView::Run(backup.command),
        ({
            let told = after(
                backup,
                beginning(Some(backup), state),
                BackupReplyView::Ran { started_at_unix, duration_ms, outcome },
            );
            let saved = after(backup, told, BackupReplyView::Saved);
            &&& awaited(backup, told) matches BackupActionView::Save(now) && {
                &&& now.last_backup == Some(
                    AttemptView {
                        started_at_unix,
                        duration_ms,
                        result: if outcome is None {
                            BackupResult::Success
                        } else {
                            BackupResult::Failure
                        },
                        destination: backup.directory,
                    },
                )
                &&& now.last_offsite is None
                &&& now.current == state.current && now.previous == state.previous && now.pending
                    == state.pending
            }
            &&& outcome is None ==> (backup.offsite_command matches Some(command) ==> awaited(
                backup,
                saved,
            ) == BackupActionView::Run(command))
            &&& outcome is Some || backup.offsite_command is None ==> (
            saved matches BackupPhase::Ended { outcome: ended, .. } && ended == outcome)
        }),
{
}

/// What a backup is told of the command for the copy is what it saves, with the configured
/// destination, beside the local backup that stays recorded.
pub proof fn law_copy_is_recorded(
    backup: BackupView,
    state: StateView,
    started_at_unix: u64,
    duration_ms: u128,
    outcome: Option<ErrorView>,
)
    ensures
        ({
            let told = after(
                backup,
                BackupPhase::Copying { state },
                BackupReplyView::Ran { started_at_unix, duration_ms, outcome },
            );
            let saved = after(backup, told, BackupReplyView::Saved);
            &&& awaited(backup, told) matches BackupActionView::Save(now) && {
                &&& now.last_offsite == Some(
                    AttemptView {
                        started_at_unix,
                        duration_ms,
                        result: if outcome is None {
                            BackupResult::Success
                        } else {
                            BackupResult::Failure
                        },
                        destination: backup.offsite_destination,
                    },
                )
                &&& now.last_backup == state.last_backup
                &&& now.current == state.current && now.previous == state.previous && now.pending
                    == state.pending
            }
            &&& saved matches BackupPhase::Ended { outcome: ended, .. } && (ended is None
                <==> outcome is None)
        }),
{
}

/// A backup ends well only where the local command succeeded, and the copy too where one is
/// configured; without a configuration nothing is run and nothing changes.
pub proof fn law_backups_end_well_only_by_success(
    backup: BackupView,
    state: StateView,
    replies: Seq<BackupReplyView>,
)
    ensures
        beginning(None, state) == (BackupPhase::Ended { state, outcome: None }),
        phase_after(backup, state, replies) matches BackupPhase::Ended { state: end, outcome }
            ==> outcome is None ==> {
            &&& end.last_backup matches Some(attempt) && attempt.result == BackupResult::Success
            &&& backup.offsite_command is Some ==> (end.last_offsite matches Some(attempt)
                && attempt.result == BackupResult::Success)
            &&& backup.offsite_command is None ==> end.last_offsite is None
        },
{
    lemma_copy_on_record(backup, state, replies);
    law_copy_follows_local_success(backup, state, replies);
}

proof fn lemma_copy_on_record(
    backup: BackupView,
    state: StateView,
    replies: Seq<BackupReplyView>,
)
    ensures
        match phase_after(backup, state, replies) {
            BackupPhase::Ended { state: end, outcome } => outcome is None ==> (
            backup.offsite_command is Some ==> end.last_offsite is Some
                && end.last_offsite->0.result == BackupResult::Success) && (
            backup.offsite_command is None ==> end.last_offsite is None),
            BackupPhase::RecordingCopy { state: now, outcome } => backup.offsite_command is Some
                && now.last_offsite is Some && (outcome is None ==> now.last_offsite->0.result
                == BackupResult::Success),
            BackupPhase::Copying { .. } => backup.offsite_command is Some,
            BackupPhase::Running { state: now } => now.last_offsite is None,
            BackupPhase::Recording { state: now, .. } => now.last_offsite is None,
        },
    decreases replies.len(),
{
    if replies.len() > 0 {
        lemma_copy_on_record(backup, state, replies.drop_last());
    }
}

/// A step of a backup that fails ends it with that failure.
pub proof fn law_failures_end_the_backup(
    backup: BackupView,
    phase: BackupPhase,
    error: ErrorView,
)
    requires
        !(phase is Ended),
    ensures
        after(backup, phase, BackupReplyView::Failed(error)) matches BackupPhase::Ended { outcome, .. }
            && outcome == Some(error),
{
}

/// A backup is refused exactly where none is configured, and a command exactly where it has no
/// words; the first word of a command is its program and the rest are its arguments.
pub proof fn law_commands_begin_with_their_program(
    name: &str,
    backup: Option<BackupConfig>,
    configured: Result<(), YardError>,
    command: Vec<String>,
    r: Result<(String, Vec<String>), YardError>,
)
    requires
        call_ensures(check_configured, (name, &backup), configured),
        call_ensures(command_parts, (&command,), r),
    ensures
        configured is Ok <==> backup is Some,
        r is Ok <==> command@.len() > 0,
        r matches Ok((program, args)) ==> command.deep_view() == seq![program@] + args.deep_view(),
{
}

} // verus!
