//! Setting the state and the environment file of a project aside before a restore.

use vstd::prelude::*;

use crate::error::{ErrorView, YardError};
use crate::text::Text;

verus! {

/// How many names are tried for the copies.
pub const TRIES: u8 = 8;

/// What is copied.
#[derive(Clone, Copy, Debug, PartialEq, Eq, Structural)]
pub enum Part {
    State,
    Environment,
}

/// What is to be done next: make the state directory, if it is missing; look at the state file;
/// read a file; choose a name for the copies; create the file of a copy, if nothing is there;
/// write a copy and flush it; flush the directory; or nothing more.
#[derive(Clone, Copy, Debug, PartialEq, Eq, Structural)]
pub enum CopyAction {
    MakeDirectory,
    Inspect,
    Read(Part),
    Name,
    Create(Part),
    Fill(Part),
    FlushDirectory,
    Finish,
}

/// How it went: the state file is a symbolic link, the name is taken, the step was done, or it
/// failed.
#[derive(Debug)]
pub enum CopyReply {
    Link,
    Taken,
    Done,
    Failed(YardError),
}

pub enum CopyReplyView {
    Link,
    Taken,
    Done,
    Failed(ErrorView),
}

impl DeepView for CopyReply {
    type V = CopyReplyView;

    open spec fn deep_view(&self) -> CopyReplyView {
        match self {
            CopyReply::Link => CopyReplyView::Link,
            CopyReply::Taken => CopyReplyView::Taken,
            CopyReply::Done => CopyReplyView::Done,
            CopyReply::Failed(error) => CopyReplyView::Failed(error.deep_view()),
        }
    }
}

/// Where the copying stands: what is to be done next, how many names were taken, and how it
/// ended.
#[derive(Debug)]
pub struct Copies {
    next: CopyAction,
    taken: u8,
    error: Option<YardError>,
}

#[verifier::ext_equal]
pub struct CopyPhase {
    pub next: CopyAction,
    pub taken: u8,
    pub error: Option<ErrorView>,
}

impl DeepView for Copies {
    type V = CopyPhase;

    closed spec fn deep_view(&self) -> CopyPhase {
        CopyPhase {
            next: self.next,
            taken: self.taken,
            error: match self.error {
                Some(error) => Some(error.deep_view()),
                None => None,
            },
        }
    }
}

/// The error that a failed step ended with; any other unexpected reply is one too.
pub open spec fn error_in(reply: CopyReplyView) -> ErrorView {
    match reply {
        CopyReplyView::Failed(error) => error,
        _ => ErrorView::Io("unexpected reply"@),
    }
}

/// The step that follows one that was done.
pub open spec fn following(action: CopyAction) -> CopyAction {
    match action {
        CopyAction::MakeDirectory => CopyAction::Inspect,
        CopyAction::Inspect => CopyAction::Read(Part::State),
        CopyAction::Read(Part::State) => CopyAction::Read(Part::Environment),
        CopyAction::Read(Part::Environment) => CopyAction::Name,
        CopyAction::Name => CopyAction::Create(Part::State),
        CopyAction::Create(part) => CopyAction::Fill(part),
        CopyAction::Fill(Part::State) => CopyAction::Create(Part::Environment),
        CopyAction::Fill(Part::Environment) => CopyAction::FlushDirectory,
        CopyAction::FlushDirectory => CopyAction::Finish,
        CopyAction::Finish => CopyAction::Finish,
    }
}

/// The phase that a failure ends in.
pub open spec fn stopped(phase: CopyPhase, error: ErrorView) -> CopyPhase {
    CopyPhase { next: CopyAction::Finish, taken: phase.taken, error: Some(error) }
}

/// The phase that follows a reply. Only the name of the first copy is chosen again where it is
/// taken.
pub open spec fn after(path: Text, phase: CopyPhase, reply: CopyReplyView) -> CopyPhase {
    if phase.next == CopyAction::Finish {
        phase
    } else if reply is Done {
        CopyPhase { next: following(phase.next), ..phase }
    } else if reply is Link && phase.next == CopyAction::Inspect {
        stopped(phase, ErrorView::Config("refusing symbolic link at "@ + path))
    } else if reply is Taken && phase.next == CopyAction::Create(Part::State) {
        if phase.taken + 1 < TRIES {
            CopyPhase { next: CopyAction::Name, taken: (phase.taken + 1) as u8, error: None }
        } else {
            stopped(phase, ErrorView::Config("could not allocate a unique restore snapshot"@))
        }
    } else {
        stopped(phase, error_in(reply))
    }
}

fn following_action(action: CopyAction) -> (r: CopyAction)
    ensures
        r == following(action),
{
    match action {
        CopyAction::MakeDirectory => CopyAction::Inspect,
        CopyAction::Inspect => CopyAction::Read(Part::State),
        CopyAction::Read(Part::State) => CopyAction::Read(Part::Environment),
        CopyAction::Read(Part::Environment) => CopyAction::Name,
        CopyAction::Name => CopyAction::Create(Part::State),
        CopyAction::Create(part) => CopyAction::Fill(part),
        CopyAction::Fill(Part::State) => CopyAction::Create(Part::Environment),
        CopyAction::Fill(Part::Environment) => CopyAction::FlushDirectory,
        CopyAction::FlushDirectory => CopyAction::Finish,
        CopyAction::Finish => CopyAction::Finish,
    }
}

impl Copies {
    /// The phase that the copying begins in.
    pub open spec fn beginning() -> CopyPhase {
        CopyPhase { next: CopyAction::MakeDirectory, taken: 0, error: None }
    }

    /// Copies that have not been begun.
    pub fn start() -> (r: Self)
        ensures
            r.deep_view() == Self::beginning(),
    {
        Copies { next: CopyAction::MakeDirectory, taken: 0, error: None }
    }

    /// What is to be done next.
    pub fn action(&self) -> (r: CopyAction)
        ensures
            r == self.deep_view().next,
    {
        self.next
    }

    /// How the copying ended; before that, nothing has failed.
    pub fn result(self) -> (r: Result<(), YardError>)
        ensures
            match r {
                Ok(_) => self.deep_view().error is None,
                Err(error) => self.deep_view().error == Some(error.deep_view()),
            },
    {
        match self.error {
            Some(error) => Err(error),
            None => Ok(()),
        }
    }

    /// Goes on with the reply to what was to be done; `path` is that of the state file.
    pub fn step(self, path: &str, reply: CopyReply) -> (r: Self)
        ensures
            r.deep_view() == after(path@, self.deep_view(), reply.deep_view()),
    {
        if self.next == CopyAction::Finish {
            return self;
        }
        let error = match reply {
            CopyReply::Done => {
                return Copies { next: following_action(self.next), ..self };
            },
            CopyReply::Link => {
                if self.next == CopyAction::Inspect {
                    let mut message = "refusing symbolic link at ".to_owned();
                    message.append(path);
                    YardError::Config(message)
                } else {
                    YardError::Io("unexpected reply".to_owned())
                }
            },
            CopyReply::Taken => {
                if self.next == CopyAction::Create(Part::State) {
                    if self.taken < TRIES - 1 {
                        return Copies {
                            next: CopyAction::Name,
                            taken: self.taken + 1,
                            error: None,
                        };
                    }
                    YardError::Config("could not allocate a unique restore snapshot".to_owned())
                } else {
                    YardError::Io("unexpected reply".to_owned())
                }
            },
            CopyReply::Failed(error) => error,
        };
        Copies { next: CopyAction::Finish, taken: self.taken, error: Some(error) }
    }
}

/// The phase after a number of replies.
pub open spec fn phase_after(path: Text, replies: Seq<CopyReplyView>) -> CopyPhase
    decreases replies.len(),
{
    if replies.len() == 0 {
        Copies::beginning()
    } else {
        after(path, phase_after(path, replies.drop_last()), replies.last())
    }
}

/// The steps that lead to the end when all goes well, the last first.
pub open spec fn before_end(ago: nat) -> CopyAction {
    if ago == 0 {
        CopyAction::FlushDirectory
    } else if ago == 1 {
        CopyAction::Fill(Part::Environment)
    } else if ago == 2 {
        CopyAction::Create(Part::Environment)
    } else if ago == 3 {
        CopyAction::Fill(Part::State)
    } else if ago == 4 {
        CopyAction::Create(Part::State)
    } else {
        CopyAction::Name
    }
}

/// A failure ends the copying.
proof fn lemma_errors_stay(path: Text, replies: Seq<CopyReplyView>)
    ensures
        phase_after(path, replies).error is Some ==> phase_after(path, replies).next
            == CopyAction::Finish,
    decreases replies.len(),
{
    if replies.len() > 0 {
        lemma_errors_stay(path, replies.drop_last());
    }
}

/// Copies that ended without an error hold both files: right before the end, each was created
/// new, written and flushed, and then the directory was flushed.
pub proof fn law_both_copies_are_made(path: Text, replies: Seq<CopyReplyView>, last: CopyReplyView)
    requires
        phase_after(path, replies).next != CopyAction::Finish,
        phase_after(path, replies.push(last)).next == CopyAction::Finish,
        phase_after(path, replies.push(last)).error is None,
    ensures
        last is Done,
        replies.len() >= 5,
        forall|ago: nat|
            ago < 6 ==> #[trigger] phase_after(
                path,
                replies.take(replies.len() - ago),
            ).next == before_end(ago),
        forall|ago: int| 1 <= ago <= 5 ==> #[trigger] replies[replies.len() - ago] is Done,
{
    let n = replies.len() as int;
    assert(replies.push(last).drop_last() =~= replies);
    assert(replies.take(n) =~= replies);
    let phase = phase_after(path, replies);
    lemma_errors_stay(path, replies);
    assert(last is Done);
    assert(phase.next == CopyAction::FlushDirectory);
    assert(replies.take(n).drop_last() =~= replies.take(n - 1));
    assert(replies.take(n - 1).drop_last() =~= replies.take(n - 2));
    assert(replies.take(n - 2).drop_last() =~= replies.take(n - 3));
    assert(replies.take(n - 3).drop_last() =~= replies.take(n - 4));
    assert(replies.take(n - 4).drop_last() =~= replies.take(n - 5));
    assert(phase_after(path, replies.take(n - 1)).next == CopyAction::Fill(Part::Environment));
    assert(phase_after(path, replies.take(n - 2)).next == CopyAction::Create(Part::Environment));
    assert(phase_after(path, replies.take(n - 3)).next == CopyAction::Fill(Part::State));
    assert(phase_after(path, replies.take(n - 4)).next == CopyAction::Create(Part::State));
    assert(phase_after(path, replies.take(n - 5)).next == CopyAction::Name);
}

/// A step's distance from the end.
pub open spec fn distance(action: CopyAction) -> int {
    match action {
        CopyAction::MakeDirectory => 10,
        CopyAction::Inspect => 9,
        CopyAction::Read(Part::State) => 8,
        CopyAction::Read(Part::Environment) => 7,
        CopyAction::Name => 6,
        CopyAction::Create(Part::State) => 5,
        CopyAction::Fill(Part::State) => 4,
        CopyAction::Create(Part::Environment) => 3,
        CopyAction::Fill(Part::Environment) => 2,
        CopyAction::FlushDirectory => 1,
        CopyAction::Finish => 0,
    }
}

/// No more names are tried than there are tries, and copying always ends.
pub proof fn law_tries_are_bounded(path: Text, phase: CopyPhase, reply: CopyReplyView)
    requires
        phase.taken < TRIES,
        phase.next != CopyAction::Finish,
    ensures
        after(path, phase, reply).taken < TRIES,
        after(path, phase, reply).taken > phase.taken || distance(after(path, phase, reply).next)
            < distance(phase.next),
        after(path, phase, reply).taken >= phase.taken,
{
}

/// Copies are read before any is made, each part is created and then filled, and a failure ends the
/// making of them with that failure. A link in place of the directory is refused.
pub proof fn law_copies_stop_at_failures(path: Text, phase: CopyPhase, error: ErrorView)
    requires
        phase.next != CopyAction::Finish,
    ensures
        after(path, phase, CopyReplyView::Failed(error)).next == CopyAction::Finish,
        after(path, phase, CopyReplyView::Failed(error)).error == Some(error),
        phase.next == CopyAction::Inspect ==> {
            let stopped = after(path, phase, CopyReplyView::Link);
            &&& stopped.next == CopyAction::Finish
            &&& stopped.error == Some(ErrorView::Config("refusing symbolic link at "@ + path))
        },
{
}

/// Whether a run was told that an action is done.
pub open spec fn was_done(path: Text, replies: Seq<CopyReplyView>, action: CopyAction) -> bool {
    exists|k: int|
        0 <= k < replies.len() && phase_after(path, #[trigger] replies.take(k)).next == action
            && replies[k] is Done
}

proof fn lemma_done_stays(path: Text, replies: Seq<CopyReplyView>)
    requires
        replies.len() > 0,
    ensures
        forall|action: CopyAction|
            was_done(path, replies.drop_last(), action) ==> #[trigger] was_done(
                path,
                replies,
                action,
            ),
        replies.last() is Done ==> was_done(
            path,
            replies,
            phase_after(path, replies.drop_last()).next,
        ),
{
    let shorter = replies.drop_last();
    assert forall|action: CopyAction|
        was_done(path, shorter, action) implies #[trigger] was_done(path, replies, action) by {
        let k = choose|k: int|
            0 <= k < shorter.len() && phase_after(path, #[trigger] shorter.take(k)).next == action
                && shorter[k] is Done;
        assert(shorter.take(k) =~= replies.take(k));
        assert(phase_after(path, replies.take(k)).next == action && replies[k] is Done);
    }
    if replies.last() is Done {
        let k = replies.len() - 1;
        assert(replies.take(k) =~= shorter);
        assert(replies[k] is Done);
    }
}

/// What has been done where an action is next.
spec fn is_behind(path: Text, replies: Seq<CopyReplyView>, next: CopyAction) -> bool {
    let n = distance(next);
    &&& n < 10 ==> was_done(path, replies, CopyAction::MakeDirectory)
    &&& n < 9 ==> was_done(path, replies, CopyAction::Inspect)
    &&& n < 8 ==> was_done(path, replies, CopyAction::Read(Part::State))
    &&& n < 7 ==> was_done(path, replies, CopyAction::Read(Part::Environment))
    &&& n < 6 ==> was_done(path, replies, CopyAction::Name)
    &&& n < 5 ==> was_done(path, replies, CopyAction::Create(Part::State))
    &&& n < 4 ==> was_done(path, replies, CopyAction::Fill(Part::State))
    &&& n < 3 ==> was_done(path, replies, CopyAction::Create(Part::Environment))
    &&& n < 2 ==> was_done(path, replies, CopyAction::Fill(Part::Environment))
    &&& n < 1 ==> was_done(path, replies, CopyAction::FlushDirectory)
}

proof fn lemma_behind(path: Text, replies: Seq<CopyReplyView>)
    ensures
        ({
            let phase = phase_after(path, replies);
            &&& phase.error is None ==> is_behind(path, replies, phase.next)
            &&& phase.error is Some ==> phase.next == CopyAction::Finish
        }),
    decreases replies.len(),
{
    if replies.len() > 0 {
        let shorter = replies.drop_last();
        lemma_behind(path, shorter);
        lemma_done_stays(path, replies);
        assert(forall|action: CopyAction|
            was_done(path, shorter, action) ==> #[trigger] was_done(path, replies, action));
    }
}

/// Copies are made without an error only where every step was done: the directory is there and no
/// link, both files were read, both copies were created and filled, and the directory was flushed.
pub proof fn law_copies_need_every_step(path: Text, replies: Seq<CopyReplyView>)
    requires
        phase_after(path, replies).next == CopyAction::Finish,
        phase_after(path, replies).error is None,
    ensures
        was_done(path, replies, CopyAction::MakeDirectory),
        was_done(path, replies, CopyAction::Inspect),
        was_done(path, replies, CopyAction::Read(Part::State)),
        was_done(path, replies, CopyAction::Read(Part::Environment)),
        was_done(path, replies, CopyAction::Create(Part::State)),
        was_done(path, replies, CopyAction::Fill(Part::State)),
        was_done(path, replies, CopyAction::Create(Part::Environment)),
        was_done(path, replies, CopyAction::Fill(Part::Environment)),
        was_done(path, replies, CopyAction::FlushDirectory),
{
    lemma_behind(path, replies);
}

/// A name that is taken is replaced by another up to eight times in all; then the copies fail.
pub proof fn law_eight_names_are_tried(path: Text, taken: u8)
    ensures
        ({
            let phase = CopyPhase { next: CopyAction::Create(Part::State), taken, error: None };
            let next = after(path, phase, CopyReplyView::Taken);
            &&& taken < 7 ==> next == (CopyPhase {
                next: CopyAction::Name,
                taken: (taken + 1) as u8,
                error: None,
            })
            &&& taken >= 7 ==> next.next == CopyAction::Finish && next.error == Some(
                ErrorView::Config("could not allocate a unique restore snapshot"@),
            )
        }),
        Copies::beginning().next == CopyAction::MakeDirectory,
        Copies::beginning().taken == 0,
{
}

} // verus!
