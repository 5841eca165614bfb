//! Replacing a file in one step: the contents go to a new file beside it, which then takes its
//! place.

use vstd::prelude::*;

use crate::error::{ErrorView, YardError};
use crate::text::Text;

verus! {

/// How many names are tried for the temporary file.
pub const TRIES: u8 = 8;

/// The digit of a value in base sixteen.
pub open spec fn hex_digit(value: int) -> char {
    if value < 10 {
        (48 + value) as char
    } else {
        (87 + value) as char
    }
}

/// Bytes in base sixteen, two digits each.
pub open spec fn hex_of(bytes: Seq<u8>) -> Text
    decreases bytes.len(),
{
    if bytes.len() == 0 {
        Seq::empty()
    } else {
        hex_of(bytes.drop_last()).push(hex_digit(bytes.last() as int / 16)).push(
            hex_digit(bytes.last() as int % 16),
        )
    }
}

fn digit_for(value: u8) -> (r: char)
    requires
        value < 16,
    ensures
        r == hex_digit(value as int),
{
    if value < 10 {
        (48 + value) as char
    } else {
        (87 + value) as char
    }
}

fn hex(bytes: &Vec<u8>) -> (r: String)
    ensures
        r@ == hex_of(bytes@),
{
    let mut out = String::new();
    let mut i: usize = 0;
    assert(out@ =~= Seq::<char>::empty());
    assert(bytes@.take(0) =~= Seq::<u8>::empty());
    while i < bytes.len()
        invariant
            i <= bytes@.len(),
            out@ == hex_of(bytes@.take(i as int)),
        decreases bytes@.len() - i,
    {
        assert(bytes@.take(i + 1).drop_last() =~= bytes@.take(i as int));
        out.push(digit_for(bytes[i] / 16));
        out.push(digit_for(bytes[i] % 16));
        i = i + 1;
    }
    assert(bytes@.take(i as int) =~= bytes@);
    out
}

/// The name of the temporary file for a file, given random bytes. A file whose name is not text
/// gets the name of the tool.
pub fn temporary_name(file: Option<&str>, nonce: &Vec<u8>) -> (r: String)
    ensures
        r@ == "."@ + (match file {
            Some(file) => file@,
            None => "yard"@,
        }) + "."@ + hex_of(nonce@) + ".tmp"@,
{
    let mut name = ".".to_owned();
    match file {
        Some(file) => {
            name.append(file);
        },
        None => {
            name.append("yard");
        },
    }
    name.append(".");
    name.append(hex(nonce).as_str());
    name.append(".tmp");
    name
}

proof fn lemma_hex_digit(a: int, b: int)
    requires
        0 <= a < 16,
        0 <= b < 16,
        hex_digit(a) == hex_digit(b),
    ensures
        a == b,
{
}

/// Different random bytes give different names.
pub proof fn law_names_are_distinct(a: Seq<u8>, b: Seq<u8>)
    requires
        hex_of(a) == hex_of(b),
    ensures
        a == b,
    decreases a.len(),
{
    if a.len() == 0 {
        if b.len() > 0 {
            assert(hex_of(b).len() >= 2);
            assert(hex_of(a).len() == 0);
        }
        assert(a =~= b);
    } else {
        assert(hex_of(a).len() >= 2);
        if b.len() == 0 {
            assert(hex_of(b).len() == 0);
        }
        let (first, second) = (hex_of(a.drop_last()), hex_of(b.drop_last()));
        let n = first.len() as int;
        assert(second.len() == n);
        assert(hex_of(a)[n] == hex_digit(a.last() as int / 16));
        assert(hex_of(b)[n] == hex_digit(b.last() as int / 16));
        assert(hex_of(a)[n + 1] == hex_digit(a.last() as int % 16));
        assert(hex_of(b)[n + 1] == hex_digit(b.last() as int % 16));
        assert(hex_of(a).take(n) =~= first);
        assert(hex_of(b).take(n) =~= second);
        lemma_hex_digit(a.last() as int / 16, b.last() as int / 16);
        lemma_hex_digit(a.last() as int % 16, b.last() as int % 16);
        law_names_are_distinct(a.drop_last(), b.drop_last());
        assert(a =~= a.drop_last().push(a.last()));
        assert(b =~= b.drop_last().push(b.last()));
    }
}

// ---------------------------------------------------------------------------------------------
// The steps
// ---------------------------------------------------------------------------------------------

/// What is to be done next: look at what is at the path; choose a name for the temporary file;
/// create it, if nothing is there; write the contents to it; give it the permissions of the file
/// that it replaces, or else those of a private file; flush it; put it in the place of the file;
/// remove it; flush the directory; or nothing more.
#[derive(Clone, Copy, Debug, PartialEq, Eq, Structural)]
pub enum WriteAction {
    Inspect,
    Name,
    Create,
    Fill,
    Permit { keep: bool },
    Flush,
    Rename,
    Discard,
    FlushDirectory,
    Finish,
}

/// How it went: what is at the path, that the name is taken, that the step was done, or that it
/// failed.
#[derive(Debug)]
pub enum WriteReply {
    Link,
    Present,
    Absent,
    Taken,
    Done,
    Failed(YardError),
}

pub enum WriteReplyView {
    Link,
    Present,
    Absent,
    Taken,
    Done,
    Failed(ErrorView),
}

impl DeepView for WriteReply {
    type V = WriteReplyView;

    open spec fn deep_view(&self) -> WriteReplyView {
        match self {
            WriteReply::Link => WriteReplyView::Link,
            WriteReply::Present => WriteReplyView::Present,
            WriteReply::Absent => WriteReplyView::Absent,
            WriteReply::Taken => WriteReplyView::Taken,
            WriteReply::Done => WriteReplyView::Done,
            WriteReply::Failed(error) => WriteReplyView::Failed(error.deep_view()),
        }
    }
}

/// Where the replacement of a file stands. `existed` tells whether there is a file to replace.
#[derive(Debug)]
pub enum AtomicWrite {
    Inspecting,
    Naming { tries: u8, existed: bool },
    Creating { tries: u8, existed: bool },
    Filling { existed: bool },
    Permitting { existed: bool },
    Flushing,
    Renaming,
    Discarding { error: YardError },
    Settling,
    Ended { result: Result<(), YardError> },
}

pub enum WritePhase {
    Inspecting,
    Naming { tries: u8, existed: bool },
    Creating { tries: u8, existed: bool },
    Filling { existed: bool },
    Permitting { existed: bool },
    Flushing,
    Renaming,
    Discarding { error: ErrorView },
    Settling,
    Ended { outcome: Option<ErrorView> },
}

impl DeepView for AtomicWrite {
    type V = WritePhase;

    open spec fn deep_view(&self) -> WritePhase {
        match self {
            AtomicWrite::Inspecting => WritePhase::Inspecting,
            AtomicWrite::Naming { tries, existed } => WritePhase::Naming {
                tries: *tries,
                existed: *existed,
            },
            AtomicWrite::Creating { tries, existed } => WritePhase::Creating {
                tries: *tries,
                existed: *existed,
            },
            AtomicWrite::Filling { existed } => WritePhase::Filling { existed: *existed },
            AtomicWrite::Permitting { existed } => WritePhase::Permitting { existed: *existed },
            AtomicWrite::Flushing => WritePhase::Flushing,
            AtomicWrite::Renaming => WritePhase::Renaming,
            AtomicWrite::Discarding { error } => WritePhase::Discarding {
                error: error.deep_view(),
            },
            AtomicWrite::Settling => WritePhase::Settling,
            AtomicWrite::Ended { result } => WritePhase::Ended {
                outcome: match result {
                    Ok(_) => None,
                    Err(error) => Some(error.deep_view()),
                },
            },
        }
    }
}

/// What is to be done in a phase.
pub open spec fn awaited(phase: WritePhase) -> WriteAction {
    match phase {
        WritePhase::Inspecting => WriteAction::Inspect,
        WritePhase::Naming { .. } => WriteAction::Name,
        WritePhase::Creating { .. } => WriteAction::Create,
        WritePhase::Filling { .. } => WriteAction::Fill,
        WritePhase::Permitting { existed } => WriteAction::Permit { keep: existed },
        WritePhase::Flushing => WriteAction::Flush,
        WritePhase::Renaming => WriteAction::Rename,
        WritePhase::Discarding { .. } => WriteAction::Discard,
        WritePhase::Settling => WriteAction::FlushDirectory,
        WritePhase::Ended { .. } => WriteAction::Finish,
    }
}

/// The error that a failed step ended with; any other unexpected reply is one too.
pub open spec fn error_in(reply: WriteReplyView) -> ErrorView {
    match reply {
        WriteReplyView::Failed(error) => error,
        _ => ErrorView::Io("unexpected reply"@),
    }
}

pub open spec fn failed(error: ErrorView) -> WritePhase {
    WritePhase::Ended { outcome: Some(error) }
}

/// The phase that follows a step that had to be done: the temporary file is there, so that it is
/// removed where the step failed.
pub open spec fn or_discard(reply: WriteReplyView, next: WritePhase) -> WritePhase {
    if reply is Done {
        next
    } else {
        WritePhase::Discarding { error: error_in(reply) }
    }
}

/// The phase that follows a reply.
pub open spec fn after(path: Text, phase: WritePhase, reply: WriteReplyView) -> WritePhase {
    match phase {
        WritePhase::Inspecting => match reply {
            WriteReplyView::Link => failed(
                ErrorView::Config("refusing symbolic link at "@ + path),
            ),
            WriteReplyView::Present => WritePhase::Naming { tries: 0, existed: true },
            WriteReplyView::Absent => WritePhase::Naming { tries: 0, existed: false },
            _ => failed(error_in(reply)),
        },
        WritePhase::Naming { tries, existed } => if reply is Done {
            WritePhase::Creating { tries, existed }
        } else {
            failed(error_in(reply))
        },
        WritePhase::Creating { tries, existed } => match reply {
            WriteReplyView::Done => WritePhase::Filling { existed },
            WriteReplyView::Taken => if tries + 1 < TRIES {
                WritePhase::Naming { tries: (tries + 1) as u8, existed }
            } else {
                failed(ErrorView::Io("unable to allocate temporary file"@))
            },
            _ => failed(error_in(reply)),
        },
        WritePhase::Filling { existed } => or_discard(reply, WritePhase::Permitting { existed }),
        WritePhase::Permitting { .. } => or_discard(reply, WritePhase::Flushing),
        WritePhase::Flushing => or_discard(reply, WritePhase::Renaming),
        WritePhase::Renaming => or_discard(reply, WritePhase::Settling),
        WritePhase::Discarding { error } => failed(error),
        WritePhase::Settling => if reply is Done {
            WritePhase::Ended { outcome: None }
        } else {
            failed(error_in(reply))
        },
        WritePhase::Ended { .. } => phase,
    }
}

fn error_from(reply: WriteReply) -> (r: YardError)
    ensures
        r.deep_view() == error_in(reply.deep_view()),
{
    match reply {
        WriteReply::Failed(error) => error,
        _ => YardError::Io("unexpected reply".to_owned()),
    }
}

fn end(reply: WriteReply) -> (r: AtomicWrite)
    ensures
        r.deep_view() == failed(error_in(reply.deep_view())),
{
    AtomicWrite::Ended { result: Err(error_from(reply)) }
}

fn discard_unless_done(reply: WriteReply, next: AtomicWrite) -> (r: AtomicWrite)
    ensures
        r.deep_view() == or_discard(reply.deep_view(), next.deep_view()),
{
    match reply {
        WriteReply::Done => next,
        other => AtomicWrite::Discarding { error: error_from(other) },
    }
}

impl AtomicWrite {
    /// A replacement that has not begun.
    pub fn start() -> (r: Self)
        ensures
            r.deep_view() == WritePhase::Inspecting,
    {
        AtomicWrite::Inspecting
    }

    /// What is to be done next.
    pub fn action(&self) -> (r: WriteAction)
        ensures
            r == awaited(self.deep_view()),
    {
        match self {
            AtomicWrite::Inspecting => WriteAction::Inspect,
            AtomicWrite::Naming { .. } => WriteAction::Name,
            AtomicWrite::Creating { .. } => WriteAction::Create,
            AtomicWrite::Filling { .. } => WriteAction::Fill,
            AtomicWrite::Permitting { existed } => WriteAction::Permit { keep: *existed },
            AtomicWrite::Flushing => WriteAction::Flush,
            AtomicWrite::Renaming => WriteAction::Rename,
            AtomicWrite::Discarding { .. } => WriteAction::Discard,
            AtomicWrite::Settling => WriteAction::FlushDirectory,
            AtomicWrite::Ended { .. } => WriteAction::Finish,
        }
    }

    /// Goes on with the reply to what was to be done.
    pub fn step(self, path: &str, reply: WriteReply) -> (r: Self)
        ensures
            r.deep_view() == after(path@, self.deep_view(), reply.deep_view()),
    {
        match self {
            AtomicWrite::Inspecting => match reply {
                WriteReply::Link => {
                    let mut message = "refusing symbolic link at ".to_owned();
                    message.append(path);
                    AtomicWrite::Ended { result: Err(YardError::Config(message)) }
                },
                WriteReply::Present => AtomicWrite::Naming { tries: 0, existed: true },
                WriteReply::Absent => AtomicWrite::Naming { tries: 0, existed: false },
                other => end(other),
            },
            AtomicWrite::Naming { tries, existed } => match reply {
                WriteReply::Done => AtomicWrite::Creating { tries, existed },
                other => end(other),
            },
            AtomicWrite::Creating { tries, existed } => match reply {
                WriteReply::Done => AtomicWrite::Filling { existed },
                WriteReply::Taken => {
                    if tries < TRIES - 1 {
                        AtomicWrite::Naming { tries: tries + 1, existed }
                    } else {
                        let error = YardError::Io("unable to allocate temporary file".to_owned());
                        AtomicWrite::Ended { result: Err(error) }
                    }
                },
                other => end(other),
            },
            AtomicWrite::Filling { existed } => discard_unless_done(
                reply,
                AtomicWrite::Permitting { existed },
            ),
            AtomicWrite::Permitting { .. } => discard_unless_done(reply, AtomicWrite::Flushing),
            AtomicWrite::Flushing => discard_unless_done(reply, AtomicWrite::Renaming),
            AtomicWrite::Renaming => discard_unless_done(reply, AtomicWrite::Settling),
            AtomicWrite::Discarding { error } => AtomicWrite::Ended { result: Err(error) },
            AtomicWrite::Settling => match reply {
                WriteReply::Done => AtomicWrite::Ended { result: Ok(()) },
                other => end(other),
            },
            AtomicWrite::Ended { result } => AtomicWrite::Ended { result },
        }
    }
}

// ---------------------------------------------------------------------------------------------
// Whole replacements
// ---------------------------------------------------------------------------------------------

/// The phase after a number of replies.
pub open spec fn phase_after(path: Text, replies: Seq<WriteReplyView>) -> WritePhase
    decreases replies.len(),
{
    if replies.len() == 0 {
        WritePhase::Inspecting
    } else {
        after(path, phase_after(path, replies.drop_last()), replies.last())
    }
}

/// Whether the step before the last `ago` replies was the given one, and was done.
pub open spec fn was_done(
    path: Text,
    replies: Seq<WriteReplyView>,
    ago: int,
    action: WriteAction,
) -> bool {
    let at = replies.len() - ago;
    0 < at && replies[at - 1] is Done && awaited(phase_after(path, replies.take(at - 1))) == action
}

/// A file is only replaced by one that was created for it, holds all of the contents, has its
/// permissions and has been flushed.
pub proof fn law_replaced_when_complete(path: Text, replies: Seq<WriteReplyView>)
    requires
        awaited(phase_after(path, replies)) == WriteAction::Rename,
    ensures
        was_done(path, replies, 0, WriteAction::Flush),
        exists|keep: bool| was_done(path, replies, 1, #[trigger] permission(keep)),
        was_done(path, replies, 2, WriteAction::Fill),
        was_done(path, replies, 3, WriteAction::Create),
{
    let n = replies.len() as int;
    assert(replies.drop_last() =~= replies.take(n - 1));
    assert(phase_after(path, replies.take(n - 1)) is Flushing);
    assert(replies.take(n - 1).drop_last() =~= replies.take(n - 2));
    let permitting = phase_after(path, replies.take(n - 2));
    assert(permitting is Permitting);
    assert(permission(permitting->Permitting_existed) == awaited(permitting));
    assert(replies.take(n - 2).drop_last() =~= replies.take(n - 3));
    assert(phase_after(path, replies.take(n - 3)) is Filling);
    assert(replies.take(n - 3).drop_last() =~= replies.take(n - 4));
    assert(phase_after(path, replies.take(n - 4)) is Creating);
}

/// The action of giving permissions.
pub open spec fn permission(keep: bool) -> WriteAction {
    WriteAction::Permit { keep }
}

/// A failed replacement leaves no temporary file behind: after one was created, the only ways to
/// fail are to remove it first, and to fail once it has taken its place.
pub proof fn law_failures_are_cleaned_up(path: Text, phase: WritePhase, reply: WriteReplyView)
    requires
        phase !is Ended,
        after(path, phase, reply) matches WritePhase::Ended { outcome } && outcome is Some,
    ensures
        phase is Inspecting || phase is Naming || phase is Creating || phase is Discarding
            || phase is Settling,
        phase is Creating ==> reply !is Done,
{
}

/// A symbolic link is never replaced, and nothing is created for it.
pub proof fn law_links_are_refused(path: Text, replies: Seq<WriteReplyView>)
    requires
        replies.len() > 0,
        replies[0] is Link,
    ensures
        phase_after(path, replies) == failed(ErrorView::Config("refusing symbolic link at "@ + path)),
    decreases replies.len(),
{
    if replies.len() == 1 {
        assert(replies.drop_last() =~= Seq::empty());
        assert(replies.last() == replies[0]);
        assert(phase_after(path, replies.drop_last()) is Inspecting);
    } else {
        law_links_are_refused(path, replies.drop_last());
    }
}

/// How many steps a phase is away from the end at most.
pub open spec fn remaining(phase: WritePhase) -> int {
    match phase {
        WritePhase::Inspecting => 100,
        WritePhase::Naming { tries, .. } => 8 + 2 * (TRIES - tries),
        WritePhase::Creating { tries, .. } => 7 + 2 * (TRIES - tries),
        WritePhase::Filling { .. } => 6,
        WritePhase::Permitting { .. } => 5,
        WritePhase::Flushing => 4,
        WritePhase::Renaming => 3,
        WritePhase::Discarding { .. } => 1,
        WritePhase::Settling => 1,
        WritePhase::Ended { .. } => 0,
    }
}

/// Whether a phase can be reached: no more names are tried than there are tries.
pub open spec fn in_bounds(phase: WritePhase) -> bool {
    match phase {
        WritePhase::Naming { tries, .. } => tries < TRIES,
        WritePhase::Creating { tries, .. } => tries < TRIES,
        _ => true,
    }
}

/// No more names are tried than there are tries, and every replacement ends.
pub proof fn law_tries_are_bounded(path: Text, phase: WritePhase, reply: WriteReplyView)
    requires
        in_bounds(phase),
    ensures
        in_bounds(after(path, phase, reply)),
        phase !is Ended ==> 0 <= remaining(after(path, phase, reply)) < remaining(phase),
{
}

/// A replacement of which every step is done ends with success.
pub proof fn law_undisturbed_replacements_succeed(path: Text, replies: Seq<WriteReplyView>)
    requires
        replies.len() == 8,
        replies[0] is Present || replies[0] is Absent,
        forall|i: int| 1 <= i < replies.len() ==> (#[trigger] replies[i]) is Done,
    ensures
        phase_after(path, replies) == (WritePhase::Ended { outcome: None }),
{
    let existed = replies[0] is Present;
    assert(phase_after(path, replies.take(0)) is Inspecting);
    assert(replies.take(1).drop_last() =~= replies.take(0));
    assert(phase_after(path, replies.take(1)) == (WritePhase::Naming { tries: 0, existed }));
    assert(replies.take(2).drop_last() =~= replies.take(1));
    assert(phase_after(path, replies.take(2)) == (WritePhase::Creating { tries: 0, existed }));
    assert(replies.take(3).drop_last() =~= replies.take(2));
    assert(phase_after(path, replies.take(3)) == (WritePhase::Filling { existed }));
    assert(replies.take(4).drop_last() =~= replies.take(3));
    assert(phase_after(path, replies.take(4)) == (WritePhase::Permitting { existed }));
    assert(replies.take(5).drop_last() =~= replies.take(4));
    assert(phase_after(path, replies.take(5)) is Flushing);
    assert(replies.take(6).drop_last() =~= replies.take(5));
    assert(phase_after(path, replies.take(6)) is Renaming);
    assert(replies.take(7).drop_last() =~= replies.take(6));
    assert(phase_after(path, replies.take(7)) is Settling);
    assert(replies.drop_last() =~= replies.take(7));
}

// ---------------------------------------------------------------------------------------------
// Overlapping replacements
// ---------------------------------------------------------------------------------------------

/// What a file holds: all of some contents, or contents that are being written.
pub enum FileView {
    Unfinished,
    Whole(Seq<u8>),
}

/// The file, where there is one, and the temporary files beside it by their names.
pub struct FolderView {
    pub file: Option<FileView>,
    pub temporaries: Map<Text, FileView>,
}

/// Someone who replaces the file: where that stands, and the name that was chosen last.
pub struct WriterView {
    pub phase: WritePhase,
    pub name: Text,
}

/// A folder with two who replace the same file.
pub struct SceneView {
    pub folder: FolderView,
    pub first: WriterView,
    pub second: WriterView,
}

/// A step of one of the two, with its reply; where a name was chosen, with that name.
pub struct TurnView {
    pub second: bool,
    pub reply: WriteReplyView,
    pub name: Text,
}

/// What a step does to the folder. A file that is being filled is unfinished until all of it was
/// written; a file takes the place of another in one step, or not at all.
pub open spec fn folder_after(
    folder: FolderView,
    writer: WriterView,
    contents: Seq<u8>,
    reply: WriteReplyView,
) -> FolderView {
    match awaited(writer.phase) {
        WriteAction::Create => if reply is Done {
            FolderView {
                temporaries: folder.temporaries.insert(writer.name, FileView::Unfinished),
                ..folder
            }
        } else {
            folder
        },
        WriteAction::Fill => FolderView {
            temporaries: folder.temporaries.insert(
                writer.name,
                if reply is Done {
                    FileView::Whole(contents)
                } else {
                    FileView::Unfinished
                },
            ),
            ..folder
        },
        WriteAction::Rename => if reply is Done {
            FolderView {
                file: Some(folder.temporaries[writer.name]),
                temporaries: folder.temporaries.remove(writer.name),
            }
        } else {
            folder
        },
        WriteAction::Discard => if reply is Done {
            FolderView { temporaries: folder.temporaries.remove(writer.name), ..folder }
        } else {
            folder
        },
        _ => folder,
    }
}

pub open spec fn writer_after(path: Text, writer: WriterView, turn: TurnView) -> WriterView {
    WriterView {
        phase: after(path, writer.phase, turn.reply),
        name: if writer.phase is Naming {
            turn.name
        } else {
            writer.name
        },
    }
}

/// The one whose turn it is.
pub open spec fn acting(scene: SceneView, turn: TurnView) -> WriterView {
    if turn.second {
        scene.second
    } else {
        scene.first
    }
}

/// The scene after turns, from a folder in which nobody has begun. The first writes the contents
/// `a`, the second the contents `b`.
pub open spec fn scene_after(
    path: Text,
    a: Seq<u8>,
    b: Seq<u8>,
    folder: FolderView,
    turns: Seq<TurnView>,
) -> SceneView
    decreases turns.len(),
{
    if turns.len() == 0 {
        let writer = WriterView { phase: WritePhase::Inspecting, name: Seq::empty() };
        SceneView { folder, first: writer, second: writer }
    } else {
        let before = scene_after(path, a, b, folder, turns.drop_last());
        let turn = turns.last();
        if turn.second {
            SceneView {
                folder: folder_after(before.folder, before.second, b, turn.reply),
                second: writer_after(path, before.second, turn),
                ..before
            }
        } else {
            SceneView {
                folder: folder_after(before.folder, before.first, a, turn.reply),
                first: writer_after(path, before.first, turn),
                ..before
            }
        }
    }
}

/// Whether a file was only ever created under a name that no other had.
pub open spec fn creates_new_files(
    path: Text,
    a: Seq<u8>,
    b: Seq<u8>,
    folder: FolderView,
    turns: Seq<TurnView>,
) -> bool {
    forall|k: int|
        0 <= k < turns.len() ==> {
            let before = scene_after(path, a, b, folder, #[trigger] turns.take(k));
            let writer = acting(before, turns[k]);
            awaited(writer.phase) == WriteAction::Create && turns[k].reply is Done
                ==> !before.folder.temporaries.contains_key(writer.name)
        }
}

/// Whether a phase has a temporary file of its own.
pub open spec fn holds_file(phase: WritePhase) -> bool {
    phase is Filling || phase is Permitting || phase is Flushing || phase is Renaming
        || phase is Discarding
}

/// Whether the temporary file of a phase is complete.
pub open spec fn holds_whole_file(phase: WritePhase) -> bool {
    phase is Permitting || phase is Flushing || phase is Renaming
}

/// Whether the file of a phase has taken its place.
pub open spec fn has_replaced(phase: WritePhase) -> bool {
    phase is Settling || phase == (WritePhase::Ended { outcome: None })
}

spec fn is_sound(folder: FolderView, writer: WriterView, contents: Seq<u8>) -> bool {
    holds_whole_file(writer.phase) ==> folder.temporaries.contains_key(writer.name)
        && folder.temporaries[writer.name] == FileView::Whole(contents)
}

spec fn is_apart(one: WriterView, other: WriterView) -> bool {
    holds_file(one.phase) && holds_file(other.phase) ==> one.name != other.name
}

spec fn is_kept(folder: FolderView, writer: WriterView) -> bool {
    holds_file(writer.phase) ==> folder.temporaries.contains_key(writer.name)
}

proof fn lemma_scene(path: Text, a: Seq<u8>, b: Seq<u8>, folder: FolderView, turns: Seq<TurnView>)
    requires
        creates_new_files(path, a, b, folder, turns),
    ensures
        ({
            let scene = scene_after(path, a, b, folder, turns);
            let whole = scene.folder.file == Some(FileView::Whole(a)) || scene.folder.file == Some(
                FileView::Whole(b),
            );
            &&& is_sound(scene.folder, scene.first, a)
            &&& is_sound(scene.folder, scene.second, b)
            &&& is_kept(scene.folder, scene.first)
            &&& is_kept(scene.folder, scene.second)
            &&& is_apart(scene.first, scene.second)
            &&& whole || scene.folder.file == folder.file
            &&& has_replaced(scene.first.phase) || has_replaced(scene.second.phase) ==> whole
        }),
    decreases turns.len(),
{
    if turns.len() > 0 {
        let n = turns.len() - 1;
        let shorter = turns.drop_last();
        assert(turns.take(n) =~= shorter);
        assert forall|k: int| 0 <= k < shorter.len() implies #[trigger] shorter.take(k)
            == turns.take(k) by {
            assert(shorter.take(k) =~= turns.take(k));
        }
        lemma_scene(path, a, b, folder, shorter);
        let before = scene_after(path, a, b, folder, turns.take(n));
        let writer = acting(before, turns[n]);
        assert(awaited(writer.phase) == WriteAction::Create && turns[n].reply is Done
            ==> !before.folder.temporaries.contains_key(writer.name));
    }
}

/// The replies that one of the two got.
pub open spec fn replies_of(turns: Seq<TurnView>, second: bool) -> Seq<WriteReplyView>
    decreases turns.len(),
{
    if turns.len() == 0 {
        Seq::empty()
    } else if turns.last().second == second {
        replies_of(turns.drop_last(), second).push(turns.last().reply)
    } else {
        replies_of(turns.drop_last(), second)
    }
}

/// Each of two who replace the same file at the same time goes on by its own replies alone.
pub proof fn law_overlapping_replacements_are_independent(
    path: Text,
    a: Seq<u8>,
    b: Seq<u8>,
    folder: FolderView,
    turns: Seq<TurnView>,
)
    ensures
        ({
            let scene = scene_after(path, a, b, folder, turns);
            &&& scene.first.phase == phase_after(path, replies_of(turns, false))
            &&& scene.second.phase == phase_after(path, replies_of(turns, true))
        }),
    decreases turns.len(),
{
    if turns.len() > 0 {
        let shorter = turns.drop_last();
        law_overlapping_replacements_are_independent(path, a, b, folder, shorter);
        let own = replies_of(turns, turns.last().second);
        assert(own.drop_last() =~= replies_of(shorter, turns.last().second));
    }
}

/// Where two replace the same file at the same time, the file holds at every moment what it held
/// before, or all of the contents of the one or of the other, never a mixture. Once one of them
/// has succeeded, it holds all of the contents of one of them.
pub proof fn law_overlapping_replacements_leave_one_whole(
    path: Text,
    a: Seq<u8>,
    b: Seq<u8>,
    folder: FolderView,
    turns: Seq<TurnView>,
)
    requires
        creates_new_files(path, a, b, folder, turns),
    ensures
        ({
            let scene = scene_after(path, a, b, folder, turns);
            let whole = scene.folder.file == Some(FileView::Whole(a)) || scene.folder.file == Some(
                FileView::Whole(b),
            );
            &&& whole || scene.folder.file == folder.file
            &&& scene.first.phase == (WritePhase::Ended { outcome: None }) || scene.second.phase
                == (WritePhase::Ended { outcome: None }) ==> whole
        }),
{
    lemma_scene(path, a, b, folder, turns);
}

/// A replacement keeps the permissions of the file exactly where there was one.
pub proof fn law_permissions_of_a_file_are_kept(
    path: Text,
    replies: Seq<WriteReplyView>,
    keep: bool,
)
    requires
        awaited(phase_after(path, replies)) == permission(keep),
    ensures
        replies.len() > 0,
        keep <==> replies[0] is Present,
{
    lemma_existed(path, replies);
}

proof fn lemma_existed(path: Text, replies: Seq<WriteReplyView>)
    ensures
        match phase_after(path, replies) {
            WritePhase::Inspecting => replies.len() == 0,
            WritePhase::Naming { existed, .. } => replies.len() > 0 && existed
                == replies[0] is Present,
            WritePhase::Creating { existed, .. } => replies.len() > 0 && existed
                == replies[0] is Present,
            WritePhase::Filling { existed } => replies.len() > 0 && existed == replies[0] is Present,
            WritePhase::Permitting { existed } => replies.len() > 0 && existed
                == replies[0] is Present,
            _ => replies.len() > 0,
        },
    decreases replies.len(),
{
    if replies.len() > 0 {
        let shorter = replies.drop_last();
        lemma_existed(path, shorter);
        if shorter.len() > 0 {
            assert(shorter[0] == replies[0]);
        }
    }
}

/// A name that is taken is replaced by another up to eight times in all; then the replacement
/// fails.
pub proof fn law_eight_names_are_tried(path: Text, tries: u8, existed: bool)
    ensures
        ({
            let next = after(path, WritePhase::Creating { tries, existed }, WriteReplyView::Taken);
            &&& tries < 7 ==> next == (WritePhase::Naming { tries: (tries + 1) as u8, existed })
            &&& tries >= 7 ==> next == (WritePhase::Ended {
                outcome: Some(ErrorView::Io("unable to allocate temporary file"@)),
            })
        }),
        after(path, WritePhase::Inspecting, WriteReplyView::Absent) == (WritePhase::Naming {
            tries: 0,
            existed: false,
        }),
{
}

} // verus!
