//! The list of what a project can be restored to, and the names of what a restore leaves behind.

use vstd::prelude::*;

use crate::command::add_word;
use crate::error::{error_of, ErrorView, YardError};
use crate::json::{document, parse, Json, JsonView};
use crate::number::{decimal, to_decimal};
use crate::state::{label_of, AttemptView, BackupAttempt, BackupResult, Release, ReleaseView};
use crate::text::{begins, holds_part, lemma_holds_pair, lemma_parts_stay, Text};

verus! {

/// A part of the recorded state, by itself: it may be absent, or there and not readable.
#[derive(Debug)]
pub enum Record<T> {
    Absent,
    Unreadable,
    Found(T),
}

pub enum RecordView<T> {
    Absent,
    Unreadable,
    Found(T),
}

impl<T: DeepView> DeepView for Record<T> {
    type V = RecordView<T::V>;

    open spec fn deep_view(&self) -> RecordView<T::V> {
        match self {
            Record::Absent => RecordView::Absent,
            Record::Unreadable => RecordView::Unreadable,
            Record::Found(value) => RecordView::Found(value.deep_view()),
        }
    }
}

/// What is wrong with the text of a state file: it has to be a JSON record.
pub open spec fn document_fault(text: Text) -> Option<ErrorView> {
    match document(text) {
        Ok(JsonView::Record(_)) => None,
        Ok(_) => Some(
            ErrorView::Config("state file is unreadable, not absent: expected an object"@),
        ),
        Err(message) => Some(
            ErrorView::Config("state file is unreadable, not absent: "@ + message),
        ),
    }
}

/// What is wrong with the text of a state file.
pub fn check_document(text: &str) -> (r: Result<(), YardError>)
    ensures
        error_of(r) == document_fault(text@),
{
    match parse(text) {
        Ok(value) => check_record(&value),
        Err(message) => {
            let mut reason = "state file is unreadable, not absent: ".to_owned();
            reason.append(message.as_str());
            Err(YardError::Config(reason))
        },
    }
}

/// What is wrong with the JSON value of a state file.
pub fn check_record(value: &Json) -> (r: Result<(), YardError>)
    ensures
        error_of(r) == (if value.deep_view() is Record {
            None
        } else {
            Some(ErrorView::Config("state file is unreadable, not absent: expected an object"@))
        }),
{
    match value {
        Json::Record(_) => Ok(()),
        _ => Err(
            YardError::Config(
                "state file is unreadable, not absent: expected an object".to_owned(),
            ),
        ),
    }
}

/// The age of what happened at a time; nothing is younger than now.
pub open spec fn age(now: u64, at: u64) -> nat {
    if at <= now {
        (now - at) as nat
    } else {
        0
    }
}

/// The line about a recorded release; an absent one has none.
pub open spec fn release_line(key: Text, record: RecordView<ReleaseView>, now: u64) -> Seq<Text> {
    match record {
        RecordView::Absent => Seq::empty(),
        RecordView::Unreadable => seq!["  "@ + key + ": unreadable release record (not absent)"@],
        RecordView::Found(release) => seq![
            "  release:"@ + release.tag + " "@ + key + " revision="@ + release.revision + " at="@
                + decimal(release.deployed_at_unix as nat) + " age="@ + decimal(
                age(now, release.deployed_at_unix),
            ) + "s result="@ + release.status + " destination="@ + release.tag + " "@,
        ],
    }
}

/// The line about a recorded backup.
pub open spec fn backup_line(label: Text, record: RecordView<AttemptView>, now: u64) -> Text {
    match record {
        RecordView::Absent => "  "@ + label + ": no backup recorded"@,
        RecordView::Unreadable => "  "@ + label + ": unreadable backup record (not absent)"@,
        RecordView::Found(attempt) => "  "@ + label + " at="@ + decimal(
            attempt.started_at_unix as nat,
        ) + " age="@ + decimal(age(now, attempt.started_at_unix)) + "s result="@ + label_of(
            attempt.result,
        ) + " destination="@ + (match attempt.destination {
            Some(destination) => destination,
            None => "unknown"@,
        }) + " (data: manual recovery only)"@,
    }
}

fn age_text(now: u64, at: u64) -> (r: String)
    ensures
        r@ == decimal(age(now, at)),
{
    let seconds: u64 = if at <= now {
        now - at
    } else {
        0
    };
    to_decimal(seconds as u128)
}

fn add_release(lines: &mut Vec<String>, key: &str, record: &Record<Release>, now: u64)
    ensures
        final(lines).deep_view() == old(lines).deep_view() + release_line(
            key@,
            record.deep_view(),
            now,
        ),
{
    let ghost before = lines.deep_view();
    match record {
        Record::Absent => {},
        Record::Unreadable => {
            let mut line = "  ".to_owned();
            line.append(key);
            line.append(": unreadable release record (not absent)");
            add_word(lines, line.as_str());
        },
        Record::Found(release) => {
            let mut line = "  release:".to_owned();
            line.append(release.tag.as_str());
            line.append(" ");
            line.append(key);
            line.append(" revision=");
            line.append(release.revision.as_str());
            line.append(" at=");
            line.append(to_decimal(release.deployed_at_unix as u128).as_str());
            line.append(" age=");
            line.append(age_text(now, release.deployed_at_unix).as_str());
            line.append("s result=");
            line.append(release.status.as_str());
            line.append(" destination=");
            line.append(release.tag.as_str());
            line.append(" ");
            add_word(lines, line.as_str());
        },
    }
    assert(lines.deep_view() =~= before + release_line(key@, record.deep_view(), now));
}

fn show_backup(label: &str, record: &Record<BackupAttempt>, now: u64) -> (r: String)
    ensures
        r@ == backup_line(label@, record.deep_view(), now),
{
    let mut line = "  ".to_owned();
    line.append(label);
    match record {
        Record::Absent => line.append(": no backup recorded"),
        Record::Unreadable => line.append(": unreadable backup record (not absent)"),
        Record::Found(attempt) => {
            line.append(" at=");
            line.append(to_decimal(attempt.started_at_unix as u128).as_str());
            line.append(" age=");
            line.append(age_text(now, attempt.started_at_unix).as_str());
            line.append("s result=");
            line.append(attempt.result.label());
            line.append(" destination=");
            match &attempt.destination {
                Some(destination) => line.append(destination.as_str()),
                None => line.append("unknown"),
            }
            line.append(" (data: manual recovery only)");
        },
    }
    line
}

/// The parts of a recorded state that can be shown by themselves.
#[derive(Debug)]
pub struct Records {
    pub previous: Record<Release>,
    pub current: Record<Release>,
    pub pending: Record<Release>,
    pub last_backup: Record<BackupAttempt>,
    pub last_offsite: Record<BackupAttempt>,
}

/// The list of what a project can be restored to, and of its backups, at a time.
pub fn points(name: &str, records: &Records, now: u64) -> (r: Vec<String>)
    ensures
        r.deep_view() == seq![
            "Restore points for "@ + name@ + " (application releases only):"@,
        ] + release_line("previous"@, records.previous.deep_view(), now) + release_line(
            "current"@,
            records.current.deep_view(),
            now,
        ) + release_line("pending"@, records.pending.deep_view(), now) + seq![
            backup_line("backup:local"@, records.last_backup.deep_view(), now),
            backup_line("backup:offsite"@, records.last_offsite.deep_view(), now),
        ],
{
    let mut heading = "Restore points for ".to_owned();
    heading.append(name);
    heading.append(" (application releases only):");
    let mut lines: Vec<String> = Vec::new();
    assert(lines.deep_view() =~= Seq::<Text>::empty());
    add_word(&mut lines, heading.as_str());
    assert(lines.deep_view() =~= seq![heading@]);
    add_release(&mut lines, "previous", &records.previous, now);
    add_release(&mut lines, "current", &records.current, now);
    add_release(&mut lines, "pending", &records.pending, now);
    let ghost releases = lines.deep_view();
    let local = show_backup("backup:local", &records.last_backup, now);
    let offsite = show_backup("backup:offsite", &records.last_offsite, now);
    add_word(&mut lines, local.as_str());
    add_word(&mut lines, offsite.as_str());
    assert(lines.deep_view() =~= releases + seq![local@, offsite@]);
    lines
}

/// What is said of a project of which nothing is recorded.
pub fn no_points(name: &str) -> (r: String)
    ensures
        r@ == "No restore points recorded for "@ + name@,
{
    let mut line = "No restore points recorded for ".to_owned();
    line.append(name);
    line
}

/// The name, without an extension, of the copies that a restore makes at a time in nanoseconds.
pub fn snapshot_stem(name: &str, nanoseconds: u128) -> (r: String)
    ensures
        r@ == name@ + ".restore-"@ + decimal(nanoseconds as nat),
{
    let mut stem = name.to_owned();
    stem.append(".restore-");
    stem.append(to_decimal(nanoseconds).as_str());
    stem
}

/// A record that is there and cannot be read is never shown as absent.
pub proof fn law_unreadable_is_not_absent(key: Text, now: u64)
    ensures
        release_line(key, RecordView::Unreadable, now) != release_line(
            key,
            RecordView::Absent,
            now,
        ),
        backup_line(key, RecordView::Unreadable, now) != backup_line(key, RecordView::Absent, now),
{
    reveal_strlit(": unreadable backup record (not absent)");
    reveal_strlit(": no backup recorded");
    assert(release_line(key, RecordView::Unreadable, now).len() == 1);
    let unreadable = backup_line(key, RecordView::<AttemptView>::Unreadable, now);
    let absent = backup_line(key, RecordView::<AttemptView>::Absent, now);
    assert(unreadable.len() != absent.len());
}

/// A release that can be restored is listed under its tag, with its revision, when it was deployed,
/// how long ago that is, and how it went.
pub proof fn law_points_tell_the_release(key: Text, release: ReleaseView, now: u64)
    ensures
        ({
            let lines = release_line(key, RecordView::Found(release), now);
            &&& lines.len() == 1
            &&& begins(lines[0], "  release:"@ + release.tag + " "@ + key)
            &&& holds_part(lines[0], " revision="@ + release.revision)
            &&& holds_part(lines[0], " at="@ + decimal(release.deployed_at_unix as nat))
            &&& release.deployed_at_unix <= now ==> holds_part(
                lines[0],
                " age="@ + decimal((now - release.deployed_at_unix) as nat),
            )
            &&& release.deployed_at_unix > now ==> holds_part(lines[0], " age="@ + decimal(0))
            &&& holds_part(lines[0], "s result="@ + release.status)
            &&& holds_part(lines[0], " destination="@ + release.tag)
        }),
{
    let start = "  release:"@ + release.tag + " "@ + key;
    assert(start.take(start.len() as int) =~= start);
    let t1 = lemma_grow(start, " revision="@, release.revision, start);
    let t2 = lemma_grow(t1, " at="@, decimal(release.deployed_at_unix as nat), start);
    let t3 = lemma_grow(t2, " age="@, decimal(age(now, release.deployed_at_unix)), start);
    let t4 = lemma_grow(t3, "s result="@, release.status, start);
    let t5 = lemma_grow(t4, " destination="@, release.tag, start);
    let line = t5 + " "@;
    lemma_parts_stay(t5, " "@);
    assert(line.take(start.len() as int) =~= t5.take(start.len() as int));
    assert(release_line(key, RecordView::Found(release), now)[0] == line);
}

/// A recorded backup is listed under its label, with when it started, how long ago that is, how it
/// went and where it went to.
pub proof fn law_points_tell_the_backup(label: Text, attempt: AttemptView, now: u64)
    ensures
        ({
            let line = backup_line(label, RecordView::Found(attempt), now);
            &&& begins(line, "  "@ + label)
            &&& holds_part(line, " at="@ + decimal(attempt.started_at_unix as nat))
            &&& attempt.started_at_unix <= now ==> holds_part(
                line,
                " age="@ + decimal((now - attempt.started_at_unix) as nat),
            )
            &&& holds_part(
                line,
                "s result="@ + (if attempt.result == BackupResult::Success {
                    "success"@
                } else {
                    "failure"@
                }),
            )
            &&& attempt.destination matches Some(destination) ==> holds_part(
                line,
                " destination="@ + destination,
            )
            &&& attempt.destination is None ==> holds_part(line, " destination="@ + "unknown"@)
        }),
{
    let start = "  "@ + label;
    assert(start.take(start.len() as int) =~= start);
    let t1 = lemma_grow(start, " at="@, decimal(attempt.started_at_unix as nat), start);
    let t2 = lemma_grow(t1, " age="@, decimal(age(now, attempt.started_at_unix)), start);
    let t3 = lemma_grow(t2, "s result="@, label_of(attempt.result), start);
    let destination = match attempt.destination {
        Some(destination) => destination,
        None => "unknown"@,
    };
    let t4 = lemma_grow(t3, " destination="@, destination, start);
    let end = " (data: manual recovery only)"@;
    lemma_parts_stay(t4, end);
    let line = t4 + end;
    assert(line.take(start.len() as int) =~= t4.take(start.len() as int));
    assert(backup_line(label, RecordView::Found(attempt), now) == line);
}

proof fn lemma_grow(s: Text, x: Text, y: Text, start: Text) -> (r: Text)
    requires
        begins(s, start),
    ensures
        r == s + x + y,
        begins(r, start),
        holds_part(r, x + y),
        forall|part: Text| holds_part(s, part) ==> #[trigger] holds_part(r, part),
{
    lemma_holds_pair(s, x, y);
    lemma_parts_stay(s, x);
    lemma_parts_stay(s + x, y);
    let r = s + x + y;
    assert(r.take(start.len() as int) =~= s.take(start.len() as int));
    assert forall|part: Text| holds_part(s, part) implies #[trigger] holds_part(r, part) by {
        assert(holds_part(s + x, part));
    }
    r
}

/// The list holds a line for each record in its own place: the releases that are recorded, each
/// under its own word, and both backups.
pub proof fn law_points_list_every_record(name: &str, records: Records, now: u64, r: Vec<String>)
    requires
        call_ensures(points, (name, &records, now), r),
    ensures
        records.previous.deep_view() is Absent && records.current.deep_view() is Absent
            && records.pending.deep_view() is Absent ==> r@.len() == 3,
        records.previous.deep_view() matches RecordView::Found(release)
            ==> r.deep_view().contains(
            release_line("previous"@, RecordView::Found(release), now)[0],
        ),
        records.current.deep_view() matches RecordView::Found(release) ==> r.deep_view().contains(
            release_line("current"@, RecordView::Found(release), now)[0],
        ),
        records.pending.deep_view() matches RecordView::Found(release) ==> r.deep_view().contains(
            release_line("pending"@, RecordView::Found(release), now)[0],
        ),
        r.deep_view().contains(
            backup_line("backup:local"@, records.last_backup.deep_view(), now),
        ),
        r.deep_view().contains(
            backup_line("backup:offsite"@, records.last_offsite.deep_view(), now),
        ),
{
    let lines = r.deep_view();
    let a = release_line("previous"@, records.previous.deep_view(), now);
    let b = release_line("current"@, records.current.deep_view(), now);
    let c = release_line("pending"@, records.pending.deep_view(), now);
    if a.len() > 0 {
        assert(lines[1] == a[0]);
    }
    if b.len() > 0 {
        assert(lines[1int + a.len()] == b[0]);
    }
    if c.len() > 0 {
        assert(lines[1int + a.len() + b.len()] == c[0]);
    }
    assert(lines[lines.len() - 2] == backup_line(
        "backup:local"@,
        records.last_backup.deep_view(),
        now,
    ));
    assert(lines[lines.len() - 1] == backup_line(
        "backup:offsite"@,
        records.last_offsite.deep_view(),
        now,
    ));
}

/// A recorded state is readable exactly where it is a JSON object.
pub proof fn law_states_are_objects(text: Text)
    ensures
        document_fault(text) is None <==> (document(text) matches Ok(value) && value is Record),
        document_fault(text) matches Some(error) ==> error is Config,
{
}

} // verus!
