//! Environment files: lines of the form `KEY=value`.

use vstd::prelude::*;

use crate::error::{error_of, ErrorView, YardError};
use crate::text::{
    after_prefix, begins, ended, lemma_ended_lines, lemma_lines, lines, lines_of, starts_with,
    strip_prefix, without_return, Text,
};

verus! {

// ---------------------------------------------------------------------------------------------
// The format
// ---------------------------------------------------------------------------------------------

/// What an entry for a key begins with.
pub open spec fn entry_prefix(key: Text) -> Text {
    key + "="@
}

/// The values of the entries for a key, in order.
pub open spec fn values_of(lines: Seq<Text>, key: Text) -> Seq<Text>
    decreases lines.len(),
{
    if lines.len() == 0 {
        Seq::empty()
    } else {
        let before = values_of(lines.drop_last(), key);
        match after_prefix(lines.last(), entry_prefix(key)) {
            Some(value) => before.push(value),
            None => before,
        }
    }
}

/// The failure that reports more than one entry for a key.
pub open spec fn duplicate(path: Text, key: Text) -> ErrorView {
    ErrorView::Config(path + " contains duplicate "@ + key + " entries"@)
}

/// The failure that reports a symbolic link in place of the file.
pub open spec fn linked(path: Text) -> ErrorView {
    ErrorView::Config("refusing symbolic link at "@ + path)
}

/// The failure that reports a file in place of the temporary one.
pub open spec fn occupied_by(temporary: Text) -> ErrorView {
    ErrorView::Config("refusing pre-existing temporary file at "@ + temporary)
}

/// A line after an entry has been given a value.
pub open spec fn replacement(line: Text, key: Text, value: Text) -> Text {
    if begins(line, entry_prefix(key)) {
        entry_prefix(key) + value
    } else {
        line
    }
}

/// The lines after a key has been given a value: an entry that is there is replaced in its place,
/// one that is not goes to the end.
pub open spec fn updated(lines: Seq<Text>, key: Text, value: Text) -> Seq<Text> {
    let kept = lines.map_values(|line: Text| replacement(line, key, value));
    if values_of(lines, key).len() == 0 {
        kept.push(entry_prefix(key) + value)
    } else {
        kept
    }
}

// ---------------------------------------------------------------------------------------------
// Reading and writing
// ---------------------------------------------------------------------------------------------

fn prefix(key: &str) -> (r: String)
    ensures
        r@ == entry_prefix(key@),
{
    let mut out = key.to_owned();
    out.append("=");
    out
}

fn duplicate_error(path: &str, key: &str) -> (r: YardError)
    ensures
        r.deep_view() == duplicate(path@, key@),
{
    let mut message = path.to_owned();
    message.append(" contains duplicate ");
    message.append(key);
    message.append(" entries");
    YardError::Config(message)
}

fn values(contents: &str, key: &str) -> (r: Vec<String>)
    ensures
        r.deep_view() == values_of(lines_of(contents@), key@),
{
    let all = lines(contents);
    let wanted = prefix(key);
    let mut out: Vec<String> = Vec::new();
    let mut i: usize = 0;
    let ghost views = all.deep_view();
    assert(out.deep_view() =~= values_of(views.take(0), key@));
    while i < all.len()
        invariant
            wanted@ == entry_prefix(key@),
            views == all.deep_view(),
            i <= all@.len(),
            out.deep_view() == values_of(views.take(i as int), key@),
        decreases all@.len() - i,
    {
        let ghost before = out.deep_view();
        assert(views.take(i + 1).drop_last() =~= views.take(i as int));
        assert(views.take(i + 1).last() == all@[i as int]@);
        if let Some(value) = strip_prefix(all[i].as_str(), wanted.as_str()) {
            out.push(value);
            assert(out.deep_view() =~= before.push(value@));
        }
        i = i + 1;
    }
    assert(views.take(i as int) =~= views);
    out
}

/// The value of a key in the contents of the file at `path`.
pub fn get(path: &str, contents: &str, key: &str) -> (r: Result<Option<String>, YardError>)
    ensures
        match r {
            Ok(None) => values_of(lines_of(contents@), key@).len() == 0,
            Ok(Some(value)) => values_of(lines_of(contents@), key@) == seq![value@],
            Err(error) => values_of(lines_of(contents@), key@).len() > 1 && error.deep_view()
                == duplicate(path@, key@),
        },
{
    let mut found = values(contents, key);
    let ghost views = found.deep_view();
    if found.len() > 1 {
        return Err(duplicate_error(path, key));
    }
    match found.pop() {
        Some(value) => {
            assert(views =~= seq![value@]);
            Ok(Some(value))
        },
        None => Ok(None),
    }
}

/// Whether the file at `path` may be replaced. It may not when it is a symbolic link, nor while
/// something stands at the path `temporary`.
pub fn check_writable(path: &str, symlink: bool, temporary: &str, occupied: bool) -> (r: Result<
    (),
    YardError,
>)
    ensures
        error_of(r) == (if symlink {
            Some(linked(path@))
        } else if occupied {
            Some(occupied_by(temporary@))
        } else {
            None
        }),
{
    if symlink {
        let mut message = "refusing symbolic link at ".to_owned();
        message.append(path);
        return Err(YardError::Config(message));
    }
    if occupied {
        let mut message = "refusing pre-existing temporary file at ".to_owned();
        message.append(temporary);
        return Err(YardError::Config(message));
    }
    Ok(())
}

/// The new contents of the file at `path` once a key has been given a value.
///
/// `symlink` tells whether the path is a symbolic link, `occupied` whether something stands at
/// the path `temporary`.
pub fn set(
    path: &str,
    symlink: bool,
    contents: &str,
    key: &str,
    value: &str,
    temporary: &str,
    occupied: bool,
) -> (r: Result<String, YardError>)
    ensures
        error_of(r) == (if symlink {
            Some(linked(path@))
        } else if values_of(lines_of(contents@), key@).len() > 1 {
            Some(duplicate(path@, key@))
        } else if occupied {
            Some(occupied_by(temporary@))
        } else {
            None
        }),
        r matches Ok(output) ==> output@ == ended(updated(lines_of(contents@), key@, value@)),
{
    check_writable(path, symlink, temporary, false)?;
    let found = values(contents, key);
    if found.len() > 1 {
        return Err(duplicate_error(path, key));
    }
    check_writable(path, false, temporary, occupied)?;
    let all = lines(contents);
    let wanted = prefix(key);
    let mut output = String::new();
    let mut i: usize = 0;
    let ghost views = all.deep_view();
    let ghost kept = views.map_values(|line: Text| replacement(line, key@, value@));
    assert(output@ =~= ended(kept.take(0)));
    while i < all.len()
        invariant
            wanted@ == entry_prefix(key@),
            views == all.deep_view(),
            kept == views.map_values(|line: Text| replacement(line, key@, value@)),
            i <= all@.len(),
            output@ == ended(kept.take(i as int)),
        decreases all@.len() - i,
    {
        let ghost before = output@;
        if starts_with(all[i].as_str(), wanted.as_str()) {
            output.append(wanted.as_str());
            output.append(value);
        } else {
            output.append(all[i].as_str());
        }
        output.push('\n');
        proof {
            assert(kept.take(i + 1).drop_last() =~= kept.take(i as int));
            assert(kept.take(i + 1).last() == replacement(all@[i as int]@, key@, value@));
            assert(output@ =~= ended(kept.take(i + 1)));
        }
        i = i + 1;
    }
    assert(kept.take(i as int) =~= kept);
    if found.len() == 0 {
        let ghost before = output@;
        output.append(wanted.as_str());
        output.append(value);
        output.push('\n');
        proof {
            let longer = kept.push(entry_prefix(key@) + value@);
            assert(longer.drop_last() =~= kept);
            assert(output@ =~= ended(longer));
        }
    }
    Ok(output)
}

/// The name of the temporary file that earlier versions put beside an environment file.
pub fn legacy_temporary(file_name: Option<&str>) -> (r: String)
    ensures
        r@ == "."@ + (match file_name {
            Some(name) => name@,
            None => "env"@,
        }) + ".yard.tmp"@,
{
    let mut out = ".".to_owned();
    match file_name {
        Some(name) => out.append(name),
        None => out.append("env"),
    }
    out.append(".yard.tmp");
    out
}

// ---------------------------------------------------------------------------------------------
// Laws
// ---------------------------------------------------------------------------------------------

proof fn lemma_without_return_prefix(line: Text, prefix: Text)
    requires
        begins(without_return(line), prefix),
    ensures
        begins(line, prefix),
{
    assert(line.take(prefix.len() as int) =~= without_return(line).take(prefix.len() as int));
}

proof fn lemma_entry(key: Text, value: Text)
    requires
        value.len() > 0 ==> value.last() != '\r',
    ensures
        begins(entry_prefix(key) + value, entry_prefix(key)),
        without_return(entry_prefix(key) + value) == entry_prefix(key) + value,
        after_prefix(entry_prefix(key) + value, entry_prefix(key)) == Some(value),
{
    reveal_strlit("=");
    let line = entry_prefix(key) + value;
    assert(line.take(entry_prefix(key).len() as int) =~= entry_prefix(key));
    assert(line.skip(entry_prefix(key).len() as int) =~= value);
    assert(entry_prefix(key).last() == '=');
    if value.len() == 0 {
        assert(line =~= entry_prefix(key));
    } else {
        assert(line.last() == value.last());
    }
}

/// Replacing the entries and reading the lines again leaves as many values, each the new one.
proof fn lemma_values_of_replaced(lines: Seq<Text>, key: Text, value: Text)
    requires
        value.len() > 0 ==> value.last() != '\r',
    ensures
        values_of(
            lines.map_values(|line: Text| without_return(replacement(line, key, value))),
            key,
        ) == Seq::new(values_of(lines, key).len(), |i: int| value),
    decreases lines.len(),
{
    let change = |line: Text| without_return(replacement(line, key, value));
    let after = lines.map_values(change);
    if lines.len() == 0 {
        assert(after =~= Seq::<Text>::empty());
        assert(values_of(after, key) =~= Seq::new(values_of(lines, key).len(), |i: int| value));
    } else {
        lemma_values_of_replaced(lines.drop_last(), key, value);
        assert(after.drop_last() =~= lines.drop_last().map_values(change));
        assert(after.last() == without_return(replacement(lines.last(), key, value)));
        lemma_entry(key, value);
        if !begins(lines.last(), entry_prefix(key)) {
            if begins(without_return(lines.last()), entry_prefix(key)) {
                lemma_without_return_prefix(lines.last(), entry_prefix(key));
            }
        }
        assert(values_of(after, key) =~= Seq::new(values_of(lines, key).len(), |i: int| value));
    }
}

proof fn lemma_updated_lines(contents: Text, key: Text, value: Text)
    requires
        !key.contains('\n'),
        !value.contains('\n'),
    ensures
        ({
            let after = updated(lines_of(contents), key, value);
            lines_of(ended(after)) == after.map_values(|line: Text| without_return(line))
        }),
{
    let before = lines_of(contents);
    let after = updated(before, key, value);
    lemma_lines(contents);
    reveal_strlit("=");
    let entry = entry_prefix(key) + value;
    assert(!entry.contains('\n')) by {
        if entry.contains('\n') {
            let i = choose|i: int| 0 <= i < entry.len() && entry[i] == '\n';
            if i < key.len() {
                assert(key[i] == '\n');
            } else if i > key.len() {
                assert(value[i - key.len() - 1] == '\n');
            }
        }
    }
    assert forall|i: int| 0 <= i < after.len() implies !(#[trigger] after[i]).contains('\n') by {
        if i < before.len() {
            assert(after[i] == replacement(before[i], key, value));
        } else {
            assert(after[i] == entry);
        }
    }
    lemma_ended_lines(after);
}

/// After a key has been given a value, reading the key gives that value, and no second entry is
/// there.
pub proof fn law_value_reads_back(contents: Text, key: Text, value: Text)
    requires
        !key.contains('\n'),
        !value.contains('\n'),
        value.len() > 0 ==> value.last() != '\r',
        values_of(lines_of(contents), key).len() <= 1,
    ensures
        values_of(lines_of(ended(updated(lines_of(contents), key, value))), key) == seq![value],
{
    let before = lines_of(contents);
    let after = updated(before, key, value);
    let clean = |line: Text| without_return(line);
    let change = |line: Text| without_return(replacement(line, key, value));
    lemma_updated_lines(contents, key, value);
    lemma_values_of_replaced(before, key, value);
    lemma_entry(key, value);
    let read = after.map_values(clean);
    if values_of(before, key).len() == 0 {
        assert(read.drop_last() =~= before.map_values(change));
        assert(read.last() == entry_prefix(key) + value);
        assert(values_of(read, key) =~= seq![value]);
    } else {
        assert(read =~= before.map_values(change));
        assert(values_of(read, key) =~= seq![value]);
    }
}

/// Giving a key a value leaves every other line as it was and where it was. Lines that end in a
/// carriage return of their own are left out: they lose it.
pub proof fn law_other_lines_stay(contents: Text, key: Text, value: Text, at: int)
    requires
        !key.contains('\n'),
        !value.contains('\n'),
        0 <= at < lines_of(contents).len(),
        !begins(lines_of(contents)[at], entry_prefix(key)),
        lines_of(contents)[at].len() > 0 ==> lines_of(contents)[at].last() != '\r',
    ensures
        ({
            let after = lines_of(ended(updated(lines_of(contents), key, value)));
            &&& at < after.len()
            &&& after[at] == lines_of(contents)[at]
        }),
{
    let before = lines_of(contents);
    lemma_updated_lines(contents, key, value);
    assert(updated(before, key, value)[at] == before[at]);
}

/// Giving a key a value that it has not had adds one line; otherwise the number of lines stays.
pub proof fn law_number_of_lines(contents: Text, key: Text, value: Text)
    requires
        !key.contains('\n'),
        !value.contains('\n'),
    ensures
        lines_of(ended(updated(lines_of(contents), key, value))).len() == lines_of(contents).len()
            + (if values_of(lines_of(contents), key).len() == 0 {
            1int
        } else {
            0int
        }),
{
    lemma_updated_lines(contents, key, value);
}

/// A second value leaves nothing of the first: the file is as if only the second had been given.
pub proof fn law_last_value_stays(contents: Text, key: Text, first: Text, second: Text)
    requires
        !key.contains('\n'),
        !first.contains('\n'),
        !second.contains('\n'),
        first.len() > 0 ==> first.last() != '\r',
        second.len() > 0 ==> second.last() != '\r',
        values_of(lines_of(contents), key).len() <= 1,
        forall|i: int|
            0 <= i < lines_of(contents).len() ==> without_return(#[trigger] lines_of(contents)[i])
                == lines_of(contents)[i],
    ensures
        updated(lines_of(ended(updated(lines_of(contents), key, first))), key, second) == updated(
            lines_of(contents),
            key,
            second,
        ),
{
    let before = lines_of(contents);
    let middle = updated(before, key, first);
    lemma_updated_lines(contents, key, first);
    lemma_entry(key, first);
    lemma_entry(key, second);
    law_value_reads_back(contents, key, first);
    let read = lines_of(ended(middle));
    assert forall|i: int| 0 <= i < read.len() implies replacement(#[trigger] read[i], key, second)
        == updated(before, key, second)[i] by {
        assert(read[i] == without_return(middle[i]));
        if i < before.len() {
            assert(middle[i] == replacement(before[i], key, first));
            assert(updated(before, key, second)[i] == replacement(before[i], key, second));
        }
    }
    assert(updated(read, key, second) =~= updated(before, key, second));
}

proof fn lemma_values_of(lines: Seq<Text>, key: Text, value: Text)
    ensures
        values_of(lines, key).contains(value) <==> lines.contains(key + "="@ + value),
    decreases lines.len(),
{
    if lines.len() > 0 {
        let shorter = lines.drop_last();
        let last = lines.last();
        let start = key + "="@;
        lemma_values_of(shorter, key, value);
        let all = values_of(lines, key);
        let before = values_of(shorter, key);
        if begins(last, start) {
            assert(last =~= start + last.skip(start.len() as int));
        }
        if last == start + value {
            assert(last.take(start.len() as int) =~= start);
            assert(last.skip(start.len() as int) =~= value);
            assert(all[all.len() - 1] == value);
        }
        if all.contains(value) {
            let k = choose|k: int| 0 <= k < all.len() && all[k] == value;
            if k < before.len() {
                assert(before[k] == value);
                let i = choose|i: int| 0 <= i < shorter.len() && shorter[i] == start + value;
                assert(lines[i] == start + value);
            } else {
                assert(lines[lines.len() - 1] == start + value);
            }
        }
        if lines.contains(start + value) {
            let i = choose|i: int| 0 <= i < lines.len() && lines[i] == start + value;
            if i < shorter.len() {
                assert(shorter[i] == start + value);
                let k = choose|k: int| 0 <= k < before.len() && before[k] == value;
                assert(all[k] == value);
            }
        }
    }
}

/// A key has a value exactly where a line is the key, an equals sign and the value.
pub proof fn law_values_stand_behind_their_key(contents: Text, key: Text, value: Text)
    ensures
        values_of(lines_of(contents), key).contains(value) <==> lines_of(contents).contains(
            key + "="@ + value,
        ),
{
    lemma_values_of(lines_of(contents), key, value);
}

/// What is got of a key is a value of it, nothing exactly where it has none, and an error exactly
/// where it has several.
pub proof fn law_one_value_is_got(
    path: &str,
    contents: &str,
    key: &str,
    r: Result<Option<String>, YardError>,
)
    requires
        call_ensures(get, (path, contents, key), r),
    ensures
        r matches Ok(Some(value)) ==> lines_of(contents@).contains(key@ + "="@ + value@),
        r matches Ok(None) ==> forall|value: Text|
            !(#[trigger] lines_of(contents@).contains(key@ + "="@ + value)),
        r is Err <==> values_of(lines_of(contents@), key@).len() > 1,
{
    let values = values_of(lines_of(contents@), key@);
    if let Ok(Some(value)) = r {
        assert(values[0] == value@);
        assert(values.contains(value@));
        lemma_values_of(lines_of(contents@), key@, value@);
    }
    if let Ok(None) = r {
        assert forall|value: Text| !(
        #[trigger] lines_of(contents@).contains(key@ + "="@ + value)) by {
            lemma_values_of(lines_of(contents@), key@, value);
        }
    }
}

/// A file that is a link, that holds a key more than once, or beside which something stands in the
/// way is not written.
pub proof fn law_doubtful_files_are_not_written(
    path: &str,
    symlink: bool,
    contents: &str,
    key: &str,
    value: &str,
    temporary: &str,
    occupied: bool,
    r: Result<String, YardError>,
)
    requires
        call_ensures(set, (path, symlink, contents, key, value, temporary, occupied), r),
    ensures
        r is Ok <==> !symlink && !occupied && values_of(lines_of(contents@), key@).len() <= 1,
{
}

} // verus!
