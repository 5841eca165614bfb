//! Command lines and how they fail.

use vstd::prelude::*;

use crate::error::{ErrorView, YardError};
use crate::text::{holds_part, join, joined, lemma_joined_holds, trim, trimmed, Text};

verus! {

/// Adds a word to a command line.
pub fn add_word(words: &mut Vec<String>, word: &str)
    ensures
        final(words).deep_view() == old(words).deep_view().push(word@),
{
    let ghost before = words.deep_view();
    words.push(word.to_owned());
    assert(words.deep_view() =~= before.push(word@));
}

/// Adds words to a command line.
pub fn add_words(words: &mut Vec<String>, more: &Vec<String>)
    ensures
        final(words).deep_view() == old(words).deep_view() + more.deep_view(),
{
    let ghost before = words.deep_view();
    let ghost all = more.deep_view();
    let mut i: usize = 0;
    assert(before + all.take(0) =~= before);
    while i < more.len()
        invariant
            all == more.deep_view(),
            i <= more@.len(),
            words.deep_view() == before + all.take(i as int),
        decreases more@.len() - i,
    {
        add_word(words, more[i].as_str());
        i = i + 1;
        assert(before + all.take(i as int) =~= (before + all.take(i - 1)).push(all[i - 1]));
    }
    assert(all.take(i as int) =~= all);
}

/// A program and its arguments on one line.
pub open spec fn command_line(program: Text, args: Seq<Text>) -> Text {
    joined(seq![program] + args, " "@)
}

/// A program and its arguments on one line.
pub fn format_command(program: &str, args: &Vec<String>) -> (r: String)
    ensures
        r@ == command_line(program@, args.deep_view()),
{
    let mut parts: Vec<String> = Vec::new();
    assert(parts.deep_view() =~= Seq::<Text>::empty());
    add_word(&mut parts, program);
    add_words(&mut parts, args);
    assert(parts.deep_view() =~= seq![program@] + args.deep_view());
    join(&parts, " ")
}

/// The failure of a command that ended with a status; one ended by a signal has none and counts
/// as ended with 1. Surrounding white space of what it wrote is dropped.
pub open spec fn command_failed(
    program: Text,
    args: Seq<Text>,
    status: Option<i32>,
    stderr: Text,
) -> ErrorView {
    ErrorView::CommandFailed {
        program: command_line(program, args),
        status: match status {
            Some(code) => code as int,
            None => 1,
        },
        stderr: trimmed(stderr),
    }
}

fn failure(program: &str, args: &Vec<String>, status: Option<i32>, stderr: &str) -> (r: YardError)
    ensures
        r.deep_view() == command_failed(program@, args.deep_view(), status, stderr@),
{
    let code: i32 = match status {
        Some(code) => code,
        None => 1,
    };
    YardError::CommandFailed {
        program: format_command(program, args),
        status: code,
        stderr: trim(stderr),
    }
}

/// The outcome of a command whose output was captured: what it wrote, without surrounding white
/// space, where it succeeded.
pub fn checked(
    program: &str,
    args: &Vec<String>,
    success: bool,
    status: Option<i32>,
    stdout: &str,
    stderr: &str,
) -> (r: Result<String, YardError>)
    ensures
        match r {
            Ok(output) => success && output@ == trimmed(stdout@),
            Err(error) => !success && error.deep_view() == command_failed(
                program@,
                args.deep_view(),
                status,
                stderr@,
            ),
        },
{
    if success {
        Ok(trim(stdout))
    } else {
        Err(failure(program, args, status, stderr))
    }
}

/// The outcome of a command that used the terminal of its caller.
pub fn inherit(program: &str, args: &Vec<String>, success: bool, status: Option<i32>) -> (r: Result<
    (),
    YardError,
>)
    ensures
        match r {
            Ok(()) => success,
            Err(error) => !success && error.deep_view() == command_failed(
                program@,
                args.deep_view(),
                status,
                Seq::empty(),
            ),
        },
{
    if success {
        Ok(())
    } else {
        proof {
            reveal_strlit("");
            assert(""@ =~= Seq::<char>::empty());
        }
        Err(failure(program, args, status, ""))
    }
}

/// Whether what a command gave failed because the command ran and failed.
pub fn is_command_failure(error: &YardError) -> (r: bool)
    ensures
        r == (error.deep_view() is CommandFailed),
{
    match error {
        YardError::CommandFailed { .. } => true,
        _ => false,
    }
}

/// A command that fails is told of with all its words and what it wrote; one that was stopped from
/// outside counts as status 1.
pub proof fn law_failures_name_the_command(
    program: Text,
    args: Seq<Text>,
    code: i32,
    stderr: Text,
    i: int,
)
    ensures
        ({
            let failed = command_failed(program, args, Some(code), stderr);
            let stopped = command_failed(program, args, None, stderr);
            &&& failed matches ErrorView::CommandFailed { program: line, status, stderr: told } && {
                &&& status == code
                &&& told == trimmed(stderr)
                &&& holds_part(line, program)
                &&& 0 <= i < args.len() ==> holds_part(line, args[i])
            }
            &&& stopped matches ErrorView::CommandFailed { status, .. } && status == 1
        }),
{
    let words = seq![program] + args;
    lemma_joined_holds(words, " "@, 0);
    if 0 <= i < args.len() {
        lemma_joined_holds(words, " "@, i + 1);
        assert(words[i + 1] == args[i]);
    }
}

/// A command whose output was captured gives what it wrote exactly where it succeeded.
pub proof fn law_output_needs_success(
    program: &str,
    args: &Vec<String>,
    success: bool,
    status: Option<i32>,
    stdout: &str,
    stderr: &str,
    r: Result<String, YardError>,
)
    requires
        call_ensures(checked, (program, args, success, status, stdout, stderr), r),
    ensures
        r is Ok <==> success,
        r matches Ok(output) ==> output@ == trimmed(stdout@),
        r matches Err(error) ==> error.deep_view() is CommandFailed,
{
}

} // verus!
