//! The journal of restore attempts: one JSON document on each line.

use vstd::prelude::*;

use crate::json::{quoted, written};
use crate::number::{decimal, to_decimal};
use crate::text::{begins, holds_part, lemma_holds_pair, lemma_parts_stay, Text};

verus! {

/// A target as it stands in the journal.
pub open spec fn target_text(target: Option<Text>) -> Text {
    match target {
        Some(target) => written(target),
        None => "null"@,
    }
}

/// The line for an attempt, without its end.
pub open spec fn entry_of(at_unix: u64, target: Option<Text>, result: Text, cause: Text) -> Text {
    "{\"at_unix\":"@ + decimal(at_unix as nat) + ",\"cause\":"@ + written(cause) + ",\"result\":"@
        + written(result) + ",\"target\":"@ + target_text(target) + "}"@
}

proof fn lemma_no_line_end(a: Text, b: Text)
    requires
        !a.contains('\n'),
        !b.contains('\n'),
    ensures
        !(a + b).contains('\n'),
{
    assert forall|i: int| 0 <= i < (a + b).len() implies (a + b)[i] != '\n' by {
        if i < a.len() {
            assert(a.contains(a[i]));
        } else {
            assert(b.contains(b[i - a.len()]));
        }
    }
}

proof fn lemma_decimal_no_line_end(n: nat)
    ensures
        !decimal(n).contains('\n'),
    decreases n,
{
    if n >= 10 {
        lemma_decimal_no_line_end(n / 10);
        assert forall|i: int| 0 <= i < decimal(n).len() implies decimal(n)[i] != '\n' by {
            if i < decimal(n / 10).len() {
                assert(decimal(n / 10).contains(decimal(n / 10)[i]));
            }
        }
    }
}

/// The line for an attempt. It holds no line end, so that each attempt is one line.
pub fn entry(at_unix: u64, target: Option<&str>, result: &str, cause: &str) -> (r: String)
    ensures
        r@ == entry_of(
            at_unix,
            match target {
                Some(target) => Some(target@),
                None => None,
            },
            result@,
            cause@,
        ),
        !r@.contains('\n'),
{
    let target = match target {
        Some(target) => quoted(target),
        None => "null".to_owned(),
    };
    let cause = quoted(cause);
    let result = quoted(result);
    let stamp = to_decimal(at_unix as u128);
    proof {
        reveal_strlit("null");
        reveal_strlit("{\"at_unix\":");
        reveal_strlit(",\"cause\":");
        reveal_strlit(",\"result\":");
        reveal_strlit(",\"target\":");
        reveal_strlit("}");
        lemma_decimal_no_line_end(at_unix as nat);
    }
    let mut line = "{\"at_unix\":".to_owned();
    proof {
        lemma_no_line_end(line@, stamp@);
    }
    line.append(stamp.as_str());
    proof {
        lemma_no_line_end(line@, ",\"cause\":"@);
    }
    line.append(",\"cause\":");
    proof {
        lemma_no_line_end(line@, cause@);
    }
    line.append(cause.as_str());
    proof {
        lemma_no_line_end(line@, ",\"result\":"@);
    }
    line.append(",\"result\":");
    proof {
        lemma_no_line_end(line@, result@);
    }
    line.append(result.as_str());
    proof {
        lemma_no_line_end(line@, ",\"target\":"@);
    }
    line.append(",\"target\":");
    proof {
        lemma_no_line_end(line@, target@);
    }
    line.append(target.as_str());
    proof {
        lemma_no_line_end(line@, "}"@);
    }
    line.append("}");
    line
}

/// What is shown of the journal, given what its file holds.
pub fn shown(contents: Option<String>) -> (r: String)
    ensures
        r@ == match contents {
            Some(contents) => contents@,
            None => "No restore attempts recorded\n"@,
        },
{
    match contents {
        Some(contents) => contents,
        None => "No restore attempts recorded\n".to_owned(),
    }
}

/// The line for an attempt holds when it was, what it was aimed at, how it went and why.
pub proof fn law_entries_hold_every_member(
    at_unix: u64,
    target: Option<Text>,
    result: Text,
    cause: Text,
)
    ensures
        ({
            let line = entry_of(at_unix, target, result, cause);
            &&& begins(line, "{\"at_unix\":"@ + decimal(at_unix as nat))
            &&& holds_part(line, ",\"cause\":"@ + written(cause))
            &&& holds_part(line, ",\"result\":"@ + written(result))
            &&& target matches Some(target) ==> holds_part(
                line,
                ",\"target\":"@ + written(target),
            )
            &&& target is None ==> holds_part(line, ",\"target\":"@ + "null"@)
        }),
{
    let s0 = "{\"at_unix\":"@ + decimal(at_unix as nat);
    let s1 = s0 + ",\"cause\":"@ + written(cause);
    let s2 = s1 + ",\"result\":"@ + written(result);
    let s3 = s2 + ",\"target\":"@ + target_text(target);
    lemma_holds_pair(s0, ",\"cause\":"@, written(cause));
    lemma_holds_pair(s1, ",\"result\":"@, written(result));
    lemma_holds_pair(s2, ",\"target\":"@, target_text(target));
    lemma_parts_stay(s1, ",\"result\":"@);
    lemma_parts_stay(s1 + ",\"result\":"@, written(result));
    lemma_parts_stay(s2, ",\"target\":"@);
    lemma_parts_stay(s2 + ",\"target\":"@, target_text(target));
    lemma_parts_stay(s3, "}"@);
    assert(holds_part(s1 + ",\"result\":"@, ",\"cause\":"@ + written(cause)));
    assert(holds_part(s2 + ",\"target\":"@, ",\"cause\":"@ + written(cause)));
    assert(holds_part(s2 + ",\"target\":"@, ",\"result\":"@ + written(result)));
    let line = s3 + "}"@;
    assert(line.take(s0.len() as int) =~= s0);
}

} // verus!
