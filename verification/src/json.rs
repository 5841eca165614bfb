//! JSON documents, as far as the tool reads them.

use vstd::prelude::*;

use crate::text::{blank, is_blank, lines, lines_of, same, Text};

verus! {

/// A JSON value. A number is kept as the JSON reader writes it again, which may spell it otherwise
/// than the document does.
#[derive(Debug)]
pub enum Json {
    Null,
    Bool(bool),
    Number(String),
    Text(String),
    List(Vec<Json>),
    Record(Vec<(String, Json)>),
}

/// What a JSON value holds. The members of a record have distinct names.
pub enum JsonView {
    Null,
    Bool(bool),
    Number(Text),
    Text(Text),
    List(Seq<JsonView>),
    Record(Seq<(Text, JsonView)>),
}

pub open spec fn json_view(value: Json) -> JsonView
    decreases value,
{
    match value {
        Json::Null => JsonView::Null,
        Json::Bool(b) => JsonView::Bool(b),
        Json::Number(text) => JsonView::Number(text@),
        Json::Text(text) => JsonView::Text(text@),
        Json::List(items) => JsonView::List(
            Seq::new(
                items@.len(),
                |i: int|
                    if 0 <= i < items@.len() {
                        json_view(items@[i])
                    } else {
                        JsonView::Null
                    },
            ),
        ),
        Json::Record(members) => JsonView::Record(
            Seq::new(
                members@.len(),
                |i: int|
                    if 0 <= i < members@.len() {
                        (members@[i].0@, json_view(members@[i].1))
                    } else {
                        (Seq::<char>::empty(), JsonView::Null)
                    },
            ),
        ),
    }
}

impl DeepView for Json {
    type V = JsonView;

    open spec fn deep_view(&self) -> JsonView {
        json_view(*self)
    }
}

/// The member of a record with the given name.
pub open spec fn member(value: JsonView, name: Text) -> Option<JsonView> {
    match value {
        JsonView::Record(members) => member_in(members, name),
        _ => None,
    }
}

/// The first member with the given name.
pub open spec fn member_in(members: Seq<(Text, JsonView)>, name: Text) -> Option<JsonView>
    decreases members.len(),
{
    if members.len() == 0 {
        None
    } else if members[0].0 == name {
        Some(members[0].1)
    } else {
        member_in(members.skip(1), name)
    }
}

/// The text of a member that is text.
pub open spec fn member_text(value: JsonView, name: Text) -> Option<Text> {
    match member(value, name) {
        Some(JsonView::Text(text)) => Some(text),
        _ => None,
    }
}

impl Json {
    /// The member of a record with the given name.
    pub fn member(&self, name: &str) -> (r: Option<&Json>)
        ensures
            r.deep_view() == member(self.deep_view(), name@),
    {
        match self {
            Json::Record(members) => {
                let ghost all = self.deep_view()->Record_0;
                let mut i: usize = 0;
                assert(all.skip(0) =~= all);
                while i < members.len()
                    invariant
                        *self == Json::Record(*members),
                        all == self.deep_view()->Record_0,
                        i <= members@.len(),
                        member_in(all, name@) == member_in(all.skip(i as int), name@),
                    decreases members@.len() - i,
                {
                    if same(members[i].0.as_str(), name) {
                        return Some(&members[i].1);
                    }
                    assert(all.skip(i as int).skip(1) =~= all.skip(i + 1));
                    i = i + 1;
                }
                None
            },
            _ => None,
        }
    }

    /// The text of a member that is text.
    pub fn member_text(&self, name: &str) -> (r: Option<String>)
        ensures
            r.deep_view() == member_text(self.deep_view(), name@),
    {
        match self.member(name) {
            Some(Json::Text(text)) => Some(text.clone()),
            _ => None,
        }
    }
}

impl Clone for Json {
    fn clone(&self) -> (r: Self)
        ensures
            r.deep_view() == self.deep_view(),
        decreases self,
    {
        match self {
            Json::Null => Json::Null,
            Json::Bool(b) => Json::Bool(*b),
            Json::Number(text) => Json::Number(text.clone()),
            Json::Text(text) => Json::Text(text.clone()),
            Json::List(items) => {
                let mut out: Vec<Json> = Vec::new();
                let mut i: usize = 0;
                while i < items.len()
                    invariant
                        *self == Json::List(*items),
                        i <= items@.len(),
                        out@.len() == i,
                        forall|j: int| 0 <= j < i ==> json_view(#[trigger] out@[j]) == json_view(items@[j]),
                    decreases items@.len() - i,
                {
                    assert(decreases_to!(*self => items@[i as int])) by {
                        assert(decreases_to!(*self => self->List_0));
                        assert(decreases_to!(self->List_0 => items@));
                        assert(decreases_to!(items@ => items@[i as int]));
                    }
                    out.push(items[i].clone());
                    i = i + 1;
                }
                let copy = Json::List(out);
                assert(copy.deep_view()->List_0 =~= self.deep_view()->List_0);
                copy
            },
            Json::Record(members) => {
                let mut out: Vec<(String, Json)> = Vec::new();
                let mut i: usize = 0;
                while i < members.len()
                    invariant
                        *self == Json::Record(*members),
                        i <= members@.len(),
                        out@.len() == i,
                        forall|j: int| 0 <= j < i ==> (#[trigger] out@[j]).0@ == members@[j].0@ && json_view(out@[j].1) == json_view(members@[j].1),
                    decreases members@.len() - i,
                {
                    assert(decreases_to!(*self => members@[i as int].1)) by {
                        assert(decreases_to!(*self => self->Record_0));
                        assert(decreases_to!(self->Record_0 => members@));
                        assert(decreases_to!(members@ => members@[i as int]));
                        assert(decreases_to!(members@[i as int] => members@[i as int].1));
                    }
                    out.push((members[i].0.clone(), members[i].1.clone()));
                    i = i + 1;
                }
                let copy = Json::Record(out);
                assert(copy.deep_view()->Record_0 =~= self.deep_view()->Record_0);
                copy
            },
        }
    }
}

/// A value of `serde_json`.
#[verifier::external_type_specification]
#[verifier::external_body]
pub struct ExValue(serde_json::Value);

/// What a `serde_json` value holds.
pub uninterp spec fn content(value: serde_json::Value) -> JsonView;

/// The document that a piece of text writes in JSON, or the message that says why it writes none.
pub uninterp spec fn document(text: Text) -> Result<JsonView, Text>;

/// Calls `serde_json::from_str` for a `serde_json::Value`. It gives the value that the text
/// writes, or the message of the error where the text is not one JSON document.
#[verifier::external_body]
fn read_value(text: &str) -> (r: Result<serde_json::Value, String>)
    ensures
        match r {
            Ok(value) => document(text@) == Ok::<JsonView, Text>(content(value)),
            Err(message) => document(text@) == Err::<JsonView, Text>(message@),
        },
{
    serde_json::from_str(text).map_err(|error| error.to_string())
}

/// Takes a `serde_json::Value` apart, variant by variant; a `serde_json::Number` is written out by
/// its `to_string`.
#[verifier::external_body]
fn unfold(value: serde_json::Value) -> (r: Json)
    ensures
        r.deep_view() == content(value),
{
    match value {
        serde_json::Value::Null => Json::Null,
        serde_json::Value::Bool(b) => Json::Bool(b),
        serde_json::Value::Number(n) => Json::Number(n.to_string()),
        serde_json::Value::String(text) => Json::Text(text),
        serde_json::Value::Array(items) => Json::List(items.into_iter().map(unfold).collect()),
        serde_json::Value::Object(members) => Json::Record(
            members.into_iter().map(|(name, item)| (name, unfold(item))).collect(),
        ),
    }
}

/// Reads a JSON document; the message says why there is none.
pub fn parse(text: &str) -> (r: Result<Json, String>)
    ensures
        match r {
            Ok(value) => document(text@) == Ok::<JsonView, Text>(value.deep_view()),
            Err(message) => document(text@) == Err::<JsonView, Text>(message@),
        },
{
    match read_value(text) {
        Ok(value) => Ok(unfold(value)),
        Err(message) => Err(message),
    }
}

/// A document that is a piece of text.
pub open spec fn text_document(text: Text) -> Result<JsonView, Text> {
    Ok(JsonView::Text(text))
}

/// The JSON document that a piece of text is written as.
pub uninterp spec fn written(text: Text) -> Text;

/// Writes a `serde_json::Value::String` by its `to_string`. The document reads back as the text,
/// and it is a single line, since `serde_json` escapes line ends.
#[verifier::external_body]
fn write_text(text: &str) -> (r: String)
    ensures
        r@ == written(text@),
        document(r@) == text_document(text@),
        !r@.contains('\n'),
{
    serde_json::Value::String(text.to_owned()).to_string()
}

/// The JSON document for a piece of text. It reads back as that text.
pub fn quoted(text: &str) -> (r: String)
    ensures
        r@ == written(text@),
        document(r@) == text_document(text@),
        !r@.contains('\n'),
{
    write_text(text)
}

// ---------------------------------------------------------------------------------------------
// Lists of documents
// ---------------------------------------------------------------------------------------------

/// The items of a list.
pub open spec fn items_of(value: JsonView) -> Option<Seq<JsonView>> {
    match value {
        JsonView::List(items) => Some(items),
        _ => None,
    }
}

impl Json {
    /// The items of a list.
    pub fn into_items(self) -> (r: Option<Vec<Json>>)
        ensures
            r.deep_view() == items_of(self.deep_view()),
    {
        match self {
            Json::List(items) => {
                assert(self.deep_view()->List_0 =~= items.deep_view());
                Some(items)
            },
            _ => None,
        }
    }
}

/// The documents that pieces of text write, one each, or the message about the first that writes
/// none.
pub open spec fn documents(texts: Seq<Text>) -> Result<Seq<JsonView>, Text>
    decreases texts.len(),
{
    if texts.len() == 0 {
        Ok(Seq::empty())
    } else {
        match documents(texts.drop_last()) {
            Ok(values) => match document(texts.last()) {
                Ok(value) => Ok(values.push(value)),
                Err(message) => Err(message),
            },
            Err(message) => Err(message),
        }
    }
}

proof fn lemma_documents_fail(texts: Seq<Text>, n: int)
    requires
        0 <= n <= texts.len(),
        documents(texts.take(n)) is Err,
    ensures
        documents(texts) == documents(texts.take(n)),
    decreases texts.len() - n,
{
    if n == texts.len() {
        assert(texts.take(n) =~= texts);
    } else {
        assert(texts.take(n + 1).drop_last() =~= texts.take(n));
        lemma_documents_fail(texts, n + 1);
    }
}

/// Reads one JSON document from each piece of text.
pub fn parse_each(texts: &Vec<String>) -> (r: Result<Vec<Json>, String>)
    ensures
        match r {
            Ok(values) => documents(texts.deep_view()) == Ok::<Seq<JsonView>, Text>(
                values.deep_view(),
            ),
            Err(message) => documents(texts.deep_view()) == Err::<Seq<JsonView>, Text>(message@),
        },
{
    let ghost all = texts.deep_view();
    let mut out: Vec<Json> = Vec::new();
    let mut i: usize = 0;
    assert(all.take(0) =~= Seq::<Text>::empty());
    assert(out.deep_view() =~= Seq::<JsonView>::empty());
    while i < texts.len()
        invariant
            all == texts.deep_view(),
            i <= texts@.len(),
            documents(all.take(i as int)) == Ok::<Seq<JsonView>, Text>(out.deep_view()),
        decreases texts@.len() - i,
    {
        assert(all.take(i + 1).drop_last() =~= all.take(i as int));
        assert(all.take(i + 1).last() == texts@[i as int]@);
        match parse(texts[i].as_str()) {
            Ok(value) => {
                let ghost before = out.deep_view();
                out.push(value);
                assert(out.deep_view() =~= before.push(value.deep_view()));
            },
            Err(message) => {
                proof {
                    lemma_documents_fail(all, i + 1);
                }
                return Err(message);
            },
        }
        i = i + 1;
    }
    assert(all.take(i as int) =~= all);
    Ok(out)
}

/// The rows of a listing: a JSON list, or else one JSON document on each line. Blank text has no
/// rows.
pub open spec fn rows_of(text: Text) -> Result<Seq<JsonView>, Text> {
    if is_blank(text) {
        Ok(Seq::empty())
    } else {
        match document(text) {
            Ok(JsonView::List(items)) => Ok(items),
            _ => documents(lines_of(text)),
        }
    }
}

/// The rows of a listing.
pub fn rows(text: &str) -> (r: Result<Vec<Json>, String>)
    ensures
        match r {
            Ok(values) => rows_of(text@) == Ok::<Seq<JsonView>, Text>(values.deep_view()),
            Err(message) => rows_of(text@) == Err::<Seq<JsonView>, Text>(message@),
        },
{
    if blank(text) {
        let none: Vec<Json> = Vec::new();
        assert(none.deep_view() =~= Seq::<JsonView>::empty());
        return Ok(none);
    }
    if let Ok(value) = parse(text) {
        if let Some(items) = value.into_items() {
            return Ok(items);
        }
    }
    parse_each(&lines(text))
}

// ---------------------------------------------------------------------------------------------
// Laws
// ---------------------------------------------------------------------------------------------

proof fn lemma_member_at(members: Seq<(Text, JsonView)>, name: Text, k: int)
    requires
        0 <= k < members.len(),
        members[k].0 == name,
        forall|j: int| 0 <= j < k ==> (#[trigger] members[j]).0 != name,
    ensures
        member_in(members, name) == Some(members[k].1),
    decreases members.len(),
{
    if k > 0 {
        let rest = members.skip(1);
        assert(members[0].0 != name);
        assert forall|j: int| 0 <= j < k - 1 implies (#[trigger] rest[j]).0 != name by {
            assert(rest[j] == members[j + 1]);
        }
        assert(rest[k - 1] == members[k]);
        lemma_member_at(rest, name, k - 1);
    }
}

proof fn lemma_no_member(members: Seq<(Text, JsonView)>, name: Text)
    requires
        forall|j: int| 0 <= j < members.len() ==> (#[trigger] members[j]).0 != name,
    ensures
        member_in(members, name) is None,
    decreases members.len(),
{
    if members.len() > 0 {
        let rest = members.skip(1);
        assert forall|j: int| 0 <= j < rest.len() implies (#[trigger] rest[j]).0 != name by {
            assert(rest[j] == members[j + 1]);
        }
        lemma_no_member(rest, name);
    }
}

/// A record gives the first member of a name, and none where no member has it; its text is given
/// exactly where it is text. What is no record has no members.
pub proof fn law_members_are_found_by_name(value: JsonView, name: Text, text: Text)
    ensures
        value matches JsonView::Record(members) ==> {
            &&& forall|k: int|
                0 <= k < members.len() && (#[trigger] members[k]).0 == name && (forall|j: int|
                    0 <= j < k ==> (#[trigger] members[j]).0 != name) ==> member(value, name)
                    == Some(members[k].1)
            &&& (forall|j: int| 0 <= j < members.len() ==> (#[trigger] members[j]).0 != name)
                ==> member(value, name) is None
        },
        !(value is Record) ==> member(value, name) is None,
        member_text(value, name) == Some(text) <==> member(value, name) == Some(
            JsonView::Text(text),
        ),
{
    if let JsonView::Record(members) = value {
        assert forall|k: int|
            0 <= k < members.len() && (#[trigger] members[k]).0 == name && (forall|j: int|
                0 <= j < k ==> (#[trigger] members[j]).0 != name) implies member(value, name)
            == Some(members[k].1) by {
            lemma_member_at(members, name, k);
        }
        if forall|j: int| 0 <= j < members.len() ==> (#[trigger] members[j]).0 != name {
            lemma_no_member(members, name);
        }
    }
}

proof fn lemma_documents_one_by_one(texts: Seq<Text>)
    ensures
        documents(texts) matches Ok(values) ==> {
            &&& values.len() == texts.len()
            &&& forall|i: int|
                0 <= i < texts.len() ==> document(#[trigger] texts[i]) == Ok::<JsonView, Text>(
                    values[i],
                )
        },
        documents(texts) is Err ==> exists|i: int|
            0 <= i < texts.len() && document(#[trigger] texts[i]) is Err,
    decreases texts.len(),
{
    if texts.len() > 0 {
        let shorter = texts.drop_last();
        lemma_documents_one_by_one(shorter);
        if let Ok(values) = documents(texts) {
            assert forall|i: int| 0 <= i < texts.len() implies document(#[trigger] texts[i])
                == Ok::<JsonView, Text>(values[i]) by {
                if i < shorter.len() {
                    assert(shorter[i] == texts[i]);
                }
            }
        } else if documents(shorter) is Err {
            let i = choose|i: int|
                0 <= i < shorter.len() && document(#[trigger] shorter[i]) is Err;
            assert(texts[i] == shorter[i]);
        } else {
            assert(document(texts[texts.len() - 1]) is Err);
        }
    }
}

/// A listing that is one JSON list has its items as rows, in their order. Any other has one row for
/// each line, the document on it, and cannot be read where one of the lines is no document.
pub proof fn law_listings_are_read_row_by_row(text: Text)
    requires
        !is_blank(text),
    ensures
        document(text) matches Ok(JsonView::List(items)) ==> rows_of(text) == Ok::<
            Seq<JsonView>,
            Text,
        >(items),
        !(document(text) matches Ok(JsonView::List(_))) ==> match rows_of(text) {
            Ok(rows) => {
                &&& rows.len() == lines_of(text).len()
                &&& forall|i: int|
                    0 <= i < rows.len() ==> document(#[trigger] lines_of(text)[i]) == Ok::<
                        JsonView,
                        Text,
                    >(rows[i])
            },
            Err(_) => exists|i: int|
                0 <= i < lines_of(text).len() && document(#[trigger] lines_of(text)[i]) is Err,
        },
{
    lemma_documents_one_by_one(lines_of(text));
}

} // verus!
