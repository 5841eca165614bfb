//! The requests that the status page answers.

use vstd::prelude::*;

use crate::number::{decimal, to_decimal};
use crate::text::{
    begins, byte_length, bytes, cut, holds_part, law_cut_at_the_first_separator, lemma_holds_pair,
    lemma_parts_stay, occurs_at, same, split_once, starts_with, words, words_of, Text,
};

verus! {

/// The longest request line, in bytes.
pub const LINE_LIMIT: usize = 8_192;

/// The most bytes of a request line and its headers together.
pub const HEAD_LIMIT: usize = 32_768;

// ---------------------------------------------------------------------------------------------
// Answers
// ---------------------------------------------------------------------------------------------

/// The files of the page.
#[derive(Clone, Copy, Debug, PartialEq, Eq, Structural)]
pub enum Asset {
    Index,
    Styles,
    Script,
    Icon,
}

impl Asset {
    /// The name of the file.
    pub fn file(self) -> (r: &'static str)
        ensures
            r@ == match self {
                Asset::Index => "index.html"@,
                Asset::Styles => "styles.css"@,
                Asset::Script => "app.js"@,
                Asset::Icon => "favicon.svg"@,
            },
    {
        match self {
            Asset::Index => "index.html",
            Asset::Styles => "styles.css",
            Asset::Script => "app.js",
            Asset::Icon => "favicon.svg",
        }
    }

    /// The type of what the file holds.
    pub fn content_type(self) -> (r: &'static str)
        ensures
            r@ == match self {
                Asset::Index => "text/html; charset=utf-8"@,
                Asset::Styles => "text/css; charset=utf-8"@,
                Asset::Script => "text/javascript; charset=utf-8"@,
                Asset::Icon => "image/svg+xml"@,
            },
    {
        match self {
            Asset::Index => "text/html; charset=utf-8",
            Asset::Styles => "text/css; charset=utf-8",
            Asset::Script => "text/javascript; charset=utf-8",
            Asset::Icon => "image/svg+xml",
        }
    }
}

/// The answers that are always the same.
#[derive(Clone, Copy, Debug, PartialEq, Eq, Structural)]
pub enum Fixed {
    Alive,
    NotFound,
    MethodNotAllowed,
    LineTooLong,
    HeadersTooLarge,
}

impl Fixed {
    /// The status of the answer.
    pub fn status(self) -> (r: u16)
        ensures
            r == match self {
                Fixed::Alive => 200u16,
                Fixed::NotFound => 404u16,
                Fixed::MethodNotAllowed => 405u16,
                Fixed::LineTooLong => 414u16,
                Fixed::HeadersTooLarge => 431u16,
            },
    {
        match self {
            Fixed::Alive => 200,
            Fixed::NotFound => 404,
            Fixed::MethodNotAllowed => 405,
            Fixed::LineTooLong => 414,
            Fixed::HeadersTooLarge => 431,
        }
    }

    /// The type of the answer.
    pub fn content_type(self) -> (r: &'static str)
        ensures
            r@ == if self == Fixed::Alive {
                "application/json; charset=utf-8"@
            } else {
                "text/plain; charset=utf-8"@
            },
    {
        match self {
            Fixed::Alive => "application/json; charset=utf-8",
            _ => "text/plain; charset=utf-8",
        }
    }

    /// The body of the answer.
    pub fn body(self) -> (r: &'static str)
        ensures
            r@ == match self {
                Fixed::Alive => "{\"status\":\"ok\"}\n"@,
                Fixed::NotFound => "Not found\n"@,
                Fixed::MethodNotAllowed => "Method not allowed\n"@,
                Fixed::LineTooLong => "URI too long\n"@,
                Fixed::HeadersTooLarge => "Request headers too large\n"@,
            },
    {
        match self {
            Fixed::Alive => "{\"status\":\"ok\"}\n",
            Fixed::NotFound => "Not found\n",
            Fixed::MethodNotAllowed => "Method not allowed\n",
            Fixed::LineTooLong => "URI too long\n",
            Fixed::HeadersTooLarge => "Request headers too large\n",
        }
    }
}

/// What a request is answered with.
#[derive(Clone, Copy, Debug, PartialEq, Eq, Structural)]
pub enum Route {
    Status,
    Asset(Asset),
    Fixed(Fixed),
}

// ---------------------------------------------------------------------------------------------
// Requests
// ---------------------------------------------------------------------------------------------

/// A word of a request line, which may be missing.
pub open spec fn word_at(line: Text, at: int) -> Text {
    if at < words_of(line).len() {
        words_of(line)[at]
    } else {
        Seq::empty()
    }
}

/// The path that a request line asks for: its second word, without what follows a question mark.
pub open spec fn path_of(line: Text) -> Text {
    match cut(word_at(line, 1), "?"@) {
        Some((path, _)) => path,
        None => word_at(line, 1),
    }
}

/// What a path is answered with.
pub open spec fn route_of(path: Text) -> Route {
    if path == "/healthz"@ {
        Route::Fixed(Fixed::Alive)
    } else if path == "/api/status"@ {
        Route::Status
    } else if path == "/"@ || path == "/index.html"@ {
        Route::Asset(Asset::Index)
    } else if path == "/styles.css"@ {
        Route::Asset(Asset::Styles)
    } else if path == "/app.js"@ {
        Route::Asset(Asset::Script)
    } else if path == "/favicon.svg"@ {
        Route::Asset(Asset::Icon)
    } else {
        Route::Fixed(Fixed::NotFound)
    }
}

/// What a request line is answered with, where the request is not too large. Only `GET` is
/// answered.
pub open spec fn answer_to(line: Text) -> Route {
    if word_at(line, 0) != "GET"@ {
        Route::Fixed(Fixed::MethodNotAllowed)
    } else {
        route_of(path_of(line))
    }
}

fn find_route(path: &str) -> (r: Route)
    ensures
        r == route_of(path@),
{
    if same(path, "/healthz") {
        Route::Fixed(Fixed::Alive)
    } else if same(path, "/api/status") {
        Route::Status
    } else if same(path, "/") || same(path, "/index.html") {
        Route::Asset(Asset::Index)
    } else if same(path, "/styles.css") {
        Route::Asset(Asset::Styles)
    } else if same(path, "/app.js") {
        Route::Asset(Asset::Script)
    } else if same(path, "/favicon.svg") {
        Route::Asset(Asset::Icon)
    } else {
        Route::Fixed(Fixed::NotFound)
    }
}

/// What a request line is answered with, where the request is not too large.
pub fn route(line: &str) -> (r: Route)
    ensures
        r == answer_to(line@),
{
    let parts = words(line);
    assert(parts.deep_view().len() == parts@.len());
    if parts.len() == 0 {
        proof {
            reveal_strlit("GET");
        }
        return Route::Fixed(Fixed::MethodNotAllowed);
    }
    assert(parts.deep_view()[0] == parts@[0]@);
    if !same(parts[0].as_str(), "GET") {
        return Route::Fixed(Fixed::MethodNotAllowed);
    }
    let target = if parts.len() > 1 {
        assert(parts.deep_view()[1] == parts@[1]@);
        parts[1].clone()
    } else {
        String::new()
    };
    assert(target@ =~= word_at(line@, 1));
    match split_once(target.as_str(), "?") {
        Some((path, _)) => find_route(path.as_str()),
        None => find_route(target.as_str()),
    }
}

/// Where the reading of a request stands.
#[derive(Clone, Copy, Debug, PartialEq, Eq, Structural)]
pub enum Reading {
    More { size: usize },
    Complete,
    Refused(Fixed),
}

/// Where the reading of a request stands after its first line.
pub open spec fn after_line(line: Text) -> Reading {
    if byte_length(line) > LINE_LIMIT {
        Reading::Refused(Fixed::LineTooLong)
    } else {
        Reading::More { size: byte_length(line) as usize }
    }
}

/// Where the reading of a request stands after one more line. An empty line ends it, and so does
/// the end of the input.
pub open spec fn after_header(size: usize, header: Text) -> Reading {
    if header.len() == 0 || header == "\r\n"@ || header == "\n"@ {
        Reading::Complete
    } else if size + byte_length(header) > HEAD_LIMIT {
        Reading::Refused(Fixed::HeadersTooLarge)
    } else {
        Reading::More { size: (size + byte_length(header)) as usize }
    }
}

/// Reads the first line of a request.
pub fn read_line(line: &str) -> (r: Reading)
    ensures
        r == after_line(line@),
{
    let size: usize = bytes(line);
    if size > LINE_LIMIT {
        Reading::Refused(Fixed::LineTooLong)
    } else {
        Reading::More { size }
    }
}

/// Reads one more line of a request.
pub fn read_header(size: usize, header: &str) -> (r: Reading)
    ensures
        r == after_header(size, header@),
{
    if crate::text::empty(header) || same(header, "\r\n") || same(header, "\n") {
        return Reading::Complete;
    }
    let more: usize = bytes(header);
    if size > HEAD_LIMIT || more > HEAD_LIMIT - size {
        Reading::Refused(Fixed::HeadersTooLarge)
    } else {
        Reading::More { size: size + more }
    }
}

/// Where the reading of a request stands after its first line and some headers.
pub open spec fn after_headers(line: Text, headers: Seq<Text>) -> Reading
    decreases headers.len(),
{
    if headers.len() == 0 {
        after_line(line)
    } else {
        match after_headers(line, headers.drop_last()) {
            Reading::More { size } => after_header(size, headers.last()),
            other => other,
        }
    }
}

/// The bytes of lines together.
pub open spec fn total_length(lines: Seq<Text>) -> nat
    decreases lines.len(),
{
    if lines.len() == 0 {
        0
    } else {
        total_length(lines.drop_last()) + byte_length(lines.last())
    }
}

/// While more of a request is awaited, what was read is counted exactly and within the limits.
pub proof fn law_requests_are_bounded(line: Text, headers: Seq<Text>)
    requires
        after_headers(line, headers) is More,
    ensures
        after_headers(line, headers)->size == byte_length(line) + total_length(headers),
        byte_length(line) <= LINE_LIMIT,
        after_headers(line, headers)->size <= HEAD_LIMIT,
    decreases headers.len(),
{
    if headers.len() > 0 {
        law_requests_are_bounded(line, headers.drop_last());
    }
}

// ---------------------------------------------------------------------------------------------
// Responses
// ---------------------------------------------------------------------------------------------

/// The words for a status.
pub open spec fn reason_of(status: u16) -> Text {
    if status == 200 {
        "OK"@
    } else if status == 404 {
        "Not Found"@
    } else if status == 405 {
        "Method Not Allowed"@
    } else if status == 414 {
        "URI Too Long"@
    } else if status == 431 {
        "Request Header Fields Too Large"@
    } else {
        "Error"@
    }
}

fn reason(status: u16) -> (r: &'static str)
    ensures
        r@ == reason_of(status),
{
    if status == 200 {
        "OK"
    } else if status == 404 {
        "Not Found"
    } else if status == 405 {
        "Method Not Allowed"
    } else if status == 414 {
        "URI Too Long"
    } else if status == 431 {
        "Request Header Fields Too Large"
    } else {
        "Error"
    }
}

/// The head of a response.
pub open spec fn head_of(status: u16, content_type: Text, length: nat, cache_control: Text) -> Text {
    "HTTP/1.1 "@ + decimal(status as nat) + " "@ + reason_of(status) + "\r\nContent-Type: "@
        + content_type + "\r\nContent-Length: "@ + decimal(length) + "\r\nCache-Control: "@
        + cache_control
        + "\r\nConnection: close\r\nX-Content-Type-Options: nosniff\r\nContent-Security-Policy: default-src 'self'; style-src 'self'; script-src 'self'; connect-src 'self'; img-src 'self'; base-uri 'none'; frame-ancestors 'none'\r\n\r\n"@
}

/// The head of a response with a body of a length.
pub fn head(status: u16, content_type: &str, length: usize, cache_control: &str) -> (r: String)
    ensures
        r@ == head_of(status, content_type@, length as nat, cache_control@),
{
    let mut head = "HTTP/1.1 ".to_owned();
    head.append(to_decimal(status as u128).as_str());
    head.append(" ");
    head.append(reason(status));
    head.append("\r\nContent-Type: ");
    head.append(content_type);
    head.append("\r\nContent-Length: ");
    head.append(to_decimal(length as u128).as_str());
    head.append("\r\nCache-Control: ");
    head.append(cache_control);
    head.append(
        "\r\nConnection: close\r\nX-Content-Type-Options: nosniff\r\nContent-Security-Policy: default-src 'self'; style-src 'self'; script-src 'self'; connect-src 'self'; img-src 'self'; base-uri 'none'; frame-ancestors 'none'\r\n\r\n",
    );
    head
}

/// Whether a response tells that the page is served.
pub open spec fn is_alive(response: Text) -> bool {
    begins(response, "HTTP/1.1 200 "@)
}

/// Checks what the page answered about itself.
pub fn check_alive(response: &str) -> (r: Result<(), String>)
    ensures
        match r {
            Ok(_) => is_alive(response@),
            Err(message) => !is_alive(response@) && message@
                == "yard-web health check returned a non-success response"@,
        },
{
    if starts_with(response, "HTTP/1.1 200 ") {
        Ok(())
    } else {
        Err("yard-web health check returned a non-success response".to_owned())
    }
}

/// The page passes its own check: a response of success tells that the page is served, whatever
/// else it holds.
pub proof fn law_own_check_passes(content_type: Text, length: nat, cache_control: Text, rest: Text)
    ensures
        is_alive(head_of(200, content_type, length, cache_control) + rest),
{
    reveal_strlit("HTTP/1.1 ");
    reveal_strlit("HTTP/1.1 200 ");
    reveal_strlit(" ");
    assert(decimal(200) =~= seq!['2', '0', '0']) by {
        reveal_with_fuel(decimal, 4);
    }
    let whole = head_of(200, content_type, length, cache_control) + rest;
    assert(whole.take(13) =~= "HTTP/1.1 200 "@);
}

proof fn lemma_paths_are_distinct()
    ensures
        "/healthz"@ != "/api/status"@,
        "/healthz"@ != "/"@,
        "/healthz"@ != "/index.html"@,
        "/healthz"@ != "/styles.css"@,
        "/healthz"@ != "/app.js"@,
        "/healthz"@ != "/favicon.svg"@,
        "/api/status"@ != "/"@,
        "/api/status"@ != "/index.html"@,
        "/api/status"@ != "/styles.css"@,
        "/api/status"@ != "/app.js"@,
        "/api/status"@ != "/favicon.svg"@,
        "/"@ != "/styles.css"@,
        "/"@ != "/app.js"@,
        "/"@ != "/favicon.svg"@,
        "/index.html"@ != "/styles.css"@,
        "/index.html"@ != "/app.js"@,
        "/index.html"@ != "/favicon.svg"@,
        "/styles.css"@ != "/app.js"@,
        "/styles.css"@ != "/favicon.svg"@,
        "/app.js"@ != "/favicon.svg"@,
{
    reveal_strlit("/healthz");
    reveal_strlit("/api/status");
    reveal_strlit("/");
    reveal_strlit("/index.html");
    reveal_strlit("/styles.css");
    reveal_strlit("/app.js");
    reveal_strlit("/favicon.svg");
    assert("/healthz"@.len() == 8);
    assert("/"@.len() == 1);
    assert("/app.js"@.len() == 7);
    assert("/favicon.svg"@.len() == 12);
    assert("/api/status"@.len() == 11);
    assert("/index.html"@.len() == 11);
    assert("/styles.css"@.len() == 11);
    assert("/api/status"@[1] != "/index.html"@[1]);
    assert("/api/status"@[1] != "/styles.css"@[1]);
    assert("/index.html"@[1] != "/styles.css"@[1]);
}

/// Each path has its own answer: the check that the page is alive, the status, the four files of the
/// page; and whatever else is asked for is not found.
pub proof fn law_paths_have_their_answers(path: Text)
    ensures
        route_of(path) == Route::Fixed(Fixed::Alive) <==> path == "/healthz"@,
        route_of(path) == Route::Status <==> path == "/api/status"@,
        route_of(path) == Route::Asset(Asset::Index) <==> path == "/"@ || path == "/index.html"@,
        route_of(path) == Route::Asset(Asset::Styles) <==> path == "/styles.css"@,
        route_of(path) == Route::Asset(Asset::Script) <==> path == "/app.js"@,
        route_of(path) == Route::Asset(Asset::Icon) <==> path == "/favicon.svg"@,
        route_of(path) == Route::Fixed(Fixed::NotFound) <==> path != "/healthz"@ && path
            != "/api/status"@ && path != "/"@ && path != "/index.html"@ && path != "/styles.css"@
            && path != "/app.js"@ && path != "/favicon.svg"@,
{
    lemma_paths_are_distinct();
}

/// Only `GET` is answered, by what it asks for: a request whose first word is another is refused as
/// such, whatever its path. What follows a question mark does not count.
pub proof fn law_only_get_is_answered(line: Text, words: Seq<Text>, path: Text, query: Text)
    requires
        words == words_of(line),
    ensures
        words.len() == 0 || words[0] != "GET"@ ==> answer_to(line) == Route::Fixed(
            Fixed::MethodNotAllowed,
        ),
        words.len() > 1 && words[0] == "GET"@ && !path.contains('?') && (words[1] == path
            || words[1] == path + "?"@ + query) ==> answer_to(line) == route_of(path),
{
    reveal_strlit("GET");
    reveal_strlit("?");
    if words.len() > 1 && !path.contains('?') {
        let word = words[1];
        law_cut_at_the_first_separator(word, "?"@);
        if word == path {
            if cut(word, "?"@) is Some {
                let (before, behind) = cut(word, "?"@)->0;
                assert(word[before.len() as int] == '?');
            }
        }
        if word == path + "?"@ + query {
            let at = path.len() as int;
            assert(word.subrange(at, at + 1) =~= "?"@);
            assert(occurs_at(word, "?"@, at));
            let (before, behind) = cut(word, "?"@)->0;
            let x = before.len() as int;
            assert(word[x] == '?');
            if x < at {
                assert(path[x] == '?');
            }
            assert(x == at);
            assert(before =~= word.take(at));
            assert(path =~= word.take(at));
        }
    }
}

/// A request line of more than 8192 bytes is refused, and so is a request whose line and headers
/// are of more than 32768 bytes together; an empty line ends a request.
pub proof fn law_large_requests_are_refused(line: Text, size: usize, header: Text)
    ensures
        after_line(line) == Reading::Refused(Fixed::LineTooLong) <==> byte_length(line) > 8_192,
        header != "\r\n"@ && header != "\n"@ && header.len() > 0 ==> (after_header(size, header)
            == Reading::Refused(Fixed::HeadersTooLarge) <==> size + byte_length(header) > 32_768),
        after_header(size, header) == Reading::Complete <==> header.len() == 0 || header
            == "\r\n"@ || header == "\n"@,
{
}

/// The fixed answers have the statuses that the protocol has for them: only the check that the page
/// is alive is a success.
pub proof fn law_fixed_answers_have_their_status(answer: Fixed, status: u16)
    requires
        call_ensures(Fixed::status, (answer,), status),
    ensures
        status == 200 <==> answer == Fixed::Alive,
        status == 404 <==> answer == Fixed::NotFound,
        status == 405 <==> answer == Fixed::MethodNotAllowed,
        status == 414 <==> answer == Fixed::LineTooLong,
        status == 431 <==> answer == Fixed::HeadersTooLarge,
{
}

/// The files of the page are told apart by their names, and each is of the type that its name ends
/// in.
pub proof fn law_files_have_their_type(asset: Asset, file: &'static str, kind: &'static str)
    requires
        call_ensures(Asset::file, (asset,), file),
        call_ensures(Asset::content_type, (asset,), kind),
    ensures
        asset == Asset::Index ==> file@ == "index.html"@ && kind@ == "text/html; charset=utf-8"@,
        asset == Asset::Styles ==> file@ == "styles.css"@ && kind@ == "text/css; charset=utf-8"@,
        asset == Asset::Script ==> file@ == "app.js"@ && kind@ == "text/javascript; charset=utf-8"@,
        asset == Asset::Icon ==> file@ == "favicon.svg"@ && kind@ == "image/svg+xml"@,
{
}

/// The head of a response begins with its status, and holds the type and the length of what follows
/// and how it may be kept.
pub proof fn law_heads_tell_what_follows(
    status: u16,
    content_type: Text,
    length: nat,
    cache_control: Text,
)
    ensures
        ({
            let head = head_of(status, content_type, length, cache_control);
            &&& begins(head, "HTTP/1.1 "@ + decimal(status as nat))
            &&& holds_part(head, "\r\nContent-Type: "@ + content_type)
            &&& holds_part(head, "\r\nContent-Length: "@ + decimal(length))
            &&& holds_part(head, "\r\nCache-Control: "@ + cache_control)
        }),
{
    let start = "HTTP/1.1 "@ + decimal(status as nat);
    let s0 = start + " "@ + reason_of(status);
    let s1 = s0 + "\r\nContent-Type: "@ + content_type;
    lemma_holds_pair(s0, "\r\nContent-Type: "@, content_type);
    let s2 = s1 + "\r\nContent-Length: "@ + decimal(length);
    lemma_holds_pair(s1, "\r\nContent-Length: "@, decimal(length));
    lemma_parts_stay(s1, "\r\nContent-Length: "@);
    lemma_parts_stay(s1 + "\r\nContent-Length: "@, decimal(length));
    assert(holds_part(s1 + "\r\nContent-Length: "@, "\r\nContent-Type: "@ + content_type));
    let s3 = s2 + "\r\nCache-Control: "@ + cache_control;
    lemma_holds_pair(s2, "\r\nCache-Control: "@, cache_control);
    lemma_parts_stay(s2, "\r\nCache-Control: "@);
    lemma_parts_stay(s2 + "\r\nCache-Control: "@, cache_control);
    assert(holds_part(s2 + "\r\nCache-Control: "@, "\r\nContent-Type: "@ + content_type));
    assert(holds_part(s2 + "\r\nCache-Control: "@, "\r\nContent-Length: "@ + decimal(length)));
    let head = head_of(status, content_type, length, cache_control);
    let n = s3.len() as int;
    let end = head.skip(n);
    assert(head.take(n) =~= s3);
    assert(head =~= s3 + end);
    lemma_parts_stay(s3, end);
    assert(s0.take(start.len() as int) =~= start);
    assert(head.take(start.len() as int) =~= s3.take(start.len() as int));
    assert(s3.take(start.len() as int) =~= s0.take(start.len() as int));
}

} // verus!
