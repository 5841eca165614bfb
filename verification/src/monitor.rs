//! Projects that are watched by URL only.

use vstd::prelude::*;

use crate::error::{error_of, ErrorView, YardError};
use crate::number::{decimal, to_decimal};
use crate::text::{begins, contains, holds_part, lemma_holds_pair, lemma_parts_stay, Text};
use crate::url::{is_plain_http, parts, plain_http, url_of, UrlParts, UrlView};

verus! {

/// The names at the top level of a TOML document, or the message that says why a piece of text
/// is none.
pub uninterp spec fn top_level(text: Text) -> Result<Seq<Text>, Text>;

/// Calls `toml::from_str` for a `toml::Table` and takes the names in it. The message is that of
/// the error where the text is not a TOML document.
#[verifier::external_body]
fn read_names(text: &str) -> (r: Result<Vec<String>, String>)
    ensures
        match r {
            Ok(names) => top_level(text@) == Ok::<Seq<Text>, Text>(names.deep_view()),
            Err(message) => top_level(text@) == Err::<Seq<Text>, Text>(message@),
        },
{
    match toml::from_str::<toml::Table>(text) {
        Ok(table) => Ok(table.into_iter().map(|(name, _)| name).collect()),
        Err(error) => Err(error.to_string()),
    }
}

/// Whether the names at the top level of a manifest are those of a monitor.
pub open spec fn is_monitor(names: Seq<Text>) -> bool {
    names.len() == 1 && names[0] == "deployment"@
}

/// Whether the names at the top level of a manifest are those of a monitor.
pub fn names_monitor(names: &Vec<String>) -> (r: bool)
    ensures
        r == is_monitor(names.deep_view()),
{
    proof {
        if names@.len() == 1 {
            let all = names.deep_view();
            assert(all.contains("deployment"@) <==> all[0] == "deployment"@) by {
                if all.contains("deployment"@) {
                    let i = choose|i: int| 0 <= i < all.len() && all[i] == "deployment"@;
                    assert(i == 0);
                }
            }
        }
    }
    names.len() == 1 && contains(names, "deployment")
}

/// Whether a manifest is that of a monitor: it holds a deployment section and nothing else, so
/// that a damaged manifest of a deployed project is not taken for one.
pub fn manifest_is_monitor(text: &str) -> (r: Result<bool, YardError>)
    ensures
        match top_level(text@) {
            Ok(names) => r matches Ok(monitor) && monitor == is_monitor(names),
            Err(message) => error_of(r) == Some(ErrorView::Toml(message)),
        },
{
    match read_names(text) {
        Ok(names) => Ok(names_monitor(&names)),
        Err(message) => Err(YardError::Toml(message)),
    }
}

/// A project that is watched by URL only.
#[derive(Debug)]
pub struct Monitor {
    deployment: MonitorDeployment,
}

#[derive(Debug)]
struct MonitorDeployment {
    health_url: String,
}

/// What is wrong with the URL of a monitor, given its parts.
pub open spec fn url_fault(parts: Option<UrlView>) -> Option<ErrorView> {
    if parts is None {
        Some(ErrorView::Config("deployment.health_url must be an HTTP(S) URL"@))
    } else if !is_plain_http(parts) {
        Some(
            ErrorView::Config(
                "deployment.health_url must be an HTTP(S) URL without credentials"@,
            ),
        )
    } else {
        None
    }
}

/// What is wrong with the URL of a monitor, given its parts.
pub fn check_url(parts: &Option<UrlParts>) -> (r: Result<(), YardError>)
    ensures
        error_of(r) == url_fault(parts.deep_view()),
{
    if parts.is_none() {
        return Err(
            YardError::Config("deployment.health_url must be an HTTP(S) URL".to_owned()),
        );
    }
    if !plain_http(parts) {
        return Err(
            YardError::Config(
                "deployment.health_url must be an HTTP(S) URL without credentials".to_owned(),
            ),
        );
    }
    Ok(())
}

impl Monitor {
    /// The URL.
    pub closed spec fn address(&self) -> Text {
        self.deployment.health_url@
    }

    /// A monitor of a URL.
    pub fn new(health_url: String) -> (r: Result<Self, YardError>)
        ensures
            error_of(r) == url_fault(url_of(health_url@)),
            r matches Ok(monitor) ==> monitor.address() == health_url@,
    {
        match check_url(&parts(health_url.as_str())) {
            Ok(()) => Ok(Monitor { deployment: MonitorDeployment { health_url } }),
            Err(error) => Err(error),
        }
    }

    /// The URL.
    pub fn url(&self) -> (r: &str)
        ensures
            r@ == self.address(),
    {
        self.deployment.health_url.as_str()
    }
}

/// Whether an HTTP status is one of success.
pub open spec fn is_success(status: u16) -> bool {
    200 <= status < 300
}

/// What is said of a response, or of its absence.
pub open spec fn response_text(status: Option<u16>) -> Text {
    match status {
        Some(status) => "HTTP "@ + decimal(status as nat),
        None => "HTTP request failed or timed out"@,
    }
}

/// Whether a monitor found its URL healthy, and in words what it found: the status of the
/// response, or that none came.
pub fn judge(status: Option<u16>) -> (r: (bool, String))
    ensures
        r.0 == (status matches Some(status) && is_success(status)),
        r.1@ == response_text(status),
{
    match status {
        Some(status) => {
            let mut text = "HTTP ".to_owned();
            text.append(to_decimal(status as u128).as_str());
            (200 <= status && status < 300, text)
        },
        None => (false, "HTTP request failed or timed out".to_owned()),
    }
}

fn word(healthy: bool) -> (r: &'static str)
    ensures
        r@ == if healthy {
            "OK"@
        } else {
            "ALERT"@
        },
{
    if healthy {
        "OK"
    } else {
        "ALERT"
    }
}

/// The lines about a monitor.
pub fn report(name: &str, url: &str, status: Option<u16>) -> (r: (String, String, String))
    ensures
        r.0@ == "Project: "@ + name@,
        r.1@ == "Health URL: "@ + url@,
        r.2@ == "Status: "@ + (if status matches Some(status) && is_success(status) {
            "OK"@
        } else {
            "ALERT"@
        }) + " "@ + response_text(status),
{
    let (healthy, result) = judge(status);
    let mut project = "Project: ".to_owned();
    project.append(name);
    let mut address = "Health URL: ".to_owned();
    address.append(url);
    let mut line = "Status: ".to_owned();
    line.append(word(healthy));
    line.append(" ");
    line.append(result.as_str());
    (project, address, line)
}

/// The line about a monitor in the overview.
pub open spec fn overview_line(name: Text, url: Text, status: Option<u16>) -> Text {
    (if status matches Some(status) && is_success(status) {
        "OK"@
    } else {
        "ALERT"@
    }) + " "@ + name + ": "@ + response_text(status) + "; "@ + url
}

/// The line about a monitor in the overview.
pub fn overview(name: &str, url: &str, status: Option<u16>) -> (r: String)
    ensures
        r@ == overview_line(name@, url@, status),
{
    let (healthy, result) = judge(status);
    let mut out = word(healthy).to_owned();
    out.append(" ");
    out.append(name);
    out.append(": ");
    out.append(result.as_str());
    out.append("; ");
    out.append(url);
    out
}

/// A monitor is healthy exactly where its URL answers with a status from 200 to 299; its line begins
/// with `OK` there and with `ALERT` everywhere else, and names the status and the URL.
pub proof fn law_monitors_alert_without_success(name: Text, url: Text, status: u16)
    ensures
        200 <= status <= 299 ==> begins(
            overview_line(name, url, Some(status)),
            "OK "@ + name + ": "@,
        ),
        status < 200 || status > 299 ==> begins(
            overview_line(name, url, Some(status)),
            "ALERT "@ + name + ": "@,
        ),
        begins(overview_line(name, url, None), "ALERT "@ + name + ": "@),
        holds_part(
            overview_line(name, url, Some(status)),
            ": "@ + ("HTTP "@ + decimal(status as nat)),
        ),
        holds_part(overview_line(name, url, Some(status)), "; "@ + url),
        holds_part(overview_line(name, url, None), ": "@ + "HTTP request failed or timed out"@),
        holds_part(overview_line(name, url, None), "; "@ + url),
{
    lemma_line(name, url, Some(status));
    lemma_line(name, url, None);
}

proof fn lemma_line(name: Text, url: Text, status: Option<u16>)
    ensures
        ({
            let line = overview_line(name, url, status);
            &&& (status matches Some(status) && 200 <= status <= 299) ==> begins(
                line,
                "OK "@ + name + ": "@,
            )
            &&& !(status matches Some(status) && 200 <= status <= 299) ==> begins(
                line,
                "ALERT "@ + name + ": "@,
            )
            &&& holds_part(line, ": "@ + response_text(status))
            &&& holds_part(line, "; "@ + url)
        }),
{
    reveal_strlit("OK");
    reveal_strlit("OK ");
    reveal_strlit("ALERT");
    reveal_strlit("ALERT ");
    reveal_strlit(" ");
    assert("OK"@ + " "@ =~= "OK "@);
    assert("ALERT"@ + " "@ =~= "ALERT "@);
    let word = if status matches Some(status) && 200 <= status <= 299 {
        "OK"@
    } else {
        "ALERT"@
    };
    let line = overview_line(name, url, status);
    let start = word + " "@ + name + ": "@;
    let text = response_text(status);
    assert(line == start + text + "; "@ + url);
    assert(line.take(start.len() as int) =~= start);
    lemma_holds_pair(word + " "@ + name, ": "@, text);
    lemma_parts_stay(start + text, "; "@);
    lemma_parts_stay(start + text + "; "@, url);
    assert(holds_part(start + text + "; "@, ": "@ + text));
    lemma_holds_pair(start + text, "; "@, url);
}

/// What is told of one monitor agrees with what was found: healthy exactly from 200 to 299.
pub proof fn law_monitor_reports_agree(status: Option<u16>, r: (bool, String))
    requires
        call_ensures(judge, (status,), r),
    ensures
        r.0 <==> (status matches Some(code) && 200 <= code <= 299),
        status matches Some(code) ==> r.1@ == "HTTP "@ + decimal(code as nat),
        status is None ==> r.1@ == "HTTP request failed or timed out"@,
{
}

/// A manifest is that of a monitor exactly where `deployment` is all that it holds.
pub proof fn law_monitors_hold_a_deployment_only(names: Seq<Text>)
    ensures
        is_monitor(names) <==> names == seq!["deployment"@],
{
    if is_monitor(names) {
        assert(names =~= seq!["deployment"@]);
    }
}

/// The URL of a monitor is refused exactly where it is no plain HTTP URL.
pub proof fn law_monitor_urls_are_plain(parts: Option<UrlView>)
    ensures
        url_fault(parts) is None <==> (parts matches Some(url) && (url.scheme == "http"@
            || url.scheme == "https"@) && url.has_host && url.username.len() == 0
            && url.password is None),
        url_fault(parts) matches Some(error) ==> error is Config,
{
}

} // verus!
