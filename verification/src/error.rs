//! What can go wrong, and how it is reported.

use vstd::prelude::*;

use crate::number::{signed_decimal, to_decimal, to_signed_decimal, decimal};
use crate::text::Text;

verus! {

/// A failure of an operation.
///
/// The first four variants carry the message of the failing I/O operation, TOML reader, JSON
/// reader or HTTP client.
#[derive(Debug)]
pub enum YardError {
    Io(String),
    Toml(String),
    Json(String),
    Http(String),
    Config(String),
    ProjectNotFound(String),
    CommandFailed { program: String, status: i32, stderr: String },
    HealthCheck(String),
    NoPreviousRelease(String),
    ImageMissing(String),
    /// A step failed for one service, or for the services named.
    Service { service: String, source: Box<YardError> },
    /// The off-site copy failed after the local backup succeeded.
    Offsite(Box<YardError>),
    /// Gated probes stayed short of Healthy for the given number of attempts.
    Gate(u32),
}

/// A failure, with its text as characters.
pub enum ErrorView {
    Io(Text),
    Toml(Text),
    Json(Text),
    Http(Text),
    Config(Text),
    ProjectNotFound(Text),
    CommandFailed { program: Text, status: int, stderr: Text },
    HealthCheck(Text),
    NoPreviousRelease(Text),
    ImageMissing(Text),
    Service { service: Text, source: Box<ErrorView> },
    Offsite(Box<ErrorView>),
    Gate(nat),
}

pub open spec fn error_view(error: YardError) -> ErrorView
    decreases error,
{
    match error {
        YardError::Io(m) => ErrorView::Io(m@),
        YardError::Toml(m) => ErrorView::Toml(m@),
        YardError::Json(m) => ErrorView::Json(m@),
        YardError::Http(m) => ErrorView::Http(m@),
        YardError::Config(m) => ErrorView::Config(m@),
        YardError::ProjectNotFound(m) => ErrorView::ProjectNotFound(m@),
        YardError::CommandFailed { program, status, stderr } => ErrorView::CommandFailed {
            program: program@,
            status: status as int,
            stderr: stderr@,
        },
        YardError::HealthCheck(m) => ErrorView::HealthCheck(m@),
        YardError::NoPreviousRelease(m) => ErrorView::NoPreviousRelease(m@),
        YardError::ImageMissing(m) => ErrorView::ImageMissing(m@),
        YardError::Service { service, source } => ErrorView::Service {
            service: service@,
            source: Box::new(error_view(*source)),
        },
        YardError::Offsite(source) => ErrorView::Offsite(Box::new(error_view(*source))),
        YardError::Gate(attempts) => ErrorView::Gate(attempts as nat),
    }
}

impl DeepView for YardError {
    type V = ErrorView;

    open spec fn deep_view(&self) -> ErrorView {
        error_view(*self)
    }
}

/// The failure that a result carries, where it carries one.
pub open spec fn error_of<T>(result: Result<T, YardError>) -> Option<ErrorView> {
    match result {
        Ok(_) => None,
        Err(error) => Some(error.deep_view()),
    }
}

/// The message that reports a failure.
pub open spec fn message_of(error: ErrorView) -> Text
    decreases error,
{
    match error {
        ErrorView::Io(m) => "I/O error: "@ + m,
        ErrorView::Toml(m) => "invalid TOML: "@ + m,
        ErrorView::Json(m) => "invalid state file: "@ + m,
        ErrorView::Http(m) => "HTTP error: "@ + m,
        ErrorView::Config(m) => "configuration error: "@ + m,
        ErrorView::ProjectNotFound(name) => "project not found: "@ + name,
        ErrorView::CommandFailed { program, status, stderr } => "command failed: "@ + program
            + " exited with status "@ + signed_decimal(status) + "\n"@ + stderr,
        ErrorView::HealthCheck(url) => "health check failed for "@ + url,
        ErrorView::NoPreviousRelease(name) => "no previous deployment is recorded for "@ + name,
        ErrorView::ImageMissing(image) => "image is not available locally: "@ + image,
        ErrorView::Service { service, source } => "service "@ + service + ": "@ + message_of(
            *source,
        ),
        ErrorView::Offsite(source) => "off-site copy failed (local backup succeeded): "@
            + message_of(*source),
        ErrorView::Gate(attempts) => "deployment gate not healthy after "@ + decimal(attempts)
            + " attempts"@,
    }
}

impl YardError {
    /// The message that reports the failure.
    pub fn message(&self) -> (r: String)
        ensures
            r@ == message_of(self.deep_view()),
        decreases self,
    {
        match self {
            YardError::Io(m) => prefixed("I/O error: ", m),
            YardError::Toml(m) => prefixed("invalid TOML: ", m),
            YardError::Json(m) => prefixed("invalid state file: ", m),
            YardError::Http(m) => prefixed("HTTP error: ", m),
            YardError::Config(m) => prefixed("configuration error: ", m),
            YardError::ProjectNotFound(m) => prefixed("project not found: ", m),
            YardError::CommandFailed { program, status, stderr } => {
                let mut out = prefixed("command failed: ", program);
                out.append(" exited with status ");
                out.append(to_signed_decimal(*status as i64).as_str());
                out.append("\n");
                out.append(stderr.as_str());
                out
            },
            YardError::HealthCheck(m) => prefixed("health check failed for ", m),
            YardError::NoPreviousRelease(m) => prefixed(
                "no previous deployment is recorded for ",
                m,
            ),
            YardError::ImageMissing(m) => prefixed("image is not available locally: ", m),
            YardError::Service { service, source } => {
                let mut out = prefixed("service ", service);
                out.append(": ");
                out.append(source.message().as_str());
                out
            },
            YardError::Offsite(source) => prefixed(
                "off-site copy failed (local backup succeeded): ",
                &source.message(),
            ),
            YardError::Gate(attempts) => {
                let mut out = prefixed(
                    "deployment gate not healthy after ",
                    &to_decimal(*attempts as u128),
                );
                out.append(" attempts");
                out
            },
        }
    }
}

fn prefixed(prefix: &str, rest: &String) -> (r: String)
    ensures
        r@ == prefix@ + rest@,
{
    let mut out = prefix.to_owned();
    out.append(rest.as_str());
    out
}

/// The message of an error says what kind of failure it is and carries its cause.
pub proof fn law_messages_carry_their_cause(
    text: Text,
    status: int,
    stderr: Text,
    attempts: nat,
    source: ErrorView,
)
    ensures
        message_of(ErrorView::Io(text)) == "I/O error: "@ + text,
        message_of(ErrorView::Toml(text)) == "invalid TOML: "@ + text,
        message_of(ErrorView::Json(text)) == "invalid state file: "@ + text,
        message_of(ErrorView::Http(text)) == "HTTP error: "@ + text,
        message_of(ErrorView::Config(text)) == "configuration error: "@ + text,
        message_of(ErrorView::ProjectNotFound(text)) == "project not found: "@ + text,
        message_of(ErrorView::CommandFailed { program: text, status, stderr })
            == "command failed: "@ + text + " exited with status "@ + signed_decimal(status)
            + "\n"@ + stderr,
        message_of(ErrorView::HealthCheck(text)) == "health check failed for "@ + text,
        message_of(ErrorView::NoPreviousRelease(text)) == "no previous deployment is recorded for "@
            + text,
        message_of(ErrorView::ImageMissing(text)) == "image is not available locally: "@ + text,
        message_of(ErrorView::Gate(attempts)) == "deployment gate not healthy after "@ + decimal(
            attempts,
        ) + " attempts"@,
        message_of(ErrorView::Service { service: text, source: Box::new(source) }) == "service "@
            + text + ": "@ + message_of(source),
        message_of(ErrorView::Offsite(Box::new(source)))
            == "off-site copy failed (local backup succeeded): "@ + message_of(source),
{
}

} // verus!
