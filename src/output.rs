use vstd::prelude::*;
use crate::text::owned;

verus! {

/// Presentation modes of the output formatter.
#[derive(Debug, Clone, Copy, PartialEq, Eq, Structural)]
pub enum OutputFormat {
    Human,
    Json,
    /// Rendered as JSON: YAML output is not supported.
    Yaml,
}

/// A point in time: seconds since the Unix epoch and the nanoseconds past them.
#[derive(Debug, Clone, Copy, PartialEq, Eq, Structural)]
pub struct Timestamp {
    pub seconds: i64,
    pub nanos: u32,
}

/// Relies on `chrono::Utc::now`: the current time. Nothing is promised of it.
#[verifier::external_body]
pub(crate) fn now() -> (r: Timestamp) {
    let t = chrono::Utc::now();
    Timestamp { seconds: t.timestamp(), nanos: t.timestamp_subsec_nanos() }
}

/// The uniform success/error envelope of every command.
#[derive(Debug)]
pub struct CommandResult<T> {
    pub success: bool,
    pub data: Option<T>,
    pub error: Option<String>,
    pub timestamp: Timestamp,
}

impl<T> CommandResult<T> {
    /// Exactly one of `data` and `error` is present, as `success` says.
    pub open spec fn wf(&self) -> bool {
        &&& self.success ==> self.data is Some && self.error is None
        &&& !self.success ==> self.data is None && self.error is Some
    }

    pub fn success(data: T) -> (r: Self)
        ensures
            r.wf(),
            r.success,
            r.data == Some(data),
    {
        CommandResult { success: true, data: Some(data), error: None, timestamp: now() }
    }

    pub fn error(error: String) -> (r: Self)
        ensures
            r.wf(),
            !r.success,
            r.error == Some(error),
    {
        CommandResult { success: false, data: None, error: Some(error), timestamp: now() }
    }
}

/// What the formatter prints for an envelope.
#[derive(Debug, PartialEq, Eq)]
pub enum Rendering {
    /// The whole envelope, pretty-printed as JSON.
    WholeEnvelope,
    /// The `data` payload alone, pretty-printed as JSON.
    DataOnly,
    /// A plain line of text.
    Line(String),
}

pub open spec fn human_error_line(error: Option<String>) -> Seq<char> {
    match error {
        Some(e) => "Error: "@ + e@,
        None => "Error: Unknown error"@,
    }
}

/// Decides how an envelope is rendered: JSON and YAML show the whole
/// envelope; human mode shows the payload on success and an `Error:` line on
/// failure.
pub fn format_output<T>(format: OutputFormat, result: &CommandResult<T>) -> (r: Rendering)
    ensures
        format != OutputFormat::Human ==> r == Rendering::WholeEnvelope,
        format == OutputFormat::Human && result.success && result.data is Some ==> r
            == Rendering::DataOnly,
        format == OutputFormat::Human && result.success && result.data is None ==> (r matches Rendering::Line(l) && l@ == "Operation completed successfully"@),
        format == OutputFormat::Human && !result.success ==> (r matches Rendering::Line(l) && l@ == human_error_line(result.error)),
{
    match format {
        OutputFormat::Json => Rendering::WholeEnvelope,
        OutputFormat::Yaml => Rendering::WholeEnvelope,
        OutputFormat::Human => {
            if result.success {
                match &result.data {
                    Some(_) => Rendering::DataOnly,
                    None => Rendering::Line(owned("Operation completed successfully")),
                }
            } else {
                match &result.error {
                    Some(e) => {
                        let mut line = owned("Error: ");
                        line.append(e.as_str());
                        Rendering::Line(line)
                    },
                    None => Rendering::Line(owned("Error: Unknown error")),
                }
            }
        },
    }
}

/// The process exit status for a top-level outcome.
pub fn exit_code(success: bool) -> (r: i32)
    ensures
        r == (if success { 0i32 } else { 1i32 }),
{
    if success {
        0
    } else {
        1
    }
}

} // verus!
