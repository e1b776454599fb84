//! The buffered record, and how one is made from a callback.

use crate::request::{text_attribute, CoprocessorRequest};
use vstd::prelude::*;

verus! {

/// A UTC instant: seconds since 1970-01-01T00:00:00Z and the nanoseconds
/// within that second.
#[derive(Debug, Clone, Copy, PartialEq, Eq, Structural)]
pub struct Timestamp {
    pub secs: i64,
    pub nanos: u32,
}

/// What the sink keeps of one routed request.
#[derive(Debug, Clone)]
pub struct Report {
    pub id: String,
    /// When the record entered the buffer.
    pub timestamp: Timestamp,
    pub operation_name: String,
    pub client_name: String,
    pub client_version: String,
    /// Status of the response; `0` when the callback carried none.
    pub status_code: u16,
}

/// A report as a mathematical value.
pub struct ReportView {
    pub id: Seq<char>,
    pub timestamp: Timestamp,
    pub operation_name: Seq<char>,
    pub client_name: Seq<char>,
    pub client_version: Seq<char>,
    pub status_code: u16,
}

impl View for Report {
    type V = ReportView;

    open spec fn view(&self) -> ReportView {
        ReportView {
            id: self.id@,
            timestamp: self.timestamp,
            operation_name: self.operation_name@,
            client_name: self.client_name@,
            client_version: self.client_version@,
            status_code: self.status_code,
        }
    }
}

/// Context attribute that names the GraphQL operation.
pub open spec fn operation_name_key() -> Seq<char> {
    "operation_name"@
}

/// Context attribute that names the client.
pub open spec fn client_name_key() -> Seq<char> {
    "apollo_telemetry::client_name"@
}

/// Context attribute that gives the client's version.
pub open spec fn client_version_key() -> Seq<char> {
    "apollo_telemetry::client_version"@
}

/// Operation name of a callback that gives none.
pub open spec fn anonymous_operation() -> Seq<char> {
    "Anonymous Operation"@
}

/// Client name and version of a callback that gives none.
pub open spec fn unknown_client() -> Seq<char> {
    "Unknown"@
}

/// `text`, or `fallback` where there is none.
pub open spec fn text_or(text: Option<Seq<char>>, fallback: Seq<char>) -> Seq<char> {
    match text {
        Some(s) => s,
        None => fallback,
    }
}

/// The record that a callback received at `timestamp` stands for.
pub open spec fn report_of(request: CoprocessorRequest, timestamp: Timestamp) -> ReportView {
    ReportView {
        id: request.id@,
        timestamp,
        operation_name: text_or(
            text_attribute(request.context, operation_name_key()),
            anonymous_operation(),
        ),
        client_name: text_or(text_attribute(request.context, client_name_key()), unknown_client()),
        client_version: text_or(
            text_attribute(request.context, client_version_key()),
            unknown_client(),
        ),
        status_code: match request.status_code {
            Some(code) => code,
            None => 0,
        },
    }
}

/// The string that `request` gives for `key`, or `fallback`.
fn attribute_or(request: &CoprocessorRequest, key: &str, fallback: &str) -> (text: String)
    ensures
        text@ == text_or(text_attribute(request.context, key@), fallback@),
{
    let key: String = key.to_string();
    match request.text_attribute(&key) {
        Some(s) => s,
        None => fallback.to_string(),
    }
}

impl Report {
    /// Builds the record for a callback received at `timestamp`: the
    /// callback's `id`, its status or `0`, and the three recognized context
    /// strings, each replaced by its fallback where the context has no string
    /// under that name.
    pub fn from_request(request: &CoprocessorRequest, timestamp: Timestamp) -> (report: Report)
        ensures
            report@ == report_of(*request, timestamp),
    {
        let status_code: u16 = match request.status_code {
            Some(code) => code,
            None => 0,
        };
        Report {
            id: request.id.clone(),
            timestamp,
            operation_name: attribute_or(request, "operation_name", "Anonymous Operation"),
            client_name: attribute_or(request, "apollo_telemetry::client_name", "Unknown"),
            client_version: attribute_or(request, "apollo_telemetry::client_version", "Unknown"),
            status_code,
        }
    }
}

} // verus!
