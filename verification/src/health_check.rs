//! MCP protocol health checks via JSON-RPC initialize handshake: the request
//! that is sent, how a reply is read, and what a probe reports.

use vstd::prelude::*;

use crate::json::{json_get, json_str_opt, nested_str, nested_str_of, parse_json, spec_parse_json, Json, JsonValue};
use crate::text::{spec_trim, trim};

verus! {

/// Result of an MCP protocol health probe.
#[derive(Debug)]
pub struct HealthCheckResult {
    pub mcp_responsive: Option<bool>,
    pub protocol_version: Option<String>,
    pub server_info: Option<String>,
    pub error: Option<String>,
}

/// The JSON-RPC `initialize` request that a probe sends, one line.
pub const INITIALIZE_REQUEST: &'static str = "{\"jsonrpc\":\"2.0\",\"method\":\"initialize\",\"id\":1,\"params\":{\"protocolVersion\":\"2024-11-05\",\"capabilities\":{},\"clientInfo\":{\"name\":\"berth\",\"version\":\"0.1.0\"}}}";

/// `s`, or `unknown` where there is none.
pub open spec fn or_unknown(s: Option<Seq<char>>) -> Seq<char> {
    match s {
        Some(t) => t,
        None => "unknown"@,
    }
}

/// The protocol version and the server name that an initialize reply holds:
/// `None` unless the reply is JSON with a `result` member; a missing or
/// non-string field reads as `unknown`.
pub open spec fn spec_initialize_fields(parsed: Option<Json>) -> Option<(Seq<char>, Seq<char>)> {
    match parsed {
        None => None,
        Some(v) => match json_get(v, "result"@) {
            None => None,
            Some(result) => Some(
                (
                    or_unknown(json_str_opt(json_get(result, "protocolVersion"@))),
                    or_unknown(nested_str(result, "serverInfo"@, "name"@)),
                ),
            ),
        },
    }
}

/// The text of `s`, or `unknown`.
fn text_or_unknown(s: Option<&String>) -> (r: String)
    ensures
        r@ == or_unknown(
            match s {
                Some(t) => Some(t@),
                None => None,
            },
        ),
{
    match s {
        Some(t) => t.clone(),
        None => String::from_str("unknown"),
    }
}

/// Reads the protocol version and the server name out of a parsed
/// initialize reply (`None`: the reply was not JSON).
pub fn initialize_fields(parsed: Option<JsonValue>) -> (r: Option<(String, String)>)
    ensures
        match r {
            Some((version, info)) => spec_initialize_fields(
                match parsed {
                    Some(v) => Some(v.model()),
                    None => None,
                },
            ) == Some((version@, info@)),
            None => spec_initialize_fields(
                match parsed {
                    Some(v) => Some(v.model()),
                    None => None,
                },
            ) is None,
        },
{
    let value = match parsed {
        Some(v) => v,
        None => return None,
    };
    let result = match value.get("result") {
        Some(x) => x,
        None => return None,
    };
    let version_field = match result.get("protocolVersion") {
        Some(x) => x.as_str(),
        None => None,
    };
    let version = text_or_unknown(version_field);
    let info = text_or_unknown(nested_str_of(result, "serverInfo", "name"));
    Some((version, info))
}

/// Extracts protocol version and server name from a JSON-RPC initialize response.
pub fn parse_initialize_response(line: &str) -> (r: Option<(String, String)>)
    ensures
        match r {
            Some((version, info)) => spec_initialize_fields(spec_parse_json(spec_trim(line@)))
                == Some((version@, info@)),
            None => spec_initialize_fields(spec_parse_json(spec_trim(line@))) is None,
        },
{
    initialize_fields(parse_json(trim(line)))
}

/// How a probe ended, as the process and pipe handling observed it.
#[derive(Debug)]
pub enum ProbeOutcome {
    /// The server process could not be started; the text describes why.
    SpawnFailed(String),
    /// The server answered with this line.
    Reply(String),
    /// No line came back before the timeout.
    NoReply,
}

/// The fields of a health report, by their views.
pub struct HealthFields {
    pub responsive: Option<bool>,
    pub version: Option<Seq<char>>,
    pub info: Option<Seq<char>>,
    pub error: Option<Seq<char>>,
}

/// The view of an optional string.
pub open spec fn opt_view(s: Option<String>) -> Option<Seq<char>> {
    match s {
        Some(t) => Some(t@),
        None => None,
    }
}

impl HealthCheckResult {
    pub open spec fn fields(&self) -> HealthFields {
        HealthFields {
            responsive: self.mcp_responsive,
            version: opt_view(self.protocol_version),
            info: opt_view(self.server_info),
            error: opt_view(self.error),
        }
    }
}

/// A report of an unresponsive server with the error `error`.
pub open spec fn failed_fields(error: Seq<char>) -> HealthFields {
    HealthFields { responsive: Some(false), version: None, info: None, error: Some(error) }
}

/// What a probe reports for each way it can end.
pub open spec fn spec_health_fields(outcome: ProbeOutcome) -> HealthFields {
    match outcome {
        ProbeOutcome::SpawnFailed(e) => failed_fields("spawn failed: "@ + e@),
        ProbeOutcome::NoReply => failed_fields("timeout"@),
        ProbeOutcome::Reply(line) => match spec_initialize_fields(spec_parse_json(spec_trim(line@))) {
            Some((version, info)) => HealthFields {
                responsive: Some(true),
                version: Some(version),
                info: Some(info),
                error: None,
            },
            None => failed_fields("invalid response"@),
        },
    }
}

/// Turns the way a probe ended into its report.
pub fn health_check_result(outcome: ProbeOutcome) -> (r: HealthCheckResult)
    ensures
        r.fields() == spec_health_fields(outcome),
{
    match outcome {
        ProbeOutcome::SpawnFailed(e) => {
            let mut message = String::from_str("spawn failed: ");
            message.append(e.as_str());
            HealthCheckResult {
                mcp_responsive: Some(false),
                protocol_version: None,
                server_info: None,
                error: Some(message),
            }
        },
        ProbeOutcome::Reply(line) => match parse_initialize_response(line.as_str()) {
            Some((version, info)) => HealthCheckResult {
                mcp_responsive: Some(true),
                protocol_version: Some(version),
                server_info: Some(info),
                error: None,
            },
            None => HealthCheckResult {
                mcp_responsive: Some(false),
                protocol_version: None,
                server_info: None,
                error: Some(String::from_str("invalid response")),
            },
        },
        ProbeOutcome::NoReply => HealthCheckResult {
            mcp_responsive: Some(false),
            protocol_version: None,
            server_info: None,
            error: Some(String::from_str("timeout")),
        },
    }
}

/// Every report is one of two kinds: a responsive server, with protocol
/// version and server name and no error, or an unresponsive one, with an
/// error and neither version nor name.
pub proof fn lemma_health_report_consistent(outcome: ProbeOutcome)
    ensures
        ({
            let f = spec_health_fields(outcome);
            &&& f.responsive is Some
            &&& (f.responsive == Some(true)) == (f.error is None)
            &&& (f.responsive == Some(true)) == (f.version is Some)
            &&& (f.responsive == Some(true)) == (f.info is Some)
        }),
{
}

/// A reply makes the server responsive exactly when it is JSON with a
/// `result` member; the version and name reported are then that result's
/// `protocolVersion` and `serverInfo.name` where they are strings, and
/// `unknown` where they are not.
pub proof fn lemma_reply_report(line: String)
    ensures
        ({
            let f = spec_health_fields(ProbeOutcome::Reply(line));
            let parsed = spec_parse_json(spec_trim(line@));
            &&& f.responsive == Some(true) <==> (parsed is Some && json_get(parsed->0, "result"@) is Some)
            &&& f.responsive == Some(true) ==> {
                let result = json_get(parsed->0, "result"@)->0;
                &&& f.version == Some(
                    match json_str_opt(json_get(result, "protocolVersion"@)) {
                        Some(s) => s,
                        None => "unknown"@,
                    },
                )
                &&& f.info == Some(
                    match nested_str(result, "serverInfo"@, "name"@) {
                        Some(s) => s,
                        None => "unknown"@,
                    },
                )
            }
            &&& f.responsive == Some(false) ==> f.error == Some("invalid response"@)
        }),
{
}

} // verus!
