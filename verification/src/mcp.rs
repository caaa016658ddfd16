//! The request decisions of the JSON-RPC server: which method a request
//! names, the error it gets otherwise, and how its port parameter is read.

use vstd::prelude::*;
use vstd::string::StringExecFns;
use crate::text::str_eq;

verus! {

/// The methods the server answers.
#[derive(Clone, Copy, Debug, PartialEq, Eq, Structural)]
pub enum McpMethod {
    ListProcesses,
    ListScripts,
    StartScript,
    KillProcess,
    GetProcessDetail,
}

/// The method a request's `method` member names.
pub open spec fn method_spec(name: Seq<char>) -> Option<McpMethod> {
    if name == "list_processes"@ {
        Some(McpMethod::ListProcesses)
    } else if name == "list_scripts"@ {
        Some(McpMethod::ListScripts)
    } else if name == "start_script"@ {
        Some(McpMethod::StartScript)
    } else if name == "kill_process"@ {
        Some(McpMethod::KillProcess)
    } else if name == "get_process_detail"@ {
        Some(McpMethod::GetProcessDetail)
    } else {
        None
    }
}

/// The JSON-RPC error code of every failed request.
pub const INTERNAL_ERROR: i32 = -32603;

/// The method named `name`, if the server answers it.
pub fn method_of(name: &str) -> (r: Option<McpMethod>)
    ensures
        r == method_spec(name@),
{
    if str_eq(name, "list_processes") {
        Some(McpMethod::ListProcesses)
    } else if str_eq(name, "list_scripts") {
        Some(McpMethod::ListScripts)
    } else if str_eq(name, "start_script") {
        Some(McpMethod::StartScript)
    } else if str_eq(name, "kill_process") {
        Some(McpMethod::KillProcess)
    } else if str_eq(name, "get_process_detail") {
        Some(McpMethod::GetProcessDetail)
    } else {
        None
    }
}

/// The error message for a request naming an unknown method.
pub fn unknown_method_message(name: &str) -> (r: String)
    ensures
        r@ == "Unknown method: "@ + name@,
{
    let mut r = String::from_str("Unknown method: ");
    r.append(name);
    r
}

/// The port of a `start_script` request: its `port` number taken modulo
/// 2^16, as a cast to `u16` reads it.
pub fn port_param(port: Option<u64>) -> (r: Option<u16>)
    ensures
        r == match port {
            Some(p) => Some((p % 65536) as u16),
            None => None::<u16>,
        },
{
    match port {
        Some(p) => Some((p % 65536) as u16),
        None => None,
    }
}

/// Why a request's parameters were refused.
#[derive(Clone, Copy, Debug, PartialEq, Eq, Structural)]
pub enum RequestError {
    /// The request has no parameters.
    MissingParameters,
    /// The request names no script.
    MissingScriptName,
    /// The request names no process.
    MissingProcessName,
}

impl RequestError {
    /// The message reported for the error.
    pub fn message(&self) -> (r: &'static str)
        ensures
            *self == RequestError::MissingParameters ==> r@ == "Missing parameters"@,
            *self == RequestError::MissingScriptName ==> r@ == "Missing script name"@,
            *self == RequestError::MissingProcessName ==> r@ == "Missing process name"@,
    {
        match self {
            RequestError::MissingParameters => "Missing parameters",
            RequestError::MissingScriptName => "Missing script name",
            RequestError::MissingProcessName => "Missing process name",
        }
    }
}

/// A required text parameter of a request: refused with `MissingParameters`
/// when the request has no parameters, with `missing` when the parameter is
/// absent or not a string (`value` is `None`), else its text.
pub fn required_text(has_params: bool, value: Option<String>, missing: RequestError) -> (r: Result<String, RequestError>)
    ensures
        !has_params ==> r == Err::<String, RequestError>(RequestError::MissingParameters),
        has_params ==> r == match value {
            Some(v) => Ok::<String, RequestError>(v),
            None => Err::<String, RequestError>(missing),
        },
{
    if !has_params {
        return Err(RequestError::MissingParameters);
    }
    match value {
        Some(v) => Ok(v),
        None => Err(missing),
    }
}

} // verus!
