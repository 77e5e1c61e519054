//! JSON-RPC 2.0 messages between the shell core (server) and the web
//! interface (client), one JSON document per line: reading a line, and the
//! decisions of the server and the client.  Sockets, threads and writing
//! messages out are left to the caller.
use vstd::prelude::*;
use serde_json::Value;
use crate::paths::opt_view;
use crate::text::{chars_of, owned, push_str, string_of, trim, trimmed};

verus! {

/// `serde_json::Value`, carried through as it is.
#[verifier::external_type_specification]
#[verifier::external_body]
pub struct ExJsonValue(serde_json::Value);

/// The JSON-RPC version.
pub const JSONRPC_VERSION: &'static str = "2.0";

/// Error code: method not found.
pub const ERROR_METHOD_NOT_FOUND: i64 = -32601;

/// Error code: internal error.
pub const ERROR_INTERNAL: i64 = -32603;

/// A request (with an id) or a notification (without).
#[derive(Debug)]
pub struct RpcRequest {
    /// Protocol version (always `"2.0"`).
    pub jsonrpc: String,
    /// Requests carry an id, notifications none.
    pub id: Option<u64>,
    /// Method name.
    pub method: String,
    /// Parameters.
    pub params: serde_json::Value,
}

impl RpcRequest {
    /// A request.
    pub fn new_request(id: u64, method: String, params: serde_json::Value) -> (r: RpcRequest)
        ensures
            r.jsonrpc@ == JSONRPC_VERSION@,
            r.id == Some(id),
            r.method == method,
            r.params == params,
    {
        RpcRequest { jsonrpc: owned(JSONRPC_VERSION), id: Some(id), method, params }
    }

    /// A notification.
    pub fn new_notification(method: String, params: serde_json::Value) -> (r: RpcRequest)
        ensures
            r.jsonrpc@ == JSONRPC_VERSION@,
            r.id is None,
            r.method == method,
            r.params == params,
    {
        RpcRequest { jsonrpc: owned(JSONRPC_VERSION), id: None, method, params }
    }

    /// Whether this is a notification (no id).
    pub fn is_notification(&self) -> (r: bool)
        ensures
            r == self.id is None,
    {
        self.id.is_none()
    }
}

/// A notification, for broadcasting to the clients.
pub fn notification(method: &str, params: serde_json::Value) -> (r: RpcRequest)
    ensures
        r.jsonrpc@ == JSONRPC_VERSION@,
        r.id is None,
        r.method@ == method@,
        r.params == params,
{
    RpcRequest::new_notification(owned(method), params)
}

/// A JSON-RPC error.
#[derive(Debug, Clone, PartialEq, Eq)]
pub struct RpcError {
    /// Error code (see the JSON-RPC 2.0 specification).
    pub code: i64,
    /// Human-readable message.
    pub message: String,
}

impl RpcError {
    /// The method does not exist.
    pub fn method_not_found(method: &str) -> (e: RpcError)
        ensures
            e.code == ERROR_METHOD_NOT_FOUND,
            e.message@ == "method not found: "@ + method@,
    {
        let mut m = owned("method not found: ");
        push_str(&mut m, method);
        RpcError { code: ERROR_METHOD_NOT_FOUND, message: m }
    }

    /// An internal error.
    pub fn internal(detail: &str) -> (e: RpcError)
        ensures
            e.code == ERROR_INTERNAL,
            e.message@ == "internal error: "@ + detail@,
    {
        let mut m = owned("internal error: ");
        push_str(&mut m, detail);
        RpcError { code: ERROR_INTERNAL, message: m }
    }
}

/// A response: a result or an error, for the request with this id.
#[derive(Debug)]
pub struct RpcResponse {
    /// Protocol version (always `"2.0"`).
    pub jsonrpc: String,
    /// The id of the request.
    pub id: u64,
    /// The result (exclusive with `error`).
    pub result: Option<serde_json::Value>,
    /// The error (exclusive with `result`).
    pub error: Option<RpcError>,
}

impl RpcResponse {
    /// A successful response.
    pub fn ok(id: u64, result: serde_json::Value) -> (r: RpcResponse)
        ensures
            r.jsonrpc@ == JSONRPC_VERSION@,
            r.id == id,
            r.result == Some(result),
            r.error is None,
    {
        RpcResponse { jsonrpc: owned(JSONRPC_VERSION), id, result: Some(result), error: None }
    }

    /// An error response.
    pub fn err(id: u64, error: RpcError) -> (r: RpcResponse)
        ensures
            r.jsonrpc@ == JSONRPC_VERSION@,
            r.id == id,
            r.result is None,
            r.error == Some(error),
    {
        RpcResponse { jsonrpc: owned(JSONRPC_VERSION), id, result: None, error: Some(error) }
    }
}

/// The server's answer to a message: none for a notification; for a
/// request, the handler's result or error, or "method not found" when no
/// handler is registered (`outcome` is `None`).
pub fn dispatch(id: Option<u64>, method: &str, outcome: Option<Result<serde_json::Value, RpcError>>) -> (r:
    Option<RpcResponse>)
    ensures
        id is None ==> r is None,
        id matches Some(i) ==> (r matches Some(resp) && resp.id == i && resp.jsonrpc@ == JSONRPC_VERSION@
            && match outcome {
            Some(Ok(v)) => resp.result == Some(v) && resp.error is None,
            Some(Err(e)) => resp.result is None && resp.error == Some(e),
            None => resp.result is None && (resp.error matches Some(e) && e.code
                == ERROR_METHOD_NOT_FOUND && e.message@ == "method not found: "@ + method@),
        }),
{
    match id {
        None => None,
        Some(i) => Some(
            match outcome {
                Some(Ok(v)) => RpcResponse::ok(i, v),
                Some(Err(e)) => RpcResponse::err(i, e),
                None => RpcResponse::err(i, RpcError::method_not_found(method)),
            },
        ),
    }
}

/// `std::io::Error`-carrying errors of the client.
pub enum IpcClientError {
    /// The socket failed.
    Io(std::io::Error),
    /// The server answered with an error.
    Remote {
        /// JSON-RPC error code.
        code: i64,
        /// Error message.
        message: String,
    },
    /// A line was not valid JSON, or the connection closed.
    Protocol(String),
}

/// What the client does with a line read while it waits for the response
/// to request `want`.
pub enum ClientStep {
    /// Another message (a notification or another response): read on.
    Skip,
    /// The response carries an error.
    Failed(IpcClientError),
    /// The response carries this result (`null` when absent).
    Answer(Option<serde_json::Value>),
}

/// The client's step for a message with id `got` (absent or not an
/// unsigned integer: `None`), its `error` member (with the code and message
/// when they are present and of the right type), and its `result` member.
pub fn client_step(
    want: u64,
    got: Option<u64>,
    error: Option<(Option<i64>, Option<String>)>,
    result: Option<serde_json::Value>,
) -> (r: ClientStep)
    ensures
        got != Some(want) ==> r is Skip,
        got == Some(want) ==> match error {
            Some((code, message)) => (r matches ClientStep::Failed(IpcClientError::Remote { code: c, message: m })
                && c == (match code {
                Some(k) => k,
                None => -1i64,
            }) && m@ == (match message {
                Some(t) => t@,
                None => "unknown"@,
            })),
            None => (r matches ClientStep::Answer(v) && v == result),
        },
{
    if got != Some(want) {
        return ClientStep::Skip;
    }
    match error {
        Some((code, message)) => {
            let c = match code {
                Some(k) => k,
                None => -1,
            };
            let m = match message {
                Some(t) => t,
                None => owned("unknown"),
            };
            ClientStep::Failed(IpcClientError::Remote { code: c, message: m })
        },
        None => ClientStep::Answer(result),
    }
}

/// What `serde_json` reads from one line: `None` when the line is not a
/// JSON document; otherwise the `id` member as an unsigned integer, the
/// `method` member as a string, whether there is an `error` member, the
/// `code` of the error as an integer and its `message` as a string, and
/// whether there are `params` and `result` members.
pub uninterp spec fn wire_fields(line: Seq<char>) -> Option<
    (Option<u64>, Option<Seq<char>>, bool, Option<i64>, Option<Seq<char>>, bool, bool),
>;

/// The members of one received line that the server and the client read.
pub struct WireMessage {
    /// `id`, when it is an unsigned integer.
    pub id: Option<u64>,
    /// `method`, when it is a string.
    pub method: Option<String>,
    /// Whether there is an `error` member.
    pub has_error: bool,
    /// `error.code`, when it is an integer.
    pub error_code: Option<i64>,
    /// `error.message`, when it is a string.
    pub error_message: Option<String>,
    /// `params`, when present.
    pub params: Option<Value>,
    /// `result`, when present.
    pub result: Option<Value>,
}

/// The plain members of a message, in the order of `wire_fields`.
pub open spec fn message_fields(m: WireMessage) -> (
    Option<u64>,
    Option<Seq<char>>,
    bool,
    Option<i64>,
    Option<Seq<char>>,
    bool,
    bool,
) {
    (
        m.id,
        opt_view(m.method),
        m.has_error,
        m.error_code,
        opt_view(m.error_message),
        m.params is Some,
        m.result is Some,
    )
}

/// Parses one line with `serde_json::from_str` into a `serde_json::Value`
/// and reads its members with `Value::get`, `Value::pointer`, `as_u64`,
/// `as_i64` and `as_str`.  Claimed: the line parses exactly when
/// `wire_fields` gives a value, and then the plain members are those
/// `wire_fields` names.  The `params` and `result` values themselves, and
/// the text of a parse error, are left unsaid.
#[verifier::external_body]
fn read_wire(line: &str) -> (r: Result<WireMessage, String>)
    ensures
        match r {
            Ok(m) => wire_fields(line@) == Some(message_fields(m)),
            Err(_) => wire_fields(line@) is None,
        },
{
    let v: Value = match serde_json::from_str(line) {
        Ok(v) => v,
        Err(e) => return Err(e.to_string()),
    };
    Ok(WireMessage {
        id: v.get("id").and_then(Value::as_u64),
        method: v.get("method").and_then(Value::as_str).map(str::to_owned),
        has_error: v.get("error").is_some(),
        error_code: v.pointer("/error/code").and_then(Value::as_i64),
        error_message: v.pointer("/error/message").and_then(Value::as_str).map(str::to_owned),
        params: v.get("params").cloned(),
        result: v.get("result").cloned(),
    })
}

/// The request a message carries for the server: none for a notification
/// (no id); otherwise the id, the method (empty when absent or not a
/// string) and the parameters when present.
pub fn message_request(m: WireMessage) -> (r: Option<(u64, String, Option<Value>)>)
    ensures
        match m.id {
            None => r is None,
            Some(i) => r matches Some((id, method, params)) && id == i && method@ == (match m.method {
                Some(t) => t@,
                None => Seq::empty(),
            }) && params == m.params,
        },
{
    match m.id {
        None => None,
        Some(i) => {
            let method = match m.method {
                Some(t) => t,
                None => String::new(),
            };
            Some((i, method, m.params))
        },
    }
}

/// The request that one received line carries for the server: none for a
/// blank line, a line that is not JSON, or a notification; otherwise the
/// id, the method (empty when absent or not a string) and whether
/// parameters are present.
pub fn server_request(line: &str) -> (r: Option<(u64, String, Option<Value>)>)
    ensures
        trim(line@).len() == 0 ==> r is None,
        trim(line@).len() > 0 ==> match wire_fields(trim(line@)) {
            None => r is None,
            Some(f) => match f.0 {
                None => r is None,
                Some(i) => r matches Some((id, method, params)) && id == i && method@ == (match f.1 {
                    Some(t) => t,
                    None => Seq::empty(),
                }) && (params is Some) == f.5,
            },
        },
{
    let cs = chars_of(line);
    let tv = trimmed(cs.as_slice());
    if tv.len() == 0 {
        return None;
    }
    let t = string_of(tv.as_slice());
    match read_wire(t.as_str()) {
        Ok(m) => message_request(m),
        Err(_) => None,
    }
}

/// The client's step for a message while it waits for the response to
/// request `want` (see `client_step`).
pub fn message_step(want: u64, m: WireMessage) -> (r: ClientStep)
    ensures
        step_fits(r, want, m.id, if m.has_error {
            Some((m.error_code, opt_view(m.error_message)))
        } else {
            None
        }, m.result is Some),
        r matches ClientStep::Answer(v) ==> v == m.result,
{
    let error = if m.has_error {
        Some((m.error_code, m.error_message))
    } else {
        None
    };
    client_step(want, m.id, error, m.result)
}

/// Whether `r` is what the client does with a message with id `got`, an
/// error member with this code and message (`error`), and a result member
/// when `has_result`, while it waits for the response to request `want`.
pub open spec fn step_fits(
    r: ClientStep,
    want: u64,
    got: Option<u64>,
    error: Option<(Option<i64>, Option<Seq<char>>)>,
    has_result: bool,
) -> bool {
    if got != Some(want) {
        r is Skip
    } else {
        match error {
            Some((code, message)) => r matches ClientStep::Failed(
                IpcClientError::Remote { code: c, message: m },
            ) && c == (match code {
                Some(k) => k,
                None => -1i64,
            }) && m@ == (match message {
                Some(t) => t,
                None => "unknown"@,
            }),
            None => r matches ClientStep::Answer(v) && (v is Some) == has_result,
        }
    }
}

/// The client's step for one received line while it waits for the
/// response to request `want`: a protocol error when the line is not JSON;
/// otherwise as `client_step` decides on the members of the line.
pub fn client_line_step(want: u64, line: &str) -> (r: ClientStep)
    ensures
        wire_fields(trim(line@)) is None <==> r matches ClientStep::Failed(
            IpcClientError::Protocol(_),
        ),
        wire_fields(trim(line@)) matches Some(f) ==> step_fits(
            r,
            want,
            f.0,
            if f.2 {
                Some((f.3, f.4))
            } else {
                None
            },
            f.6,
        ),
{
    let cs = chars_of(line);
    let tv = trimmed(cs.as_slice());
    let t = string_of(tv.as_slice());
    match read_wire(t.as_str()) {
        Ok(m) => message_step(want, m),
        Err(e) => ClientStep::Failed(IpcClientError::Protocol(e)),
    }
}

} // verus!
