//! Client-side session logic shared by the transports: options, the server
//! identity from `initialize`, request ids, session-id replay, request
//! headers, and what each operation makes of the server's answer.
use vstd::prelude::*;
use crate::auth::{auth_header, McpAuth};
use crate::error::{McpError, McpErrorView};
use crate::json::{Json, JsonView};
use crate::proto::{
    build_initialize, build_initialized, build_tools_call, build_tools_list, extract_result,
    extract_tool_output, get_str, initialize_request, listed_tools, map_tools_list,
    result_outcome, str_field, tool_def_views, tool_outcome, tools_call_request,
    tools_list_request, McpToolDef, ToolOutput, ToolOutputView, ToolDefView, PROTOCOL_VERSION,
};
use std::time::Duration;

verus! {

/// Header that carries the server-assigned session id.
pub const SESSION_HEADER: &'static str = "Mcp-Session-Id";

/// What `Duration::from_secs` makes of a number of whole seconds.
pub uninterp spec fn seconds_duration(secs: u64) -> Duration;

/// `Duration::from_secs`: a duration of whole seconds, the named
/// `seconds_duration` of its argument.
#[verifier::external_body]
fn whole_seconds(secs: u64) -> (r: Duration)
    ensures
        r == seconds_duration(secs),
{
    Duration::from_secs(secs)
}

/// Shared client configuration. HTTP uses `timeout` as a connect+read
/// timeout; stdio uses it as a per-request read timeout.
#[derive(Debug)]
pub struct McpClientOptions {
    /// Per-request timeout.
    pub timeout: Duration,
    /// Reported in the `initialize` clientInfo. Name your consumer.
    pub client_name: String,
    pub client_version: String,
}

impl Clone for McpClientOptions {
    fn clone(&self) -> (r: Self)
        ensures
            r.timeout == self.timeout,
            r.client_name@ == self.client_name@,
            r.client_version@ == self.client_version@,
    {
        McpClientOptions {
            timeout: self.timeout,
            client_name: self.client_name.clone(),
            client_version: self.client_version.clone(),
        }
    }
}

impl Default for McpClientOptions {
    fn default() -> (r: Self)
        ensures
            r.timeout == seconds_duration(30),
            r.client_name@ == "greentic-mcp-client"@,
            r.client_version@ == "0.1.0"@,
    {
        McpClientOptions {
            timeout: whole_seconds(30),
            client_name: "greentic-mcp-client".to_owned(),
            client_version: "0.1.0".to_owned(),
        }
    }
}

/// Server identity from the `initialize` result.
#[derive(Debug, PartialEq, Eq)]
pub struct ServerInfo {
    pub name: String,
    pub version: String,
    pub protocol_version: String,
}

/// View of a [`ServerInfo`].
pub struct ServerInfoView {
    pub name: Seq<char>,
    pub version: Seq<char>,
    pub protocol_version: Seq<char>,
}

impl View for ServerInfo {
    type V = ServerInfoView;

    open spec fn view(&self) -> ServerInfoView {
        ServerInfoView {
            name: self.name@,
            version: self.version@,
            protocol_version: self.protocol_version@,
        }
    }
}

impl Clone for ServerInfo {
    fn clone(&self) -> (r: Self)
        ensures
            r@ == self@,
    {
        ServerInfo {
            name: self.name.clone(),
            version: self.version.clone(),
            protocol_version: self.protocol_version.clone(),
        }
    }
}

/// A text member, or the empty text when it is missing or not a string.
pub open spec fn text_or_empty(v: JsonView, key: Seq<char>) -> Seq<char> {
    match str_field(v, key) {
        Some(s) => s,
        None => Seq::empty(),
    }
}

/// The server identity an `initialize` result describes; missing string
/// fields are empty, a missing `serverInfo` object is an error.
pub open spec fn server_info_outcome(result: JsonView) -> Result<ServerInfoView, McpErrorView> {
    match result.field("serverInfo"@) {
        None => Err(McpErrorView::BadInitialize("missing serverInfo in initialize result"@)),
        Some(info) => Ok(
            ServerInfoView {
                name: text_or_empty(info, "name"@),
                version: text_or_empty(info, "version"@),
                protocol_version: text_or_empty(result, "protocolVersion"@),
            },
        ),
    }
}

fn owned_or_empty(s: Option<&str>) -> (r: String)
    ensures
        r@ == match s {
            Some(t) => t@,
            None => Seq::empty(),
        },
{
    match s {
        Some(t) => t.to_owned(),
        None => String::new(),
    }
}

impl ServerInfo {
    /// Build [`ServerInfo`] from an `initialize` result object. Missing string
    /// fields default to empty; a missing `serverInfo` object is an error.
    pub fn from_initialize_result(result: &Json) -> (r: Result<ServerInfo, McpError>)
        ensures
            match r {
                Ok(i) => server_info_outcome(result@) == Ok::<ServerInfoView, McpErrorView>(i@),
                Err(e) => server_info_outcome(result@) == Err::<ServerInfoView, McpErrorView>(e@),
            },
    {
        let info = match result.get("serverInfo") {
            Some(i) => i,
            None => {
                return Err(
                    McpError::BadInitialize("missing serverInfo in initialize result".to_owned()),
                )
            },
        };
        Ok(ServerInfo {
            name: owned_or_empty(get_str(info, "name")),
            version: owned_or_empty(get_str(info, "version")),
            protocol_version: owned_or_empty(get_str(result, "protocolVersion")),
        })
    }
}

/// What an `initialize` answer yields: the server identity, or the error of
/// the envelope or of its result.
pub open spec fn initialize_outcome(envelope: JsonView) -> Result<ServerInfoView, McpErrorView> {
    match result_outcome(envelope) {
        Ok(result) => server_info_outcome(result),
        Err(e) => Err(e),
    }
}

/// What a `tools/list` answer yields.
pub open spec fn list_tools_outcome(envelope: JsonView) -> Result<Seq<ToolDefView>, McpErrorView> {
    match result_outcome(envelope) {
        Ok(result) => Ok(listed_tools(result)),
        Err(e) => Err(e),
    }
}

/// What a `tools/call` answer yields: the output, a tool error for a result
/// flagged `isError`, or the error of the envelope.
pub open spec fn call_tool_outcome(envelope: JsonView) -> Result<ToolOutputView, McpErrorView> {
    match result_outcome(envelope) {
        Ok(result) => match tool_outcome(result) {
            Ok(o) => Ok(o),
            Err(m) => Err(McpErrorView::ToolCall(m)),
        },
        Err(e) => Err(e),
    }
}

/// The server identity an `initialize` answer carries.
pub fn finish_initialize(envelope: &Json) -> (r: Result<ServerInfo, McpError>)
    ensures
        match r {
            Ok(i) => initialize_outcome(envelope@) == Ok::<ServerInfoView, McpErrorView>(i@),
            Err(e) => initialize_outcome(envelope@) == Err::<ServerInfoView, McpErrorView>(e@),
        },
{
    let result = match extract_result(envelope) {
        Ok(r) => r,
        Err(e) => return Err(e),
    };
    ServerInfo::from_initialize_result(&result)
}

/// The tool definitions a `tools/list` answer carries.
pub fn finish_list_tools(envelope: &Json) -> (r: Result<Vec<McpToolDef>, McpError>)
    ensures
        match r {
            Ok(d) => list_tools_outcome(envelope@) == Ok::<Seq<ToolDefView>, McpErrorView>(
                tool_def_views(d@),
            ),
            Err(e) => list_tools_outcome(envelope@) == Err::<Seq<ToolDefView>, McpErrorView>(e@),
        },
{
    let result = match extract_result(envelope) {
        Ok(r) => r,
        Err(e) => return Err(e),
    };
    Ok(map_tools_list(&result))
}

/// The output a `tools/call` answer carries. Server-side tool failure
/// (`isError`) maps to [`McpError::ToolCall`]; JSON-RPC failures to
/// [`McpError::Server`].
pub fn finish_call_tool(envelope: &Json) -> (r: Result<ToolOutput, McpError>)
    ensures
        match r {
            Ok(o) => call_tool_outcome(envelope@) == Ok::<ToolOutputView, McpErrorView>(o@),
            Err(e) => call_tool_outcome(envelope@) == Err::<ToolOutputView, McpErrorView>(e@),
        },
{
    let result = match extract_result(envelope) {
        Ok(r) => r,
        Err(e) => return Err(e),
    };
    match extract_tool_output(&result) {
        Ok(o) => Ok(o),
        Err(e) => Err(McpError::ToolCall(e)),
    }
}

/// One logical session against an MCP server: request ids are monotonically
/// increasing from 1, and the session id the server assigns (if any) is
/// replayed on every subsequent request.
pub struct McpSession {
    next_id: u64,
    session_id: Option<String>,
}

/// View of an [`McpSession`].
pub struct SessionView {
    pub next_id: u64,
    pub session_id: Option<Seq<char>>,
}

impl View for McpSession {
    type V = SessionView;

    closed spec fn view(&self) -> SessionView {
        SessionView {
            next_id: self.next_id,
            session_id: match self.session_id {
                Some(s) => Some(s@),
                None => None,
            },
        }
    }
}

/// Taking an id hands out `next_id` and moves on to the following one.
pub open spec fn took_id(before: SessionView, id: u64, after: SessionView) -> bool {
    &&& id == before.next_id
    &&& after.next_id == before.next_id + 1
    &&& after.session_id == before.session_id
}

/// The session after a response whose session header is `header`: a header
/// present replaces the recorded id, an absent one keeps it.
pub open spec fn after_response(before: SessionView, header: Option<Seq<char>>) -> SessionView {
    SessionView {
        next_id: before.next_id,
        session_id: match header {
            Some(h) => Some(h),
            None => before.session_id,
        },
    }
}

/// The headers of a request: content negotiation, then authentication if
/// configured, then the session id once the server assigned one.
pub open spec fn request_header_list(auth: Option<crate::auth::AuthView>, session: SessionView) -> Seq<
    (Seq<char>, Seq<char>),
> {
    let base = seq![
        ("Content-Type"@, "application/json"@),
        ("Accept"@, "application/json, text/event-stream"@),
    ];
    let with_auth = match auth {
        Some(a) => base.push(auth_header(a)),
        None => base,
    };
    match session.session_id {
        Some(s) => with_auth.push((SESSION_HEADER@, s)),
        None => with_auth,
    }
}

/// The views of a list of headers.
pub open spec fn header_views(h: Seq<(String, String)>) -> Seq<(Seq<char>, Seq<char>)> {
    h.map_values(|p: (String, String)| (p.0@, p.1@))
}

/// The content type a response is read as: its header, or JSON when absent.
pub open spec fn effective_content_type(header: Option<Seq<char>>) -> Seq<char> {
    match header {
        Some(h) => h,
        None => "application/json"@,
    }
}

impl McpSession {
    /// A fresh session: the first request gets id 1, no session id yet.
    pub fn new() -> (r: Self)
        ensures
            r@.next_id == 1,
            r@.session_id is None,
    {
        McpSession { next_id: 1, session_id: None }
    }

    /// The id the next request will get.
    pub fn next_id(&self) -> (r: u64)
        ensures
            r == self@.next_id,
    {
        self.next_id
    }

    /// The session id the server assigned, if any.
    pub fn session_id(&self) -> (r: Option<&str>)
        ensures
            match r {
                Some(s) => self@.session_id == Some(s@),
                None => self@.session_id is None,
            },
    {
        match &self.session_id {
            Some(s) => Some(s.as_str()),
            None => None,
        }
    }

    /// Hands out the next request id.
    pub fn take_id(&mut self) -> (r: u64)
        requires
            old(self)@.next_id < u64::MAX,
        ensures
            took_id(old(self)@, r, final(self)@),
    {
        let id = self.next_id;
        self.next_id = self.next_id + 1;
        id
    }

    /// Records the session header of a response, if it carried one.
    pub fn record_response(&mut self, header: Option<&str>)
        ensures
            final(self)@ == after_response(
                old(self)@,
                match header {
                    Some(h) => Some(h@),
                    None => None,
                },
            ),
    {
        match header {
            Some(h) => {
                self.session_id = Some(h.to_owned());
            },
            None => {},
        }
    }

    /// The headers to send with the next request.
    pub fn request_headers(&self, auth: Option<&McpAuth>) -> (r: Vec<(String, String)>)
        ensures
            header_views(r@) == request_header_list(
                match auth {
                    Some(a) => Some(a@),
                    None => None,
                },
                self@,
            ),
    {
        let mut headers: Vec<(String, String)> = Vec::new();
        headers.push(("Content-Type".to_owned(), "application/json".to_owned()));
        headers.push(("Accept".to_owned(), "application/json, text/event-stream".to_owned()));
        match auth {
            Some(a) => headers.push(a.header()),
            None => {},
        }
        match &self.session_id {
            Some(s) => headers.push((SESSION_HEADER.to_owned(), s.clone())),
            None => {},
        }
        assert(header_views(headers@) =~= request_header_list(
            match auth {
                Some(a) => Some(a@),
                None => None,
            },
            self@,
        ));
        headers
    }

    /// Starts the `initialize` handshake: its id and payload.
    pub fn begin_initialize(&mut self, opts: &McpClientOptions) -> (r: (u64, Json))
        requires
            old(self)@.next_id < u64::MAX,
        ensures
            took_id(old(self)@, r.0, final(self)@),
            r.1@ == initialize_request(
                r.0,
                PROTOCOL_VERSION@,
                opts.client_name@,
                opts.client_version@,
            ),
    {
        let id = self.take_id();
        let payload = build_initialize(
            id,
            PROTOCOL_VERSION,
            opts.client_name.as_str(),
            opts.client_version.as_str(),
        );
        (id, payload)
    }

    /// Starts a `tools/list` request: its id and payload.
    pub fn begin_list_tools(&mut self) -> (r: (u64, Json))
        requires
            old(self)@.next_id < u64::MAX,
        ensures
            took_id(old(self)@, r.0, final(self)@),
            r.1@ == tools_list_request(r.0),
    {
        let id = self.take_id();
        (id, build_tools_list(id))
    }

    /// Starts a `tools/call` request: its id and payload.
    pub fn begin_call_tool(&mut self, name: &str, arguments: &Json) -> (r: (u64, Json))
        requires
            old(self)@.next_id < u64::MAX,
        ensures
            took_id(old(self)@, r.0, final(self)@),
            r.1@ == tools_call_request(r.0, name@, arguments@),
    {
        let id = self.take_id();
        (id, build_tools_call(id, name, arguments))
    }
}

/// The `notifications/initialized` message that completes the handshake.
pub fn initialized_message() -> (r: Json)
    ensures
        r@ == crate::proto::initialized_notification(),
{
    build_initialized()
}

/// The content type a response is read as.
pub fn response_content_type(header: Option<&str>) -> (r: String)
    ensures
        r@ == effective_content_type(
            match header {
                Some(h) => Some(h@),
                None => None,
            },
        ),
{
    match header {
        Some(h) => h.to_owned(),
        None => "application/json".to_owned(),
    }
}

// ---------------------------------------------------------------------------
// Laws of a session
// ---------------------------------------------------------------------------

/// Request ids strictly increase within a session: each id taken after
/// another is larger by exactly one.
pub proof fn law_ids_increase(s0: SessionView, id1: u64, s1: SessionView, id2: u64, s2: SessionView)
    requires
        took_id(s0, id1, s1),
        took_id(s1, id2, s2),
    ensures
        id2 == id1 + 1,
        id1 < id2,
{
}

/// Once a response assigned a session id, every later request carries it as
/// its last header, until another response assigns a new one.
pub proof fn law_session_id_replayed(
    s: SessionView,
    header: Seq<char>,
    auth: Option<crate::auth::AuthView>,
)
    ensures
        request_header_list(auth, after_response(s, Some(header))).last() == (
            SESSION_HEADER@,
            header,
        ),
        after_response(after_response(s, Some(header)), None).session_id == Some(header),
{
}

/// Without a session id no request carries the session header.
pub proof fn law_no_session_no_header(s: SessionView, auth: Option<crate::auth::AuthView>)
    requires
        s.session_id is None,
    ensures
        request_header_list(auth, s).len() == if auth is Some {
            3int
        } else {
            2int
        },
{
}

/// The error an answer's envelope carries reaches the caller unchanged,
/// whatever the operation: a JSON-RPC `error` stays a server error with its
/// code and message. A tool error comes only from a delivered result that is
/// flagged `isError: true`, and carries no code.
pub proof fn law_envelope_errors_pass_through(envelope: JsonView)
    ensures
        result_outcome(envelope) matches Err(e) ==> (call_tool_outcome(envelope) == Err::<
            ToolOutputView,
            McpErrorView,
        >(e) && list_tools_outcome(envelope) == Err::<Seq<ToolDefView>, McpErrorView>(e)
            && initialize_outcome(envelope) == Err::<ServerInfoView, McpErrorView>(e)),
        envelope.field("error"@) is Some ==> (call_tool_outcome(envelope) matches Err(
            McpErrorView::Server(_, _),
        )),
        (call_tool_outcome(envelope) matches Err(McpErrorView::ToolCall(_))) ==> (envelope.field(
            "error"@,
        ) is None && envelope.field("result"@) is Some && envelope.field("result"@)->0.field(
            "isError"@,
        ) == Some(JsonView::Bool(true))),
        (call_tool_outcome(envelope) matches Err(McpErrorView::Server(_, _))) ==> envelope.field(
            "error"@,
        ) is Some,
{
}

/// An `initialize` result without `serverInfo` is refused; with one, the
/// server's name and version are its string members (empty when missing),
/// and the protocol version is the result's own string `protocolVersion`.
pub proof fn law_server_info_fields(result: JsonView, info: JsonView)
    ensures
        result.field("serverInfo"@) is None ==> server_info_outcome(result) == Err::<
            ServerInfoView,
            McpErrorView,
        >(McpErrorView::BadInitialize("missing serverInfo in initialize result"@)),
        result.field("serverInfo"@) == Some(info) ==> (server_info_outcome(result) matches Ok(s)
            && (str_field(info, "name"@) matches Some(n) ==> s.name == n) && (str_field(
            info,
            "name"@,
        ) is None ==> s.name.len() == 0) && (str_field(info, "version"@) matches Some(v)
            ==> s.version == v) && (str_field(info, "version"@) is None ==> s.version.len() == 0)
            && (str_field(result, "protocolVersion"@) matches Some(p) ==> s.protocol_version == p)
            && (str_field(result, "protocolVersion"@) is None ==> s.protocol_version.len() == 0)),
{
}

/// Every request asks for JSON and accepts an event stream, and carries the
/// configured authentication header right after those two.
pub proof fn law_requests_carry_auth(s: SessionView, auth: crate::auth::AuthView)
    ensures
        request_header_list(Some(auth), s).len() >= 3,
        request_header_list(Some(auth), s)[0] == ("Content-Type"@, "application/json"@),
        request_header_list(Some(auth), s)[1] == (
            "Accept"@,
            "application/json, text/event-stream"@,
        ),
        request_header_list(Some(auth), s)[2] == auth_header(auth),
        request_header_list(None, s).len() >= 2,
        request_header_list(None, s)[0] == request_header_list(Some(auth), s)[0],
        request_header_list(None, s)[1] == request_header_list(Some(auth), s)[1],
{
}

} // verus!
