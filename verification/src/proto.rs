//! Sans-io MCP (Streamable HTTP / JSON-RPC 2.0) protocol core: request
//! builders, SSE-aware response parsing and the mapping of results.
use vstd::prelude::*;
use crate::codec::{decode_json, encode_json, json_decode, json_encode};
use crate::error::{McpError, McpErrorView, ProtoError, ProtoErrorView, ServerError, ToolCallError};
use crate::json::{
    insert_into_members, item_views, lemma_object_view, map_members, member_views, Json,
    JsonNumber, JsonView, NumberView,
};
use crate::sse::{event_data, sse_events};
use crate::text::{
    ascii_lower, ascii_lowercase, chars_of, longest_valid_prefix, utf8_error_len, contains_chars, contains_run, line_views, split_lines,
    string_of, text_lines, to_ascii_lowercase, trim, trimmed,
};

verus! {

/// MCP protocol revision this crate speaks by default.
pub const PROTOCOL_VERSION: &'static str = "2025-06-18";

// ---------------------------------------------------------------------------
// Building values
// ---------------------------------------------------------------------------

/// A JSON string holding the characters of `s`.
pub fn json_str(s: &str) -> (r: Json)
    ensures
        r@ == JsonView::Str(s@),
{
    Json::String(s.to_owned())
}

/// An object member named `key`.
pub fn member(key: &str, value: Json) -> (r: (String, Json))
    ensures
        r.0@ == key@,
        r.1@ == value@,
{
    (key.to_owned(), value)
}

/// The object a map builds from `members` inserted in order.
pub open spec fn object_of(members: Seq<(Seq<char>, JsonView)>) -> JsonView {
    JsonView::Object(map_members(members))
}

/// An object holding the given members as `serde_json`'s map holds them:
/// keys in map order, the last member given for a key kept.
pub fn json_object(members: Vec<(String, Json)>) -> (r: Json)
    ensures
        r@ == object_of(member_views(members@)),
{
    let ghost mv = member_views(members@);
    let mut out: Vec<(String, Json)> = Vec::new();
    let mut i: usize = 0;
    assert(mv.take(0) =~= Seq::<(Seq<char>, JsonView)>::empty());
    assert(member_views(out@) =~= Seq::empty());
    while i < members.len()
        invariant
            i <= members@.len(),
            mv == member_views(members@),
            member_views(out@) == map_members(mv.take(i as int)),
        decreases members@.len() - i,
    {
        assert(mv.take(i + 1).drop_last() =~= mv.take(i as int));
        assert(mv.take(i + 1).last() == mv[i as int]);
        let key = members[i].0.clone();
        let value = members[i].1.copy();
        insert_into_members(&mut out, key, value);
        i = i + 1;
    }
    assert(mv.take(members@.len() as int) =~= mv);
    proof {
        lemma_object_view(out);
    }
    Json::Object(out)
}

/// The JSON-RPC request id `id`.
pub open spec fn id_value(id: u64) -> JsonView {
    JsonView::Number(NumberView::PosInt(id))
}

/// The `initialize` request.
pub open spec fn initialize_request(
    id: u64,
    protocol_version: Seq<char>,
    client_name: Seq<char>,
    client_version: Seq<char>,
) -> JsonView {
    object_of(
        seq![
            ("jsonrpc"@, JsonView::Str("2.0"@)),
            ("id"@, id_value(id)),
            ("method"@, JsonView::Str("initialize"@)),
            (
                "params"@,
                object_of(
                    seq![
                        ("protocolVersion"@, JsonView::Str(protocol_version)),
                        ("capabilities"@, object_of(Seq::empty())),
                        (
                            "clientInfo"@,
                            object_of(
                                seq![
                                    ("name"@, JsonView::Str(client_name)),
                                    ("version"@, JsonView::Str(client_version)),
                                ],
                            ),
                        ),
                    ],
                ),
            ),
        ],
    )
}

/// The `notifications/initialized` notification: it has no id.
pub open spec fn initialized_notification() -> JsonView {
    object_of(
        seq![
            ("jsonrpc"@, JsonView::Str("2.0"@)),
            ("method"@, JsonView::Str("notifications/initialized"@)),
        ],
    )
}

/// The `tools/list` request.
pub open spec fn tools_list_request(id: u64) -> JsonView {
    object_of(
        seq![
            ("jsonrpc"@, JsonView::Str("2.0"@)),
            ("id"@, id_value(id)),
            ("method"@, JsonView::Str("tools/list"@)),
            ("params"@, object_of(Seq::empty())),
        ],
    )
}

/// The `tools/call` request.
pub open spec fn tools_call_request(id: u64, name: Seq<char>, arguments: JsonView) -> JsonView {
    object_of(
        seq![
            ("jsonrpc"@, JsonView::Str("2.0"@)),
            ("id"@, id_value(id)),
            ("method"@, JsonView::Str("tools/call"@)),
            (
                "params"@,
                object_of(
                    seq![("name"@, JsonView::Str(name)), ("arguments"@, arguments)],
                ),
            ),
        ],
    )
}

/// Build a JSON-RPC `initialize` request.
pub fn build_initialize(
    id: u64,
    protocol_version: &str,
    client_name: &str,
    client_version: &str,
) -> (r: Json)
    ensures
        r@ == initialize_request(id, protocol_version@, client_name@, client_version@),
{
    let mut info: Vec<(String, Json)> = Vec::new();
    info.push(member("name", json_str(client_name)));
    info.push(member("version", json_str(client_version)));
    assert(member_views(info@) =~= seq![
        ("name"@, JsonView::Str(client_name@)),
        ("version"@, JsonView::Str(client_version@)),
    ]);
    let info = json_object(info);
    let mut params: Vec<(String, Json)> = Vec::new();
    params.push(member("protocolVersion", json_str(protocol_version)));
    params.push(member("capabilities", json_object(Vec::new())));
    params.push(member("clientInfo", info));
    let ghost empty_members: Seq<(String, Json)> = Seq::empty();
    assert(member_views(empty_members) =~= Seq::empty());
    assert(member_views(params@) =~= seq![
        ("protocolVersion"@, JsonView::Str(protocol_version@)),
        ("capabilities"@, object_of(Seq::empty())),
        ("clientInfo"@, info@),
    ]);
    let params = json_object(params);
    let mut top: Vec<(String, Json)> = Vec::new();
    top.push(member("jsonrpc", json_str("2.0")));
    top.push(member("id", Json::Number(JsonNumber::PosInt(id))));
    top.push(member("method", json_str("initialize")));
    top.push(member("params", params));
    assert(member_views(top@) =~= seq![
        ("jsonrpc"@, JsonView::Str("2.0"@)),
        ("id"@, id_value(id)),
        ("method"@, JsonView::Str("initialize"@)),
        ("params"@, params@),
    ]);
    let r = json_object(top);
    r
}

/// Build the `notifications/initialized` notification (no id).
pub fn build_initialized() -> (r: Json)
    ensures
        r@ == initialized_notification(),
{
    let mut top: Vec<(String, Json)> = Vec::new();
    top.push(member("jsonrpc", json_str("2.0")));
    top.push(member("method", json_str("notifications/initialized")));
    assert(member_views(top@) =~= seq![
        ("jsonrpc"@, JsonView::Str("2.0"@)),
        ("method"@, JsonView::Str("notifications/initialized"@)),
    ]);
    let r = json_object(top);
    r
}

/// Build a JSON-RPC `tools/list` request.
pub fn build_tools_list(id: u64) -> (r: Json)
    ensures
        r@ == tools_list_request(id),
{
    let mut top: Vec<(String, Json)> = Vec::new();
    top.push(member("jsonrpc", json_str("2.0")));
    top.push(member("id", Json::Number(JsonNumber::PosInt(id))));
    top.push(member("method", json_str("tools/list")));
    let ghost empty_members: Seq<(String, Json)> = Seq::empty();
    assert(member_views(empty_members) =~= Seq::empty());
    top.push(member("params", json_object(Vec::new())));
    assert(member_views(top@) =~= seq![
        ("jsonrpc"@, JsonView::Str("2.0"@)),
        ("id"@, id_value(id)),
        ("method"@, JsonView::Str("tools/list"@)),
        ("params"@, object_of(Seq::empty())),
    ]);
    let r = json_object(top);
    r
}

/// Build a JSON-RPC `tools/call` request.
pub fn build_tools_call(id: u64, name: &str, arguments: &Json) -> (r: Json)
    ensures
        r@ == tools_call_request(id, name@, arguments@),
{
    let mut params: Vec<(String, Json)> = Vec::new();
    params.push(member("name", json_str(name)));
    params.push(member("arguments", arguments.copy()));
    assert(member_views(params@) =~= seq![("name"@, JsonView::Str(name@)), ("arguments"@, arguments@)]);
    let params = json_object(params);
    let mut top: Vec<(String, Json)> = Vec::new();
    top.push(member("jsonrpc", json_str("2.0")));
    top.push(member("id", Json::Number(JsonNumber::PosInt(id))));
    top.push(member("method", json_str("tools/call")));
    top.push(member("params", params));
    assert(member_views(top@) =~= seq![
        ("jsonrpc"@, JsonView::Str("2.0"@)),
        ("id"@, id_value(id)),
        ("method"@, JsonView::Str("tools/call"@)),
        ("params"@, params@),
    ]);
    let r = json_object(top);
    r
}

// ---------------------------------------------------------------------------
// Reading responses
// ---------------------------------------------------------------------------

/// The view of an optional value.
pub open spec fn opt_view(o: Option<Json>) -> Option<JsonView> {
    match o {
        Some(v) => Some(v@),
        None => None,
    }
}

/// The view of a decoding outcome.
pub open spec fn outcome_view(r: Result<Json, ProtoError>) -> Result<JsonView, ProtoErrorView> {
    match r {
        Ok(v) => Ok(v@),
        Err(e) => Err(e@),
    }
}

/// A JSON-RPC envelope carries a body: a `result` or an `error` member.
pub open spec fn has_body(v: JsonView) -> bool {
    v.field("result"@) is Some || v.field("error"@) is Some
}

/// The envelope's `id` is the integer `id`.
pub open spec fn id_matches(v: JsonView, id: u64) -> bool {
    match v.field("id"@) {
        Some(i) => i.as_u64() == Some(id),
        None => false,
    }
}

/// The envelope an event's data holds: the data, trimmed, must decode to a
/// JSON value that carries a body.
pub open spec fn event_envelope(data: Seq<char>) -> Option<JsonView> {
    match json_decode(trim(data)) {
        Ok(v) => if has_body(v) {
            Some(v)
        } else {
            None
        },
        Err(_) => None,
    }
}

/// The envelope each event of a stream holds, in order.
pub open spec fn event_envelopes(events: Seq<Seq<char>>) -> Seq<Option<JsonView>> {
    events.map_values(|e: Seq<char>| event_envelope(e))
}

/// The first candidate (in order) that is an envelope with the id `id`.
pub open spec fn first_matching(candidates: Seq<Option<JsonView>>, id: u64) -> Option<JsonView>
    decreases candidates.len(),
{
    if candidates.len() == 0 {
        None
    } else {
        match first_matching(candidates.drop_last(), id) {
            Some(v) => Some(v),
            None => match candidates.last() {
                Some(v) => if id_matches(v, id) {
                    Some(v)
                } else {
                    None
                },
                None => None,
            },
        }
    }
}

/// The first candidate (in order) that is an envelope.
pub open spec fn first_envelope(candidates: Seq<Option<JsonView>>) -> Option<JsonView>
    decreases candidates.len(),
{
    if candidates.len() == 0 {
        None
    } else {
        match first_envelope(candidates.drop_last()) {
            Some(v) => Some(v),
            None => candidates.last(),
        }
    }
}

/// The envelope chosen among candidates: the first whose id is `id`, else
/// the first of all.
pub open spec fn chosen_envelope(candidates: Seq<Option<JsonView>>, id: u64) -> Result<
    JsonView,
    ProtoErrorView,
> {
    match first_matching(candidates, id) {
        Some(v) => Ok(v),
        None => match first_envelope(candidates) {
            Some(v) => Ok(v),
            None => Err(ProtoErrorView::NoEnvelope),
        },
    }
}

/// The envelope chosen from an event-stream text.
pub open spec fn sse_outcome(text: Seq<char>, id: u64) -> Result<JsonView, ProtoErrorView> {
    chosen_envelope(event_envelopes(sse_events(text_lines(text))), id)
}

/// The content type announces an event stream (compared ignoring ASCII case).
pub open spec fn is_event_stream(content_type: Seq<char>) -> bool {
    contains_run(to_ascii_lowercase(content_type), "text/event-stream"@)
}

/// What a response body yields for a request with id `id`.
pub open spec fn response_outcome(content_type: Seq<char>, body: Seq<u8>, id: u64) -> Result<
    JsonView,
    ProtoErrorView,
> {
    if !vstd::utf8::valid_utf8(body) {
        Err(ProtoErrorView::NotUtf8(longest_valid_prefix(body), utf8_error_len(body)))
    } else if is_event_stream(content_type) {
        sse_outcome(vstd::utf8::decode_utf8(body), id)
    } else {
        match json_decode(vstd::utf8::decode_utf8(body)) {
            Ok(v) => Ok(v),
            Err(m) => Err(ProtoErrorView::Decode(m)),
        }
    }
}

/// A candidate found first stays first however the sequence goes on.
pub proof fn lemma_first_matching_prefix(candidates: Seq<Option<JsonView>>, j: int, id: u64)
    requires
        0 <= j <= candidates.len(),
        first_matching(candidates.take(j), id) is Some,
    ensures
        first_matching(candidates, id) == first_matching(candidates.take(j), id),
    decreases candidates.len(),
{
    if j < candidates.len() {
        assert(candidates.drop_last().take(j) =~= candidates.take(j));
        lemma_first_matching_prefix(candidates.drop_last(), j, id);
    } else {
        assert(candidates.take(j) =~= candidates);
    }
}

/// Whether an envelope carries a body.
pub fn envelope_has_body(v: &Json) -> (r: bool)
    ensures
        r == has_body(v@),
{
    v.get("result").is_some() || v.get("error").is_some()
}

/// Whether an envelope's `id` is `id`.
pub fn envelope_id_matches(v: &Json, id: u64) -> (r: bool)
    ensures
        r == id_matches(v@, id),
{
    match v.get("id") {
        Some(i) => match i.as_u64() {
            Some(n) => n == id,
            None => false,
        },
        None => false,
    }
}

/// The envelope an event's data holds, if any.
pub fn envelope_of_event(data: &[char]) -> (r: Option<Json>)
    ensures
        opt_view(r) == event_envelope(data@),
{
    let t = trimmed(data);
    let text = string_of(t.as_slice());
    match decode_json(text.as_str()) {
        Ok(v) => if envelope_has_body(&v) {
            Some(v)
        } else {
            None
        },
        Err(_) => None,
    }
}

/// The views of optional values.
pub open spec fn opt_views(o: Seq<Option<Json>>) -> Seq<Option<JsonView>> {
    o.map_values(|x: Option<Json>| opt_view(x))
}

/// Chooses among decoded candidates, one per event (nothing for an event
/// that holds no envelope): the first envelope whose id is `expected_id`,
/// else the first envelope of all, else `NoEnvelope`.
pub fn choose_from_envelopes(candidates: &Vec<Option<Json>>, expected_id: u64) -> (r: Result<
    Json,
    ProtoError,
>)
    ensures
        outcome_view(r) == chosen_envelope(opt_views(candidates@), expected_id),
{
    let ghost cv = opt_views(candidates@);
    let mut fallback: Option<Json> = None;
    let mut j: usize = 0;
    assert(cv.take(0) =~= Seq::<Option<JsonView>>::empty());
    while j < candidates.len()
        invariant
            j <= candidates@.len(),
            cv == opt_views(candidates@),
            first_matching(cv.take(j as int), expected_id) is None,
            opt_view(fallback) == first_envelope(cv.take(j as int)),
        decreases candidates@.len() - j,
    {
        assert(cv.take(j + 1).drop_last() =~= cv.take(j as int));
        assert(cv.take(j + 1).last() == opt_view(candidates@[j as int]));
        match &candidates[j] {
            Some(v) => {
                if envelope_id_matches(v, expected_id) {
                    proof {
                        lemma_first_matching_prefix(cv, j + 1, expected_id);
                    }
                    return Ok(v.copy());
                }
                if fallback.is_none() {
                    fallback = Some(v.copy());
                }
            },
            None => {},
        }
        j = j + 1;
    }
    assert(cv.take(candidates@.len() as int) =~= cv);
    match fallback {
        Some(v) => Ok(v),
        None => Err(ProtoError::NoEnvelope),
    }
}

/// Chooses the envelope among the events of a stream: the first whose id is
/// `expected_id`, else the first that carries a body.
pub fn choose_envelope(events: &Vec<Vec<char>>, expected_id: u64) -> (r: Result<Json, ProtoError>)
    ensures
        outcome_view(r) == chosen_envelope(event_envelopes(line_views(events@)), expected_id),
{
    let ghost ev = line_views(events@);
    let mut candidates: Vec<Option<Json>> = Vec::new();
    let mut j: usize = 0;
    while j < events.len()
        invariant
            j <= events@.len(),
            ev == line_views(events@),
            candidates@.len() == j,
            forall|k: int| 0 <= k < j ==> opt_view(#[trigger] candidates@[k]) == event_envelope(
                ev[k],
            ),
        decreases events@.len() - j,
    {
        candidates.push(envelope_of_event(events[j].as_slice()));
        j = j + 1;
    }
    assert(opt_views(candidates@) =~= event_envelopes(ev));
    choose_from_envelopes(&candidates, expected_id)
}

/// Parse a JSON-RPC response from an HTTP body, unwrapping SSE framing when
/// the response is `text/event-stream`. Returns the JSON-RPC envelope whose
/// `id` matches `expected_id` (falling back to the first envelope carrying a
/// result or error if no id matches).
pub fn parse_jsonrpc_response(content_type: &str, body: &[u8], expected_id: u64) -> (r: Result<
    Json,
    ProtoError,
>)
    ensures
        outcome_view(r) == response_outcome(content_type@, body@, expected_id),
{
    let text = match crate::text::decode_utf8_text(body) {
        Ok(t) => t,
        Err(e) => {
            proof {
                crate::text::lemma_longest_valid_prefix(body@, e.valid_up_to as int);
            }
            return Err(ProtoError::NotUtf8(e));
        },
    };
    let lowered = ascii_lowercase(chars_of(content_type).as_slice());
    let marker = chars_of("text/event-stream");
    if contains_chars(lowered.as_slice(), marker.as_slice()) {
        let chars = chars_of(text);
        let lines = split_lines(chars.as_slice());
        let events = event_data(&lines);
        choose_envelope(&events, expected_id)
    } else {
        match decode_json(text) {
            Ok(v) => Ok(v),
            Err(e) => Err(ProtoError::Decode(e)),
        }
    }
}

/// A line read from a stdio server answers the request `id`: it is not
/// blank, decodes (trimmed) to an envelope with a body, and has that id.
pub open spec fn line_response(line: Seq<char>, id: u64) -> Option<JsonView> {
    if trim(line).len() == 0 {
        None
    } else {
        match event_envelope(line) {
            Some(v) => if id_matches(v, id) {
                Some(v)
            } else {
                None
            },
            None => None,
        }
    }
}

/// Decides whether one newline-delimited message from a stdio server is the
/// response to the request `expected_id`; blank lines, lines that are not
/// JSON, notifications and responses to other ids give nothing.
pub fn match_response_line(line: &str, expected_id: u64) -> (r: Option<Json>)
    ensures
        opt_view(r) == line_response(line@, expected_id),
{
    let chars = chars_of(line);
    let t = trimmed(chars.as_slice());
    if t.len() == 0 {
        return None;
    }
    match envelope_of_event(chars.as_slice()) {
        Some(v) => if envelope_id_matches(&v, expected_id) {
            Some(v)
        } else {
            None
        },
        None => None,
    }
}

// ---------------------------------------------------------------------------
// Mapping results
// ---------------------------------------------------------------------------

/// One tool surfaced by a remote MCP `tools/list`.
#[derive(Debug, PartialEq)]
pub struct McpToolDef {
    pub name: String,
    pub description: String,
    /// JSON Schema for the tool arguments; `{}` when the server omits it.
    pub input_schema: Json,
}

/// View of an [`McpToolDef`].
pub struct ToolDefView {
    pub name: Seq<char>,
    pub description: Seq<char>,
    pub input_schema: JsonView,
}

impl View for McpToolDef {
    type V = ToolDefView;

    open spec fn view(&self) -> ToolDefView {
        ToolDefView {
            name: self.name@,
            description: self.description@,
            input_schema: self.input_schema@,
        }
    }
}

/// Successful `tools/call` payload.
#[derive(Debug, PartialEq)]
pub struct ToolOutput {
    /// `structuredContent` when the server returned one.
    pub structured: Option<Json>,
    /// Concatenated text `content` blocks (may be empty).
    pub text: String,
}

/// View of a [`ToolOutput`].
pub struct ToolOutputView {
    pub structured: Option<JsonView>,
    pub text: Seq<char>,
}

impl View for ToolOutput {
    type V = ToolOutputView;

    open spec fn view(&self) -> ToolOutputView {
        ToolOutputView { structured: opt_view(self.structured), text: self.text@ }
    }
}

impl Clone for McpToolDef {
    fn clone(&self) -> (r: Self)
        ensures
            r@ == self@,
    {
        McpToolDef {
            name: self.name.clone(),
            description: self.description.clone(),
            input_schema: self.input_schema.copy(),
        }
    }
}

impl Clone for ToolOutput {
    fn clone(&self) -> (r: Self)
        ensures
            r@ == self@,
    {
        let structured = match &self.structured {
            Some(v) => Some(v.copy()),
            None => None,
        };
        ToolOutput { structured, text: self.text.clone() }
    }
}

/// The text of the string member `key`.
pub open spec fn str_field(v: JsonView, key: Seq<char>) -> Option<Seq<char>> {
    match v.field(key) {
        Some(x) => x.as_str(),
        None => None,
    }
}

/// The items of the array member `key`.
pub open spec fn array_field(v: JsonView, key: Seq<char>) -> Option<Seq<JsonView>> {
    match v.field(key) {
        Some(x) => x.as_array(),
        None => None,
    }
}

/// The definition a listed tool gives: a tool without a string `name` gives
/// none; a missing `description` is empty and a missing `inputSchema` is
/// `{}`.
pub open spec fn tool_def_of(tool: JsonView) -> Option<ToolDefView> {
    match str_field(tool, "name"@) {
        Some(name) => Some(
            ToolDefView {
                name,
                description: match str_field(tool, "description"@) {
                    Some(d) => d,
                    None => Seq::empty(),
                },
                input_schema: match tool.field("inputSchema"@) {
                    Some(s) => s,
                    None => JsonView::Object(Seq::empty()),
                },
            },
        ),
        None => None,
    }
}

/// The definitions of the listed tools, in order, those without a name left
/// out.
pub open spec fn tool_defs_of(tools: Seq<JsonView>) -> Seq<ToolDefView>
    decreases tools.len(),
{
    if tools.len() == 0 {
        Seq::empty()
    } else {
        let prev = tool_defs_of(tools.drop_last());
        match tool_def_of(tools.last()) {
            Some(d) => prev.push(d),
            None => prev,
        }
    }
}

/// The tools a `tools/list` result lists; none when `tools` is not an array.
pub open spec fn listed_tools(result: JsonView) -> Seq<ToolDefView> {
    match array_field(result, "tools"@) {
        Some(items) => tool_defs_of(items),
        None => Seq::empty(),
    }
}

/// The views of a sequence of tool definitions.
pub open spec fn tool_def_views(defs: Seq<McpToolDef>) -> Seq<ToolDefView> {
    defs.map_values(|d: McpToolDef| d@)
}

/// The text of the string member `key` of a value.
pub fn get_str<'a>(v: &'a Json, key: &str) -> (r: Option<&'a str>)
    ensures
        match r {
            Some(s) => str_field(v@, key@) == Some(s@),
            None => str_field(v@, key@) is None,
        },
{
    match v.get(key) {
        Some(x) => x.as_str(),
        None => None,
    }
}

/// The definition one listed tool gives.
pub fn tool_def(tool: &Json) -> (r: Option<McpToolDef>)
    ensures
        match r {
            Some(d) => tool_def_of(tool@) == Some(d@),
            None => tool_def_of(tool@) is None,
        },
{
    let name = match get_str(tool, "name") {
        Some(n) => n.to_owned(),
        None => return None,
    };
    let description = match get_str(tool, "description") {
        Some(d) => d.to_owned(),
        None => String::new(),
    };
    let input_schema = match tool.get("inputSchema") {
        Some(s) => s.copy(),
        None => {
            let ghost empty_members: Seq<(String, Json)> = Seq::empty();
            assert(member_views(empty_members) =~= Seq::empty());
            json_object(Vec::new())
        },
    };
    Some(McpToolDef { name, description, input_schema })
}

/// Map a `tools/list` result into tool definitions. Tools without a name are
/// dropped; a missing `inputSchema` becomes `{}`.
pub fn map_tools_list(result: &Json) -> (r: Vec<McpToolDef>)
    ensures
        tool_def_views(r@) == listed_tools(result@),
{
    let tools = match result.get("tools") {
        Some(t) => match t.as_array() {
            Some(items) => items,
            None => {
                assert(tool_def_views(Seq::<McpToolDef>::empty()) =~= Seq::empty());
                return Vec::new();
            },
        },
        None => {
            assert(tool_def_views(Seq::<McpToolDef>::empty()) =~= Seq::empty());
            return Vec::new();
        },
    };
    let ghost tv = item_views(tools@);
    let mut out: Vec<McpToolDef> = Vec::new();
    let mut i: usize = 0;
    assert(tv.take(0) =~= Seq::<JsonView>::empty());
    assert(tool_def_views(out@) =~= Seq::empty());
    while i < tools.len()
        invariant
            i <= tools@.len(),
            tv == item_views(tools@),
            tool_def_views(out@) == tool_defs_of(tv.take(i as int)),
        decreases tools@.len() - i,
    {
        assert(tv.take(i + 1).drop_last() =~= tv.take(i as int));
        assert(tv.take(i + 1).last() == tools@[i as int]@);
        let ghost before = tool_def_views(out@);
        match tool_def(&tools[i]) {
            Some(d) => {
                out.push(d);
                assert(tool_def_views(out@) =~= before.push(out@.last()@));
            },
            None => {},
        }
        i = i + 1;
    }
    assert(tv.take(tools@.len() as int) =~= tv);
    out
}

/// The texts of the content blocks that carry a string `text`, in order.
pub open spec fn text_parts(blocks: Seq<JsonView>) -> Seq<Seq<char>>
    decreases blocks.len(),
{
    if blocks.len() == 0 {
        Seq::empty()
    } else {
        let prev = text_parts(blocks.drop_last());
        match str_field(blocks.last(), "text"@) {
            Some(t) => prev.push(t),
            None => prev,
        }
    }
}

/// Texts joined with `'\n'` between them.
pub open spec fn join_lines(parts: Seq<Seq<char>>) -> Seq<char>
    decreases parts.len(),
{
    if parts.len() == 0 {
        Seq::empty()
    } else if parts.len() == 1 {
        parts[0]
    } else {
        join_lines(parts.drop_last()) + seq!['\n'] + parts.last()
    }
}

/// The joined text of a `tools/call` result's `content` blocks.
pub open spec fn output_text(result: JsonView) -> Seq<char> {
    match array_field(result, "content"@) {
        Some(blocks) => join_lines(text_parts(blocks)),
        None => Seq::empty(),
    }
}

/// The result is flagged `isError: true`.
pub open spec fn flagged_error(result: JsonView) -> bool {
    match result.field("isError"@) {
        Some(b) => b.as_bool() == Some(true),
        None => false,
    }
}

/// What a `tools/call` result yields: the output, or the error message of a
/// result flagged `isError`.
pub open spec fn tool_outcome(result: JsonView) -> Result<ToolOutputView, Seq<char>> {
    let structured = result.field("structuredContent"@);
    let text = output_text(result);
    if flagged_error(result) {
        Err(
            match structured {
                Some(v) => json_encode(v),
                None => if text.len() == 0 {
                    "tool call returned isError"@
                } else {
                    text
                },
            },
        )
    } else {
        Ok(ToolOutputView { structured, text })
    }
}

/// Joins the text blocks of `content`.
fn join_text_blocks(blocks: &Vec<Json>) -> (r: String)
    ensures
        r@ == join_lines(text_parts(item_views(blocks@))),
{
    let ghost bv = item_views(blocks@);
    let mut text = String::new();
    let mut count: usize = 0;
    let mut i: usize = 0;
    assert(bv.take(0) =~= Seq::<JsonView>::empty());
    while i < blocks.len()
        invariant
            i <= blocks@.len(),
            bv == item_views(blocks@),
            count == text_parts(bv.take(i as int)).len(),
            count <= i,
            text@ == join_lines(text_parts(bv.take(i as int))),
        decreases blocks@.len() - i,
    {
        assert(bv.take(i + 1).drop_last() =~= bv.take(i as int));
        assert(bv.take(i + 1).last() == blocks@[i as int]@);
        let ghost parts = text_parts(bv.take(i as int));
        match get_str(&blocks[i], "text") {
            Some(t) => {
                if count > 0 {
                    crate::text::push_str(&mut text, "\n");
                    proof {
                        reveal_strlit("\n");
                    }
                }
                crate::text::push_str(&mut text, t);
                assert(parts.push(t@).drop_last() =~= parts);
                assert(text@ =~= join_lines(parts.push(t@)));
                count = count + 1;
            },
            None => {},
        }
        i = i + 1;
    }
    assert(bv.take(blocks@.len() as int) =~= bv);
    text
}

/// Extract a `tools/call` result. Honors the MCP `isError` flag (mapped to
/// `Err`); keeps structured content and joined text blocks separately.
pub fn extract_tool_output(result: &Json) -> (r: Result<ToolOutput, ToolCallError>)
    ensures
        match r {
            Ok(o) => tool_outcome(result@) == Ok::<ToolOutputView, Seq<char>>(o@),
            Err(e) => tool_outcome(result@) == Err::<ToolOutputView, Seq<char>>(e.message@),
        },
{
    let is_error = match result.get("isError") {
        Some(b) => match b.as_bool() {
            Some(x) => x,
            None => false,
        },
        None => false,
    };
    let structured = match result.get("structuredContent") {
        Some(v) => Some(v.copy()),
        None => None,
    };
    let text = match result.get("content") {
        Some(c) => match c.as_array() {
            Some(blocks) => join_text_blocks(blocks),
            None => String::new(),
        },
        None => String::new(),
    };
    if is_error {
        let message = match &structured {
            Some(v) => encode_json(v),
            None => if text.as_str().is_empty() {
                "tool call returned isError".to_owned()
            } else {
                text
            },
        };
        return Err(ToolCallError { message });
    }
    Ok(ToolOutput { structured, text })
}

impl ToolOutput {
    /// `structuredContent` when present, else the joined text as a JSON
    /// string.
    pub fn to_value(&self) -> (r: Json)
        ensures
            r@ == match self.structured {
                Some(v) => v@,
                None => JsonView::Str(self.text@),
            },
    {
        match &self.structured {
            Some(v) => v.copy(),
            None => Json::String(self.text.clone()),
        }
    }
}

/// What a JSON-RPC envelope yields: its `result`, or the server error its
/// `error` member describes (which takes precedence).
pub open spec fn result_outcome(envelope: JsonView) -> Result<JsonView, McpErrorView> {
    match envelope.field("error"@) {
        Some(e) => Err(
            McpErrorView::Server(
                match e.field("code"@) {
                    Some(c) => match c.as_i64() {
                        Some(n) => n,
                        None => 0,
                    },
                    None => 0,
                },
                match str_field(e, "message"@) {
                    Some(m) => m,
                    None => "unknown error"@,
                },
            ),
        ),
        None => match envelope.field("result"@) {
            Some(v) => Ok(v),
            None => Err(McpErrorView::Proto(ProtoErrorView::MissingResult)),
        },
    }
}

/// Return the `result` object, or the typed error a JSON-RPC `error` carries.
pub fn extract_result(envelope: &Json) -> (r: Result<Json, McpError>)
    ensures
        match r {
            Ok(v) => result_outcome(envelope@) == Ok::<JsonView, McpErrorView>(v@),
            Err(e) => result_outcome(envelope@) == Err::<JsonView, McpErrorView>(e@),
        },
{
    if let Some(error) = envelope.get("error") {
        let code = match error.get("code") {
            Some(c) => match c.as_i64() {
                Some(n) => n,
                None => 0,
            },
            None => 0,
        };
        let message = match get_str(error, "message") {
            Some(m) => m.to_owned(),
            None => "unknown error".to_owned(),
        };
        return Err(McpError::Server(ServerError { code, message }));
    }
    match envelope.get("result") {
        Some(v) => Ok(v.copy()),
        None => Err(McpError::Proto(ProtoError::MissingResult)),
    }
}

// ---------------------------------------------------------------------------
// Laws
// ---------------------------------------------------------------------------

/// What the first matching candidate is, and that none comes before it.
pub proof fn lemma_first_matching(candidates: Seq<Option<JsonView>>, id: u64)
    ensures
        first_matching(candidates, id) matches Some(v) ==> id_matches(v, id) && exists|j: int|
            0 <= j < candidates.len() && candidates[j] == Some(v),
        first_matching(candidates, id) is None ==> forall|j: int|
            0 <= j < candidates.len() ==> !(#[trigger] candidates[j] matches Some(w) && id_matches(
                w,
                id,
            )),
    decreases candidates.len(),
{
    if candidates.len() > 0 {
        let prefix = candidates.drop_last();
        lemma_first_matching(prefix, id);
        if let Some(v) = first_matching(prefix, id) {
            let j = choose|j: int| 0 <= j < prefix.len() && prefix[j] == Some(v);
            assert(candidates[j] == prefix[j]);
        } else if first_matching(candidates, id) is None {
            assert forall|j: int| 0 <= j < candidates.len() implies !(#[trigger] candidates[j] matches Some(
                w,
            ) && id_matches(w, id)) by {
                if j < prefix.len() {
                    assert(candidates[j] == prefix[j]);
                }
            }
        } else {
            assert(candidates[candidates.len() - 1] == first_matching(candidates, id));
        }
    }
}

/// What the first envelope among candidates is, and that none comes before
/// it.
pub proof fn lemma_first_envelope(candidates: Seq<Option<JsonView>>)
    ensures
        first_envelope(candidates) matches Some(v) ==> exists|j: int|
            0 <= j < candidates.len() && candidates[j] == Some(v),
        first_envelope(candidates) is None ==> forall|j: int|
            0 <= j < candidates.len() ==> #[trigger] candidates[j] is None,
    decreases candidates.len(),
{
    if candidates.len() > 0 {
        let prefix = candidates.drop_last();
        lemma_first_envelope(prefix);
        if let Some(v) = first_envelope(prefix) {
            let j = choose|j: int| 0 <= j < prefix.len() && prefix[j] == Some(v);
            assert(candidates[j] == prefix[j]);
        } else {
            assert forall|j: int| 0 <= j < candidates.len() implies #[trigger] candidates[j] is None
                || first_envelope(candidates) is Some by {
                if j < prefix.len() {
                    assert(candidates[j] == prefix[j]);
                }
            }
        }
    }
}

/// Among candidates, when some envelope has the request id, the chosen one
/// has that id.
pub proof fn law_matching_id_is_chosen(candidates: Seq<Option<JsonView>>, id: u64, j: int)
    requires
        0 <= j < candidates.len(),
        candidates[j] matches Some(v) && id_matches(v, id),
    ensures
        chosen_envelope(candidates, id) matches Ok(v) && id_matches(v, id),
{
    lemma_first_matching(candidates, id);
    assert(candidates[j] matches Some(v) && id_matches(v, id));
}

/// The earliest candidate with the id `id` is the first matching one.
pub proof fn lemma_earliest_matching(candidates: Seq<Option<JsonView>>, id: u64, j: int)
    requires
        0 <= j < candidates.len(),
        candidates[j] matches Some(v) && id_matches(v, id),
        forall|i: int|
            0 <= i < j ==> !(#[trigger] candidates[i] matches Some(w) && id_matches(w, id)),
    ensures
        first_matching(candidates, id) == candidates[j],
    decreases candidates.len(),
{
    let prefix = candidates.drop_last();
    if j < prefix.len() {
        assert forall|i: int| 0 <= i < j implies !(#[trigger] prefix[i] matches Some(w) && id_matches(
            w,
            id,
        )) by {
            assert(prefix[i] == candidates[i]);
        }
        lemma_earliest_matching(prefix, id, j);
    } else {
        lemma_first_matching(prefix, id);
        if first_matching(prefix, id) is Some {
            let v = first_matching(prefix, id)->0;
            let i = choose|i: int| 0 <= i < prefix.len() && prefix[i] == Some(v);
            assert(candidates[i] == prefix[i]);
        }
    }
}

/// The earliest candidate that is an envelope is the first envelope.
pub proof fn lemma_earliest_envelope(candidates: Seq<Option<JsonView>>, j: int)
    requires
        0 <= j < candidates.len(),
        candidates[j] is Some,
        forall|i: int| 0 <= i < j ==> #[trigger] candidates[i] is None,
    ensures
        first_envelope(candidates) == candidates[j],
    decreases candidates.len(),
{
    let prefix = candidates.drop_last();
    if j < prefix.len() {
        assert forall|i: int| 0 <= i < j implies #[trigger] prefix[i] is None by {
            assert(prefix[i] == candidates[i]);
        }
        lemma_earliest_envelope(prefix, j);
    } else {
        lemma_first_envelope(prefix);
        if first_envelope(prefix) is Some {
            let v = first_envelope(prefix)->0;
            let i = choose|i: int| 0 <= i < prefix.len() && prefix[i] == Some(v);
            assert(candidates[i] == prefix[i]);
        }
    }
}

/// The answer chosen among candidates is the earliest envelope with the
/// request id; when no envelope has that id, it is the earliest envelope of
/// all.
pub proof fn law_earliest_answer_is_chosen(candidates: Seq<Option<JsonView>>, id: u64, j: int)
    requires
        0 <= j < candidates.len(),
        candidates[j] is Some,
    ensures
        (id_matches(candidates[j]->0, id) && forall|i: int|
            0 <= i < j ==> !(#[trigger] candidates[i] matches Some(w) && id_matches(w, id)))
            ==> chosen_envelope(candidates, id) == Ok::<JsonView, ProtoErrorView>(candidates[j]->0),
        ((forall|i: int|
            0 <= i < candidates.len() ==> !(#[trigger] candidates[i] matches Some(w) && id_matches(
                w,
                id,
            ))) && (forall|i: int| 0 <= i < j ==> #[trigger] candidates[i] is None))
            ==> chosen_envelope(candidates, id) == Ok::<JsonView, ProtoErrorView>(candidates[j]->0),
{
    if id_matches(candidates[j]->0, id) && forall|i: int|
        0 <= i < j ==> !(#[trigger] candidates[i] matches Some(w) && id_matches(w, id)) {
        lemma_earliest_matching(candidates, id, j);
    }
    if (forall|i: int|
        0 <= i < candidates.len() ==> !(#[trigger] candidates[i] matches Some(w) && id_matches(
            w,
            id,
        ))) && (forall|i: int| 0 <= i < j ==> #[trigger] candidates[i] is None) {
        lemma_first_matching(candidates, id);
        if first_matching(candidates, id) is Some {
            let v = first_matching(candidates, id)->0;
            let i = choose|i: int| 0 <= i < candidates.len() && candidates[i] == Some(v);
            assert(candidates[i] matches Some(w) && id_matches(w, id));
        }
        lemma_earliest_envelope(candidates, j);
    }
}

/// In an event stream, when some event answers the request id, the answer
/// returned is an envelope with that id.
pub proof fn law_sse_prefers_matching_id(text: Seq<char>, id: u64, j: int)
    requires
        0 <= j < sse_events(text_lines(text)).len(),
        event_envelope(sse_events(text_lines(text))[j]) matches Some(v) && id_matches(v, id),
    ensures
        sse_outcome(text, id) matches Ok(v) && id_matches(v, id),
{
    let c = event_envelopes(sse_events(text_lines(text)));
    assert(c[j] == event_envelope(sse_events(text_lines(text))[j]));
    law_matching_id_is_chosen(c, id, j);
}

/// In an event stream, the answer is the earliest event that holds an
/// envelope with the request id; when no event holds one, it is the earliest
/// event that holds any envelope.
pub proof fn law_sse_earliest_answer(text: Seq<char>, id: u64, j: int)
    requires
        0 <= j < sse_events(text_lines(text)).len(),
        event_envelope(sse_events(text_lines(text))[j]) is Some,
    ensures
        (id_matches(event_envelope(sse_events(text_lines(text))[j])->0, id) && forall|i: int|
            0 <= i < j ==> !(#[trigger] event_envelope(sse_events(text_lines(text))[i]) matches Some(
                w,
            ) && id_matches(w, id))) ==> sse_outcome(text, id) == Ok::<JsonView, ProtoErrorView>(
            event_envelope(sse_events(text_lines(text))[j])->0,
        ),
        ((forall|i: int|
            0 <= i < sse_events(text_lines(text)).len() ==> !(#[trigger] event_envelope(
                sse_events(text_lines(text))[i],
            ) matches Some(w) && id_matches(w, id))) && (forall|i: int|
            0 <= i < j ==> #[trigger] event_envelope(sse_events(text_lines(text))[i]) is None))
            ==> sse_outcome(text, id) == Ok::<JsonView, ProtoErrorView>(
            event_envelope(sse_events(text_lines(text))[j])->0,
        ),
{
    let events = sse_events(text_lines(text));
    let c = event_envelopes(events);
    assert forall|i: int| 0 <= i < events.len() implies #[trigger] c[i] == event_envelope(
        events[i],
    ) by {}
    law_earliest_answer_is_chosen(c, id, j);
}

/// An envelope returned from an event stream always carries a `result` or an
/// `error`; the only failure of an event stream is that no event holds one.
pub proof fn law_sse_outcome_shape(text: Seq<char>, id: u64)
    ensures
        sse_outcome(text, id) matches Ok(v) ==> has_body(v),
        sse_outcome(text, id) is Err ==> sse_outcome(text, id) == Err::<JsonView, ProtoErrorView>(
            ProtoErrorView::NoEnvelope,
        ),
        sse_outcome(text, id) is Err <==> forall|j: int|
            0 <= j < sse_events(text_lines(text)).len() ==> #[trigger] event_envelope(
                sse_events(text_lines(text))[j],
            ) is None,
{
    let events = sse_events(text_lines(text));
    let c = event_envelopes(events);
    lemma_first_matching(c, id);
    lemma_first_envelope(c);
    if first_matching(c, id) is Some {
        let v = first_matching(c, id)->0;
        let j = choose|j: int| 0 <= j < c.len() && c[j] == Some(v);
        assert(event_envelope(events[j]) is Some);
    }
    if first_envelope(c) is Some {
        let v = first_envelope(c)->0;
        let j = choose|j: int| 0 <= j < c.len() && c[j] == Some(v);
        assert(event_envelope(events[j]) is Some);
    }
    if first_envelope(c) is None {
        assert forall|j: int| 0 <= j < events.len() implies #[trigger] event_envelope(events[j]) is None by {
            assert(c[j] == event_envelope(events[j]));
        }
    }
}

pub proof fn lemma_ascii_lower_idempotent(c: char)
    ensures
        ascii_lower(ascii_lower(c)) == ascii_lower(c),
{
    if 'A' <= c && c <= 'Z' {
        let d = ((c as u32) + 32) as char;
        assert((d as u32) == (c as u32) + 32);
    }
}

/// The content type is compared ignoring ASCII case: a body reads the same
/// under a content type and under its lower-case form.
pub proof fn law_content_type_case_insensitive(content_type: Seq<char>, body: Seq<u8>, id: u64)
    ensures
        response_outcome(content_type, body, id) == response_outcome(
            to_ascii_lowercase(content_type),
            body,
            id,
        ),
{
    assert forall|i: int| 0 <= i < content_type.len() implies #[trigger] to_ascii_lowercase(
        to_ascii_lowercase(content_type),
    )[i] == to_ascii_lowercase(content_type)[i] by {
        lemma_ascii_lower_idempotent(content_type[i]);
    }
    assert(to_ascii_lowercase(to_ascii_lowercase(content_type)) =~= to_ascii_lowercase(
        content_type,
    ));
}

/// A JSON-RPC `error` takes precedence over any `result` in the same
/// envelope; an envelope with neither is a protocol error.
pub proof fn law_error_takes_precedence(envelope: JsonView)
    ensures
        envelope.field("error"@) is Some ==> result_outcome(envelope) matches Err(
            McpErrorView::Server(_, _),
        ),
        envelope.field("error"@) is None && envelope.field("result"@) is None ==> result_outcome(
            envelope,
        ) == Err::<JsonView, McpErrorView>(McpErrorView::Proto(ProtoErrorView::MissingResult)),
        envelope.field("error"@) is None ==> (result_outcome(envelope) is Ok <==> envelope.field(
            "result"@,
        ) is Some),
{
}

/// A result flagged `isError` never yields output, and one that is not
/// always does, with the joined text of its content.
pub proof fn law_is_error_decides(result: JsonView)
    ensures
        flagged_error(result) <==> tool_outcome(result) is Err,
        tool_outcome(result) matches Ok(o) ==> o.text == output_text(result) && o.structured
            == result.field("structuredContent"@),
{
}

/// The number of definitions never exceeds the number of listed tools.
pub proof fn law_tool_defs_bounded(tools: Seq<JsonView>)
    ensures
        tool_defs_of(tools).len() <= tools.len(),
    decreases tools.len(),
{
    if tools.len() > 0 {
        law_tool_defs_bounded(tools.drop_last());
    }
}

/// Every definition comes from a listed tool with that name.
pub proof fn law_tool_defs_named(tools: Seq<JsonView>, k: int)
    requires
        0 <= k < tool_defs_of(tools).len(),
    ensures
        exists|j: int|
            0 <= j < tools.len() && #[trigger] str_field(tools[j], "name"@) == Some(
                tool_defs_of(tools)[k].name,
            ),
    decreases tools.len(),
{
    let prev = tool_defs_of(tools.drop_last());
    if k < prev.len() {
        law_tool_defs_named(tools.drop_last(), k);
        let j = choose|j: int|
            0 <= j < tools.drop_last().len() && #[trigger] str_field(tools.drop_last()[j], "name"@)
                == Some(prev[k].name);
        assert(tools[j] == tools.drop_last()[j]);
    } else {
        assert(str_field(tools[tools.len() - 1], "name"@) == Some(tool_defs_of(tools)[k].name));
    }
}

/// A line from a stdio server answers at most one request: the same line
/// is never taken as the response to two different ids.
pub proof fn law_line_answers_one_request(line: Seq<char>, a: u64, b: u64)
    requires
        line_response(line, a) is Some,
        line_response(line, b) is Some,
    ensures
        a == b,
{
}

/// A stdio line and an event-stream event with the same non-blank text are
/// recognised by the same rule.
pub proof fn law_stdio_and_sse_agree(line: Seq<char>, id: u64)
    requires
        trim(line).len() > 0,
    ensures
        line_response(line, id) == first_matching(event_envelopes(seq![line]), id),
{
    let c = event_envelopes(seq![line]);
    assert(c.drop_last() =~= Seq::<Option<JsonView>>::empty());
    assert(first_matching(c.drop_last(), id) is None);
    assert(c.last() == event_envelope(line));
}

/// The `notifications/initialized` message carries no id, so no response
/// can be expected for it.
pub proof fn law_initialized_has_no_id()
    ensures
        initialized_notification().field("id"@) is None,
{
    reveal_with_fuel(crate::json::last_value, 3);
    reveal_strlit("jsonrpc");
    reveal_strlit("id");
    reveal_strlit("method");
    assert("jsonrpc"@.len() == 7);
    assert("id"@.len() == 2);
    assert("method"@.len() == 6);
    let ms = seq![
        ("jsonrpc"@, JsonView::Str("2.0"@)),
        ("method"@, JsonView::Str("notifications/initialized"@)),
    ];
    crate::json::law_last_member_wins(ms, "id"@);
    assert(ms.drop_last() =~= seq![ms[0]]);
    assert(ms.drop_last().drop_last() =~= Seq::<(Seq<char>, JsonView)>::empty());
}

/// A built `initialize` request reads back what it was built from: its id,
/// method, the protocol version given, and the client name and version
/// given.
pub proof fn law_initialize_reads_back(
    id: u64,
    protocol_version: Seq<char>,
    client_name: Seq<char>,
    client_version: Seq<char>,
)
    ensures
        initialize_request(id, protocol_version, client_name, client_version).field("id"@) == Some(
            id_value(id),
        ),
        initialize_request(id, protocol_version, client_name, client_version).field("id"@)->0.as_u64()
            == Some(id),
        initialize_request(id, protocol_version, client_name, client_version).field("jsonrpc"@)
            == Some(JsonView::Str("2.0"@)),
        initialize_request(id, protocol_version, client_name, client_version).field("method"@)
            == Some(JsonView::Str("initialize"@)),
        initialize_request(id, protocol_version, client_name, client_version).field(
            "params"@,
        )->0.field("protocolVersion"@) == Some(JsonView::Str(protocol_version)),
        initialize_request(id, protocol_version, client_name, client_version).field(
            "params"@,
        )->0.field("clientInfo"@)->0.field("name"@) == Some(JsonView::Str(client_name)),
        initialize_request(id, protocol_version, client_name, client_version).field(
            "params"@,
        )->0.field("clientInfo"@)->0.field("version"@) == Some(JsonView::Str(client_version)),
{
    reveal_with_fuel(crate::json::last_value, 4);
    reveal_strlit("jsonrpc");
    reveal_strlit("id");
    reveal_strlit("method");
    reveal_strlit("params");
    reveal_strlit("protocolVersion");
    reveal_strlit("capabilities");
    reveal_strlit("clientInfo");
    reveal_strlit("name");
    reveal_strlit("version");
    assert("jsonrpc"@.len() == 7);
    assert("id"@.len() == 2);
    assert("method"@.len() == 6);
    assert("params"@.len() == 6);
    assert("method"@[0] != "params"@[0]);
    assert("protocolVersion"@.len() == 15);
    assert("capabilities"@.len() == 12);
    assert("clientInfo"@.len() == 10);
    assert("name"@.len() == 4);
    assert("version"@.len() == 7);
    let info = seq![("name"@, JsonView::Str(client_name)), ("version"@, JsonView::Str(client_version))];
    let ps = seq![
        ("protocolVersion"@, JsonView::Str(protocol_version)),
        ("capabilities"@, object_of(Seq::empty())),
        ("clientInfo"@, object_of(info)),
    ];
    let top = seq![
        ("jsonrpc"@, JsonView::Str("2.0"@)),
        ("id"@, id_value(id)),
        ("method"@, JsonView::Str("initialize"@)),
        ("params"@, object_of(ps)),
    ];
    crate::json::law_last_member_wins(top, "jsonrpc"@);
    crate::json::law_last_member_wins(top, "id"@);
    crate::json::law_last_member_wins(top, "method"@);
    crate::json::law_last_member_wins(top, "params"@);
    crate::json::law_last_member_wins(ps, "protocolVersion"@);
    crate::json::law_last_member_wins(ps, "clientInfo"@);
    crate::json::law_last_member_wins(info, "name"@);
    crate::json::law_last_member_wins(info, "version"@);
    assert(top.drop_last() =~= seq![top[0], top[1], top[2]]);
    assert(top.drop_last().drop_last() =~= seq![top[0], top[1]]);
    assert(ps.drop_last() =~= seq![ps[0], ps[1]]);
    assert(ps.drop_last().drop_last() =~= seq![ps[0]]);
    assert(info.drop_last() =~= seq![info[0]]);
}

/// No text part comes out of blocks exactly when none carries a string
/// `text`.
pub proof fn lemma_text_parts_empty(blocks: Seq<JsonView>)
    ensures
        text_parts(blocks).len() == 0 <==> forall|i: int|
            0 <= i < blocks.len() ==> #[trigger] str_field(blocks[i], "text"@) is None,
    decreases blocks.len(),
{
    if blocks.len() > 0 {
        let prefix = blocks.drop_last();
        lemma_text_parts_empty(prefix);
        if text_parts(blocks).len() == 0 {
            assert forall|i: int| 0 <= i < blocks.len() implies #[trigger] str_field(
                blocks[i],
                "text"@,
            ) is None by {
                if i < prefix.len() {
                    assert(blocks[i] == prefix[i]);
                }
            }
        } else if str_field(blocks.last(), "text"@) is None {
            let i = choose|i: int| 0 <= i < prefix.len() && #[trigger] str_field(prefix[i], "text"@) is Some;
            assert(blocks[i] == prefix[i]);
        }
    }
}

/// The output text grows block by block: a content block without a string
/// `text` adds nothing; one with text `t` adds `t`, after a newline when an
/// earlier block carried text.
pub proof fn law_output_text_appends(
    before: JsonView,
    after: JsonView,
    blocks: Seq<JsonView>,
    b: JsonView,
)
    requires
        array_field(before, "content"@) == Some(blocks),
        array_field(after, "content"@) == Some(blocks.push(b)),
    ensures
        str_field(b, "text"@) is None ==> output_text(after) == output_text(before),
        str_field(b, "text"@) matches Some(t) ==> ((forall|i: int|
            0 <= i < blocks.len() ==> #[trigger] str_field(blocks[i], "text"@) is None)
            ==> output_text(after) == t),
        str_field(b, "text"@) matches Some(t) ==> ((exists|i: int|
            0 <= i < blocks.len() && #[trigger] str_field(blocks[i], "text"@) is Some)
            ==> output_text(after) == output_text(before) + seq!['\n'] + t),
{
    assert(blocks.push(b).drop_last() =~= blocks);
    lemma_text_parts_empty(blocks);
    if let Some(t) = str_field(b, "text"@) {
        let parts = text_parts(blocks);
        assert(text_parts(blocks.push(b)) == parts.push(t));
        assert(parts.push(t).drop_last() =~= parts);
        if parts.len() == 0 {
            assert(parts.push(t)[0] == t);
        }
    }
}

/// Only `isError: true` marks a tool failure: a result whose `isError` is
/// absent, `false` or not a boolean yields output, one with `isError: true`
/// yields the tool error.
pub proof fn law_only_is_error_true_fails(result: JsonView)
    ensures
        tool_outcome(result) is Err <==> result.field("isError"@) == Some(JsonView::Bool(true)),
        result.field("isError"@) == Some(JsonView::Bool(false)) ==> tool_outcome(result) is Ok,
        result.field("isError"@) is None ==> tool_outcome(result) is Ok,
{
}

/// Output carries the result's `structuredContent` member as it is; a
/// result without an array `content` has empty text; a tool error carries
/// the structured content as JSON text, else the joined text, else the
/// fixed message.
pub proof fn law_tool_output_parts(result: JsonView)
    ensures
        array_field(result, "content"@) is None ==> output_text(result).len() == 0,
        result.field("isError"@) == Some(JsonView::Bool(true)) && result.field(
            "structuredContent"@,
        ) is None && output_text(result).len() > 0 ==> tool_outcome(result) == Err::<
            ToolOutputView,
            Seq<char>,
        >(output_text(result)),
        tool_outcome(result) matches Ok(o) ==> o.structured == result.field(
            "structuredContent"@,
        ),
        result.field("isError"@) == Some(JsonView::Bool(true)) && result.field(
            "structuredContent"@,
        ) is None && result.field("content"@) is None ==> tool_outcome(result) == Err::<
            ToolOutputView,
            Seq<char>,
        >("tool call returned isError"@),
        result.field("isError"@) == Some(JsonView::Bool(true)) ==> (result.field(
            "structuredContent"@,
        ) matches Some(v) ==> tool_outcome(result) == Err::<ToolOutputView, Seq<char>>(
            json_encode(v),
        )),
{
}

/// A listed tool gives a definition exactly when it has a string `name`;
/// the definition keeps that name, keeps a string `description` (else it is
/// empty), and keeps the `inputSchema` member (else it is `{}`).
pub proof fn law_tool_def_keeps_members(tool: JsonView)
    ensures
        tool_def_of(tool) is Some <==> str_field(tool, "name"@) is Some,
        tool_def_of(tool) matches Some(d) ==> Some(d.name) == str_field(tool, "name"@),
        tool_def_of(tool) matches Some(d) ==> (str_field(tool, "description"@) matches Some(s)
            ==> d.description == s),
        tool_def_of(tool) matches Some(d) ==> (str_field(tool, "description"@) is None
            ==> d.description.len() == 0),
        tool_def_of(tool) matches Some(d) ==> (tool.field("inputSchema"@) matches Some(x)
            ==> d.input_schema == x),
        tool_def_of(tool) matches Some(d) ==> (tool.field("inputSchema"@) is None
            ==> d.input_schema == JsonView::Object(Seq::empty())),
{
}

/// Every definition listed comes from one of the listed tools: the tool's
/// own definition, so it carries that tool's name, description and schema.
pub proof fn law_tool_defs_from_tools(tools: Seq<JsonView>, k: int)
    requires
        0 <= k < tool_defs_of(tools).len(),
    ensures
        exists|j: int|
            0 <= j < tools.len() && #[trigger] tool_def_of(tools[j]) == Some(tool_defs_of(tools)[k]),
    decreases tools.len(),
{
    let prev = tool_defs_of(tools.drop_last());
    if k < prev.len() {
        law_tool_defs_from_tools(tools.drop_last(), k);
        let j = choose|j: int|
            0 <= j < tools.drop_last().len() && #[trigger] tool_def_of(tools.drop_last()[j])
                == Some(prev[k]);
        assert(tools[j] == tools.drop_last()[j]);
    } else {
        assert(tool_def_of(tools[tools.len() - 1]) == Some(tool_defs_of(tools)[k]));
    }
}

/// A server error reports the error object's integer `code` (0 when absent
/// or not an `i64`) and its string `message` ("unknown error" when absent or
/// not a string).
pub proof fn law_server_error_fields(envelope: JsonView, e: JsonView)
    requires
        envelope.field("error"@) == Some(e),
    ensures
        result_outcome(envelope) matches Err(McpErrorView::Server(_, _)),
        e.field("code"@) matches Some(c) ==> (c.as_i64() matches Some(n) ==> (result_outcome(
            envelope,
        ) matches Err(McpErrorView::Server(code, _)) && code == n)),
        (e.field("code"@) is None || e.field("code"@)->0.as_i64() is None) ==> (result_outcome(
            envelope,
        ) matches Err(McpErrorView::Server(code, _)) && code == 0),
        str_field(e, "message"@) matches Some(m) ==> (result_outcome(envelope) matches Err(
            McpErrorView::Server(_, msg),
        ) && msg == m),
        str_field(e, "message"@) is None ==> (result_outcome(envelope) matches Err(
            McpErrorView::Server(_, msg),
        ) && msg == "unknown error"@),
{
}

/// A built request reads back what it was built from: its id, method and
/// the tool name and arguments of a `tools/call`.
pub proof fn law_tools_call_reads_back(id: u64, name: Seq<char>, arguments: JsonView)
    ensures
        tools_call_request(id, name, arguments).field("id"@) == Some(id_value(id)),
        tools_call_request(id, name, arguments).field("id"@)->0.as_u64() == Some(id),
        tools_call_request(id, name, arguments).field("jsonrpc"@) == Some(JsonView::Str("2.0"@)),
        tools_call_request(id, name, arguments).field("method"@) == Some(
            JsonView::Str("tools/call"@),
        ),
        tools_call_request(id, name, arguments).field("params"@)->0.field("name"@) == Some(
            JsonView::Str(name),
        ),
        tools_call_request(id, name, arguments).field("params"@)->0.field("arguments"@) == Some(
            arguments,
        ),
{
    reveal_with_fuel(crate::json::last_value, 4);
    reveal_strlit("jsonrpc");
    reveal_strlit("id");
    reveal_strlit("method");
    reveal_strlit("params");
    reveal_strlit("name");
    reveal_strlit("arguments");
    assert("jsonrpc"@.len() == 7);
    assert("id"@.len() == 2);
    assert("method"@.len() == 6);
    assert("params"@.len() == 6);
    assert("method"@[0] != "params"@[0]);
    assert("name"@.len() == 4);
    assert("arguments"@.len() == 9);
    let ps = seq![("name"@, JsonView::Str(name)), ("arguments"@, arguments)];
    let top = seq![
        ("jsonrpc"@, JsonView::Str("2.0"@)),
        ("id"@, id_value(id)),
        ("method"@, JsonView::Str("tools/call"@)),
        ("params"@, object_of(ps)),
    ];
    crate::json::law_last_member_wins(top, "jsonrpc"@);
    crate::json::law_last_member_wins(top, "id"@);
    crate::json::law_last_member_wins(top, "method"@);
    crate::json::law_last_member_wins(top, "params"@);
    crate::json::law_last_member_wins(ps, "name"@);
    crate::json::law_last_member_wins(ps, "arguments"@);
    assert(top.drop_last() =~= seq![top[0], top[1], top[2]]);
    assert(top.drop_last().drop_last() =~= seq![top[0], top[1]]);
    assert(ps.drop_last() =~= seq![ps[0]]);
}

/// A built `tools/list` request reads back its id and method, and has empty
/// params.
pub proof fn law_tools_list_reads_back(id: u64)
    ensures
        tools_list_request(id).field("jsonrpc"@) == Some(JsonView::Str("2.0"@)),
        tools_list_request(id).field("id"@)->0.as_u64() == Some(id),
        tools_list_request(id).field("method"@) == Some(JsonView::Str("tools/list"@)),
        tools_list_request(id).field("params"@) == Some(JsonView::Object(Seq::empty())),
{
    reveal_with_fuel(crate::json::last_value, 4);
    reveal_strlit("jsonrpc");
    reveal_strlit("id");
    reveal_strlit("method");
    reveal_strlit("params");
    assert("jsonrpc"@.len() == 7);
    assert("id"@.len() == 2);
    assert("method"@.len() == 6);
    assert("params"@.len() == 6);
    assert("method"@[0] != "params"@[0]);
    let top = seq![
        ("jsonrpc"@, JsonView::Str("2.0"@)),
        ("id"@, id_value(id)),
        ("method"@, JsonView::Str("tools/list"@)),
        ("params"@, object_of(Seq::empty())),
    ];
    crate::json::law_last_member_wins(top, "jsonrpc"@);
    crate::json::law_last_member_wins(top, "id"@);
    crate::json::law_last_member_wins(top, "method"@);
    crate::json::law_last_member_wins(top, "params"@);
    assert(top.drop_last() =~= seq![top[0], top[1], top[2]]);
    assert(top.drop_last().drop_last() =~= seq![top[0], top[1]]);
    assert(top.drop_last().drop_last().drop_last() =~= seq![top[0]]);
    assert(object_of(Seq::empty()) == JsonView::Object(Seq::empty()));
}

} // verus!
