//! MCP (JSON-RPC 2.0) dispatch of the Kei MCP server.
//!
//! The server is dual-era. An `initialize` request always takes the legacy
//! path (version negotiation against `SUPPORTED_PROTOCOL_VERSIONS`). Any
//! other request that declares a version in
//! `params._meta["io.modelcontextprotocol/protocolVersion"]` takes the modern
//! path and is refused with error -32022 unless that version is one of
//! `MODERN_SUPPORTED_PROTOCOL_VERSIONS`. A request that declares neither is
//! handled like a legacy one.

use vstd::prelude::*;
use crate::json::{
    array_value, items_view, lookup, member, member_entry, object0, object1, object2, object3, object4,
    string_value, text_of, Json, JsonValue,
};
use crate::json::{lemma_lookup_first_match, lemma_replace_member, lemma_without_member, replace_member, without_member};
use crate::text::str_eq;

verus! {

/// The protocol versions accepted on the legacy (`initialize` handshake)
/// path, newest first.
pub const SUPPORTED_PROTOCOL_VERSIONS: [&'static str; 3] = ["2025-11-25", "2025-06-18", "2024-11-05"];

/// The version announced when negotiation fails: the newest legacy version.
pub const DEFAULT_PROTOCOL_VERSION: &'static str = "2025-11-25";

/// The protocol versions accepted on the modern path (per-request `_meta`).
pub const MODERN_SUPPORTED_PROTOCOL_VERSIONS: [&'static str; 1] = ["2026-07-28"];

/// The `_meta` key under which a modern request declares its version.
pub const META_PROTOCOL_VERSION_KEY: &'static str = "io.modelcontextprotocol/protocolVersion";

/// The server name (serverInfo).
pub const SERVER_NAME: &'static str = "kei-mcp";

/// The server version (serverInfo): the package version.
pub const SERVER_VERSION: &'static str = "0.9.0";

/// Text of a `tools/list` description.
pub const KEI_SPEC_DESCRIPTION: &'static str = "Look up the Kei language spec. Pass `topic` as a section number (e.g. \"3\"), a heading keyword, or an error code (e.g. \"KEI-E3001\"); omit it for the index.";

/// Text of a `tools/list` description.
pub const TOPIC_DESCRIPTION: &'static str = "Section number, heading keyword, or error code. Empty returns the index.";

/// Text of a `tools/list` description.
pub const KEI_CHECK_DESCRIPTION: &'static str = "Statically check Kei source (syntax + types + effects + contracts). Returns JSON { diagnostics, contracts, opaque_imports, generative }. diagnostics is a Diagnostic[] array, each with span, code, and at least one fix candidate. contracts[].verification reports how strongly each requires/ensures was verified (static/generative/bounded/runtime/trusted/unchecked). opaque_imports lists the dotted module paths of every `import` declaration in the given source (not `extern package` bindings, whose `extern` signatures already carry types/effects): this tool only sees the source text (not the filesystem), so ALL declared imports are always opaque here — their types are Ty::Unknown and are NOT type-checked; a clean check result does not mean imported types were verified. For import-aware checking, use the CLI `kei check <dir>` instead. Set generative: true to additionally run contract-based property-based testing (the same mechanism as CLI `kei check --generative`) and search for counterexamples (reported as KEI-E4005). This tool caps case generation at a conservative limit smaller than the CLI default to bound tool-call latency. Functions whose input space exceeds this limit are skipped entirely (not partially checked) and listed in the response's generative.skipped array with their required case count — a clean check with no counterexamples does NOT mean a skipped function's contract holds. Functions that declare any effect (`uses`) are also always skipped when they have `ensures` (the synchronous evaluator cannot observe effects) and are listed with a `reason` string instead; `required_cases` is present only for skips caused by exceeding the case-generation limit. For exhaustive search, use the CLI `kei check --generative` instead, which defaults to a much larger limit.";

/// Text of a `tools/list` description.
pub const CHECK_SOURCE_DESCRIPTION: &'static str = "Kei source text to check.";

/// Text of a `tools/list` description.
pub const GENERATIVE_DESCRIPTION: &'static str = "Run contract-based property-based testing for counterexamples (like CLI --generative). Default false. Bounded to a conservative case limit; functions exceeding it are skipped (see response generative.skipped).";

/// Text of a `tools/list` description.
pub const KEI_FMT_DESCRIPTION: &'static str = "Format Kei source into canonical form. On a syntax error it does not reformat and returns the Diagnostic[] instead (isError).";

/// Text of a `tools/list` description.
pub const FMT_SOURCE_DESCRIPTION: &'static str = "Kei source text to format.";

/// Text of a `tools/list` description.
pub const KEI_EXAMPLES_DESCRIPTION: &'static str = "Search Kei example snippets by keyword (matches path and body). Omit `query` to list all examples.";

/// Text of a `tools/list` description.
pub const QUERY_DESCRIPTION: &'static str = "Keyword to search example paths and bodies. Empty lists all.";

/// The legacy protocol versions, newest first.
pub open spec fn supported_versions() -> Seq<Seq<char>> {
    seq!["2025-11-25"@, "2025-06-18"@, "2024-11-05"@]
}

/// The modern protocol versions.
pub open spec fn modern_versions() -> Seq<Seq<char>> {
    seq!["2026-07-28"@]
}

/// The view of an optional string.
pub open spec fn opt_str_view(s: Option<&str>) -> Option<Seq<char>> {
    match s {
        Some(t) => Some(t@),
        None => None,
    }
}

/// Legacy version negotiation: a supported requested version is echoed back;
/// anything else (unsupported, or nothing requested) gets the default.
pub open spec fn spec_negotiate(requested: Option<Seq<char>>) -> Seq<char> {
    match requested {
        Some(want) => if supported_versions().contains(want) {
            want
        } else {
            DEFAULT_PROTOCOL_VERSION@
        },
        None => DEFAULT_PROTOCOL_VERSION@,
    }
}

/// An `Object` JSON value with the given members.
pub open spec fn obj(members: Seq<(Seq<char>, Json)>) -> Json {
    Json::Object(members)
}

/// A JSON array of strings.
pub open spec fn str_array(items: Seq<Seq<char>>) -> Json {
    Json::Array(Seq::new(items.len(), |i: int| Json::Str(items[i])))
}

/// The successful response to the request with id `id`.
pub open spec fn success_json(id: Json, result: Json) -> Json {
    obj(seq![("jsonrpc"@, Json::Str("2.0"@)), ("id"@, id), ("result"@, result)])
}

/// The error response to the request with id `id`.
pub open spec fn error_json(id: Json, code: int, message: Seq<char>) -> Json {
    obj(
        seq![
            ("jsonrpc"@, Json::Str("2.0"@)),
            ("id"@, id),
            ("error"@, obj(seq![("code"@, Json::Int(code)), ("message"@, Json::Str(message))])),
        ],
    )
}

/// The capabilities the server declares: tools only.
pub open spec fn capabilities_json() -> Json {
    obj(seq![("tools"@, obj(seq![]))])
}

/// The serverInfo object.
pub open spec fn server_info_json() -> Json {
    obj(seq![("name"@, Json::Str(SERVER_NAME@)), ("version"@, Json::Str(SERVER_VERSION@))])
}

/// The version a modern request declares in `params._meta`, if it is a string.
pub open spec fn spec_modern_version(params: Json) -> Option<Seq<char>> {
    match member(params, "_meta"@) {
        Some(meta) => text_of(member(meta, META_PROTOCOL_VERSION_KEY@)),
        None => None,
    }
}

/// The result of `initialize`.
pub open spec fn initialize_json(params: Json) -> Json {
    obj(
        seq![
            ("protocolVersion"@, Json::Str(spec_negotiate(text_of(member(params, "protocolVersion"@))))),
            ("capabilities"@, capabilities_json()),
            ("serverInfo"@, server_info_json()),
        ],
    )
}

/// The result of `server/discover`.
pub open spec fn discover_json() -> Json {
    obj(
        seq![
            ("resultType"@, Json::Str("complete"@)),
            ("supportedVersions"@, str_array(modern_versions())),
            ("capabilities"@, capabilities_json()),
            ("_meta"@, obj(seq![("io.modelcontextprotocol/serverInfo"@, server_info_json())])),
        ],
    )
}

/// The UnsupportedProtocolVersionError (-32022) response.
pub open spec fn unsupported_json(id: Json, requested: Seq<char>) -> Json {
    obj(
        seq![
            ("jsonrpc"@, Json::Str("2.0"@)),
            ("id"@, id),
            (
                "error"@,
                obj(
                    seq![
                        ("code"@, Json::Int(-32022)),
                        ("message"@, Json::Str("Unsupported protocol version"@)),
                        (
                            "data"@,
                            obj(
                                seq![
                                    ("supported"@, str_array(modern_versions())),
                                    ("requested"@, Json::Str(requested)),
                                ],
                            ),
                        ),
                    ],
                ),
            ),
        ],
    )
}

/// The result object of a tool call.
pub open spec fn tool_result_json(text: Seq<char>, is_error: bool) -> Json {
    obj(
        seq![
            ("content"@, Json::Array(seq![obj(seq![("type"@, Json::Str("text"@)), ("text"@, Json::Str(text))])])),
            ("isError"@, Json::Bool(is_error)),
        ],
    )
}

/// An input-schema property of the given JSON type.
pub open spec fn property_json(kind: Seq<char>, description: Seq<char>) -> Json {
    obj(seq![("type"@, Json::Str(kind)), ("description"@, Json::Str(description))])
}

/// A tool's input schema.
pub open spec fn schema_json(properties: Json, required: Seq<Seq<char>>) -> Json {
    obj(
        seq![
            ("type"@, Json::Str("object"@)),
            ("properties"@, properties),
            ("required"@, str_array(required)),
            ("additionalProperties"@, Json::Bool(false)),
        ],
    )
}

/// A tool definition.
pub open spec fn tool_json(name: Seq<char>, description: Seq<char>, schema: Json) -> Json {
    obj(
        seq![
            ("name"@, Json::Str(name)),
            ("description"@, Json::Str(description)),
            ("inputSchema"@, schema),
        ],
    )
}

/// The result of `tools/list`.
pub open spec fn tools_list_json() -> Json {
    obj(
        seq![
            (
                "tools"@,
                Json::Array(
                    seq![
                        tool_json(
                            "kei_spec"@,
                            KEI_SPEC_DESCRIPTION@,
                            schema_json(obj(seq![("topic"@, property_json("string"@, TOPIC_DESCRIPTION@))]), seq![]),
                        ),
                        tool_json(
                            "kei_check"@,
                            KEI_CHECK_DESCRIPTION@,
                            schema_json(
                                obj(
                                    seq![
                                        ("source"@, property_json("string"@, CHECK_SOURCE_DESCRIPTION@)),
                                        ("generative"@, property_json("boolean"@, GENERATIVE_DESCRIPTION@)),
                                    ],
                                ),
                                seq!["source"@],
                            ),
                        ),
                        tool_json(
                            "kei_fmt"@,
                            KEI_FMT_DESCRIPTION@,
                            schema_json(
                                obj(seq![("source"@, property_json("string"@, FMT_SOURCE_DESCRIPTION@))]),
                                seq!["source"@],
                            ),
                        ),
                        tool_json(
                            "kei_examples"@,
                            KEI_EXAMPLES_DESCRIPTION@,
                            schema_json(obj(seq![("query"@, property_json("string"@, QUERY_DESCRIPTION@))]), seq![]),
                        ),
                    ],
                ),
            ),
        ],
    )
}

/// The views of a slice of strings.
pub open spec fn strs_view(items: Seq<&str>) -> Seq<Seq<char>> {
    Seq::new(items.len(), |i: int| items[i]@)
}

/// A JSON array holding the given strings, in order.
fn string_array(items: &[&str]) -> (r: JsonValue)
    ensures
        r@ == str_array(strs_view(items@)),
{
    let mut out: Vec<JsonValue> = Vec::new();
    let mut i: usize = 0;
    while i < items.len()
        invariant
            0 <= i <= items@.len(),
            out@.len() == i,
            forall|j: int| 0 <= j < i ==> #[trigger] out@[j]@ == Json::Str(items@[j]@),
        decreases items@.len() - i,
    {
        out.push(string_value(items[i]));
        i = i + 1;
    }
    let r = array_value(out);
    assert(items_view(out@) =~= Seq::new(strs_view(items@).len(), |k: int| Json::Str(strs_view(items@)[k])));
    r
}

/// Legacy version negotiation for `initialize`: a supported requested version
/// is echoed back; otherwise (unsupported, or missing) the newest supported
/// version `DEFAULT_PROTOCOL_VERSION` is announced.
pub fn negotiate_protocol_version(requested: Option<&str>) -> (r: &'static str)
    ensures
        r@ == spec_negotiate(opt_str_view(requested)),
{
    match requested {
        Some(want) => {
            let versions = SUPPORTED_PROTOCOL_VERSIONS;
            let mut i: usize = 0;
            while i < versions.len()
                invariant
                    requested == Some(want),
                    versions@.len() == 3,
                    0 <= i <= 3,
                    forall|j: int| 0 <= j < 3 ==> #[trigger] versions@[j]@ == supported_versions()[j],
                    forall|j: int| 0 <= j < i ==> supported_versions()[j] != want@,
                decreases 3 - i,
            {
                let candidate = versions[i];
                if str_eq(candidate, want) {
                    proof {
                        assert(supported_versions()[i as int] == want@);
                        assert(supported_versions().contains(want@));
                    }
                    return candidate;
                }
                i = i + 1;
            }
            DEFAULT_PROTOCOL_VERSION
        },
        None => DEFAULT_PROTOCOL_VERSION,
    }
}

/// The view of an optional request id: a missing id is `null`.
pub open spec fn id_view(id: Option<JsonValue>) -> Json {
    match id {
        Some(v) => v@,
        None => Json::Null,
    }
}

fn take_id(id: Option<JsonValue>) -> (r: JsonValue)
    ensures
        r@ == id_view(id),
{
    match id {
        Some(v) => v,
        None => JsonValue::Null,
    }
}

/// The successful response `{jsonrpc, id, result}`.
pub fn success(id: Option<JsonValue>, result: JsonValue) -> (r: JsonValue)
    ensures
        r@ == success_json(id_view(id), result@),
{
    object3(
        member_entry("jsonrpc", string_value("2.0")),
        member_entry("id", take_id(id)),
        member_entry("result", result),
    )
}

/// The error response `{jsonrpc, id, error: {code, message}}`.
pub fn error(id: Option<JsonValue>, code: i64, message: &str) -> (r: JsonValue)
    ensures
        r@ == error_json(id_view(id), code as int, message@),
{
    let body = object2(member_entry("code", JsonValue::Int(code)), member_entry("message", string_value(message)));
    object3(
        member_entry("jsonrpc", string_value("2.0")),
        member_entry("id", take_id(id)),
        member_entry("error", body),
    )
}

fn capabilities() -> (r: JsonValue)
    ensures
        r@ == capabilities_json(),
{
    object1(member_entry("tools", object0()))
}

fn server_info() -> (r: JsonValue)
    ensures
        r@ == server_info_json(),
{
    object2(member_entry("name", string_value(SERVER_NAME)), member_entry("version", string_value(SERVER_VERSION)))
}

/// The version that a modern request declares in
/// `params._meta["io.modelcontextprotocol/protocolVersion"]`; `None` when it
/// is missing or when `_meta` or the value has the wrong JSON type.
pub fn modern_protocol_version(params: &JsonValue) -> (r: Option<&str>)
    ensures
        opt_str_view(r) == spec_modern_version(params@),
{
    match params.get("_meta") {
        Some(meta) => match meta.get(META_PROTOCOL_VERSION_KEY) {
            Some(v) => v.as_str(),
            None => None,
        },
        None => None,
    }
}

/// The result of `initialize`: the negotiated version, the tools capability
/// and the server info.
pub fn initialize_result(params: &JsonValue) -> (r: JsonValue)
    ensures
        r@ == initialize_json(params@),
{
    let requested = match params.get("protocolVersion") {
        Some(v) => v.as_str(),
        None => None,
    };
    let version = negotiate_protocol_version(requested);
    object3(
        member_entry("protocolVersion", string_value(version)),
        member_entry("capabilities", capabilities()),
        member_entry("serverInfo", server_info()),
    )
}

/// The result of `server/discover`.
pub fn discover_result() -> (r: JsonValue)
    ensures
        r@ == discover_json(),
{
    let versions = MODERN_SUPPORTED_PROTOCOL_VERSIONS;
    let supported = string_array(&versions);
    assert(strs_view(versions@) =~= modern_versions());
    object4(
        member_entry("resultType", string_value("complete")),
        member_entry("supportedVersions", supported),
        member_entry("capabilities", capabilities()),
        member_entry("_meta", object1(member_entry("io.modelcontextprotocol/serverInfo", server_info()))),
    )
}

/// The UnsupportedProtocolVersionError (-32022) response, listing the
/// supported modern versions and echoing the requested one.
pub fn unsupported_protocol_version_error(id: Option<JsonValue>, requested: &str) -> (r: JsonValue)
    ensures
        r@ == unsupported_json(id_view(id), requested@),
{
    let versions = MODERN_SUPPORTED_PROTOCOL_VERSIONS;
    let supported = string_array(&versions);
    assert(strs_view(versions@) =~= modern_versions());
    let data = object2(member_entry("supported", supported), member_entry("requested", string_value(requested)));
    let body = object3(
        member_entry("code", JsonValue::Int(-32022)),
        member_entry("message", string_value("Unsupported protocol version")),
        member_entry("data", data),
    );
    object3(
        member_entry("jsonrpc", string_value("2.0")),
        member_entry("id", take_id(id)),
        member_entry("error", body),
    )
}

fn property(kind: &str, description: &str) -> (r: JsonValue)
    ensures
        r@ == property_json(kind@, description@),
{
    object2(member_entry("type", string_value(kind)), member_entry("description", string_value(description)))
}

fn schema(properties: JsonValue, required: &[&str]) -> (r: JsonValue)
    ensures
        r@ == schema_json(properties@, strs_view(required@)),
{
    object4(
        member_entry("type", string_value("object")),
        member_entry("properties", properties),
        member_entry("required", string_array(required)),
        member_entry("additionalProperties", JsonValue::Bool(false)),
    )
}

fn tool(name: &str, description: &str, input_schema: JsonValue) -> (r: JsonValue)
    ensures
        r@ == tool_json(name@, description@, input_schema@),
{
    object3(
        member_entry("name", string_value(name)),
        member_entry("description", string_value(description)),
        member_entry("inputSchema", input_schema),
    )
}

/// The result of `tools/list`: the definitions of the four tools `kei_spec`,
/// `kei_check`, `kei_fmt` and `kei_examples`.
pub fn tools_list_result() -> (r: JsonValue)
    ensures
        r@ == tools_list_json(),
{
    let none: [&str; 0] = [];
    let source_only: [&str; 1] = ["source"];
    proof {
        assert(strs_view(none@) =~= seq![]);
        assert(strs_view(source_only@) =~= seq!["source"@]);
    }
    let spec_tool = tool(
        "kei_spec",
        KEI_SPEC_DESCRIPTION,
        schema(object1(member_entry("topic", property("string", TOPIC_DESCRIPTION))), &none),
    );
    let check_tool = tool(
        "kei_check",
        KEI_CHECK_DESCRIPTION,
        schema(
            object2(
                member_entry("source", property("string", CHECK_SOURCE_DESCRIPTION)),
                member_entry("generative", property("boolean", GENERATIVE_DESCRIPTION)),
            ),
            &source_only,
        ),
    );
    let fmt_tool = tool(
        "kei_fmt",
        KEI_FMT_DESCRIPTION,
        schema(object1(member_entry("source", property("string", FMT_SOURCE_DESCRIPTION))), &source_only),
    );
    let examples_tool = tool(
        "kei_examples",
        KEI_EXAMPLES_DESCRIPTION,
        schema(object1(member_entry("query", property("string", QUERY_DESCRIPTION))), &none),
    );
    let ghost tools = seq![spec_tool@, check_tool@, fmt_tool@, examples_tool@];
    let items = vec![spec_tool, check_tool, fmt_tool, examples_tool];
    let list = array_value(items);
    assert(items_view(items@) =~= tools);
    object1(member_entry("tools", list))
}

/// What a tool call produced: its text and whether it is an error.
pub struct ToolOutcome {
    pub text: String,
    pub is_error: bool,
}

/// A tool invocation requested by `tools/call`, with its arguments already
/// validated. The last three variants report a request that names no
/// runnable tool or lacks a valid argument; they too are answered with a tool
/// result.
pub enum ToolCall {
    /// `kei_spec` with the topic (empty when omitted).
    Spec { topic: String },
    /// `kei_check` with the source and the `generative` flag.
    Check { source: String, generative: bool },
    /// `kei_fmt` with the source.
    Fmt { source: String },
    /// `kei_examples` with the query (empty when omitted).
    Examples { query: String },
    /// A required string argument is missing.
    MissingArgument { key: String },
    /// An argument has the wrong JSON type.
    InvalidArgument { key: String, expected: String },
    /// The tool name is not one of the four tools.
    UnknownTool { name: String },
}

/// The view of a [`ToolCall`].
pub enum ToolCallView {
    Spec { topic: Seq<char> },
    Check { source: Seq<char>, generative: bool },
    Fmt { source: Seq<char> },
    Examples { query: Seq<char> },
    MissingArgument { key: Seq<char> },
    InvalidArgument { key: Seq<char>, expected: Seq<char> },
    UnknownTool { name: Seq<char> },
}

impl View for ToolCall {
    type V = ToolCallView;

    open spec fn view(&self) -> ToolCallView {
        match self {
            ToolCall::Spec { topic } => ToolCallView::Spec { topic: topic@ },
            ToolCall::Check { source, generative } => ToolCallView::Check { source: source@, generative: *generative },
            ToolCall::Fmt { source } => ToolCallView::Fmt { source: source@ },
            ToolCall::Examples { query } => ToolCallView::Examples { query: query@ },
            ToolCall::MissingArgument { key } => ToolCallView::MissingArgument { key: key@ },
            ToolCall::InvalidArgument { key, expected } => ToolCallView::InvalidArgument {
                key: key@,
                expected: expected@,
            },
            ToolCall::UnknownTool { name } => ToolCallView::UnknownTool { name: name@ },
        }
    }
}

/// How the server answers one JSON-RPC message.
pub enum Reply {
    /// A notification: no response is sent.
    Silent,
    /// This response is sent.
    Message(JsonValue),
    /// The tool is run; its outcome, passed to [`tool_response`] with this
    /// request id, is the response.
    RunTool { id: JsonValue, call: ToolCall },
}

/// The view of a [`Reply`].
pub enum ReplyView {
    Silent,
    Message(Json),
    RunTool { id: Json, call: ToolCallView },
}

impl View for Reply {
    type V = ReplyView;

    open spec fn view(&self) -> ReplyView {
        match self {
            Reply::Silent => ReplyView::Silent,
            Reply::Message(m) => ReplyView::Message(m@),
            Reply::RunTool { id, call } => ReplyView::RunTool { id: id@, call: call@ },
        }
    }
}

/// The `tools/call` arguments: `params.arguments`, or `{}` when absent.
pub open spec fn tool_arguments(params: Json) -> Json {
    match member(params, "arguments"@) {
        Some(args) => args,
        None => obj(seq![]),
    }
}

/// A boolean tool argument: absent or `null` reads as `false`; `None` when
/// the value is present but not a boolean.
pub open spec fn bool_argument(args: Json, key: Seq<char>) -> Option<bool> {
    match member(args, key) {
        None => Some(false),
        Some(Json::Null) => Some(false),
        Some(Json::Bool(b)) => Some(b),
        Some(_) => None,
    }
}

/// The tool invocation that `tools/call` requests for the tool `name`.
pub open spec fn spec_tool_call(name: Seq<char>, args: Json) -> ToolCallView {
    if name == "kei_spec"@ {
        ToolCallView::Spec {
            topic: match text_of(member(args, "topic"@)) {
                Some(t) => t,
                None => ""@,
            },
        }
    } else if name == "kei_check"@ {
        match text_of(member(args, "source"@)) {
            Some(src) => match bool_argument(args, "generative"@) {
                Some(g) => ToolCallView::Check { source: src, generative: g },
                None => ToolCallView::InvalidArgument { key: "generative"@, expected: "boolean"@ },
            },
            None => ToolCallView::MissingArgument { key: "source"@ },
        }
    } else if name == "kei_fmt"@ {
        match text_of(member(args, "source"@)) {
            Some(src) => ToolCallView::Fmt { source: src },
            None => ToolCallView::MissingArgument { key: "source"@ },
        }
    } else if name == "kei_examples"@ {
        ToolCallView::Examples {
            query: match text_of(member(args, "query"@)) {
                Some(q) => q,
                None => ""@,
            },
        }
    } else {
        ToolCallView::UnknownTool { name }
    }
}

/// How `tools/call` with these params is answered.
pub open spec fn spec_tools_call(id: Json, params: Json) -> ReplyView {
    match text_of(member(params, "name"@)) {
        Some(name) => ReplyView::RunTool { id, call: spec_tool_call(name, tool_arguments(params)) },
        None => ReplyView::Message(error_json(id, -32602, "Invalid params: missing tool 'name'"@)),
    }
}

fn string_argument<'a>(args: &'a JsonValue, key: &str) -> (r: Option<&'a str>)
    ensures
        opt_str_view(r) == text_of(member(args@, key@)),
{
    match args.get(key) {
        Some(v) => v.as_str(),
        None => None,
    }
}

fn boolean_argument(args: &JsonValue, key: &str) -> (r: Option<bool>)
    ensures
        r == bool_argument(args@, key@),
{
    match args.get(key) {
        None => Some(false),
        Some(JsonValue::Null) => Some(false),
        Some(JsonValue::Bool(b)) => Some(*b),
        Some(_) => None,
    }
}

fn tools_call(id: Option<JsonValue>, params: &JsonValue) -> (r: Reply)
    ensures
        r@ == spec_tools_call(id_view(id), params@),
{
    let name = match params.get("name") {
        Some(v) => v.as_str(),
        None => None,
    };
    let name = match name {
        Some(n) => n,
        None => {
            return Reply::Message(error(id, -32602, "Invalid params: missing tool 'name'"));
        },
    };
    let empty = object0();
    let args: &JsonValue = match params.get("arguments") {
        Some(a) => a,
        None => &empty,
    };
    let call = if str_eq(name, "kei_spec") {
        let topic = match string_argument(args, "topic") {
            Some(t) => t,
            None => "",
        };
        ToolCall::Spec { topic: String::from_str(topic) }
    } else if str_eq(name, "kei_check") {
        match string_argument(args, "source") {
            Some(src) => match boolean_argument(args, "generative") {
                Some(g) => ToolCall::Check { source: String::from_str(src), generative: g },
                None => ToolCall::InvalidArgument {
                    key: String::from_str("generative"),
                    expected: String::from_str("boolean"),
                },
            },
            None => ToolCall::MissingArgument { key: String::from_str("source") },
        }
    } else if str_eq(name, "kei_fmt") {
        match string_argument(args, "source") {
            Some(src) => ToolCall::Fmt { source: String::from_str(src) },
            None => ToolCall::MissingArgument { key: String::from_str("source") },
        }
    } else if str_eq(name, "kei_examples") {
        let query = match string_argument(args, "query") {
            Some(q) => q,
            None => "",
        };
        ToolCall::Examples { query: String::from_str(query) }
    } else {
        ToolCall::UnknownTool { name: String::from_str(name) }
    };
    Reply::RunTool { id: take_id(id), call }
}

/// The result object of a tool call: one text content item and `isError`.
pub fn tool_result(outcome: &ToolOutcome) -> (r: JsonValue)
    ensures
        r@ == tool_result_json(outcome.text@, outcome.is_error),
{
    let item = object2(member_entry("type", string_value("text")), member_entry("text", string_value(outcome.text.as_str())));
    let ghost item_view = item@;
    let items = vec![item];
    let content = array_value(items);
    assert(items_view(items@) =~= seq![item_view]);
    object2(member_entry("content", content), member_entry("isError", JsonValue::Bool(outcome.is_error)))
}

/// The response to a `tools/call` request with id `id` whose tool produced
/// `outcome`.
pub fn tool_response(id: JsonValue, outcome: &ToolOutcome) -> (r: JsonValue)
    ensures
        r@ == success_json(id@, tool_result_json(outcome.text@, outcome.is_error)),
{
    success(Some(id), tool_result(outcome))
}

/// The response `success(id, result)` as a [`ReplyView`].
pub open spec fn answer(id: Json, result: Json) -> ReplyView {
    ReplyView::Message(success_json(id, result))
}

/// How a request with id `id`, method `method` and params `params` is
/// dispatched once it has passed the protocol-version check.
pub open spec fn spec_dispatch(id: Json, method: Seq<char>, params: Json) -> ReplyView {
    if method == "initialize"@ {
        answer(id, initialize_json(params))
    } else if method == "server/discover"@ {
        answer(id, discover_json())
    } else if method == "ping"@ {
        answer(id, obj(seq![]))
    } else if method == "tools/list"@ {
        answer(id, tools_list_json())
    } else if method == "tools/call"@ {
        spec_tools_call(id, params)
    } else {
        ReplyView::Message(error_json(id, -32601, "Method not found: "@ + method))
    }
}

/// Whether a request for `method` with these params is refused on the modern
/// path: it is not `initialize`, it declares a version in `params._meta`, and
/// that version is not a supported modern one.
pub open spec fn refused_version(method: Seq<char>, params: Json) -> bool {
    &&& method != "initialize"@
    &&& spec_modern_version(params) is Some
    &&& !modern_versions().contains(spec_modern_version(params)->0)
}

/// How the server answers one JSON-RPC message.
pub open spec fn spec_handle(request: Json) -> ReplyView {
    if !(request is Object) {
        ReplyView::Message(error_json(Json::Null, -32600, "Invalid Request: not a JSON object"@))
    } else {
        match member(request, "id"@) {
            None => ReplyView::Silent,
            Some(id) => match text_of(member(request, "method"@)) {
                None => ReplyView::Message(error_json(id, -32600, "Invalid Request: missing 'method'"@)),
                Some(method) => {
                    let params = match member(request, "params"@) {
                        Some(p) => p,
                        None => Json::Null,
                    };
                    if refused_version(method, params) {
                        ReplyView::Message(unsupported_json(id, spec_modern_version(params)->0))
                    } else {
                        spec_dispatch(id, method, params)
                    }
                },
            },
        }
    }
}

fn is_modern_supported(version: &str) -> (r: bool)
    ensures
        r == modern_versions().contains(version@),
{
    let versions = MODERN_SUPPORTED_PROTOCOL_VERSIONS;
    let mut i: usize = 0;
    while i < versions.len()
        invariant
            versions@.len() == 1,
            0 <= i <= 1,
            forall|j: int| 0 <= j < 1 ==> #[trigger] versions@[j]@ == modern_versions()[j],
            forall|j: int| 0 <= j < i ==> modern_versions()[j] != version@,
        decreases 1 - i,
    {
        if str_eq(versions[i], version) {
            assert(modern_versions()[i as int] == version@);
            return true;
        }
        i = i + 1;
    }
    false
}

/// The Kei MCP server. It holds no state: everything it serves is static.
#[derive(Debug, Default, Clone, Copy)]
pub struct Server;

impl Server {
    pub fn new() -> (r: Server)
        ensures
            r == Server,
    {
        Server
    }

    /// Handles one JSON-RPC message. A request with an `id` gets a response;
    /// an object without an `id` is a notification and gets none; anything
    /// that is not an object (array, string, number, boolean, null) gets an
    /// Invalid Request error (-32600) with `id: null`.
    pub fn handle(&self, request: &JsonValue) -> (r: Reply)
        ensures
            r@ == spec_handle(request@),
    {
        if !request.is_object() {
            return Reply::Message(error(None, -32600, "Invalid Request: not a JSON object"));
        }
        let method = match request.get("method") {
            Some(m) => m.as_str(),
            None => None,
        };
        // A notification (no id) gets no response.
        let id = match request.get("id") {
            Some(v) => v.deep_clone(),
            None => {
                return Reply::Silent;
            },
        };
        let method = match method {
            Some(m) => m,
            None => {
                return Reply::Message(error(Some(id), -32600, "Invalid Request: missing 'method'"));
            },
        };
        let params = match request.get("params") {
            Some(p) => p.deep_clone(),
            None => JsonValue::Null,
        };
        // `initialize` always takes the legacy path; any other request that
        // declares a modern version must declare a supported one.
        if !str_eq(method, "initialize") {
            if let Some(requested) = modern_protocol_version(&params) {
                if !is_modern_supported(requested) {
                    return Reply::Message(unsupported_protocol_version_error(Some(id), requested));
                }
            }
        }
        if str_eq(method, "initialize") {
            Reply::Message(success(Some(id), initialize_result(&params)))
        } else if str_eq(method, "server/discover") {
            Reply::Message(success(Some(id), discover_result()))
        } else if str_eq(method, "ping") {
            Reply::Message(success(Some(id), object0()))
        } else if str_eq(method, "tools/list") {
            Reply::Message(success(Some(id), tools_list_result()))
        } else if str_eq(method, "tools/call") {
            tools_call(Some(id), &params)
        } else {
            let mut message = String::from_str("Method not found: ");
            message.append(method);
            Reply::Message(error(Some(id), -32601, message.as_str()))
        }
    }
}

/// Version negotiation always announces a supported legacy version: the
/// requested one when it is supported, otherwise the newest supported one,
/// which is the first of `SUPPORTED_PROTOCOL_VERSIONS`.
pub proof fn lemma_negotiation_announces_supported_version(requested: Option<Seq<char>>)
    ensures
        supported_versions().contains(spec_negotiate(requested)),
        DEFAULT_PROTOCOL_VERSION@ == supported_versions()[0],
        requested is Some && supported_versions().contains(requested->0) ==> spec_negotiate(
            requested,
        ) == requested->0,
        !(requested is Some && supported_versions().contains(requested->0)) ==> spec_negotiate(
            requested,
        ) == DEFAULT_PROTOCOL_VERSION@,
{
    assert(supported_versions()[0] == DEFAULT_PROTOCOL_VERSION@);
}

proof fn lemma_envelope_members(id: Json, third: Seq<char>, value: Json)
    requires
        third == "result"@ || third == "error"@,
    ensures
        member(obj(seq![("jsonrpc"@, Json::Str("2.0"@)), ("id"@, id), (third, value)]), "jsonrpc"@)
            == Some(Json::Str("2.0"@)),
        member(obj(seq![("jsonrpc"@, Json::Str("2.0"@)), ("id"@, id), (third, value)]), "id"@)
            == Some(id),
        member(obj(seq![("jsonrpc"@, Json::Str("2.0"@)), ("id"@, id), (third, value)]), third)
            == Some(value),
        third == "error"@ ==> member(
            obj(seq![("jsonrpc"@, Json::Str("2.0"@)), ("id"@, id), (third, value)]),
            "result"@,
        ) is None,
        third == "result"@ ==> member(
            obj(seq![("jsonrpc"@, Json::Str("2.0"@)), ("id"@, id), (third, value)]),
            "error"@,
        ) is None,
{
    reveal_strlit("jsonrpc");
    reveal_strlit("id");
    reveal_strlit("result");
    reveal_strlit("error");
    let es = seq![("jsonrpc"@, Json::Str("2.0"@)), ("id"@, id), (third, value)];
    assert(es.drop_first() =~= seq![("id"@, id), (third, value)]);
    assert(es.drop_first().drop_first() =~= seq![(third, value)]);
    assert(es.drop_first().drop_first().drop_first() =~= seq![]);
    reveal_with_fuel(lookup, 4);
    assert("jsonrpc"@.len() == 7);
    assert("id"@.len() == 2);
    assert("result"@.len() == 6);
    assert("error"@.len() == 5);
}

/// Every response is a JSON-RPC 2.0 message (`"jsonrpc": "2.0"`) that echoes
/// the request's `id`, and an error response carries no `result`. A message
/// that is not an object gets an Invalid Request error with `id: null`.
pub proof fn lemma_responses_are_jsonrpc(request: Json)
    ensures
        spec_handle(request) matches ReplyView::Message(response) ==> {
            &&& member(response, "jsonrpc"@) == Some(Json::Str("2.0"@))
            &&& member(response, "id"@) == Some(
                if request is Object {
                    member(request, "id"@)->0
                } else {
                    Json::Null
                },
            )
            &&& (member(response, "error"@) is Some ==> member(response, "result"@) is None)
        },
        spec_handle(request) matches ReplyView::RunTool { id, call } ==> member(request, "id"@)
            == Some(id),
{
    reveal_strlit("jsonrpc");
    reveal_strlit("id");
    reveal_strlit("result");
    reveal_strlit("error");
    assert("error"@.len() == 5);
    assert("result"@.len() == 6);
    if !(request is Object) {
        lemma_envelope_members(
            Json::Null,
            "error"@,
            obj(seq![("code"@, Json::Int(-32600)), ("message"@, Json::Str("Invalid Request: not a JSON object"@))]),
        );
    } else {
        match member(request, "id"@) {
            None => {},
            Some(id) => match text_of(member(request, "method"@)) {
                None => {
                    lemma_envelope_members(
                        id,
                        "error"@,
                        obj(seq![("code"@, Json::Int(-32600)), ("message"@, Json::Str("Invalid Request: missing 'method'"@))]),
                    );
                },
                Some(method) => {
                    let params = match member(request, "params"@) {
                        Some(p) => p,
                        None => Json::Null,
                    };
                    if refused_version(method, params) {
                        let requested = spec_modern_version(params)->0;
                        lemma_envelope_members(
                            id,
                            "error"@,
                            obj(
                                seq![
                                    ("code"@, Json::Int(-32022)),
                                    ("message"@, Json::Str("Unsupported protocol version"@)),
                                    (
                                        "data"@,
                                        obj(
                                            seq![
                                                ("supported"@, str_array(modern_versions())),
                                                ("requested"@, Json::Str(requested)),
                                            ],
                                        ),
                                    ),
                                ],
                            ),
                        );
                    } else if method == "initialize"@ {
                        lemma_envelope_members(id, "result"@, initialize_json(params));
                    } else if method == "server/discover"@ {
                        lemma_envelope_members(id, "result"@, discover_json());
                    } else if method == "ping"@ {
                        lemma_envelope_members(id, "result"@, obj(seq![]));
                    } else if method == "tools/list"@ {
                        lemma_envelope_members(id, "result"@, tools_list_json());
                    } else if method == "tools/call"@ {
                        if text_of(member(params, "name"@)) is None {
                            lemma_envelope_members(
                                id,
                                "error"@,
                                obj(seq![("code"@, Json::Int(-32602)), ("message"@, Json::Str("Invalid params: missing tool 'name'"@))]),
                            );
                        }
                    } else {
                        lemma_envelope_members(
                            id,
                            "error"@,
                            obj(seq![("code"@, Json::Int(-32601)), ("message"@, Json::Str("Method not found: "@ + method))]),
                        );
                    }
                },
            },
        }
    }
}

/// A message that is not a JSON object is never mistaken for a notification:
/// it is answered with an Invalid Request error (-32600).
pub proof fn lemma_non_object_gets_invalid_request(request: Json)
    requires
        !(request is Object),
    ensures
        spec_handle(request) == ReplyView::Message(
            error_json(Json::Null, -32600, "Invalid Request: not a JSON object"@),
        ),
{
}

/// An object without an `id` is a notification and is never answered.
pub proof fn lemma_notification_gets_no_response(request: Json)
    requires
        request is Object,
        member(request, "id"@) is None,
    ensures
        spec_handle(request) == ReplyView::Silent,
{
}

/// `initialize` always takes the legacy path: whatever `_meta` declares, it
/// is answered with the negotiated `initialize` result and never with the
/// -32022 error.
pub proof fn lemma_initialize_is_always_legacy(request: Json, id: Json, params: Json)
    requires
        request is Object,
        member(request, "id"@) == Some(id),
        text_of(member(request, "method"@)) == Some("initialize"@),
        params == (match member(request, "params"@) {
            Some(p) => p,
            None => Json::Null,
        }),
    ensures
        spec_handle(request) == answer(id, initialize_json(params)),
{
}

/// On the modern path the declared version decides: an unsupported one is
/// refused with -32022 (listing the supported versions and echoing the
/// requested one) before the method runs, and a supported one lets the method
/// run as usual.
pub proof fn lemma_modern_version_gate(request: Json, id: Json, method: Seq<char>, params: Json, declared: Seq<char>)
    requires
        request is Object,
        member(request, "id"@) == Some(id),
        text_of(member(request, "method"@)) == Some(method),
        method != "initialize"@,
        params == (match member(request, "params"@) {
            Some(p) => p,
            None => Json::Null,
        }),
        spec_modern_version(params) == Some(declared),
    ensures
        !modern_versions().contains(declared) ==> spec_handle(request) == ReplyView::Message(
            unsupported_json(id, declared),
        ),
        modern_versions().contains(declared) ==> spec_handle(request) == spec_dispatch(id, method, params),
{
}

/// A request that declares no modern version (no `_meta`, or a malformed one)
/// is handled like a legacy request: its method runs.
pub proof fn lemma_undeclared_version_dispatches(request: Json, id: Json, method: Seq<char>, params: Json)
    requires
        request is Object,
        member(request, "id"@) == Some(id),
        text_of(member(request, "method"@)) == Some(method),
        params == (match member(request, "params"@) {
            Some(p) => p,
            None => Json::Null,
        }),
        spec_modern_version(params) is None,
    ensures
        spec_handle(request) == spec_dispatch(id, method, params),
{
}

/// Whether the `generative` argument of `args` reads as `false`: absent,
/// `null` or `false`.
pub open spec fn generative_unset(args: Json) -> bool {
    ||| member(args, "generative"@) is None
    ||| member(args, "generative"@) == Some(Json::Null)
    ||| member(args, "generative"@) == Some(Json::Bool(false))
}

/// For `kei_check`, an absent `generative` argument, `null` and `false` are
/// the same request: two calls whose arguments agree on `source` and leave
/// `generative` unset are answered alike, whatever the id.
pub proof fn lemma_generative_defaults_to_false(id: Json, params1: Json, params2: Json)
    requires
        text_of(member(params1, "name"@)) == Some("kei_check"@),
        text_of(member(params2, "name"@)) == Some("kei_check"@),
        member(tool_arguments(params1), "source"@) == member(tool_arguments(params2), "source"@),
        generative_unset(tool_arguments(params1)),
        generative_unset(tool_arguments(params2)),
    ensures
        spec_tools_call(id, params1) == spec_tools_call(id, params2),
{
    reveal_strlit("kei_check");
    reveal_strlit("kei_spec");
    assert("kei_check"@ != "kei_spec"@) by {
        assert("kei_check"@.len() != "kei_spec"@.len());
    }
    let args1 = tool_arguments(params1);
    let args2 = tool_arguments(params2);
    assert(bool_argument(args1, "generative"@) == Some(false));
    assert(bool_argument(args2, "generative"@) == Some(false));
    assert(spec_tool_call("kei_check"@, args1) == spec_tool_call("kei_check"@, args2));
}

/// `request` with the declared version taken out of `params._meta`.
pub open spec fn without_declared_version(request: Json, params: Json, meta: Json) -> Json {
    replace_member(
        request,
        "params"@,
        replace_member(params, "_meta"@, without_member(meta, META_PROTOCOL_VERSION_KEY@)),
    )
}

/// A supported modern version changes nothing: outside `initialize`, a
/// request that declares one in `params._meta` is answered as the same
/// request with that declaration taken out.
pub proof fn lemma_supported_version_is_transparent(
    request: Json,
    id: Json,
    method: Seq<char>,
    params: Json,
    meta: Json,
    declared: Seq<char>,
)
    requires
        request is Object,
        member(request, "id"@) == Some(id),
        text_of(member(request, "method"@)) == Some(method),
        method != "initialize"@,
        member(request, "params"@) == Some(params),
        member(params, "_meta"@) == Some(meta),
        text_of(member(meta, META_PROTOCOL_VERSION_KEY@)) == Some(declared),
        modern_versions().contains(declared),
    ensures
        spec_handle(request) == spec_handle(without_declared_version(request, params, meta)),
{
    reveal_strlit("id");
    reveal_strlit("method");
    reveal_strlit("params");
    reveal_strlit("_meta");
    reveal_strlit("name");
    reveal_strlit("arguments");
    let key = META_PROTOCOL_VERSION_KEY@;
    let meta2 = without_member(meta, key);
    let params2 = replace_member(params, "_meta"@, meta2);
    let request2 = without_declared_version(request, params, meta);
    assert("id"@ != "params"@) by {
        assert("id"@.len() != "params"@.len());
    }
    assert("method"@ != "params"@) by {
        assert("method"@[0] != "params"@[0]);
    }
    assert("name"@ != "_meta"@) by {
        assert("name"@.len() != "_meta"@.len());
    }
    assert("arguments"@ != "_meta"@) by {
        assert("arguments"@.len() != "_meta"@.len());
    }
    lemma_replace_member(request, "params"@, params2, "id"@);
    lemma_replace_member(request, "params"@, params2, "method"@);
    lemma_replace_member(params, "_meta"@, meta2, "name"@);
    lemma_replace_member(params, "_meta"@, meta2, "arguments"@);
    lemma_without_member(meta, key, key);
    assert(member(request2, "params"@) == Some(params2));
    assert(member(params2, "_meta"@) == Some(meta2));
    assert(spec_modern_version(params2) is None);
    assert(spec_tools_call(id, params2) == spec_tools_call(id, params));
    assert(spec_dispatch(id, method, params2) == spec_dispatch(id, method, params));
}

/// The tool definitions that `tools/list` lists.
pub open spec fn listed_tools() -> Seq<Json> {
    match member(tools_list_json(), "tools"@) {
        Some(Json::Array(items)) => items,
        _ => seq![],
    }
}

/// The `name` of a tool definition (empty when it has none).
pub open spec fn tool_name(tool: Json) -> Seq<char> {
    match text_of(member(tool, "name"@)) {
        Some(name) => name,
        None => seq![],
    }
}

/// A member of a tool definition's `inputSchema`.
pub open spec fn schema_member(tool: Json, key: Seq<char>) -> Option<Json> {
    match member(tool, "inputSchema"@) {
        Some(schema) => member(schema, key),
        None => None,
    }
}

/// The argument keys that a tool definition's input schema declares (the
/// keys of `inputSchema.properties`).
pub open spec fn property_keys(tool: Json) -> Seq<Seq<char>> {
    match schema_member(tool, "properties"@) {
        Some(Json::Object(entries)) => entries.map_values(|e: (Seq<char>, Json)| e.0),
        _ => seq![],
    }
}

/// The items of a tool definition's `inputSchema.required`.
pub open spec fn required_keys(tool: Json) -> Seq<Json> {
    match schema_member(tool, "required"@) {
        Some(Json::Array(items)) => items,
        _ => seq![],
    }
}

/// Where a tool definition keeps its schema, and a schema its properties
/// and required keys.
proof fn lemma_tool_schema_members(name: Seq<char>, description: Seq<char>, properties: Json, required: Seq<Seq<char>>)
    ensures
        member(tool_json(name, description, schema_json(properties, required)), "inputSchema"@) == Some(
            schema_json(properties, required),
        ),
        member(tool_json(name, description, schema_json(properties, required)), "name"@) == Some(Json::Str(name)),
        member(schema_json(properties, required), "properties"@) == Some(properties),
        member(schema_json(properties, required), "required"@) == Some(str_array(required)),
{
    reveal_strlit("name");
    reveal_strlit("description");
    reveal_strlit("inputSchema");
    reveal_strlit("type");
    reveal_strlit("properties");
    reveal_strlit("required");
    let sch = schema_json(properties, required);
    let t = tool_json(name, description, sch);
    assert("description"@ != "inputSchema"@) by {
        assert("description"@[0] != "inputSchema"@[0]);
    }
    assert("name"@ != "inputSchema"@) by {
        assert("name"@.len() != "inputSchema"@.len());
    }
    assert("type"@ != "properties"@ && "type"@ != "required"@ && "properties"@ != "required"@) by {
        assert("properties"@.len() != "required"@.len());
        assert("type"@.len() != "required"@.len());
        assert("type"@.len() != "properties"@.len());
    }
    let te = t->Object_0;
    lemma_lookup_first_match(te, "inputSchema"@, 2);
    lemma_lookup_first_match(te, "name"@, 0);
    let se = sch->Object_0;
    lemma_lookup_first_match(se, "properties"@, 1);
    lemma_lookup_first_match(se, "required"@, 2);
}

/// The schemas that `tools/list` announces describe what `tools/call` reads:
/// every listed tool is one that `tools/call` runs (never an unknown tool),
/// each required key is a declared property, and the call depends on the
/// arguments only through the declared properties, so two argument objects
/// that agree on them request the same run.
pub proof fn lemma_tool_schemas_describe_arguments(tool: Json, args1: Json, args2: Json)
    requires
        listed_tools().contains(tool),
    ensures
        !(spec_tool_call(tool_name(tool), args1) is UnknownTool),
        forall|j: int|
            0 <= j < required_keys(tool).len() ==> (#[trigger] required_keys(tool)[j]) is Str
                && property_keys(tool).contains(required_keys(tool)[j]->Str_0),
        (forall|k: Seq<char>| #[trigger] property_keys(tool).contains(k) ==> member(args1, k) == member(args2, k))
            ==> spec_tool_call(tool_name(tool), args1) == spec_tool_call(tool_name(tool), args2),
{
    reveal_with_fuel(lookup, 4);
    reveal_strlit("tools");
    reveal_strlit("name");
    reveal_strlit("description");
    reveal_strlit("inputSchema");
    reveal_strlit("type");
    reveal_strlit("properties");
    reveal_strlit("required");
    reveal_strlit("kei_spec");
    reveal_strlit("kei_check");
    reveal_strlit("kei_fmt");
    reveal_strlit("kei_examples");
    reveal_strlit("topic");
    reveal_strlit("source");
    reveal_strlit("generative");
    reveal_strlit("query");
    assert("description"@ != "inputSchema"@) by {
        assert("description"@[0] != "inputSchema"@[0]);
    }
    assert("type"@ != "properties"@ && "type"@ != "required"@ && "properties"@ != "required"@) by {
        assert("properties"@.len() != "required"@.len());
    }
    assert("kei_check"@ != "kei_spec"@ && "kei_fmt"@ != "kei_spec"@ && "kei_fmt"@ != "kei_check"@) by {
        assert("kei_check"@.len() != "kei_spec"@.len() && "kei_fmt"@.len() != "kei_spec"@.len());
        assert("kei_fmt"@.len() != "kei_check"@.len());
    }
    assert("kei_examples"@ != "kei_spec"@ && "kei_examples"@ != "kei_check"@ && "kei_examples"@ != "kei_fmt"@) by {
        assert("kei_examples"@.len() != "kei_spec"@.len() && "kei_examples"@.len() != "kei_check"@.len());
        assert("kei_examples"@.len() != "kei_fmt"@.len());
    }
    let tools = listed_tools();
    let i = choose|i: int| 0 <= i < tools.len() && tools[i] == tool;
    let keys = property_keys(tool);
    let same = forall|k: Seq<char>| #[trigger] keys.contains(k) ==> member(args1, k) == member(args2, k);
    assert(tools == seq![
        tool_json(
            "kei_spec"@,
            KEI_SPEC_DESCRIPTION@,
            schema_json(obj(seq![("topic"@, property_json("string"@, TOPIC_DESCRIPTION@))]), seq![]),
        ),
        tool_json(
            "kei_check"@,
            KEI_CHECK_DESCRIPTION@,
            schema_json(
                obj(
                    seq![
                        ("source"@, property_json("string"@, CHECK_SOURCE_DESCRIPTION@)),
                        ("generative"@, property_json("boolean"@, GENERATIVE_DESCRIPTION@)),
                    ],
                ),
                seq!["source"@],
            ),
        ),
        tool_json(
            "kei_fmt"@,
            KEI_FMT_DESCRIPTION@,
            schema_json(obj(seq![("source"@, property_json("string"@, FMT_SOURCE_DESCRIPTION@))]), seq!["source"@]),
        ),
        tool_json(
            "kei_examples"@,
            KEI_EXAMPLES_DESCRIPTION@,
            schema_json(obj(seq![("query"@, property_json("string"@, QUERY_DESCRIPTION@))]), seq![]),
        ),
    ]);
    if i == 0 {
        let props = obj(seq![("topic"@, property_json("string"@, TOPIC_DESCRIPTION@))]);
        let sch = schema_json(props, seq![]);
        assert(tool == tool_json("kei_spec"@, KEI_SPEC_DESCRIPTION@, sch));
        lemma_tool_schema_members("kei_spec"@, KEI_SPEC_DESCRIPTION@, props, seq![]);
        assert(member(tool, "inputSchema"@) == Some(sch));
        assert(member(sch, "properties"@) == Some(props));
        assert(member(sch, "required"@) == Some(str_array(seq![])));
        assert(keys =~= seq!["topic"@]);
        assert(keys[0] == "topic"@);
        assert(required_keys(tool).len() == 0);
        assert(tool_name(tool) == "kei_spec"@);
        if same {
            assert(keys.contains("topic"@));
            assert(member(args1, "topic"@) == member(args2, "topic"@));
        }
    } else if i == 1 {
        let props = obj(
            seq![
                ("source"@, property_json("string"@, CHECK_SOURCE_DESCRIPTION@)),
                ("generative"@, property_json("boolean"@, GENERATIVE_DESCRIPTION@)),
            ],
        );
        let sch = schema_json(props, seq!["source"@]);
        assert(tool == tool_json("kei_check"@, KEI_CHECK_DESCRIPTION@, sch));
        lemma_tool_schema_members("kei_check"@, KEI_CHECK_DESCRIPTION@, props, seq!["source"@]);
        assert(member(tool, "inputSchema"@) == Some(sch));
        assert(member(sch, "properties"@) == Some(props));
        assert(member(sch, "required"@) == Some(str_array(seq!["source"@])));
        assert(keys =~= seq!["source"@, "generative"@]);
        assert(required_keys(tool) =~= seq![Json::Str("source"@)]);
        assert(keys[0] == "source"@);
        assert(keys.contains("source"@));
        assert(tool_name(tool) == "kei_check"@);
        if same {
            assert(keys[1] == "generative"@);
            assert(keys.contains("generative"@));
            assert(member(args1, "source"@) == member(args2, "source"@));
            assert(member(args1, "generative"@) == member(args2, "generative"@));
        }
    } else if i == 2 {
        let props = obj(seq![("source"@, property_json("string"@, FMT_SOURCE_DESCRIPTION@))]);
        let sch = schema_json(props, seq!["source"@]);
        assert(tool == tool_json("kei_fmt"@, KEI_FMT_DESCRIPTION@, sch));
        lemma_tool_schema_members("kei_fmt"@, KEI_FMT_DESCRIPTION@, props, seq!["source"@]);
        assert(member(tool, "inputSchema"@) == Some(sch));
        assert(member(sch, "properties"@) == Some(props));
        assert(member(sch, "required"@) == Some(str_array(seq!["source"@])));
        assert(keys =~= seq!["source"@]);
        assert(required_keys(tool) =~= seq![Json::Str("source"@)]);
        assert(keys[0] == "source"@);
        assert(keys.contains("source"@));
        assert(tool_name(tool) == "kei_fmt"@);
    } else {
        let props = obj(seq![("query"@, property_json("string"@, QUERY_DESCRIPTION@))]);
        let sch = schema_json(props, seq![]);
        assert(tool == tool_json("kei_examples"@, KEI_EXAMPLES_DESCRIPTION@, sch));
        lemma_tool_schema_members("kei_examples"@, KEI_EXAMPLES_DESCRIPTION@, props, seq![]);
        assert(member(tool, "inputSchema"@) == Some(sch));
        assert(member(sch, "properties"@) == Some(props));
        assert(member(sch, "required"@) == Some(str_array(seq![])));
        assert(keys =~= seq!["query"@]);
        assert(keys[0] == "query"@);
        assert(required_keys(tool).len() == 0);
        assert(tool_name(tool) == "kei_examples"@);
        if same {
            assert(keys.contains("query"@));
            assert(member(args1, "query"@) == member(args2, "query"@));
        }
    }
}

/// The member reached from `value` by the keys `path`, one after another.
pub open spec fn member_at(value: Json, path: Seq<Seq<char>>) -> Option<Json>
    decreases path.len(),
{
    if path.len() == 0 {
        Some(value)
    } else {
        match member(value, path[0]) {
            Some(inner) => member_at(inner, path.drop_first()),
            None => None,
        }
    }
}

/// The response that a reply sends, if it sends one.
pub open spec fn sent(reply: ReplyView) -> Option<Json> {
    match reply {
        ReplyView::Message(response) => Some(response),
        _ => None,
    }
}

proof fn lemma_member_at_2(value: Json, k1: Seq<char>, k2: Seq<char>)
    ensures
        member_at(value, seq![k1, k2]) == (match member(value, k1) {
            Some(inner) => member(inner, k2),
            None => None,
        }),
{
    reveal_with_fuel(member_at, 3);
    let p = seq![k1, k2];
    assert(p.drop_first() =~= seq![k2]);
    assert(seq![k2].drop_first() =~= Seq::<Seq<char>>::empty());
    assert(p[0] == k1);
    assert(seq![k2][0] == k2);
}

proof fn lemma_member_at_3(value: Json, k1: Seq<char>, k2: Seq<char>, k3: Seq<char>)
    ensures
        member_at(value, seq![k1, k2, k3]) == (match member(value, k1) {
            Some(inner) => member_at(inner, seq![k2, k3]),
            None => None,
        }),
{
    assert(seq![k1, k2, k3].drop_first() =~= seq![k2, k3]);
}

/// The members of a response envelope: `jsonrpc`, `id`, then `result` or
/// `error`.
proof fn lemma_envelope_lookup(id: Json, third: Seq<char>, value: Json)
    requires
        third == "result"@ || third == "error"@,
    ensures
        member(obj(seq![("jsonrpc"@, Json::Str("2.0"@)), ("id"@, id), (third, value)]), third) == Some(value),
{
    reveal_strlit("jsonrpc");
    reveal_strlit("id");
    reveal_strlit("result");
    reveal_strlit("error");
    assert("jsonrpc"@ != third && "id"@ != third) by {
        assert("jsonrpc"@.len() != "result"@.len() && "jsonrpc"@.len() != "error"@.len());
        assert("id"@.len() != "result"@.len() && "id"@.len() != "error"@.len());
    }
    let entries = seq![("jsonrpc"@, Json::Str("2.0"@)), ("id"@, id), (third, value)];
    lemma_lookup_first_match(entries, third, 2);
}

/// A modern request is refused when the version it declares anywhere in
/// `params._meta` (whatever other members `_meta` has, in whatever order) is
/// not a supported modern one: outside `initialize`, the answer is the
/// -32022 error, which echoes the declared version in `error.data.requested`.
pub proof fn lemma_declared_version_is_read_anywhere_in_meta(
    request: Json,
    id: Json,
    method: Seq<char>,
    params: Json,
    meta: Json,
    declared: Seq<char>,
)
    requires
        request is Object,
        member(request, "id"@) == Some(id),
        text_of(member(request, "method"@)) == Some(method),
        method != "initialize"@,
        member(request, "params"@) == Some(params),
        member(params, "_meta"@) == Some(meta),
        member(meta, META_PROTOCOL_VERSION_KEY@) == Some(Json::Str(declared)),
        !modern_versions().contains(declared),
    ensures
        sent(spec_handle(request)) is Some,
        member_at(sent(spec_handle(request))->0, seq!["error"@, "code"@]) == Some(Json::Int(-32022)),
        member_at(sent(spec_handle(request))->0, seq!["error"@, "data"@, "requested"@]) == Some(
            Json::Str(declared),
        ),
        member(sent(spec_handle(request))->0, "id"@) == Some(id),
{
    reveal_strlit("code");
    reveal_strlit("message");
    reveal_strlit("data");
    reveal_strlit("supported");
    reveal_strlit("requested");
    reveal_strlit("jsonrpc");
    reveal_strlit("id");
    assert(spec_modern_version(params) == Some(declared));
    let response = unsupported_json(id, declared);
    assert(spec_handle(request) == ReplyView::Message(response));
    let data = obj(seq![("supported"@, str_array(modern_versions())), ("requested"@, Json::Str(declared))]);
    let err = obj(
        seq![
            ("code"@, Json::Int(-32022)),
            ("message"@, Json::Str("Unsupported protocol version"@)),
            ("data"@, data),
        ],
    );
    lemma_envelope_lookup(id, "error"@, err);
    assert("jsonrpc"@ != "id"@) by {
        assert("jsonrpc"@.len() != "id"@.len());
    }
    lemma_lookup_first_match(seq![("jsonrpc"@, Json::Str("2.0"@)), ("id"@, id), ("error"@, err)], "id"@, 1);
    lemma_lookup_first_match(err->Object_0, "code"@, 0);
    assert("code"@ != "data"@ && "message"@ != "data"@) by {
        assert("code"@[0] != "data"@[0]);
        assert("message"@.len() != "data"@.len());
    }
    lemma_lookup_first_match(err->Object_0, "data"@, 2);
    assert("supported"@ != "requested"@) by {
        assert("supported"@[0] != "requested"@[0]);
    }
    lemma_lookup_first_match(data->Object_0, "requested"@, 1);
    lemma_member_at_2(response, "error"@, "code"@);
    lemma_member_at_3(response, "error"@, "data"@, "requested"@);
    lemma_member_at_2(err, "data"@, "requested"@);
}

/// The version that `params.protocolVersion` requests, if it is a string.
pub open spec fn requested_version(params: Json) -> Option<Seq<char>> {
    text_of(member(params, "protocolVersion"@))
}

/// `initialize` always negotiates on the legacy path, from
/// `params.protocolVersion` alone (never from `params._meta`): the result
/// announces the requested version when it is a supported legacy one, and
/// the newest legacy version otherwise; either way a supported legacy
/// version.
pub proof fn lemma_initialize_announces_legacy_version(request: Json, id: Json, params: Json)
    requires
        request is Object,
        member(request, "id"@) == Some(id),
        text_of(member(request, "method"@)) == Some("initialize"@),
        member(request, "params"@) == Some(params),
    ensures
        sent(spec_handle(request)) is Some,
        ({
            let announced = member_at(sent(spec_handle(request))->0, seq!["result"@, "protocolVersion"@]);
            &&& announced is Some
            &&& announced->0 is Str
            &&& supported_versions().contains(announced->0->Str_0)
            &&& (requested_version(params) is Some && supported_versions().contains(
                requested_version(params)->0,
            ) ==> announced->0->Str_0 == requested_version(params)->0)
            &&& (!(requested_version(params) is Some && supported_versions().contains(
                requested_version(params)->0,
            )) ==> announced->0->Str_0 == supported_versions()[0])
        }),
{
    reveal_strlit("protocolVersion");
    reveal_strlit("2025-11-25");
    let result = initialize_json(params);
    assert(spec_handle(request) == ReplyView::Message(success_json(id, result)));
    lemma_envelope_lookup(id, "result"@, result);
    lemma_lookup_first_match(result->Object_0, "protocolVersion"@, 0);
    lemma_member_at_2(success_json(id, result), "result"@, "protocolVersion"@);
    let v = spec_negotiate(text_of(member(params, "protocolVersion"@)));
    assert(supported_versions()[0] == DEFAULT_PROTOCOL_VERSION@);
    assert(supported_versions().contains(v)) by {
        if v == DEFAULT_PROTOCOL_VERSION@ {
            assert(supported_versions()[0] == v);
        }
    }
}

/// The text of a string member; empty when it is absent or not a string.
pub open spec fn text_or_empty(value: Option<Json>) -> Seq<char> {
    match value {
        Some(Json::Str(t)) => t,
        _ => ""@,
    }
}

/// The reply that runs `call` for the request `id`.
pub open spec fn run_of(id: Json, call: ToolCallView) -> ReplyView {
    ReplyView::RunTool { id, call }
}

/// A `kei_spec` run for `topic`.
pub open spec fn spec_call(topic: Seq<char>) -> ToolCallView {
    ToolCallView::Spec { topic }
}

/// A `kei_examples` run for `query`.
pub open spec fn examples_call(query: Seq<char>) -> ToolCallView {
    ToolCallView::Examples { query }
}

/// A `kei_fmt` run on `source`.
pub open spec fn fmt_call(source: Seq<char>) -> ToolCallView {
    ToolCallView::Fmt { source }
}

/// A `kei_check` run on `source`.
pub open spec fn check_call(source: Seq<char>, generative: bool) -> ToolCallView {
    ToolCallView::Check { source, generative }
}

/// `tools/call` passes a string argument through as given: for a request
/// without a modern version declaration, the requested run carries the text
/// of `topic` (kei_spec), `source` (kei_check, kei_fmt) or `query`
/// (kei_examples); an absent `topic` or `query` reads as empty, and an
/// absent `generative` as `false`.
pub proof fn lemma_tool_call_passes_string_arguments(
    request: Json,
    id: Json,
    params: Json,
    name: Seq<char>,
    args: Json,
)
    requires
        request is Object,
        member(request, "id"@) == Some(id),
        text_of(member(request, "method"@)) == Some("tools/call"@),
        member(request, "params"@) == Some(params),
        member(params, "_meta"@) is None,
        text_of(member(params, "name"@)) == Some(name),
        member(params, "arguments"@) == Some(args),
    ensures
        name == "kei_spec"@ ==> spec_handle(request) == run_of(id, spec_call(text_or_empty(member(args, "topic"@)))),
        name == "kei_examples"@ ==> spec_handle(request) == run_of(
            id,
            examples_call(text_or_empty(member(args, "query"@))),
        ),
        name == "kei_fmt"@ && text_of(member(args, "source"@)) is Some ==> spec_handle(request) == run_of(
            id,
            fmt_call(text_of(member(args, "source"@))->0),
        ),
        name == "kei_check"@ && text_of(member(args, "source"@)) is Some && member(args, "generative"@) is None
            ==> spec_handle(request) == run_of(id, check_call(text_of(member(args, "source"@))->0, false)),
{
    reveal_strlit("tools/call");
    reveal_strlit("initialize");
    reveal_strlit("server/discover");
    reveal_strlit("ping");
    reveal_strlit("tools/list");
    reveal_strlit("kei_spec");
    reveal_strlit("kei_check");
    reveal_strlit("kei_fmt");
    reveal_strlit("kei_examples");
    assert("tools/call"@ != "initialize"@) by {
        assert("tools/call"@[0] != "initialize"@[0]);
    }
    assert("tools/call"@ != "server/discover"@) by {
        assert("tools/call"@.len() != "server/discover"@.len());
    }
    assert("tools/call"@ != "ping"@) by {
        assert("tools/call"@.len() != "ping"@.len());
    }
    assert("tools/call"@ != "tools/list"@) by {
        assert("tools/call"@[6] != "tools/list"@[6]);
    }
    assert("kei_check"@ != "kei_spec"@ && "kei_fmt"@ != "kei_spec"@ && "kei_fmt"@ != "kei_check"@) by {
        assert("kei_check"@.len() != "kei_spec"@.len() && "kei_fmt"@.len() != "kei_spec"@.len());
        assert("kei_fmt"@.len() != "kei_check"@.len());
    }
    assert("kei_examples"@ != "kei_spec"@ && "kei_examples"@ != "kei_check"@ && "kei_examples"@ != "kei_fmt"@) by {
        assert("kei_examples"@.len() != "kei_spec"@.len() && "kei_examples"@.len() != "kei_check"@.len());
        assert("kei_examples"@.len() != "kei_fmt"@.len());
    }
    assert(spec_modern_version(params) is None);
    assert(!refused_version("tools/call"@, params));
    assert(spec_handle(request) == spec_tools_call(id, params));
    assert(tool_arguments(params) == args);
}

/// The schemas that `tools/list` announces mark as required every argument
/// whose absence `tools/call` refuses: when a call of a listed tool is
/// answered with a missing argument `key`, `key` is in that tool's
/// `inputSchema.required`.
pub proof fn lemma_missing_arguments_are_required(tool: Json, args: Json, key: Seq<char>)
    requires
        listed_tools().contains(tool),
        spec_tool_call(tool_name(tool), args) == (ToolCallView::MissingArgument { key }),
    ensures
        required_keys(tool).contains(Json::Str(key)),
{
    reveal_with_fuel(lookup, 4);
    reveal_strlit("tools");
    reveal_strlit("kei_spec");
    reveal_strlit("kei_check");
    reveal_strlit("kei_fmt");
    reveal_strlit("kei_examples");
    reveal_strlit("source");
    assert("kei_check"@ != "kei_spec"@ && "kei_fmt"@ != "kei_spec"@ && "kei_fmt"@ != "kei_check"@) by {
        assert("kei_check"@.len() != "kei_spec"@.len() && "kei_fmt"@.len() != "kei_spec"@.len());
        assert("kei_fmt"@.len() != "kei_check"@.len());
    }
    assert("kei_examples"@ != "kei_spec"@ && "kei_examples"@ != "kei_check"@ && "kei_examples"@ != "kei_fmt"@) by {
        assert("kei_examples"@.len() != "kei_spec"@.len() && "kei_examples"@.len() != "kei_check"@.len());
        assert("kei_examples"@.len() != "kei_fmt"@.len());
    }
    let tools = listed_tools();
    let i = choose|i: int| 0 <= i < tools.len() && tools[i] == tool;
    assert(tools == seq![
        tool_json(
            "kei_spec"@,
            KEI_SPEC_DESCRIPTION@,
            schema_json(obj(seq![("topic"@, property_json("string"@, TOPIC_DESCRIPTION@))]), seq![]),
        ),
        tool_json(
            "kei_check"@,
            KEI_CHECK_DESCRIPTION@,
            schema_json(
                obj(
                    seq![
                        ("source"@, property_json("string"@, CHECK_SOURCE_DESCRIPTION@)),
                        ("generative"@, property_json("boolean"@, GENERATIVE_DESCRIPTION@)),
                    ],
                ),
                seq!["source"@],
            ),
        ),
        tool_json(
            "kei_fmt"@,
            KEI_FMT_DESCRIPTION@,
            schema_json(obj(seq![("source"@, property_json("string"@, FMT_SOURCE_DESCRIPTION@))]), seq!["source"@]),
        ),
        tool_json(
            "kei_examples"@,
            KEI_EXAMPLES_DESCRIPTION@,
            schema_json(obj(seq![("query"@, property_json("string"@, QUERY_DESCRIPTION@))]), seq![]),
        ),
    ]);
    if i == 0 {
        let props = obj(seq![("topic"@, property_json("string"@, TOPIC_DESCRIPTION@))]);
        lemma_tool_schema_members("kei_spec"@, KEI_SPEC_DESCRIPTION@, props, seq![]);
        assert(tool_name(tool) == "kei_spec"@);
    } else if i == 1 {
        let props = obj(
            seq![
                ("source"@, property_json("string"@, CHECK_SOURCE_DESCRIPTION@)),
                ("generative"@, property_json("boolean"@, GENERATIVE_DESCRIPTION@)),
            ],
        );
        lemma_tool_schema_members("kei_check"@, KEI_CHECK_DESCRIPTION@, props, seq!["source"@]);
        assert(tool_name(tool) == "kei_check"@);
        assert(key == "source"@);
        assert(required_keys(tool)[0] == Json::Str("source"@));
    } else if i == 2 {
        let props = obj(seq![("source"@, property_json("string"@, FMT_SOURCE_DESCRIPTION@))]);
        lemma_tool_schema_members("kei_fmt"@, KEI_FMT_DESCRIPTION@, props, seq!["source"@]);
        assert(tool_name(tool) == "kei_fmt"@);
        assert(key == "source"@);
        assert(required_keys(tool)[0] == Json::Str("source"@));
    } else {
        let props = obj(seq![("query"@, property_json("string"@, QUERY_DESCRIPTION@))]);
        lemma_tool_schema_members("kei_examples"@, KEI_EXAMPLES_DESCRIPTION@, props, seq![]);
        assert(tool_name(tool) == "kei_examples"@);
    }
}

} // verus!
