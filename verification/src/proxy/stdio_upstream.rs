//! Stdio upstream transport: bridges HTTP to a child process speaking JSON-RPC over stdio, one
//! message per line.
use vstd::prelude::*;
use vstd::string::*;
use crate::json;
use crate::json::{Json, JsonTree};
use crate::name_map::NameMap;
use crate::proxy::pending;
use crate::proxy::pending::Pending;
use crate::proxy::reply::Reply;
use crate::proxy::tools;
use crate::settings;
use crate::text;

verus! {

/// How long an answer of the child process is waited for, in seconds.
pub const REPLY_TIMEOUT_SECS: u64 = 30;

/// An upstream that is a child process.
#[derive(Debug)]
pub struct StdioUpstream {
    pub upstream_name: String,
    pub command: String,
    pub args: Vec<String>,
    pub env: NameMap<String>,
    pub log_mcp_traffic: bool,
}

/// Why a message could not be exchanged with the child process.
#[derive(Debug)]
pub enum StdioError {
    Spawn { command: String, args: Vec<String> },
    NoStdin,
    NoStdout,
    NotAvailable,
    UnreadableBody,
    InvalidJson,
    ForwardTimeout,
    ForwardDropped,
    MissingId,
    CallTimeout,
    CallDropped,
    InitializeFailed { error: String },
    ToolsListFailed { error: String },
}

impl StdioError {
    /// The words for this error.
    pub open spec fn words(self) -> Seq<char> {
        match self {
            StdioError::Spawn { command, args } => "failed to spawn stdio upstream: "@ + command@
                + " "@ + text::joined(args.deep_view(), " "@),
            StdioError::NoStdin => "failed to capture child stdin"@,
            StdioError::NoStdout => "failed to capture child stdout"@,
            StdioError::NotAvailable => "stdio process not available"@,
            StdioError::UnreadableBody => "failed to read request body"@,
            StdioError::InvalidJson => "request body is not valid JSON"@,
            StdioError::ForwardTimeout => "timeout waiting for stdio upstream response"@,
            StdioError::ForwardDropped => "stdio reader task dropped"@,
            StdioError::MissingId => "JSON-RPC message must have an id"@,
            StdioError::CallTimeout => "timeout waiting for response"@,
            StdioError::CallDropped => "reader task dropped"@,
            StdioError::InitializeFailed { error } => "initialize failed: "@ + error@,
            StdioError::ToolsListFailed { error } => "tools/list failed: "@ + error@,
        }
    }

    /// The words for this error.
    pub fn message(&self) -> (r: String)
        ensures
            r@ == self.words(),
    {
        match self {
            StdioError::Spawn { command, args } => {
                let listed = text::join(args.as_slice(), " ");
                assert(args@.map_values(|p: String| p@) =~= args.deep_view());
                "failed to spawn stdio upstream: ".to_owned().concat(command.as_str()).concat(
                    " ",
                ).concat(listed.as_str())
            },
            StdioError::NoStdin => "failed to capture child stdin".to_owned(),
            StdioError::NoStdout => "failed to capture child stdout".to_owned(),
            StdioError::NotAvailable => "stdio process not available".to_owned(),
            StdioError::UnreadableBody => "failed to read request body".to_owned(),
            StdioError::InvalidJson => "request body is not valid JSON".to_owned(),
            StdioError::ForwardTimeout => "timeout waiting for stdio upstream response".to_owned(),
            StdioError::ForwardDropped => "stdio reader task dropped".to_owned(),
            StdioError::MissingId => "JSON-RPC message must have an id".to_owned(),
            StdioError::CallTimeout => "timeout waiting for response".to_owned(),
            StdioError::CallDropped => "reader task dropped".to_owned(),
            StdioError::InitializeFailed { error } => "initialize failed: ".to_owned().concat(
                error.as_str(),
            ),
            StdioError::ToolsListFailed { error } => "tools/list failed: ".to_owned().concat(
                error.as_str(),
            ),
        }
    }
}

/// What is known of the child process.
#[derive(Debug, Clone, Copy, PartialEq, Eq, Structural)]
pub enum ChildStatus {
    /// None was started.
    NotStarted,
    Running,
    Exited,
    /// Its status could not be asked for.
    Unknown,
}

/// What is to be done before a message is sent.
#[derive(Debug)]
pub enum ProcessPlan {
    /// The child process goes on.
    Keep,
    /// A new child process is started, in place of the one before; nothing waits for its answers.
    Spawn { command: String, args: Vec<String>, env: NameMap<String> },
}

/// What became of the pieces of a child process that was to be started.
#[derive(Debug, Clone, Copy, PartialEq, Eq, Structural)]
pub enum SpawnOutcome {
    Started { stdin: bool, stdout: bool },
    Failed,
}

impl StdioUpstream {
    /// The upstream that is the given command.
    pub fn new(
        upstream_name: String,
        command: String,
        args: Vec<String>,
        env: NameMap<String>,
        log_mcp_traffic: bool,
    ) -> (r: StdioUpstream)
        ensures
            r.upstream_name == upstream_name,
            r.command == command,
            r.args == args,
            r.env == env,
            r.log_mcp_traffic == log_mcp_traffic,
    {
        StdioUpstream { upstream_name, command, args, env, log_mcp_traffic }
    }

    /// Ensure the child process is running, spawning it if needed.
    pub fn ensure_process(&self, status: ChildStatus) -> (r: ProcessPlan)
        ensures
            r is Keep <==> status == ChildStatus::Running,
            r matches ProcessPlan::Spawn { command, args, env } ==> {
                &&& command == self.command
                &&& args.deep_view() == self.args.deep_view()
                &&& env@ == self.env@
            },
    {
        match status {
            ChildStatus::Running => ProcessPlan::Keep,
            _ => ProcessPlan::Spawn {
                command: self.command.clone(),
                args: settings::duplicate_texts(&self.args),
                env: self.env.duplicate(),
            },
        }
    }

    /// Whether the start of the child process succeeded, from what became of its pieces.
    pub fn spawned(&self, outcome: SpawnOutcome) -> (r: Result<(), StdioError>)
        ensures
            match outcome {
                SpawnOutcome::Failed => r matches Err(StdioError::Spawn { command, args })
                    && command == self.command && args.deep_view() == self.args.deep_view(),
                SpawnOutcome::Started { stdin, stdout } => if !stdin {
                    r matches Err(StdioError::NoStdin)
                } else if !stdout {
                    r matches Err(StdioError::NoStdout)
                } else {
                    r is Ok
                },
            },
    {
        match outcome {
            SpawnOutcome::Failed => Err(
                StdioError::Spawn {
                    command: self.command.clone(),
                    args: settings::duplicate_texts(&self.args),
                },
            ),
            SpawnOutcome::Started { stdin, stdout } => {
                if !stdin {
                    Err(StdioError::NoStdin)
                } else if !stdout {
                    Err(StdioError::NoStdout)
                } else {
                    Ok(())
                }
            },
        }
    }
}

/// A message as it is written to the child process: its compact text and a line feed.
pub open spec fn line_of(msg: JsonTree) -> Seq<u8> {
    vstd::utf8::encode_utf8(json::json_text(msg)).push(0x0a)
}

/// A message as it is written to the child process. The line feed at the end is the only one.
pub fn message_line(msg: &Json) -> (r: Vec<u8>)
    ensures
        r@ == line_of(msg.tree()),
        forall|i: int| 0 <= i < r@.len() - 1 ==> r@[i] != 0x0a,
{
    let written = msg.to_text();
    let mut line = written.as_str().as_bytes_vec();
    proof {
        text::lemma_no_line_feed(written@);
        let bytes = vstd::utf8::encode_utf8(written@);
        assert forall|i: int| 0 <= i < bytes.len() implies bytes[i] != 0x0a by {
            assert(bytes.contains(bytes[i]));
        }
    }
    line.push(0x0a);
    line
}

/// What a line of the child process came to.
pub enum Delivery<T> {
    /// The line was blank.
    Blank,
    /// The line was not JSON.
    Invalid,
    /// The message answers the request of `waiter`, which waits no longer.
    Deliver { waiter: T, message: Json },
    /// The message answers no request that waits.
    Unknown { id: Json },
    /// The message has no id.
    Notification { method: String },
}

/// What the message `msg` comes to, where `before` and `after` wait before and after.
pub open spec fn delivered<T>(
    msg: JsonTree,
    before: Seq<(JsonTree, T)>,
    after: Seq<(JsonTree, T)>,
    r: Delivery<T>,
) -> bool {
    match msg.field("id"@) {
        Some(id) => match r {
            Delivery::Deliver { waiter, message } => {
                &&& message.tree() == msg
                &&& exists|i: int| #[trigger]
                    pending::waits_at(before, id, i) && waiter == before[i].1 && after
                        == before.remove(i)
            },
            Delivery::Unknown { id: unknown } => {
                &&& unknown.tree() == id
                &&& pending::waits_nowhere(before, id)
                &&& after == before
            },
            _ => false,
        },
        None => {
            &&& r matches Delivery::Notification { method } && method@ == match tools::method_of(
                msg,
            ) {
                Some(m) => m,
                None => "unknown"@,
            }
            &&& after == before
        },
    }
}

/// Hands a message of the child process to the request that waits for it.
pub fn receive_message<T>(waiting: &mut Pending<T>, msg: Json) -> (r: Delivery<T>)
    ensures
        delivered(msg.tree(), old(waiting)@, final(waiting)@, r),
{
    match msg.get("id") {
        Some(id) => match waiting.remove(id) {
            Some(waiter) => Delivery::Deliver { waiter, message: msg },
            None => Delivery::Unknown { id: id.duplicate() },
        },
        None => Delivery::Notification {
            method: match tools::message_method(&msg) {
                Some(m) => m,
                None => "unknown".to_owned(),
            },
        },
    }
}

/// What the line `line` comes to, where `before` and `after` wait before and after: what the
/// message between the white space around it does.
pub open spec fn received<T>(
    line: Seq<char>,
    before: Seq<(JsonTree, T)>,
    after: Seq<(JsonTree, T)>,
    r: Delivery<T>,
) -> bool {
    if text::trimmed(line).len() == 0 {
        r is Blank && after == before
    } else {
        match json::json_parsed(vstd::utf8::encode_utf8(text::trimmed(line))) {
            Some(msg) => delivered(msg, before, after, r),
            None => r is Invalid && after == before,
        }
    }
}

/// Takes in one line of the child process.
pub fn receive_line<T>(waiting: &mut Pending<T>, line: &str) -> (r: Delivery<T>)
    ensures
        received(line@, old(waiting)@, final(waiting)@, r),
{
    let trimmed = text::trim(line);
    if trimmed.is_empty() {
        return Delivery::Blank;
    }
    match json::parse_json(trimmed.as_bytes()) {
        Some(msg) => receive_message(waiting, msg),
        None => Delivery::Invalid,
    }
}

/// What is to be done with a request for the child process.
pub enum ForwardPlan {
    /// Answer without the child process.
    Answer(Reply),
    Fail(StdioError),
    /// Write `line`, wait for nothing, and answer with `notification_reply`. Where `log` is set,
    /// log the request and its acknowledgement.
    Notify { line: Vec<u8>, log: bool },
    /// Wait under `id`, write `line`, and answer with `forward_reply`. Where `log` is set, log the
    /// request.
    Request { id: Json, line: Vec<u8>, log: bool },
}

/// What is to be done with a request whose body reads as `msg`.
pub open spec fn forwarded(msg: Option<JsonTree>, logs: bool, r: ForwardPlan) -> bool {
    match msg {
        None => r matches ForwardPlan::Fail(StdioError::InvalidJson),
        Some(m) => match m.field("id"@) {
            Some(id) => r matches ForwardPlan::Request { id: waits, line, log } && waits.tree() == id
                && line@ == line_of(m) && log == logs,
            None => r matches ForwardPlan::Notify { line, log } && line@ == line_of(m) && log
                == logs,
        },
    }
}

impl StdioUpstream {
    /// Decides on a request from what its body reads as: `None` where it is not JSON.
    pub fn forward_message(&self, msg: Option<&Json>) -> (r: ForwardPlan)
        ensures
            forwarded(
                match msg {
                    Some(m) => Some(m.tree()),
                    None => None,
                },
                self.log_mcp_traffic,
                r,
            ),
    {
        let log = self.log_mcp_traffic;
        match msg {
            None => ForwardPlan::Fail(StdioError::InvalidJson),
            Some(m) => match m.get("id") {
                Some(id) => ForwardPlan::Request { id: id.duplicate(), line: message_line(m), log },
                None => ForwardPlan::Notify { line: message_line(m), log },
            },
        }
    }

    /// Decides on a request from its body, or `None` where that could not be read.
    pub fn forward(&self, body: Option<&[u8]>) -> (r: ForwardPlan)
        ensures
            match body {
                None => r matches ForwardPlan::Fail(StdioError::UnreadableBody),
                Some(bytes) => if bytes@.len() == 0 {
                    r matches ForwardPlan::Answer(reply) && reply.says(400, "empty request body"@)
                } else {
                    forwarded(json::json_parsed(bytes@), self.log_mcp_traffic, r)
                },
            },
    {
        match body {
            None => ForwardPlan::Fail(StdioError::UnreadableBody),
            Some(bytes) => {
                if bytes.len() == 0 {
                    return ForwardPlan::Answer(Reply::text(400, "empty request body"));
                }
                match json::parse_json(bytes) {
                    Some(msg) => self.forward_message(Some(&msg)),
                    None => self.forward_message(None),
                }
            },
        }
    }

    /// A JSON-RPC message to send, with the id to wait under.
    pub fn send_jsonrpc(&self, msg: &Json) -> (r: Result<(Json, Vec<u8>), StdioError>)
        ensures
            match msg.tree().field("id"@) {
                Some(id) => r matches Ok((waits, line)) && waits.tree() == id && line@ == line_of(
                    msg.tree(),
                ),
                None => r matches Err(StdioError::MissingId),
            },
    {
        match msg.get("id") {
            Some(id) => Ok((id.duplicate(), message_line(msg))),
            None => Err(StdioError::MissingId),
        }
    }
}

/// What came of waiting for an answer.
pub enum WaitOutcome {
    Answered(Json),
    TimedOut,
    /// Nobody is left who could give the answer.
    Dropped,
}

/// The answer to a client whose notification was forwarded.
pub fn notification_reply() -> (r: Reply)
    ensures
        r.says(202, ""@),
{
    Reply::text(202, "")
}

/// The answer to a client whose request was forwarded.
pub fn forward_reply(outcome: &WaitOutcome) -> (r: Result<Reply, StdioError>)
    ensures
        match *outcome {
            WaitOutcome::Answered(msg) => r matches Ok(reply) && reply.carries(200, msg.tree()),
            WaitOutcome::TimedOut => r matches Err(StdioError::ForwardTimeout),
            WaitOutcome::Dropped => r matches Err(StdioError::ForwardDropped),
        },
{
    match outcome {
        WaitOutcome::Answered(msg) => Ok(Reply::json(200, msg)),
        WaitOutcome::TimedOut => Err(StdioError::ForwardTimeout),
        WaitOutcome::Dropped => Err(StdioError::ForwardDropped),
    }
}

/// The answer to a JSON-RPC message that was sent.
pub fn jsonrpc_answer(outcome: WaitOutcome) -> (r: Result<Json, StdioError>)
    ensures
        match outcome {
            WaitOutcome::Answered(msg) => r == Ok::<Json, StdioError>(msg),
            WaitOutcome::TimedOut => r matches Err(StdioError::CallTimeout),
            WaitOutcome::Dropped => r matches Err(StdioError::CallDropped),
        },
{
    match outcome {
        WaitOutcome::Answered(msg) => Ok(msg),
        WaitOutcome::TimedOut => Err(StdioError::CallTimeout),
        WaitOutcome::Dropped => Err(StdioError::CallDropped),
    }
}

/// The object with the given fields.
pub open spec fn object(fields: Seq<(Seq<char>, JsonTree)>) -> JsonTree {
    JsonTree::Object(json::fields_map(fields))
}

/// The message that opens the MCP handshake.
pub open spec fn initialize_tree() -> JsonTree {
    object(
        seq![
            ("jsonrpc"@, JsonTree::Text("2.0"@)),
            ("method"@, JsonTree::Text("initialize"@)),
            ("id"@, JsonTree::Number(json::integer_number(1000001))),
            (
                "params"@,
                object(
                    seq![
                        ("protocolVersion"@, JsonTree::Text("2025-03-26"@)),
                        ("capabilities"@, object(Seq::empty())),
                        (
                            "clientInfo"@,
                            object(
                                seq![
                                    ("name"@, JsonTree::Text("mcp-auth-proxy"@)),
                                    ("version"@, JsonTree::Text("0.1.0"@)),
                                ],
                            ),
                        ),
                    ],
                ),
            ),
        ],
    )
}

/// The notification that closes the MCP handshake.
pub open spec fn initialized_tree() -> JsonTree {
    object(
        seq![
            ("jsonrpc"@, JsonTree::Text("2.0"@)),
            ("method"@, JsonTree::Text("notifications/initialized"@)),
        ],
    )
}

/// The message that asks for the tools.
pub open spec fn tools_list_tree() -> JsonTree {
    object(
        seq![
            ("jsonrpc"@, JsonTree::Text("2.0"@)),
            ("method"@, JsonTree::Text("tools/list"@)),
            ("id"@, JsonTree::Number(json::integer_number(1000002))),
        ],
    )
}

/// The message that opens the MCP handshake.
pub fn initialize_message() -> (r: Json)
    ensures
        r.tree() == initialize_tree(),
{
    let mut client: Vec<(String, Json)> = Vec::new();
    client.push(("name".to_owned(), Json::text("mcp-auth-proxy")));
    client.push(("version".to_owned(), Json::text("0.1.0")));
    proof {
        json::lemma_field_trees(client@);
        assert(json::field_trees(client@) =~= seq![
            ("name"@, JsonTree::Text("mcp-auth-proxy"@)),
            ("version"@, JsonTree::Text("0.1.0"@)),
        ]);
    }
    let nothing: Vec<(String, Json)> = Vec::new();
    assert(json::field_trees(nothing@) =~= Seq::empty());
    let client = Json::object(client);
    let capabilities = Json::object(nothing);
    let ghost client_tree = client.tree();
    let ghost capabilities_tree = capabilities.tree();
    let mut params: Vec<(String, Json)> = Vec::new();
    params.push(("protocolVersion".to_owned(), Json::text("2025-03-26")));
    params.push(("capabilities".to_owned(), capabilities));
    params.push(("clientInfo".to_owned(), client));
    proof {
        json::lemma_field_trees(params@);
        assert(json::field_trees(params@) =~= seq![
            ("protocolVersion"@, JsonTree::Text("2025-03-26"@)),
            ("capabilities"@, capabilities_tree),
            ("clientInfo"@, client_tree),
        ]);
    }
    let params = Json::object(params);
    let ghost params_tree = params.tree();
    let mut fields: Vec<(String, Json)> = Vec::new();
    fields.push(("jsonrpc".to_owned(), Json::text("2.0")));
    fields.push(("method".to_owned(), Json::text("initialize")));
    fields.push(("id".to_owned(), Json::integer(1000001)));
    fields.push(("params".to_owned(), params));
    proof {
        json::lemma_field_trees(fields@);
        assert(json::field_trees(fields@) =~= seq![
            ("jsonrpc"@, JsonTree::Text("2.0"@)),
            ("method"@, JsonTree::Text("initialize"@)),
            ("id"@, JsonTree::Number(json::integer_number(1000001))),
            ("params"@, params_tree),
        ]);
    }
    Json::object(fields)
}

/// The notification that closes the MCP handshake.
pub fn initialized_message() -> (r: Json)
    ensures
        r.tree() == initialized_tree(),
{
    let mut fields: Vec<(String, Json)> = Vec::new();
    fields.push(("jsonrpc".to_owned(), Json::text("2.0")));
    fields.push(("method".to_owned(), Json::text("notifications/initialized")));
    proof {
        json::lemma_field_trees(fields@);
        assert(json::field_trees(fields@) =~= seq![
            ("jsonrpc"@, JsonTree::Text("2.0"@)),
            ("method"@, JsonTree::Text("notifications/initialized"@)),
        ]);
    }
    Json::object(fields)
}

/// The message that asks for the tools.
pub fn tools_list_message() -> (r: Json)
    ensures
        r.tree() == tools_list_tree(),
{
    let mut fields: Vec<(String, Json)> = Vec::new();
    fields.push(("jsonrpc".to_owned(), Json::text("2.0")));
    fields.push(("method".to_owned(), Json::text("tools/list")));
    fields.push(("id".to_owned(), Json::integer(1000002)));
    proof {
        json::lemma_field_trees(fields@);
        assert(json::field_trees(fields@) =~= seq![
            ("jsonrpc"@, JsonTree::Text("2.0"@)),
            ("method"@, JsonTree::Text("tools/list"@)),
            ("id"@, JsonTree::Number(json::integer_number(1000002))),
        ]);
    }
    Json::object(fields)
}

/// The answer that the fetching of tools waits for.
#[derive(Debug, Clone, Copy, PartialEq, Eq, Structural)]
pub enum FetchStage {
    Initialize,
    ToolsList,
}

/// The next step of fetching the tools.
pub enum FetchAction {
    /// Send the message, wait for its answer, and go on with `fetch_answered`.
    Call { message: Json, stage: FetchStage },
    /// Send the notification and go on with `fetch_notified`.
    Notify { message: Json },
    Done(Vec<Json>),
    Fail(StdioError),
}

/// The step after the answer `answer` in the stage `stage`.
pub open spec fn fetch_step(stage: FetchStage, answer: JsonTree, r: FetchAction) -> bool {
    match answer.field("error"@) {
        Some(error) => match stage {
            FetchStage::Initialize => r matches FetchAction::Fail(
                StdioError::InitializeFailed { error: words },
            ) && words@ == json::json_text(error),
            FetchStage::ToolsList => r matches FetchAction::Fail(
                StdioError::ToolsListFailed { error: words },
            ) && words@ == json::json_text(error),
        },
        None => match stage {
            FetchStage::Initialize => r matches FetchAction::Notify { message } && message.tree()
                == initialized_tree(),
            FetchStage::ToolsList => r matches FetchAction::Done(found) && json::trees(found@)
                == match tools::listed_tools(answer) {
                Some(tools) => tools,
                None => Seq::empty(),
            },
        },
    }
}

impl StdioUpstream {
    /// Fetch the list of tools from the upstream MCP server via the full MCP handshake: the first
    /// of the steps initialize, notifications/initialized, tools/list.
    pub fn fetch_tools(&self) -> (r: FetchAction)
        ensures
            r matches FetchAction::Call { message, stage } && message.tree() == initialize_tree()
                && stage == FetchStage::Initialize,
    {
        FetchAction::Call { message: initialize_message(), stage: FetchStage::Initialize }
    }
}

/// The step after an answer.
pub fn fetch_answered(stage: FetchStage, answer: &Json) -> (r: FetchAction)
    ensures
        fetch_step(stage, answer.tree(), r),
{
    match answer.get("error") {
        Some(error) => {
            let words = error.to_text();
            match stage {
                FetchStage::Initialize => FetchAction::Fail(
                    StdioError::InitializeFailed { error: words },
                ),
                FetchStage::ToolsList => FetchAction::Fail(
                    StdioError::ToolsListFailed { error: words },
                ),
            }
        },
        None => match stage {
            FetchStage::Initialize => FetchAction::Notify { message: initialized_message() },
            FetchStage::ToolsList => match tools::message_tools(answer) {
                Some(listed) => {
                    let found = json::duplicate_values(listed);
                    proof {
                        json::lemma_deep_trees(&found);
                        json::lemma_deep_trees(listed);
                    }
                    FetchAction::Done(found)
                },
                None => FetchAction::Done(Vec::new()),
            },
        },
    }
}

/// The step after the notification was sent.
pub fn fetch_notified() -> (r: FetchAction)
    ensures
        r matches FetchAction::Call { message, stage } && message.tree() == tools_list_tree()
            && stage == FetchStage::ToolsList,
{
    FetchAction::Call { message: tools_list_message(), stage: FetchStage::ToolsList }
}

/// The two calls of the handshake carry an id and the notification between them carries none, so
/// that none of them is refused or left to wait.
pub proof fn law_handshake_ids()
    ensures
        initialize_tree().field("id"@) is Some,
        initialized_tree().field("id"@) is None,
        tools_list_tree().field("id"@) is Some,
        tools::method_of(initialize_tree()) == Some("initialize"@),
        tools::method_of(initialized_tree()) == Some("notifications/initialized"@),
        tools::method_of(tools_list_tree()) == Some("tools/list"@),
{
    reveal_strlit("id");
    reveal_strlit("jsonrpc");
    reveal_strlit("method");
    reveal_strlit("params");
    assert("id"@.len() == 2 && "jsonrpc"@.len() == 7 && "method"@.len() == 6 && "params"@.len()
        == 6);
    assert("method"@[0] == 'm' && "params"@[0] == 'p');
    reveal_with_fuel(json::fields_map, 5);
    let closing = seq![
        ("jsonrpc"@, JsonTree::Text("2.0"@)),
        ("method"@, JsonTree::Text("notifications/initialized"@)),
    ];
    json::lemma_fields_map_last(closing, 1);
    json::lemma_fields_map_absent(closing, "id"@);
    let listing = seq![
        ("jsonrpc"@, JsonTree::Text("2.0"@)),
        ("method"@, JsonTree::Text("tools/list"@)),
        ("id"@, JsonTree::Number(json::integer_number(1000002))),
    ];
    json::lemma_fields_map_last(listing, 1);
    json::lemma_fields_map_last(listing, 2);
}

/// A message with an id, whatever else it holds, ends the waiting of the first request that waits
/// under an equal id: the message goes to its waiter, and only that request waits no longer.
pub proof fn law_answer_is_delivered<T>(
    fields: Map<Seq<char>, JsonTree>,
    before: Seq<(JsonTree, T)>,
    after: Seq<(JsonTree, T)>,
    r: Delivery<T>,
    i: int,
)
    requires
        fields.contains_key("id"@),
        0 <= i < before.len(),
        json::json_equal(before[i].0, fields["id"@]),
        forall|j: int|
            0 <= j < i ==> !json::json_equal((#[trigger] before[j]).0, fields["id"@]),
        delivered(JsonTree::Object(fields), before, after, r),
    ensures
        r matches Delivery::Deliver { waiter, message } && waiter == before[i].1 && message.tree()
            == JsonTree::Object(fields),
        after == before.remove(i),
        after.len() == before.len() - 1,
{
    let id = fields["id"@];
    if let Delivery::Deliver { waiter, message } = r {
        let k = choose|k: int| #[trigger]
            pending::waits_at(before, id, k) && waiter == before[k].1 && after == before.remove(k);
        assert(k == i) by {
            assert(json::json_equal(before[k].0, id));
            assert(json::json_equal(before[i].0, id));
        }
    } else {
        assert(!json::json_equal(before[i].0, id));
    }
}

/// A message with an id under which nothing waits goes to nobody, and one without an id is a
/// notification, named by its method; neither ends the waiting of a request.
pub proof fn law_other_messages_end_no_waiting<T>(
    fields: Map<Seq<char>, JsonTree>,
    before: Seq<(JsonTree, T)>,
    after: Seq<(JsonTree, T)>,
    r: Delivery<T>,
)
    requires
        delivered(JsonTree::Object(fields), before, after, r),
        !fields.contains_key("id"@) || forall|j: int|
            0 <= j < before.len() ==> !json::json_equal((#[trigger] before[j]).0, fields["id"@]),
    ensures
        after == before,
        fields.contains_key("id"@) ==> (r matches Delivery::Unknown { id } && id.tree()
            == fields["id"@]),
        !fields.contains_key("id"@) ==> r is Notification,
        r matches Delivery::Notification { method } && fields.contains_key("method"@) && (
        fields["method"@] is Text) ==> r->method@ == fields["method"@]->Text_0,
        r matches Delivery::Notification { method } && !(fields.contains_key("method"@)
            && fields["method"@] is Text) ==> r->method@ == "unknown"@,
{
    if fields.contains_key("id"@) {
        if let Delivery::Deliver { waiter, message } = r {
            let k = choose|k: int| #[trigger]
                pending::waits_at(before, fields["id"@], k) && waiter == before[k].1 && after
                    == before.remove(k);
            assert(!json::json_equal(before[k].0, fields["id"@]));
        }
    }
}

/// A value that is no object answers nothing.
pub proof fn law_bare_value_is_a_notification<T>(
    msg: JsonTree,
    before: Seq<(JsonTree, T)>,
    after: Seq<(JsonTree, T)>,
    r: Delivery<T>,
)
    requires
        !(msg is Object),
        delivered(msg, before, after, r),
    ensures
        after == before,
        r matches Delivery::Notification { method } && method@ == "unknown"@,
{
}

/// The white space around a message does not matter, and a line that holds nothing else is blank.
pub proof fn law_line_without_white_space<T>(
    white: Seq<char>,
    message: Seq<char>,
    more: Seq<char>,
    before: Seq<(JsonTree, T)>,
    after: Seq<(JsonTree, T)>,
    r: Delivery<T>,
)
    requires
        forall|i: int| 0 <= i < white.len() ==> text::whitespace(#[trigger] white[i]),
        forall|i: int| 0 <= i < more.len() ==> text::whitespace(#[trigger] more[i]),
        message.len() > 0 ==> !text::whitespace(message.first()) && !text::whitespace(
            message.last(),
        ),
        received(white + message + more, before, after, r),
    ensures
        r is Blank <==> message.len() == 0,
        message.len() == 0 ==> after == before,
        message.len() > 0 && json::json_parsed(vstd::utf8::encode_utf8(message)) is None ==> r
            is Invalid && after == before,
        message.len() > 0 && json::json_parsed(vstd::utf8::encode_utf8(message)) is Some
            ==> delivered(
            json::json_parsed(vstd::utf8::encode_utf8(message))->0,
            before,
            after,
            r,
        ),
{
    text::law_trim(white, message, more);
}

/// A request is forwarded as it is, on one line, and waits under its id exactly when it has one;
/// what is not JSON is not forwarded.
pub proof fn law_forwarded_message(msg: JsonTree, logs: bool, r: ForwardPlan)
    ensures
        forwarded(None, logs, r) ==> (r matches ForwardPlan::Fail(error) && error is InvalidJson),
        forwarded(Some(msg), logs, r) && msg is Object && msg->Object_0.contains_key("id"@) ==> (
        r matches ForwardPlan::Request { id, line, log } && id.tree() == msg->Object_0["id"@]
            && line@.last() == 0x0a && line@.drop_last() == vstd::utf8::encode_utf8(
            json::json_text(msg),
        ) && log == logs),
        forwarded(Some(msg), logs, r) && !(msg is Object && msg->Object_0.contains_key("id"@)) ==> (
        r matches ForwardPlan::Notify { line, log } && line@.last() == 0x0a && line@.drop_last()
            == vstd::utf8::encode_utf8(json::json_text(msg)) && log == logs),
{
    assert(line_of(msg).drop_last() =~= vstd::utf8::encode_utf8(json::json_text(msg)));
}

/// An answer under the id of a request that was forwarded reaches the waiter of that request.
pub proof fn law_request_is_answered<T>(
    request: JsonTree,
    logs: bool,
    plan: ForwardPlan,
    waited: Seq<(JsonTree, T)>,
    waiter: T,
    answer: Map<Seq<char>, JsonTree>,
    after: Seq<(JsonTree, T)>,
    r: Delivery<T>,
)
    requires
        forwarded(Some(request), logs, plan),
        plan is Request,
        json::json_equal(plan->id.tree(), plan->id.tree()),
        answer.contains_key("id"@),
        answer["id"@] == request->Object_0["id"@],
        delivered(
            JsonTree::Object(answer),
            pending::without_id(waited, plan->id.tree()).push((plan->id.tree(), waiter)),
            after,
            r,
        ),
    ensures
        r matches Delivery::Deliver { waiter: w, message } && w == waiter && message.tree()
            == JsonTree::Object(answer),
        after == pending::without_id(waited, plan->id.tree()),
{
    let id = plan->id.tree();
    let kept = pending::without_id(waited, id);
    let before = kept.push((id, waiter));
    broadcast use vstd::seq_lib::group_filter_ensures;

    assert forall|j: int| 0 <= j < kept.len() implies !json::json_equal(
        (#[trigger] before[j]).0,
        id,
    ) by {
        assert(before[j] == kept[j]);
    }
    law_answer_is_delivered(answer, before, after, r, kept.len() as int);
    assert(before.remove(kept.len() as int) =~= kept);
}

/// The handshake opens with a request in the version of the protocol that is spoken, by the name
/// of this program, and the tools are asked for under another id.
pub proof fn law_handshake_messages()
    ensures
        initialize_tree().field("jsonrpc"@) == Some(JsonTree::Text("2.0"@)),
        initialized_tree().field("jsonrpc"@) == Some(JsonTree::Text("2.0"@)),
        tools_list_tree().field("jsonrpc"@) == Some(JsonTree::Text("2.0"@)),
        initialize_tree().field("id"@) == Some(JsonTree::Number(json::integer_number(1000001))),
        tools_list_tree().field("id"@) == Some(JsonTree::Number(json::integer_number(1000002))),
        initialize_tree().field("params"@) is Some,
        initialize_tree().field("params"@)->0.field("protocolVersion"@) == Some(
            JsonTree::Text("2025-03-26"@),
        ),
        initialize_tree().field("params"@)->0.field("capabilities"@) == Some(
            JsonTree::Object(Map::empty()),
        ),
        initialize_tree().field("params"@)->0.field("clientInfo"@) is Some,
        initialize_tree().field("params"@)->0.field("clientInfo"@)->0.field("name"@) == Some(
            JsonTree::Text("mcp-auth-proxy"@),
        ),
        initialize_tree().field("params"@)->0.field("clientInfo"@)->0.field("version"@) == Some(
            JsonTree::Text("0.1.0"@),
        ),
{
    reveal_strlit("id");
    reveal_strlit("jsonrpc");
    reveal_strlit("method");
    reveal_strlit("params");
    reveal_strlit("name");
    reveal_strlit("version");
    reveal_strlit("protocolVersion");
    reveal_strlit("capabilities");
    reveal_strlit("clientInfo");
    assert("id"@.len() == 2 && "jsonrpc"@.len() == 7 && "method"@.len() == 6 && "params"@.len()
        == 6);
    assert("method"@[0] == 'm' && "params"@[0] == 'p');
    assert("name"@.len() == 4 && "version"@.len() == 7);
    assert("protocolVersion"@.len() == 15 && "capabilities"@.len() == 12 && "clientInfo"@.len()
        == 10);
    reveal_with_fuel(json::fields_map, 5);
}

/// An answer with an error ends the fetching with the text of the error. Without one the first
/// answer is followed by the notification, and the second brings the tools that it lists, in their
/// order.
pub proof fn law_fetch_step(stage: FetchStage, answer: Map<Seq<char>, JsonTree>, r: FetchAction)
    requires
        fetch_step(stage, JsonTree::Object(answer), r),
    ensures
        r is Fail <==> answer.contains_key("error"@),
        r matches FetchAction::Fail(error) ==> error.words() == match stage {
            FetchStage::Initialize => "initialize failed: "@,
            FetchStage::ToolsList => "tools/list failed: "@,
        } + json::json_text(answer["error"@]),
        !answer.contains_key("error"@) && stage is Initialize ==> r is Notify,
        !answer.contains_key("error"@) && stage is ToolsList ==> r is Done,
        r is Done && answer.contains_key("result"@) && (answer["result"@] matches JsonTree::Object(
            result,
        ) && result.contains_key("tools"@) && result["tools"@] is Array) ==> json::trees(
            r->Done_0@,
        ) == answer["result"@]->Object_0["tools"@]->Array_0,
        r is Done && !(answer.contains_key("result"@) && (
        answer["result"@] matches JsonTree::Object(result) && result.contains_key("tools"@)
            && result["tools"@] is Array)) ==> r->Done_0@.len() == 0,
{
    if let FetchAction::Done(found) = r {
        json::lemma_trees(found@);
    }
}

/// An error of a child process that could not be started names its command line: the command and
/// each argument, a space before each argument.
pub proof fn law_spawn_error_names_command(command: String, args: Vec<String>)
    ensures
        (StdioError::Spawn { command, args }).words() == "failed to spawn stdio upstream: "@
            + command@ + " "@ + text::joined(args.deep_view(), " "@),
{
}

/// A child process goes on exactly while it runs; otherwise the configured command is started, with
/// its arguments and its environment.
pub proof fn law_process_is_started_once(
    upstream: StdioUpstream,
    status: ChildStatus,
    r: ProcessPlan,
    i: int,
)
    requires
        call_ensures(StdioUpstream::ensure_process, (&upstream, status), r),
    ensures
        status is Running ==> r is Keep,
        !(status is Running) ==> r is Spawn,
        r matches ProcessPlan::Spawn { command, args, env } ==> command@ == upstream.command@
            && args@.len() == upstream.args@.len() && env@ == upstream.env@,
        r is Spawn && 0 <= i < upstream.args@.len() ==> r->args@[i]@ == upstream.args@[i]@,
{
    if let ProcessPlan::Spawn { command, args, env } = r {
        assert(args.deep_view().len() == args@.len());
        assert(upstream.args.deep_view().len() == upstream.args@.len());
        if 0 <= i < upstream.args@.len() {
            assert(args.deep_view()[i] == args@[i]@);
            assert(upstream.args.deep_view()[i] == upstream.args@[i]@);
        }
    }
}

/// A start counts exactly when both pipes of the child process are there; what is missing is told,
/// and a start that failed with the command line.
pub proof fn law_start_needs_both_pipes(
    upstream: StdioUpstream,
    stdin: bool,
    stdout: bool,
    r: Result<(), StdioError>,
    failed: Result<(), StdioError>,
)
    requires
        call_ensures(StdioUpstream::spawned, (&upstream, SpawnOutcome::Started { stdin, stdout }), r),
        call_ensures(StdioUpstream::spawned, (&upstream, SpawnOutcome::Failed), failed),
    ensures
        r is Ok <==> stdin && stdout,
        !stdin ==> r->Err_0.words() == "failed to capture child stdin"@,
        stdin && !stdout ==> r->Err_0.words() == "failed to capture child stdout"@,
        failed matches Err(e) && e.words() == "failed to spawn stdio upstream: "@
            + upstream.command@ + " "@ + text::joined(upstream.args.deep_view(), " "@),
{
}

/// A body that is empty is answered with 400 and one that could not be read is a failure; neither
/// reaches the child process. Any other body is forwarded as what it reads as.
pub proof fn law_only_messages_reach_the_child(
    upstream: StdioUpstream,
    body: &[u8],
    r: ForwardPlan,
    unread: ForwardPlan,
)
    requires
        call_ensures(StdioUpstream::forward, (&upstream, Some(body)), r),
        call_ensures(StdioUpstream::forward, (&upstream, None), unread),
    ensures
        unread matches ForwardPlan::Fail(e) && e.words() == "failed to read request body"@,
        body@.len() == 0 ==> (r matches ForwardPlan::Answer(reply) && reply.status == 400
            && reply.body is Text && reply.body->Text_0@ == "empty request body"@),
        body@.len() > 0 ==> forwarded(json::json_parsed(body@), upstream.log_mcp_traffic, r),
        r is Answer ==> body@.len() == 0,
{
}

/// A call is sent exactly when it has an id, whatever else it holds: on one line, to be waited for
/// under that id.
pub proof fn law_call_needs_id(
    upstream: StdioUpstream,
    msg: &Json,
    r: Result<(Json, Vec<u8>), StdioError>,
)
    requires
        call_ensures(StdioUpstream::send_jsonrpc, (&upstream, msg), r),
    ensures
        r is Ok <==> msg.tree() is Object && msg.tree()->Object_0.contains_key("id"@),
        r matches Ok((id, line)) ==> id.tree() == msg.tree()->Object_0["id"@] && line@
            == vstd::utf8::encode_utf8(json::json_text(msg.tree())).push(0x0a),
        r matches Err(e) ==> e.words() == "JSON-RPC message must have an id"@,
{
}

/// The answer of the child process is handed on as it is, to a client and to a caller; without one
/// it is told whether the time ran out or nobody is left to answer.
pub proof fn law_answer_is_handed_on(
    outcome: WaitOutcome,
    reply: Result<Reply, StdioError>,
    answer: Result<Json, StdioError>,
)
    requires
        call_ensures(forward_reply, (&outcome,), reply),
        call_ensures(jsonrpc_answer, (outcome,), answer),
    ensures
        reply is Ok <==> outcome is Answered,
        answer is Ok <==> outcome is Answered,
        outcome matches WaitOutcome::Answered(msg) ==> reply->Ok_0.status == 200
            && reply->Ok_0.body is Json && reply->Ok_0.body->Json_0@ == json::json_text(msg.tree())
            && answer->Ok_0 == msg,
        outcome is TimedOut ==> reply->Err_0.words()
            == "timeout waiting for stdio upstream response"@ && answer->Err_0.words()
            == "timeout waiting for response"@,
        outcome is Dropped ==> reply->Err_0.words() == "stdio reader task dropped"@
            && answer->Err_0.words() == "reader task dropped"@,
{
}

} // verus!
