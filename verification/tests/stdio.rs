use mcp_auth_proxy::json::{parse_json, Json};
use mcp_auth_proxy::name_map::NameMap;
use mcp_auth_proxy::proxy::pending::Pending;
use mcp_auth_proxy::proxy::reply::ReplyBody;
use mcp_auth_proxy::proxy::stdio_upstream::{
    fetch_answered, fetch_notified, forward_reply, jsonrpc_answer, message_line,
    notification_reply, receive_line, ChildStatus, Delivery, FetchAction, FetchStage, ForwardPlan,
    ProcessPlan, SpawnOutcome, StdioError, StdioUpstream, WaitOutcome,
};

fn parsed(text: &str) -> Json {
    match parse_json(text.as_bytes()) {
        Some(j) => j,
        None => panic!("not JSON: {}", text),
    }
}

fn upstream() -> StdioUpstream {
    let mut env: NameMap<String> = NameMap::new();
    env.insert("TOKEN".to_string(), "t".to_string());
    StdioUpstream::new(
        "up".to_string(),
        "npx".to_string(),
        vec!["-y".to_string(), "server".to_string()],
        env,
        true,
    )
}

#[test]
fn a_process_is_started_when_none_runs() {
    let up = upstream();
    assert!(matches!(up.ensure_process(ChildStatus::Running), ProcessPlan::Keep));
    for status in [ChildStatus::NotStarted, ChildStatus::Exited, ChildStatus::Unknown] {
        match up.ensure_process(status) {
            ProcessPlan::Spawn { command, args, env } => {
                assert_eq!(command, "npx");
                assert_eq!(args, vec!["-y", "server"]);
                assert_eq!(env.get("TOKEN").map(|v| v.as_str()), Some("t"));
            }
            ProcessPlan::Keep => panic!("kept"),
        }
    }
}

#[test]
fn failed_starts_are_reported() {
    let up = upstream();
    let e = up.spawned(SpawnOutcome::Failed).unwrap_err();
    assert_eq!(e.message(), "failed to spawn stdio upstream: npx -y server");
    let e = up.spawned(SpawnOutcome::Started { stdin: false, stdout: false }).unwrap_err();
    assert_eq!(e.message(), "failed to capture child stdin");
    let e = up.spawned(SpawnOutcome::Started { stdin: true, stdout: false }).unwrap_err();
    assert_eq!(e.message(), "failed to capture child stdout");
    assert!(up.spawned(SpawnOutcome::Started { stdin: true, stdout: true }).is_ok());
}

#[test]
fn requests_wait_under_their_id() {
    let up = upstream();
    match up.forward(Some(b"{\"id\": 7, \"method\": \"x\\ny\"}")) {
        ForwardPlan::Request { id, line, log } => {
            assert_eq!(id.to_text(), "7");
            assert_eq!(line, b"{\"id\":7,\"method\":\"x\\ny\"}\n".to_vec());
            assert!(log);
        }
        _ => panic!("no request"),
    }
    match up.forward(Some(b"{\"id\": null}")) {
        ForwardPlan::Request { id, .. } => assert!(matches!(id, Json::Null)),
        _ => panic!("no request"),
    }
}

#[test]
fn notifications_do_not_wait() {
    match upstream().forward(Some(b"{\"method\":\"n\"}")) {
        ForwardPlan::Notify { line, log } => {
            assert_eq!(line, b"{\"method\":\"n\"}\n".to_vec());
            assert!(log);
        }
        _ => panic!("no notification"),
    }
    let reply = notification_reply();
    assert_eq!(reply.status, 202);
    assert!(matches!(reply.body, ReplyBody::Text(t) if t.is_empty()));
}

#[test]
fn bad_bodies_are_refused() {
    let up = upstream();
    match up.forward(Some(b"")) {
        ForwardPlan::Answer(reply) => {
            assert_eq!(reply.status, 400);
            assert!(matches!(reply.body, ReplyBody::Text(t) if t == "empty request body"));
        }
        _ => panic!("no answer"),
    }
    match up.forward(Some(b"{")) {
        ForwardPlan::Fail(e) => assert_eq!(e.message(), "request body is not valid JSON"),
        _ => panic!("no failure"),
    }
    match up.forward(None) {
        ForwardPlan::Fail(e) => assert_eq!(e.message(), "failed to read request body"),
        _ => panic!("no failure"),
    }
}

#[test]
fn answers_reach_their_requests() {
    let mut waiting: Pending<&str> = Pending::new();
    waiting.insert(Json::integer(1), "one");
    waiting.insert(Json::text("1"), "text");
    waiting.insert(Json::integer(1), "newer");
    match receive_line(&mut waiting, "  {\"id\": 1, \"result\": {}}\r\n") {
        Delivery::Deliver { waiter, message } => {
            assert_eq!(waiter, "newer");
            assert_eq!(message.to_text(), "{\"id\":1,\"result\":{}}");
        }
        _ => panic!("not delivered"),
    }
    assert!(matches!(receive_line(&mut waiting, "{\"id\":1}"), Delivery::Unknown { id } if id.to_text() == "1"));
    assert_eq!(waiting.remove(&Json::text("1")), Some("text"));
    assert_eq!(waiting.remove(&Json::text("1")), None);
}

#[test]
fn lines_that_answer_nothing() {
    let mut waiting: Pending<u8> = Pending::new();
    assert!(matches!(receive_line(&mut waiting, " \t\n"), Delivery::Blank));
    assert!(matches!(receive_line(&mut waiting, "starting up"), Delivery::Invalid));
    assert!(matches!(receive_line(&mut waiting, "{\"method\":\"ping\"}"), Delivery::Notification { method } if method == "ping"));
    assert!(matches!(receive_line(&mut waiting, "[]"), Delivery::Notification { method } if method == "unknown"));
}

#[test]
fn answers_to_clients() {
    let reply = forward_reply(&WaitOutcome::Answered(parsed("{\"b\":1,\"a\":2}"))).unwrap();
    assert_eq!(reply.status, 200);
    assert!(matches!(reply.body, ReplyBody::Json(t) if t == "{\"a\":2,\"b\":1}"));
    assert_eq!(
        forward_reply(&WaitOutcome::TimedOut).unwrap_err().message(),
        "timeout waiting for stdio upstream response"
    );
    assert_eq!(
        forward_reply(&WaitOutcome::Dropped).unwrap_err().message(),
        "stdio reader task dropped"
    );
}

#[test]
fn calls_need_an_id() {
    let up = upstream();
    let (id, line) = up.send_jsonrpc(&parsed("{\"id\":\"a\"}")).unwrap_or_else(|_| panic!("refused"));
    assert_eq!(id.as_str(), Some("a"));
    assert_eq!(line, b"{\"id\":\"a\"}\n".to_vec());
    assert!(matches!(up.send_jsonrpc(&parsed("{}")), Err(StdioError::MissingId)));
    assert_eq!(StdioError::MissingId.message(), "JSON-RPC message must have an id");
    assert!(jsonrpc_answer(WaitOutcome::Answered(Json::Null)).is_ok());
    assert!(matches!(jsonrpc_answer(WaitOutcome::TimedOut), Err(StdioError::CallTimeout)));
    assert_eq!(StdioError::CallTimeout.message(), "timeout waiting for response");
    assert!(matches!(jsonrpc_answer(WaitOutcome::Dropped), Err(StdioError::CallDropped)));
    assert_eq!(StdioError::CallDropped.message(), "reader task dropped");
    assert_eq!(StdioError::NotAvailable.message(), "stdio process not available");
}

#[test]
fn lines_hold_one_line_feed() {
    let line = message_line(&parsed("{\"a\":\"x\\r\\n\\ny\"}"));
    assert_eq!(line.iter().filter(|b| **b == b'\n').count(), 1);
    assert_eq!(line.last(), Some(&b'\n'));
}

#[test]
fn tools_are_fetched_by_a_handshake() {
    let up = upstream();
    let (message, stage) = match up.fetch_tools() {
        FetchAction::Call { message, stage } => (message, stage),
        _ => panic!("no call"),
    };
    assert_eq!(stage, FetchStage::Initialize);
    assert_eq!(
        message.to_text(),
        "{\"id\":1000001,\"jsonrpc\":\"2.0\",\"method\":\"initialize\",\"params\":{\"capabilities\":{},\"clientInfo\":{\"name\":\"mcp-auth-proxy\",\"version\":\"0.1.0\"},\"protocolVersion\":\"2025-03-26\"}}"
    );
    assert!(up.send_jsonrpc(&message).is_ok());
    match fetch_answered(stage, &parsed("{\"id\":1000001,\"result\":{}}")) {
        FetchAction::Notify { message } => assert_eq!(
            message.to_text(),
            "{\"jsonrpc\":\"2.0\",\"method\":\"notifications/initialized\"}"
        ),
        _ => panic!("no notification"),
    }
    let stage = match fetch_notified() {
        FetchAction::Call { message, stage } => {
            assert_eq!(
                message.to_text(),
                "{\"id\":1000002,\"jsonrpc\":\"2.0\",\"method\":\"tools/list\"}"
            );
            assert!(up.send_jsonrpc(&message).is_ok());
            stage
        }
        _ => panic!("no call"),
    };
    match fetch_answered(stage, &parsed("{\"result\":{\"tools\":[{\"name\":\"a\"}]}}")) {
        FetchAction::Done(tools) => {
            assert_eq!(tools.len(), 1);
            assert_eq!(tools[0].to_text(), "{\"name\":\"a\"}");
        }
        _ => panic!("not done"),
    }
    assert!(matches!(fetch_answered(stage, &parsed("{}")), FetchAction::Done(t) if t.is_empty()));
}

#[test]
fn failed_handshakes_are_reported() {
    let answer = parsed("{\"error\":{\"code\":1}}");
    match fetch_answered(FetchStage::Initialize, &answer) {
        FetchAction::Fail(e) => assert_eq!(e.message(), "initialize failed: {\"code\":1}"),
        _ => panic!("no failure"),
    }
    match fetch_answered(FetchStage::ToolsList, &parsed("{\"error\":null}")) {
        FetchAction::Fail(e) => assert_eq!(e.message(), "tools/list failed: null"),
        _ => panic!("no failure"),
    }
}
