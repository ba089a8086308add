use anna_rs::client::{RequestBody, Verb};
use anna_rs::json::{compact_json, parse_json, Json};
use anna_rs::mcp::{
    arg_bool, arg_required_string, arg_string, arg_string_map, arg_u32, arg_u64, call_outcome,
    call_reply, daemon_token, handle_line, handle_tools_call, reply_line, tool_specs, McpConfig,
    McpStep,
};
use anna_rs::policy_sync::DaemonResponse;

fn json(text: &str) -> Json {
    parse_json(text).ok().expect("json")
}

fn config() -> McpConfig {
    McpConfig {
        daemon_url: "http://d/".to_string(),
        daemon_token: Some(" secret ".to_string()),
    }
}

#[test]
fn tool_specs_contains_expected_core_tools() {
    let specs = tool_specs();
    let names = specs
        .iter()
        .filter_map(|v| v.get("name").and_then(|n| n.as_str()))
        .collect::<Vec<_>>();
    assert!(names.contains(&"list_flows"));
    assert!(names.contains(&"list_flows_meta"));
    assert!(names.contains(&"run_flow"));
    assert!(names.contains(&"can_run_flow"));
    assert!(names.contains(&"session_status"));
    assert!(names.contains(&"tail_logs"));
    assert!(names.contains(&"stop_flow"));
    assert!(names.contains(&"stats"));
    assert_eq!(names.len(), 12);
    assert_eq!(
        compact_json(&specs[2]),
        "{\"description\":\"Run workflow by registered name, or submit raw YAML\",\"inputSchema\":{\"additionalProperties\":false,\"properties\":{\"max_iterations\":{\"minimum\":1,\"type\":\"integer\"},\"name\":{\"type\":\"string\"},\"vars\":{\"additionalProperties\":{\"type\":\"string\"},\"type\":\"object\"},\"workflow_yaml\":{\"type\":\"string\"}},\"type\":\"object\"},\"name\":\"run_flow\"}"
    );
    assert_eq!(
        compact_json(&specs[11]),
        "{\"description\":\"Resolve HITL request with decision\",\"inputSchema\":{\"additionalProperties\":false,\"properties\":{\"decision\":{\"type\":\"string\"},\"id\":{\"type\":\"string\"}},\"required\":[\"id\",\"decision\"],\"type\":\"object\"},\"name\":\"resolve_hitl\"}"
    );
}

#[test]
fn arg_helpers_parse_values() {
    let args = json(r#"{ "a": "x", "n": 3, "vars": {"X": "1"}, "available": true }"#);
    assert_eq!(
        arg_string(&args, "a").expect("a should parse"),
        Some("x".to_string())
    );
    assert_eq!(arg_u64(&args, "n").expect("n should parse"), Some(3));
    assert_eq!(arg_u32(&args, "n").expect("n should parse"), Some(3));
    assert_eq!(
        arg_bool(&args, "available").expect("available should parse"),
        Some(true)
    );
    let vars = arg_string_map(&args, "vars").ok().expect("vars should parse");
    assert_eq!(vars.len(), 1);
    assert_eq!(vars.get("X"), Some(&"1".to_string()));
    assert_eq!(
        arg_string(&args, "missing").expect("missing should parse"),
        None
    );
}

#[test]
fn wrong_arguments_are_named() {
    let args = json(r#"{ "a": 1, "n": -3, "big": 4294967296, "vars": {"X": 1}, "b": "yes", "z": null }"#);
    assert_eq!(arg_string(&args, "a").unwrap_err(), "tool argument 'a' must be string");
    assert_eq!(arg_required_string(&args, "z").unwrap_err(), "tool argument 'z' is required");
    assert_eq!(
        arg_u64(&args, "n").unwrap_err(),
        "tool argument 'n' must be non-negative integer"
    );
    assert_eq!(
        arg_u32(&args, "big").unwrap_err(),
        "tool argument 'big' is too large for u32"
    );
    assert_eq!(arg_bool(&args, "b").unwrap_err(), "tool argument 'b' must be boolean");
    assert_eq!(
        arg_string_map(&args, "vars").err().expect("no string"),
        "tool argument 'vars' values must be strings (key 'X')"
    );
    assert_eq!(
        arg_string_map(&args, "a").err().expect("no object"),
        "tool argument 'a' must be object"
    );
}

#[test]
fn calls_become_requests() {
    let call = |params: &str| handle_tools_call(&config(), &json(params));
    let list = call(r#"{"name":"list_flows"}"#).ok().expect("request");
    assert_eq!(list.url, "http://d/workflows");
    assert_eq!(list.verb, Verb::Get);
    let stop = call(r#"{"name":"stop_flow","arguments":{"id":"r1"}}"#).ok().expect("request");
    assert_eq!(stop.verb, Verb::Delete);
    assert_eq!(stop.url, "http://d/workflow/r1");
    let sessions = call(r#"{"name":"list_sessions","arguments":{"status":"running","limit":2}}"#)
        .ok()
        .expect("request");
    assert_eq!(
        sessions.query,
        vec![
            ("status".to_string(), "running".to_string()),
            ("limit".to_string(), "2".to_string())
        ]
    );
    let run = call(r#"{"name":"run_flow","arguments":{"workflow_yaml":"name: x"}}"#)
        .ok()
        .expect("request");
    assert!(matches!(run.body, RequestBody::Text(t) if t == "name: x"));
    let hook = call(r#"{"name":"trigger_hook","arguments":{"name":"/deploy"}}"#)
        .ok()
        .expect("request");
    assert_eq!(hook.url, "http://d/hook/deploy");

    let error = |params: &str| call(params).err().expect("error");
    assert_eq!(error("{}"), "tools/call missing params.name");
    assert_eq!(error(r#"{"name":"fly"}"#), "unknown tool 'fly'");
    assert_eq!(
        error(r#"{"name":"run_flow"}"#),
        "run_flow requires either 'name' or 'workflow_yaml'"
    );
    assert_eq!(
        error(r#"{"name":"run_flow","arguments":{"workflow_yaml":"x","max_iterations":1}}"#),
        "run_flow with workflow_yaml does not support 'vars' or 'max_iterations'; use named flow"
    );
    assert_eq!(
        error(r#"{"name":"can_run_flow","arguments":{}}"#),
        "tool argument 'name' is required"
    );
}

fn reply(line: &str) -> String {
    match handle_line(&config(), "0.1.0", line) {
        McpStep::Reply(reply) => reply_line(&reply),
        McpStep::Silent => "silent".to_string(),
        McpStep::Call(id, request) => format!("call {} {}", compact_json(&id), request.url),
    }
}

#[test]
fn lines_are_answered() {
    assert_eq!(
        reply(r#"{"jsonrpc":"2.0","id":1,"method":"initialize","params":{}}"#),
        "{\"id\":1,\"jsonrpc\":\"2.0\",\"result\":{\"capabilities\":{\"tools\":{}},\"protocolVersion\":\"2024-11-05\",\"serverInfo\":{\"name\":\"anna-rs\",\"version\":\"0.1.0\"}}}\n"
    );
    assert!(reply(r#"{"jsonrpc":"2.0","id":2,"method":"tools/list"}"#).contains("\"run_flow\""));
    assert_eq!(
        reply(r#"{"id":"x","method":"ping"}"#),
        "{\"id\":\"x\",\"jsonrpc\":\"2.0\",\"result\":{}}\n"
    );
    assert_eq!(reply("   "), "silent");
    assert_eq!(reply(r#"{"method":"initialized"}"#), "silent");
    assert_eq!(
        reply(r#"{"id":3}"#),
        "{\"error\":{\"code\":-32600,\"message\":\"invalid request: missing method\"},\"id\":3,\"jsonrpc\":\"2.0\"}\n"
    );
    assert_eq!(
        reply(r#"{"id":4,"method":"fly"}"#),
        "{\"error\":{\"code\":-32601,\"message\":\"method not found: fly\"},\"id\":4,\"jsonrpc\":\"2.0\"}\n"
    );
    assert!(reply("{").contains("\"code\":-32700,\"message\":\"parse error: "));
    assert_eq!(
        reply(r#"{"id":5,"method":"tools/call","params":{"name":"stats"}}"#),
        "call 5 http://d/stats"
    );
    assert_eq!(
        reply(r#"{"id":6,"method":"tools/call","params":{"name":"fly"}}"#),
        "{\"id\":6,\"jsonrpc\":\"2.0\",\"result\":{\"content\":[{\"text\":\"unknown tool 'fly'\",\"type\":\"text\"}],\"isError\":true}}\n"
    );
}

#[test]
fn outcomes_of_calls() {
    let response = |status: u16, text: &str, body: &str| DaemonResponse {
        status,
        status_text: text.to_string(),
        etag: None,
        body: body.to_string(),
    };
    assert_eq!(
        call_outcome(&response(200, "200 OK", "[1]")),
        Ok("[\n  1\n]".to_string())
    );
    assert_eq!(call_outcome(&response(200, "200 OK", "plain")), Ok("plain".to_string()));
    assert_eq!(
        call_outcome(&response(401, "401 Unauthorized", "")),
        Err("daemon request failed with status 401 Unauthorized".to_string())
    );
    assert_eq!(
        compact_json(&call_reply(json("7"), Ok("fine".to_string()))),
        "{\"id\":7,\"jsonrpc\":\"2.0\",\"result\":{\"content\":[{\"text\":\"fine\",\"type\":\"text\"}]}}"
    );
    assert_eq!(daemon_token(&config()).as_deref(), Some("secret"));
}
