use niche::agent::{
    batch_notice, limit_near_warning, limit_reached_warning, tool_call_line, tool_result_lines, AgentTurn,
    ReplyStep, ToolsStep, MAX_ITERATIONS,
};
use niche::client::{bearer, chat_request, chat_url, interpret_response};
use niche::config::{env_reference, resolve_env, Config};
use niche::file_ref::{append_file_refs, file_ref_paths, split_words, unreadable_ref_warning};
use niche::message::{ApiError, Message, StreamResult, ToolCall};
use niche::repl::{InputAction, ReplState, ReplyOutcome};
use niche::tools::registry::{batch_results, batch_schedule, find_tool, is_read_only, unknown_tool};

fn call(id: &str, name: &str) -> ToolCall {
    ToolCall { id: id.to_string(), name: name.to_string(), arguments: "{}".to_string() }
}

#[test]
fn read_only_tools() {
    for n in ["read_file", "list_files", "grep", "glob"] {
        assert!(is_read_only(n));
    }
    for n in ["write_file", "edit_file", "run_command", "unknown"] {
        assert!(!is_read_only(n));
    }
}

#[test]
fn tools_are_found_by_name() {
    let names = vec!["read_file".to_string(), "grep".to_string(), "grep".to_string()];
    assert_eq!(find_tool(&names, "grep"), Some(1));
    assert_eq!(find_tool(&names, "glob"), None);
    assert_eq!(unknown_tool("fly"), "Unknown tool: fly");
}

#[test]
fn batch_runs_read_only_calls_first() {
    let calls = vec![call("1", "write_file"), call("2", "grep"), call("3", "run_command"), call("4", "read_file")];
    assert_eq!(batch_schedule(&calls), vec![1, 3, 0, 2]);
}

#[test]
fn batch_results_come_back_in_call_order() {
    let calls = vec![call("a", "write_file"), call("b", "grep"), call("c", "read_file")];
    let order = batch_schedule(&calls);
    assert_eq!(order, vec![1, 2, 0]);
    let outcomes = vec![Ok("grep out".to_string()), Err("no file".to_string()), Ok("written".to_string())];
    let results = batch_results(&calls, &order, &outcomes);
    assert_eq!(
        results,
        vec![
            ("a".to_string(), "written".to_string()),
            ("b".to_string(), "grep out".to_string()),
            ("c".to_string(), "Error: no file".to_string()),
        ]
    );
}

#[test]
fn a_reply_without_tools_ends_the_turn() {
    let mut turn = AgentTurn::new();
    let mut history = vec![Message::user("hi".to_string())];
    let step = turn.on_reply(&mut history, StreamResult { content: "hello".to_string(), tool_calls: Vec::new() });
    assert!(matches!(step, ReplyStep::Finished));
    assert!(!turn.may_ask());
    assert_eq!(history.len(), 2);
    assert_eq!(history[1].role, "assistant");
    assert_eq!(history[1].content, "hello");

    let mut turn = AgentTurn::new();
    let step = turn.on_reply(&mut history, StreamResult { content: String::new(), tool_calls: Vec::new() });
    assert!(matches!(step, ReplyStep::Finished));
    assert_eq!(history.len(), 2);
}

#[test]
fn tool_calls_are_recorded_with_their_results() {
    let mut turn = AgentTurn::new();
    let mut history = Vec::new();
    let calls = vec![call("c1", "grep"), call("c2", "glob"), call("c3", "write_file")];
    let dup: Vec<ToolCall> = calls.iter().map(|c| c.duplicate()).collect();
    let step = turn.on_reply(&mut history, StreamResult { content: String::new(), tool_calls: calls });
    assert!(matches!(step, ReplyStep::RunTools { read_only: 2 }));
    assert_eq!(history[0].tool_calls.len(), 3);
    assert_eq!(history[0].content, "");
    let results = vec![
        ("c1".to_string(), "r1".to_string()),
        ("c2".to_string(), "r2".to_string()),
        ("c3".to_string(), "r3".to_string()),
    ];
    let step = turn.on_tool_results(&mut history, &dup, &results);
    assert!(matches!(step, ToolsStep::Continue { approaching_limit: false }));
    assert_eq!(history.len(), 4);
    assert_eq!(history[3].role, "tool");
    assert_eq!(history[3].tool_call_id.as_deref(), Some("c3"));
    assert_eq!(history[3].content, "r3");
    assert_eq!(turn.current_round(), 1);
}

#[test]
fn a_turn_stops_after_the_last_round() {
    let mut turn = AgentTurn::new();
    let mut history = Vec::new();
    let mut rounds = 0;
    let mut warned_at = None;
    while turn.may_ask() {
        let calls = vec![call("x", "run_command")];
        let dup: Vec<ToolCall> = calls.iter().map(|c| c.duplicate()).collect();
        turn.on_reply(&mut history, StreamResult { content: String::new(), tool_calls: calls });
        rounds += 1;
        let round = turn.current_round();
        match turn.on_tool_results(&mut history, &dup, &vec![("x".to_string(), "ok".to_string())]) {
            ToolsStep::Stop => break,
            ToolsStep::Continue { approaching_limit } => {
                if approaching_limit {
                    warned_at = Some(round);
                }
            }
        }
    }
    assert_eq!(rounds, MAX_ITERATIONS);
    assert_eq!(warned_at, Some(MAX_ITERATIONS - 4));
    assert!(!turn.may_ask());
    assert_eq!(history.len(), 2 * MAX_ITERATIONS);
}

#[test]
fn agent_notices() {
    assert_eq!(limit_reached_warning(), "\n[warning] Reached max iterations (30), stopping.");
    assert_eq!(limit_near_warning(26), "\n[warning] Approaching max iterations (27/30), wrapping up...");
    assert_eq!(batch_notice(3, 2), Some("\n  [batch] 2 read-only tools running concurrently + 1 sequential".to_string()));
    assert_eq!(batch_notice(3, 1), None);
    assert_eq!(batch_notice(1, 1), None);
}

#[test]
fn tool_calls_and_results_are_previewed() {
    assert_eq!(tool_call_line("grep", "{\"pattern\":\"x\"}"), "  [tool] grep({\"pattern\":\"x\"})");
    let long = "a".repeat(250);
    assert_eq!(tool_call_line("t", &long), format!("  [tool] t({}...)", "a".repeat(197)));
    assert_eq!(tool_result_lines("one\ntwo"), vec!["  one".to_string(), "  two".to_string()]);
    let big = "x".repeat(600);
    assert_eq!(
        tool_result_lines(&big),
        vec![format!("  {}...", "x".repeat(497)), "    (600 total bytes)".to_string()]
    );
}

#[test]
fn chat_endpoint_and_header() {
    assert_eq!(chat_url("https://api.example.com/v1"), "https://api.example.com/v1/chat/completions");
    assert_eq!(chat_url("https://api.example.com/v1//"), "https://api.example.com/v1/chat/completions");
    assert_eq!(bearer("k"), "Bearer k");
    let req = chat_request("m", vec![Message::user("q".to_string())]);
    assert_eq!(req.model, "m");
    assert_eq!(req.messages.len(), 1);
    assert!(req.stream.is_none());
}

#[test]
fn chat_answers_are_interpreted() {
    assert_eq!(interpret_response(true, 200, "{}".into(), Ok(vec!["hi".into(), "ho".into()])).ok(), Some("hi".to_string()));
    match interpret_response(false, 401, "denied".into(), Ok(Vec::new())) {
        Err(ApiError::Status(code, body)) => assert_eq!((code, body.as_str()), (401, "denied")),
        _ => panic!("expected a status error"),
    }
    match interpret_response(true, 200, "raw".into(), Ok(Vec::new())) {
        Err(e) => assert_eq!(e.describe(), "Parse error: empty choices\nRaw: raw"),
        _ => panic!("expected a parse error"),
    }
    match interpret_response(true, 200, "raw".into(), Err("bad json".into())) {
        Err(e) => assert_eq!(e.describe(), "Parse error: bad json\nRaw: raw"),
        _ => panic!("expected a parse error"),
    }
    assert_eq!(ApiError::Request("timeout".into()).describe(), "Request failed: timeout");
    assert_eq!(ApiError::Status(500, "x".into()).describe(), "API error 500: x");
}

#[test]
fn config_values_resolve_from_the_environment() {
    let env = vec![("KEY".to_string(), "secret".to_string())];
    assert_eq!(env_reference("$KEY"), Some("KEY".to_string()));
    assert_eq!(env_reference("plain"), None);
    assert_eq!(resolve_env("$KEY", &env), ("secret".to_string(), None));
    assert_eq!(
        resolve_env("$NOPE", &env),
        ("$NOPE".to_string(), Some("Warning: environment variable 'NOPE' not set, using literal value".to_string()))
    );
    assert_eq!(resolve_env("gpt", &env), ("gpt".to_string(), None));
    let config = Config {
        api_key: "$KEY".into(),
        base_url: "http://x".into(),
        model: "$MODEL".into(),
        system_prompt: Some("$KEY".into()),
    };
    let (c, warnings) = config.resolve(&env);
    assert_eq!(c.api_key, "secret");
    assert_eq!(c.model, "$MODEL");
    assert_eq!(c.system_prompt.as_deref(), Some("secret"));
    assert_eq!(warnings, vec!["Warning: environment variable 'MODEL' not set, using literal value".to_string()]);
}

#[test]
fn config_warnings_come_in_field_order() {
    let env = vec![("KEY".to_string(), "secret".to_string())];
    let config = Config {
        api_key: "$A".into(),
        base_url: "$KEY".into(),
        model: "$B".into(),
        system_prompt: Some("$C".into()),
    };
    let (_, warnings) = config.resolve(&env);
    assert_eq!(
        warnings,
        vec![
            "Warning: environment variable 'A' not set, using literal value".to_string(),
            "Warning: environment variable 'B' not set, using literal value".to_string(),
            "Warning: environment variable 'C' not set, using literal value".to_string(),
        ]
    );
}

#[test]
fn a_turn_only_appends_to_the_history() {
    let mut turn = AgentTurn::new();
    let mut history = vec![Message::system("sys".to_string()), Message::user("hi".to_string())];
    let calls = vec![call("c1", "grep")];
    let dup: Vec<ToolCall> = calls.iter().map(|c| c.duplicate()).collect();
    turn.on_reply(&mut history, StreamResult { content: "looking".to_string(), tool_calls: calls });
    turn.on_tool_results(&mut history, &dup, &vec![("c1".to_string(), "found".to_string())]);
    turn.on_reply(&mut history, StreamResult { content: "done".to_string(), tool_calls: Vec::new() });
    let roles: Vec<&str> = history.iter().map(|m| m.role.as_str()).collect();
    assert_eq!(roles, vec!["system", "user", "assistant", "tool", "assistant"]);
    assert_eq!(history[0].content, "sys");
    assert_eq!(history[1].content, "hi");
}

#[test]
fn file_references_are_found_and_appended() {
    assert_eq!(split_words("  a\tb\n c  "), vec!["a", "b", "c"]);
    assert_eq!(file_ref_paths("look at @src/main.rs and @ and x@y @b"), vec!["src/main.rs", "b"]);
    let refs = vec![("a.txt".to_string(), "hello".to_string())];
    assert_eq!(append_file_refs("see @a.txt", &refs), "see @a.txt\n\n--- a.txt ---\nhello\n--- End of a.txt ---\n");
    assert_eq!(append_file_refs("nothing", &Vec::new()), "nothing");
    assert_eq!(unreadable_ref_warning("p", "denied"), "Warning: could not read @p: denied");
}

#[test]
fn repl_keeps_the_conversation() {
    let mut state = ReplState::new(Some("be brief".to_string()));
    assert_eq!(state.history.len(), 1);
    assert!(matches!(state.accept_input("   \n"), InputAction::Skip));
    assert!(matches!(state.accept_input(" exit \n"), InputAction::Quit));
    assert!(matches!(state.accept_input("  hello \n"), InputAction::Send));
    assert_eq!(state.history[1].content, "hello");
    assert!(matches!(state.accept_reply(Ok("hi there".to_string())), ReplyOutcome::Added));
    assert_eq!(state.history.len(), 3);
    assert!(matches!(state.accept_input("again"), InputAction::Send));
    assert!(matches!(state.accept_reply(Err(ApiError::Request("down".into()))), ReplyOutcome::Failed));
    assert_eq!(state.history.len(), 3);
    assert!(matches!(state.accept_input("more"), InputAction::Send));
    assert!(matches!(state.accept_reply(Ok("  \n".to_string())), ReplyOutcome::Empty));
    assert_eq!(state.history.len(), 3);
}

#[test]
fn messages_have_their_roles() {
    assert_eq!(Message::user("a".into()).role, "user");
    assert_eq!(Message::assistant("a".into()).role, "assistant");
    assert!(Message::system("a".into()).is_system());
    let t = Message::tool_result("id7".into(), "out".into());
    assert_eq!((t.role.as_str(), t.tool_call_id.as_deref()), ("tool", Some("id7")));
}

#[test]
fn tool_results_are_paired_with_calls() {
    let mut turn = AgentTurn::new();
    let mut history = vec![Message::user("hi".to_string())];
    let calls = vec![call("c1", "grep"), call("c2", "glob")];
    let results = vec![("c1".to_string(), "only one".to_string())];
    turn.on_tool_results(&mut history, &calls, &results);
    assert_eq!(history.len(), 2);
    assert_eq!(history[1].tool_call_id.as_deref(), Some("c1"));
    assert!(history[1].tool_calls.is_empty());
}
