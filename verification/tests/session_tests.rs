use niche::commands::{
    clear_history, help_lines, history_lines, keep_system_messages, model_report, parse_slash_command,
    resume_into, resume_report, resume_target, session_listing, switch_target, version_line, ModelChoice,
    ResumeTarget, SlashCommand,
};
use niche::message::{Message, ToolCall};
use niche::session::{auto_title, format_age_at, session_id_for, session_summary, Session, SessionManager};

fn session(id: &str, updated_at: &str, title: &str) -> Session {
    Session {
        id: id.to_string(),
        title: title.to_string(),
        model: "m".to_string(),
        created_at: "0".to_string(),
        updated_at: updated_at.to_string(),
        messages: vec![Message::system("s".into()), Message::user("q".into()), Message::assistant("a".into())],
    }
}

#[test]
fn session_ids_carry_the_time() {
    assert_eq!(session_id_for(1700012345), "ses_1700012345_03039");
    assert_eq!(session_id_for(1700000000), "ses_1700000000_00000");
}

#[test]
fn sessions_started_apart_get_different_ids() {
    assert_ne!(session_id_for(1700000000), session_id_for(1700100000));
    assert_ne!(session_id_for(5), session_id_for(50));
}

#[test]
fn new_sessions_start_untitled() {
    let mut m = SessionManager::new();
    assert!(m.current().is_none());
    m.start_new_at("gpt", vec![Message::user("hi".into())], 42);
    let s = m.current().unwrap();
    assert_eq!(s.title, "New Session");
    assert_eq!(s.created_at, "42");
    assert_eq!(s.updated_at, "42");
    assert_eq!(s.id, "ses_42_0002a");
    assert!(m.current_mut().is_some());
}

#[test]
fn saving_titles_the_session_from_the_first_user_message() {
    let mut m = SessionManager::new();
    assert!(!m.prepare_save_at(5));
    let long = "x".repeat(70);
    m.start_new_at("gpt", vec![Message::system("sys".into()), Message::user(long.clone()), Message::user("second".into())], 1);
    assert!(m.prepare_save_at(99));
    let s = m.current().unwrap();
    assert_eq!(s.title, "x".repeat(60));
    assert_eq!(s.updated_at, "99");
    assert_eq!(auto_title(&vec![Message::assistant("a".into())]), None);
}

#[test]
fn sessions_are_listed_most_recent_first() {
    let list = SessionManager::list_sessions(vec![session("a", "100", "A"), session("b", "300", "B"), session("c", "200", "C"), session("d", "300", "D")]);
    let ids: Vec<&str> = list.iter().map(|s| s.id.as_str()).collect();
    assert_eq!(ids, vec!["b", "d", "c", "a"]);
    assert_eq!(SessionManager::latest_id(vec![session("a", "1", ""), session("b", "2", "")]), Some("b".to_string()));
    assert_eq!(SessionManager::latest_id(Vec::new()), None);
    assert_eq!(SessionManager::load_latest(vec![session("z", "9", "Z")]).map(|s| s.id), Some("z".to_string()));
}

#[test]
fn loading_into_the_manager() {
    let mut m = SessionManager::new();
    assert_eq!(m.load_into("nope", None).err(), Some("Session 'nope' not found".to_string()));
    assert!(m.current().is_none());
    assert_eq!(m.load_into("a", Some(session("a", "1", "A"))).map(|s| s.title.clone()), Ok("A".to_string()));
    assert_eq!(m.current().unwrap().id, "a");
}

#[test]
fn ages_are_shown_in_the_largest_unit() {
    assert_eq!(format_age_at("1000", 1059), "just now");
    assert_eq!(format_age_at("1000", 1060), "1m ago");
    assert_eq!(format_age_at("1000", 1000 + 3600 * 5), "5h ago");
    assert_eq!(format_age_at("1000", 1000 + 86400 * 2), "2d ago");
    assert_eq!(format_age_at("abc", 120), "2m ago");
    assert_eq!(format_age_at("5000", 10), "just now");
}

#[test]
fn summaries_count_the_conversation() {
    assert_eq!(session_summary(&session("a", "1", "t")), "2 msgs");
    assert_eq!(resume_report(&session("a", "1", "Title")), "Resumed: Title (2 messages)");
}

#[test]
fn slash_commands_are_recognised() {
    assert!(matches!(parse_slash_command("  /help "), Some(SlashCommand::Help)));
    assert!(matches!(parse_slash_command("/?"), Some(SlashCommand::Help)));
    assert!(matches!(parse_slash_command("/clear"), Some(SlashCommand::Clear)));
    assert!(matches!(parse_slash_command("/hist"), Some(SlashCommand::History)));
    assert!(matches!(parse_slash_command("/v"), Some(SlashCommand::Version)));
    match parse_slash_command("/model   gpt-4  ") {
        Some(SlashCommand::Model(Some(name))) => assert_eq!(name, "gpt-4"),
        _ => panic!("expected /model with a name"),
    }
    assert!(matches!(parse_slash_command("/m"), Some(SlashCommand::Model(None))));
    assert!(matches!(parse_slash_command("/n"), Some(SlashCommand::New)));
    assert!(matches!(parse_slash_command("/ss"), Some(SlashCommand::Sessions)));
    match parse_slash_command("/r ses_1") {
        Some(SlashCommand::Resume(Some(id))) => assert_eq!(id, "ses_1"),
        _ => panic!("expected /r with an id"),
    }
    assert!(matches!(parse_slash_command("/quit"), Some(SlashCommand::Exit)));
    assert!(parse_slash_command("/unknown").is_none());
    assert!(parse_slash_command("hello").is_none());
}

#[test]
fn clearing_keeps_the_system_prompt() {
    let mut h = vec![Message::system("s".into()), Message::user("q".into()), Message::assistant("a".into())];
    assert_eq!(clear_history(&mut h), "Cleared 0 messages. System prompt retained.");
    assert_eq!(h.len(), 1);
    assert!(h[0].is_system());
    let mut h2 = vec![Message::user("q".into())];
    assert_eq!(clear_history(&mut h2), "Cleared 0 messages.");
    assert!(h2.is_empty());
    let mut h3 = vec![Message::user("q".into()), Message::system("s1".into()), Message::system("s2".into())];
    keep_system_messages(&mut h3);
    let contents: Vec<&str> = h3.iter().map(|m| m.content.as_str()).collect();
    assert_eq!(contents, vec!["s1", "s2"]);
}

#[test]
fn history_is_listed_with_previews() {
    assert_eq!(history_lines(&Vec::new()), vec!["(empty)".to_string()]);
    assert_eq!(history_lines(&vec![Message::system("s".into())]), vec!["(no messages)".to_string()]);
    let long = format!("{}\n{}", "a".repeat(60), "b".repeat(60));
    let calls = vec![ToolCall { id: "1".into(), name: "grep".into(), arguments: "{}".into() }];
    let h = vec![
        Message::system("s".into()),
        Message::user("line one\nline two".into()),
        Message::assistant(long),
        Message::assistant_with_tools(None, calls),
        Message::tool_result("1".into(), "out".into()),
    ];
    assert_eq!(
        history_lines(&h),
        vec![
            "  1. [You] line one line two".to_string(),
            format!("  2. [niche] {} {}...", "a".repeat(60), "b".repeat(36)),
            "  3. [niche] (tool call)".to_string(),
            "  4. [System] out".to_string(),
        ]
    );
}

#[test]
fn saved_sessions_are_listed() {
    assert_eq!(session_listing(&Vec::new(), 0), vec!["No saved sessions.".to_string()]);
    let title = "t".repeat(55);
    let list = vec![session("s1", "100", &title), session("s2", "40", "short")];
    assert_eq!(
        session_listing(&list, 160),
        vec![
            "Sessions (most recent first):\n".to_string(),
            format!("  1. [1m ago] {}...", "t".repeat(47)),
            "     s1 | 2 msgs | (latest)".to_string(),
            "  2. [2m ago] short".to_string(),
            "     s2 | 2 msgs |".to_string(),
            "\n  /session <id> to resume".to_string(),
        ]
    );
    let many: Vec<Session> = (0..22).map(|i| session(&format!("s{i}"), "0", "x")).collect();
    let lines = session_listing(&many, 0);
    assert_eq!(lines.len(), 1 + 40 + 2);
    assert_eq!(lines[41], "\n  ... and 2 more");
}

#[test]
fn model_command_output() {
    assert_eq!(
        model_report(&Vec::new(), "gpt-4o", None, Ok(String::new())),
        vec![
            "Current model: gpt-4o (no multi-model config)".to_string(),
            "Add a 'models' array to config.json to enable /model switching.".to_string(),
        ]
    );
    let models = vec![
        ModelChoice { name: "a".into(), display: "Model A".into(), active: true },
        ModelChoice { name: "b".into(), display: "Model B".into(), active: false },
    ];
    assert_eq!(
        model_report(&models, "a", None, Ok(String::new())),
        vec![
            "Available models:".to_string(),
            "   * a - Model A".to_string(),
            "     b - Model B".to_string(),
            "\n  * = active   |   /model <name> to switch".to_string(),
        ]
    );
    assert_eq!(model_report(&models, "a", Some("b"), Ok("Model B".into())), vec!["Switched to: Model B (b)".to_string()]);
    assert_eq!(
        model_report(&models, "a", Some("c"), Err("no such model".into())),
        vec![
            "no such model".to_string(),
            "\nAvailable models:".to_string(),
            "   * a - Model A".to_string(),
            "     b - Model B".to_string(),
        ]
    );
}

#[test]
fn help_and_version() {
    let lines = help_lines("0.1.0");
    assert_eq!(lines[0], "niche v0.1.0 - Commands");
    assert_eq!(lines.len(), 25);
    assert_eq!(lines[20], "  \\\\ at line end      Continue on next line (multi-line input)");
    assert_eq!(version_line("1.2.3"), "niche v1.2.3");
}

#[test]
fn resume_chooses_the_given_or_the_latest_session() {
    match resume_target(Some("ses_1".to_string()), None) {
        ResumeTarget::Session { id, notice } => {
            assert_eq!(id, "ses_1");
            assert!(notice.is_none());
        }
        ResumeTarget::NoneSaved { .. } => panic!("a given id is resumed"),
    }
    match resume_target(None, Some("ses_9".to_string())) {
        ResumeTarget::Session { id, notice } => {
            assert_eq!(id, "ses_9");
            assert_eq!(notice.as_deref(), Some("No session ID given. Resuming latest: ses_9"));
        }
        ResumeTarget::NoneSaved { .. } => panic!("the latest is resumed"),
    }
    match resume_target(None, None) {
        ResumeTarget::NoneSaved { message } => assert_eq!(message, "No saved sessions to resume."),
        ResumeTarget::Session { .. } => panic!("nothing to resume"),
    }
}

#[test]
fn resuming_fills_the_history_and_the_manager() {
    let mut history = vec![Message::user("old".to_string())];
    let mut m = SessionManager::new();
    assert_eq!(resume_into(&mut history, &mut m, "ses_x", None), "Session 'ses_x' not found.");
    assert_eq!(history.len(), 1);
    assert!(m.current().is_none());
    let mut s = session("ses_a", "5", "Chat");
    s.messages = vec![Message::system("sys".to_string()), Message::user("hi".to_string())];
    assert_eq!(resume_into(&mut history, &mut m, "ses_a", Some(s)), "Resumed: Chat (1 messages)");
    let contents: Vec<&str> = history.iter().map(|m| m.content.as_str()).collect();
    assert_eq!(contents, vec!["sys", "hi"]);
    assert_eq!(m.current().unwrap().id, "ses_a");
}

#[test]
fn a_model_is_switched_only_when_named_and_configured() {
    assert_eq!(switch_target(2, Some("gpt")), Some("gpt".to_string()));
    assert_eq!(switch_target(0, Some("gpt")), None);
    assert_eq!(switch_target(2, None), None);
}

#[test]
fn a_saved_session_loads_back_as_prepared() {
    let mut m = SessionManager::new();
    m.start_new_at("gpt", vec![Message::user("Plan the release".to_string())], 100);
    assert!(m.prepare_save_at(160));
    let saved = m.current.take().unwrap();
    let mut other = SessionManager::new();
    let loaded = other.load_into(&saved.id.clone(), Some(saved)).map(|s| (s.title.clone(), s.updated_at.clone(), s.created_at.clone()));
    assert_eq!(loaded, Ok(("Plan the release".to_string(), "160".to_string(), "100".to_string())));
}
