use rusty_bots::ai::{AssistantMessage, FunctionCall, ToolCall};
use rusty_bots::bot::{
    answer_step, build_conversation, plan_tool, route_message, AnswerStep, BotRegistry, HistoryEntry, MessageStep,
    ToolAction, ToolArgs,
};

#[test]
fn registry_start_and_stop() {
    let mut r: BotRegistry<u32> = BotRegistry::new();
    assert!(!r.is_running("a"));
    assert!(r.check_can_start("a").is_ok());
    assert_eq!(r.insert("a".to_string(), 1), None);
    assert_eq!(r.insert("b".to_string(), 2), None);
    assert!(r.is_running("a"));
    assert_eq!(r.check_can_start("a").err().unwrap(), "bot already running");
    assert_eq!(r.get("b"), Some(&2));
    assert_eq!(r.insert("a".to_string(), 3), Some(1));
    assert_eq!(r.get("a"), Some(&3));
    assert_eq!(r.stop("a"), Some(3));
    assert!(!r.is_running("a"));
    assert_eq!(r.stop("a"), None);
    assert!(r.is_running("b"));
}

#[test]
fn message_routes() {
    let me = 10;
    assert!(matches!(route_message(true, true, &vec![me], me, true, 10), MessageStep::Ignore));
    assert!(matches!(route_message(false, true, &vec![], me, false, 10), MessageStep::Moderate));
    assert!(matches!(route_message(false, false, &vec![3, 4], me, true, 10), MessageStep::Ignore));
    assert!(matches!(route_message(false, false, &vec![3, me], me, false, 10), MessageStep::Ignore));
    assert!(matches!(route_message(false, false, &vec![me], me, true, 10), MessageStep::Reply { history_limit: 10 }));
    assert!(matches!(route_message(false, false, &vec![me], me, true, 300), MessageStep::Reply { history_limit: 44 }));
}

#[test]
fn conversation_layout() {
    let history = vec![
        HistoryEntry { author_id: 10, author_name: "Bot".to_string(), content: "newest".to_string() },
        HistoryEntry { author_id: 5, author_name: "Ann".to_string(), content: "oldest".to_string() },
    ];
    let c = build_conversation(&"A pirate.".to_string(), 7, Some(1), 900, 5, &"Ann".to_string(), &"hi @bot".to_string(), &history, 10);
    assert_eq!(c.len(), 4);
    assert_eq!(c[0].role, "system");
    assert_eq!(c[0].content, "You are a Discord bot persona. Follow this persona/character strictly:\n\nA pirate.\n\nYou were just mentioned. Use the available tools to respond. Prefer `send_message` to reply. Only use moderation tools if the persona/context clearly justifies it. Current channel id: 7. Current guild id: 1. The triggering message id is: 900. The triggering user id is: 5.");
    assert_eq!((c[1].role.as_str(), c[1].content.as_str()), ("user", "Ann (id=5): oldest"));
    assert_eq!((c[2].role.as_str(), c[2].content.as_str()), ("assistant", "Bot (id=10): newest"));
    assert_eq!((c[3].role.as_str(), c[3].content.as_str()), ("user", "Ann (id=5): hi @bot"));
    let d = build_conversation(&String::new(), 7, None, 900, 5, &"Ann".to_string(), &"x".to_string(), &vec![], 10);
    assert!(d[0].content.contains("Current guild id: . The triggering"));
    assert_eq!(d.len(), 2);
}

#[test]
fn answer_steps() {
    let tools = AssistantMessage {
        content: Some("hi".to_string()),
        tool_calls: Some(vec![ToolCall { id: "c1".to_string(), call_type: "function".to_string(), function: FunctionCall { name: "react".to_string(), arguments: "{}".to_string() } }]),
    };
    assert!(matches!(answer_step(&tools), AnswerStep::RunTools));
    match answer_step(&AssistantMessage { content: Some("hello".to_string()), tool_calls: None }) {
        AnswerStep::Say { text } => assert_eq!(text, "hello"),
        _ => panic!(),
    }
    assert!(matches!(answer_step(&AssistantMessage { content: Some("  \n".to_string()), tool_calls: None }), AnswerStep::Nothing));
    assert!(matches!(answer_step(&AssistantMessage { content: None, tool_calls: None }), AnswerStep::Nothing));
}

fn args() -> ToolArgs {
    ToolArgs { content: None, emoji: None, user_id: None, reason: None, role_id: None, seconds: None }
}

#[test]
fn tool_plans() {
    assert_eq!(plan_tool("send_message", None, &args()).err().unwrap(), "not in a guild");
    let mut a = args();
    a.content = Some("ahoy".to_string());
    let p = plan_tool("send_message", Some(1), &a).unwrap();
    assert_eq!(p.report, "sent");
    assert!(matches!(p.action, ToolAction::Send { content: Some(ref c) } if c == "ahoy"));
    assert!(matches!(plan_tool("send_message", Some(1), &args()).unwrap().action, ToolAction::Send { content: None }));
    match plan_tool("react", Some(1), &args()).unwrap().action {
        ToolAction::React { emoji } => assert_eq!(emoji, "👍"),
        _ => panic!(),
    }
    assert_eq!(plan_tool("kick_user", Some(1), &args()).err().unwrap(), "bad user_id");
    let mut a = args();
    a.user_id = Some("77".to_string());
    match plan_tool("kick_user", Some(1), &a).unwrap() {
        p => {
            assert_eq!(p.report, "kicked");
            assert!(matches!(p.action, ToolAction::Kick { user_id: 77, ref reason } if reason.is_empty()));
        }
    }
    a.reason = Some("spam".to_string());
    assert!(matches!(plan_tool("ban_user", Some(1), &a).unwrap().action, ToolAction::Ban { user_id: 77, ref reason } if reason == "spam"));
    assert!(matches!(plan_tool("timeout_user", Some(1), &a).unwrap().action, ToolAction::Timeout { user_id: 77, seconds: 60 }));
    a.seconds = Some(5);
    assert_eq!(plan_tool("timeout_user", Some(1), &a).unwrap().report, "timed out");
    assert!(matches!(plan_tool("timeout_user", Some(1), &a).unwrap().action, ToolAction::Timeout { user_id: 77, seconds: 5 }));
    assert_eq!(plan_tool("add_role", Some(1), &a).err().unwrap(), "bad role_id");
    a.role_id = Some("88".to_string());
    assert!(matches!(plan_tool("add_role", Some(1), &a).unwrap().action, ToolAction::AddRole { user_id: 77, role_id: 88 }));
    assert_eq!(plan_tool("remove_role", Some(1), &a).unwrap().report, "role removed");
    a.user_id = Some("x".to_string());
    assert_eq!(plan_tool("remove_role", Some(1), &a).err().unwrap(), "bad user_id");
    assert_eq!(plan_tool("join_voice", Some(1), &a).err().unwrap(), "unknown tool: join_voice");
}
