//! Conversations, and what agents answer.

use kg_extract::backend::agent_cli::{AgentCli, AgentCliBackend};
use kg_extract::backend::llms_backend::{to_chat_message, ChatForm, LlmsBackend};
use kg_extract::backend::mock::MockBackend;
use kg_extract::backend::pi_agent::{extract_assistant_text, PiAgentBackend};
use kg_extract::backend::sdk_agent::{environment_of, provider_of, SdkAgentBackend};
use kg_extract::backend::{flatten_prompt, CompletionOptions, Message, ReplaySession, ToolInvocation};
use kg_extract::json::Json;

#[test]
fn replay_session_returns_canned_replies_in_order_and_grows_history() {
    let mut backend = MockBackend::new(vec!["first".into(), "second".into()]);
    let mut session = ReplaySession::new(Some("sys".into()));

    session.ask("turn one");
    let reply = backend.complete(&session.history);
    assert_eq!(reply, "first");
    session.answered(&reply);
    session.ask("turn two");
    let reply = backend.complete(&session.history);
    assert_eq!(reply, "second");
    session.answered(&reply);
    assert_eq!(session.history.len(), 5);
    assert_eq!(session.history[0].role, "system");
    assert_eq!(session.history[1].content, "turn one");
    assert_eq!(session.history[2].content, "first");
}

#[test]
fn accepts_recognizes_pi_agent_aliases() {
    for name in ["pi-agent", "pi_agent", "piagent", "pi", "PI-AGENT", "  Pi-Agent  "] {
        assert!(PiAgentBackend::accepts(name), "{name:?} should select pi-agent");
    }
    for name in ["minimaxcc", "glmcc", "mimocc", "pip", "", "agent"] {
        assert!(!PiAgentBackend::accepts(name), "{name:?} should not select pi-agent");
    }
}

#[test]
fn parses_final_assistant_message() {
    let stdout = [
        r#"{"type":"agent_start"}"#,
        r#"{"type":"assistant_text_delta","delta":"par"}"#,
        r#"{"type":"assistant_text_delta","delta":"tial"}"#,
        r#"{"type":"assistant_message","text":"the full answer"}"#,
        r#"{"type":"agent_end","ok":true}"#,
        "",
    ]
    .join("\n");
    assert_eq!(extract_assistant_text(&stdout).unwrap(), "the full answer");
}

#[test]
fn falls_back_to_concatenated_deltas_when_no_final_message() {
    let stdout = [
        r#"{"type":"agent_start"}"#,
        r#"{"type":"assistant_text_delta","delta":"hello "}"#,
        r#"{"type":"assistant_text_delta","delta":"world"}"#,
        r#"{"type":"agent_end","ok":true}"#,
        "",
    ]
    .join("\n");
    assert_eq!(extract_assistant_text(&stdout).unwrap(), "hello world");
}

#[test]
fn ignores_non_json_and_unknown_records() {
    let stdout = [
        "not json at all",
        r#"{"type":"tool_result","text":"ignored"}"#,
        "",
        r#"{"type":"assistant_message","text":"clean"}"#,
        "",
    ]
    .join("\n");
    assert_eq!(extract_assistant_text(&stdout).unwrap(), "clean");
}

#[test]
fn surfaces_error_record_as_err() {
    let stdout = [
        r#"{"type":"agent_start"}"#,
        r#"{"type":"error","message":"model stream failed"}"#,
        r#"{"type":"agent_end","ok":false}"#,
        "",
    ]
    .join("\n");
    let err = extract_assistant_text(&stdout).unwrap_err();
    assert!(err.contains("model stream failed"), "{err}");
}

#[test]
fn agent_end_not_ok_without_error_record_is_an_error() {
    let stdout = "{\"type\":\"agent_start\"}\n{\"type\":\"agent_end\",\"ok\":false}\n";
    assert!(extract_assistant_text(stdout).is_err());
}

#[test]
fn empty_output_is_an_error() {
    assert!(extract_assistant_text("").is_err());
    assert!(extract_assistant_text("   \n\n").is_err());
}

#[test]
fn empty_assistant_message_does_not_mask_a_provider_error() {
    let stdout = [
        r#"{"cwd":"/x","model":"MiniMax-M3-highspeed","type":"agent_start"}"#,
        r#"{"message":"http 404 Not Found: model `MiniMax-M3-highspeed` does not exist","type":"error"}"#,
        r#"{"text":"","type":"assistant_message"}"#,
        r#"{"ok":true,"type":"agent_end"}"#,
        "",
    ]
    .join("\n");
    let err = extract_assistant_text(&stdout).unwrap_err();
    assert!(err.contains("404"), "{err}");
}

#[test]
fn explicit_empty_message_without_error_is_ok_empty() {
    let stdout =
        "{\"type\":\"assistant_message\",\"text\":\"\"}\n{\"type\":\"agent_end\",\"ok\":true}\n";
    assert_eq!(extract_assistant_text(stdout).unwrap(), "");
}

#[test]
fn final_message_wins_over_earlier_error() {
    let stdout = [
        r#"{"type":"error","message":"transient"}"#,
        r#"{"type":"assistant_message","text":"recovered answer"}"#,
        "",
    ]
    .join("\n");
    assert_eq!(extract_assistant_text(&stdout).unwrap(), "recovered answer");
}

#[test]
fn a_failed_run_says_what_the_stream_said() {
    let b = PiAgentBackend::new();
    let stdout = "{\"type\":\"error\",\"message\":\"no such model\"}\n";
    let err = b.read_output(false, "exit status: 1", stdout, "").unwrap_err();
    assert!(err.contains("no such model"), "{err}");
    let ok = b.read_output(
        true,
        "exit status: 0",
        "{\"type\":\"assistant_message\",\"text\":\"hi there\"}\n",
        "",
    );
    assert_eq!(ok.unwrap(), "hi there");
    let err = b.read_output(false, "exit status: 2", "", "boom").unwrap_err();
    assert!(err.contains("boom"), "{err}");
}

#[test]
fn programs_are_known_by_their_names() {
    assert_eq!(AgentCli::parse("MiniMaxCC").unwrap().binary(), "minimaxcc");
    assert_eq!(AgentCli::parse("glmcc").unwrap().binary(), "glmcc");
    assert!(AgentCli::parse("nobody").is_none());
    let b = AgentCliBackend::new(AgentCli::parse("mimocc").unwrap());
    assert!(b.read_output(false, "exit status: 1", "", "no key").is_err());
    let _ = LlmsBackend::new();
}

#[test]
fn agents_know_their_services() {
    let (name, p) = provider_of(" GLMcc ").ok().unwrap();
    assert_eq!(name, "glmcc");
    assert_eq!(p.key_var, "GLM_API_KEY");
    let env = environment_of(&p, "SECRET");
    assert!(env.iter().any(|(_, v)| v == "SECRET"));
    assert!(env.iter().any(|(_, v)| v == "glm-5.1"));
    assert!(provider_of("nobody").is_err());
    assert!(SdkAgentBackend::for_agent("glmcc", None).is_err());
    assert!(SdkAgentBackend::for_agent("glmcc", Some("k")).is_ok());
}

#[test]
fn a_prompt_holds_every_message() {
    let prompt = flatten_prompt(&vec![
        Message::system("be terse"),
        Message::user("extract entities"),
    ]);
    assert!(prompt.contains("be terse"), "{prompt}");
    assert!(prompt.contains("extract entities"), "{prompt}");
    let prompt = flatten_prompt(&vec![
        Message::user("a"),
        Message::system("first"),
        Message::assistant("b"),
    ]);
    assert_eq!(prompt, "first\n\na\n\n[assistant]\nb\n\n");
}

#[test]
fn messages_take_the_form_of_what_they_hold() {
    match to_chat_message(&Message::tool_result("c1", "done")) {
        ChatForm::ToolResult(id, text) => assert_eq!((id.as_str(), text.as_str()), ("c1", "done")),
        _ => panic!("an answer to a call"),
    }
    match to_chat_message(&Message::user("hi")) {
        ChatForm::Plain(role, text) => assert_eq!((role.as_str(), text.as_str()), ("user", "hi")),
        _ => panic!("a plain message"),
    }
}

#[test]
fn calls_are_written_with_their_arguments_as_text() {
    let call = ToolInvocation::from_text("c1", "add_entity", "{\"name\":\"A\"}");
    assert_eq!(
        call.arguments,
        Json::Object(vec![("name".into(), Json::Text("A".into()))])
    );
    let v = call.to_openai_json();
    let f = v.get("function").unwrap();
    assert_eq!(f.get("name"), Some(&Json::Text("add_entity".into())));
    assert_eq!(f.get("arguments"), Some(&Json::Text("{\"name\":\"A\"}".into())));
    let bad = ToolInvocation::from_text("c2", "x", "not json");
    assert_eq!(bad.arguments, Json::Null);
}

#[test]
fn options_hold_what_they_are_made_of() {
    let o = CompletionOptions::of("m", 30, 6500);
    assert_eq!((o.model.as_str(), o.temperature_percent, o.max_tokens), ("m", 30, 6500));
}

#[test]
fn the_last_round_of_calls_comes_again() {
    let call = |id: &str, name: &str| ToolInvocation {
        id: id.into(),
        name: name.into(),
        arguments: Json::Null,
    };
    let mut b = MockBackend::new(vec![])
        .with_tool_rounds(vec![vec![call("a", "list_entities")], vec![call("b", "finish")]]);
    for id in ["a", "b", "b", "b"] {
        let r = b.complete_with_tools(&vec![]);
        assert_eq!(r.tool_calls.len(), 1);
        assert_eq!(r.tool_calls[0].id, id);
    }
    let mut none = MockBackend::new(vec![]);
    assert!(none.complete_with_tools(&vec![]).tool_calls.is_empty());
}
