use rust_claw::application::errors::AppError;
use rust_claw::application::services::agent_service::{
    chat_outcome, final_reply, new_session_id, new_session_request, run_identity, AgentEvent,
    AgentService, InitFailure, AGENT_DESCRIPTION, AGENT_INSTRUCTION, AGENT_NAME, APP_NAME,
    USER_ROLE,
};
use rust_claw::application::services::status_service::StatusService;
use rust_claw::config::{decimal_u16, parse_port, ConfigError, Settings};
use rust_claw::domain::models::health_status::HealthStatus;
use rust_claw::interfaces::endpoints::session::{
    chat_answered, session_created, ChatStream, StreamInput, DEFAULT_USER_ID,
};
use rust_claw::interfaces::endpoints::status::status_report;
use rust_claw::interfaces::errors::error_body;
use rust_claw::interfaces::schemas::response::Response;
use rust_claw::interfaces::schemas::sse::{adk_event_to_frames, SseFrame};

fn text_event(partial: bool, texts: &[&str]) -> AgentEvent {
    AgentEvent {
        partial,
        content: Some(texts.iter().map(|t| Some(t.to_string())).collect()),
    }
}

fn frame_pairs(frames: &[SseFrame]) -> Vec<(String, String)> {
    frames.iter().map(|f| (f.event.to_string(), f.data.clone())).collect()
}

fn json_object(entries: &[(&str, &str)]) -> String {
    let mut m = serde_json::Map::new();
    for (k, v) in entries {
        m.insert(k.to_string(), serde_json::Value::String(v.to_string()));
    }
    serde_json::Value::Object(m).to_string()
}

// ---- AppError ----

#[test]
fn app_error_codes_and_messages() {
    let cases = [
        (AppError::bad_request("bad"), 400u16, "bad"),
        (AppError::unauthorized("who"), 401, "who"),
        (AppError::not_found("gone"), 404, "gone"),
        (AppError::internal("boom"), 500, "boom"),
    ];
    for (err, code, msg) in cases.iter() {
        assert_eq!(err.status_code(), *code);
        assert_eq!(err.message(), *msg);
    }
    assert!(matches!(AppError::bad_request("x"), AppError::BadRequest(_)));
    assert!(matches!(AppError::internal("x"), AppError::Internal(_)));
}

#[test]
fn app_error_text() {
    assert_eq!(AppError::not_found("会话不存在").to_text(), "[404] 会话不存在");
    assert_eq!(AppError::internal("").to_text(), "[500] ");
}

#[test]
fn app_error_response_body() {
    let body = error_body(&AppError::unauthorized("no token"));
    assert_eq!(body.code, 401);
    assert_eq!(body.msg, "no token");
    let body = error_body(&AppError::internal("非法的会话标识"));
    assert_eq!(body.code, 500);
    assert_eq!(body.msg, "非法的会话标识");
}

// ---- health ----

#[test]
fn health_status_constructors() {
    let ok = HealthStatus::ok("api");
    assert_eq!(ok.service, "api");
    assert_eq!(ok.status, "ok");
    assert_eq!(ok.details, "");
    assert!(!ok.is_error());
    let err = HealthStatus::error("postgres", "connection refused");
    assert_eq!(err.service, "postgres");
    assert_eq!(err.status, "error");
    assert_eq!(err.details, "connection refused");
    assert!(err.is_error());
}

#[test]
fn status_service_checks_api() {
    let statuses = StatusService::new().check_all();
    assert_eq!(statuses.len(), 1);
    assert_eq!(statuses[0].service, "api");
    assert_eq!(statuses[0].status, "ok");
    assert_eq!(statuses[0].details, "");
}

#[test]
fn status_report_all_ok() {
    let r = status_report(StatusService::new().check_all());
    assert_eq!(r.code, 200);
    assert_eq!(r.msg, "success");
    assert_eq!(r.data.len(), 1);
    assert_eq!(r.data[0].status, "ok");
}

#[test]
fn status_report_with_failure() {
    let r = status_report(vec![HealthStatus::ok("api"), HealthStatus::error("redis", "timeout")]);
    assert_eq!(r.code, 503);
    assert_eq!(r.msg, "系统存在服务异常");
    assert_eq!(r.data.len(), 2);
    assert_eq!(r.data[1].details, "timeout");
}

#[test]
fn status_report_empty() {
    let r = status_report(vec![]);
    assert_eq!(r.code, 200);
    assert_eq!(r.msg, "success");
}

// ---- response envelope ----

#[test]
fn response_success_and_with() {
    let r = Response::success(7u32);
    assert_eq!((r.code, r.msg.as_str(), r.data), (200, "success", 7));
    let r = Response::with(418, "teapot", "tea");
    assert_eq!((r.code, r.msg.as_str(), r.data), (418, "teapot", "tea"));
}

#[test]
fn session_endpoint_answers() {
    let r = session_created("abc".to_string());
    assert_eq!(r.code, 200);
    assert_eq!(r.msg, "创建会话成功");
    assert_eq!(r.data.session_id, "abc");
    let r = chat_answered("abc".to_string(), "你好！".to_string());
    assert_eq!(r.code, 200);
    assert_eq!(r.msg, "success");
    assert_eq!(r.data.session_id, "abc");
    assert_eq!(r.data.reply, "你好！");
    assert_eq!(DEFAULT_USER_ID, "user");
    assert_eq!(APP_NAME, "rust_claw");
}

// ---- configuration ----

#[test]
fn parse_port_cases() {
    assert_eq!(parse_port("8000"), Some(8000));
    assert_eq!(parse_port("+80"), Some(80));
    assert_eq!(parse_port("0"), Some(0));
    assert_eq!(parse_port("00080"), Some(80));
    assert_eq!(parse_port("65535"), Some(65535));
    assert_eq!(parse_port("65536"), None);
    assert_eq!(parse_port("999999999999"), None);
    assert_eq!(parse_port(""), None);
    assert_eq!(parse_port("+"), None);
    assert_eq!(parse_port("-1"), None);
    assert_eq!(parse_port(" 80"), None);
    assert_eq!(parse_port("80 "), None);
    assert_eq!(parse_port("8o"), None);
    assert_eq!(parse_port("٣"), None);
}

#[test]
fn parse_port_agrees_with_std() {
    let samples = [
        "1", "12", "443", "8080", "65535", "65536", "70000", "+0", "++1", "+-1", "-0", "0x10", "1_000",
        "", "abc", "1e3", "００", "007", "99999", "+65535", "+65536",
    ];
    for s in samples.iter() {
        assert_eq!(parse_port(s), s.parse::<u16>().ok(), "{:?}", s);
    }
}

#[test]
fn decimal_text_of_ports() {
    for n in [0u16, 7, 10, 99, 100, 8000, 10000, 65535].iter() {
        assert_eq!(decimal_u16(*n), n.to_string());
    }
}

#[test]
fn port_text_roundtrip() {
    for n in [0u16, 1, 9, 10, 443, 8000, 65535].iter() {
        assert_eq!(parse_port(&decimal_u16(*n)), Some(*n));
    }
}

#[test]
fn settings_defaults() {
    let s = Settings::from_vars(None, None, None, None, None).unwrap();
    assert_eq!(s.env, "development");
    assert_eq!(s.log_level, "info");
    assert_eq!(s.host, "127.0.0.1");
    assert_eq!(s.port, 8000);
    assert_eq!(s.deepseek_api_key, None);
    assert_eq!(s.listen_address(), "127.0.0.1:8000");
}

#[test]
fn settings_from_values() {
    let s = Settings::from_vars(
        Some("production".to_string()),
        Some("DEBUG".to_string()),
        Some("0.0.0.0".to_string()),
        Some("9000".to_string()),
        Some("sk-test".to_string()),
    )
    .unwrap();
    assert_eq!(s.env, "production");
    assert_eq!(s.log_level, "DEBUG");
    assert_eq!(s.host, "0.0.0.0");
    assert_eq!(s.port, 9000);
    assert_eq!(s.listen_address(), "0.0.0.0:9000");
    assert_eq!(s.require_api_key(), Ok("sk-test".to_string()));
}

#[test]
fn settings_invalid_port() {
    let r = Settings::from_vars(None, None, None, Some("http".to_string()), None);
    assert!(matches!(r, Err(ConfigError::InvalidPort)));
    assert_eq!(ConfigError::InvalidPort.message(), "环境变量 PORT 不是合法端口号");
    let r = Settings::from_vars(None, None, None, Some("70000".to_string()), None);
    assert!(matches!(r, Err(ConfigError::InvalidPort)));
}

#[test]
fn settings_missing_api_key() {
    let s = Settings::from_vars(None, None, None, None, None).unwrap();
    assert_eq!(s.require_api_key(), Err(ConfigError::MissingApiKey));
    assert_eq!(
        ConfigError::MissingApiKey.message(),
        "缺少环境变量 DEEPSEEK_API_KEY，无法初始化 Agent 服务"
    );
}

// ---- identities ----

#[test]
fn run_identity_accepts_valid_ids() {
    assert!(run_identity("session-abc-123", DEFAULT_USER_ID).is_ok());
    assert!(run_identity(&"s".repeat(512), "tenant:alice@example.com").is_ok());
}

#[test]
fn run_identity_refuses_bad_user() {
    let err = run_identity("s1", "").unwrap_err();
    assert!(matches!(err, AppError::Internal(_)));
    assert_eq!(err.message(), "非法的用户标识");
    // the user id is checked before the session id
    let err = run_identity("", "a\0b").unwrap_err();
    assert_eq!(err.message(), "非法的用户标识");
}

#[test]
fn run_identity_refuses_bad_session() {
    for bad in ["".to_string(), "x\0y".to_string(), "s".repeat(513), "中".repeat(171)].iter() {
        let err = run_identity(bad, "user").unwrap_err();
        assert_eq!(err.status_code(), 500);
        assert_eq!(err.message(), "非法的会话标识");
    }
    // 170 three-byte characters are 510 bytes: accepted
    assert!(run_identity(&"中".repeat(170), "user").is_ok());
}

#[test]
fn new_session_ids_are_uuids_and_accepted() {
    let a = new_session_id();
    let b = new_session_id();
    assert_eq!(a.len(), 36);
    assert!(a.chars().all(|c| c.is_ascii_digit() || ('a'..='f').contains(&c) || c == '-'));
    assert_ne!(a, b);
    assert!(run_identity(&a, DEFAULT_USER_ID).is_ok());
}

// ---- events and replies ----

#[test]
fn event_text_joins_text_parts() {
    let e = AgentEvent { partial: false, content: Some(vec![Some("你".to_string()), None, Some("好".to_string())]) };
    assert_eq!(e.text(), "你好");
    let e = AgentEvent { partial: false, content: None };
    assert_eq!(e.text(), "");
}

#[test]
fn final_reply_skips_partial_chunks() {
    let events = vec![
        text_event(true, &["Hel"]),
        text_event(true, &["lo"]),
        text_event(false, &["Hello"]),
        AgentEvent { partial: false, content: None },
        text_event(false, &[", ", "world"]),
    ];
    assert_eq!(final_reply(&events), "Hello, world");
    assert_eq!(final_reply(&vec![]), "");
    assert_eq!(final_reply(&vec![text_event(true, &["x"])]), "");
}

#[test]
fn final_reply_concatenates_stretches() {
    let a = vec![text_event(false, &["ab"]), text_event(true, &["zz"])];
    let b = vec![text_event(false, &["cd"])];
    let mut ab = a.clone();
    ab.extend(b.clone());
    assert_eq!(final_reply(&ab), format!("{}{}", final_reply(&a), final_reply(&b)));
}

// ---- SSE frames ----

#[test]
fn partial_event_is_delta_frame() {
    let frames = adk_event_to_frames(&text_event(true, &["He", "llo"]));
    assert_eq!(
        frame_pairs(&frames),
        vec![("delta".to_string(), "{\"text\":\"Hello\"}".to_string())]
    );
    assert_eq!(frames[0].data, json_object(&[("text", "Hello")]));
}

#[test]
fn final_event_is_message_frame() {
    let frames = adk_event_to_frames(&text_event(false, &["全文"]));
    assert_eq!(
        frame_pairs(&frames),
        vec![("message".to_string(), "{\"role\":\"assistant\",\"text\":\"全文\"}".to_string())]
    );
    assert_eq!(frames[0].data, json_object(&[("role", "assistant"), ("text", "全文")]));
}

#[test]
fn event_without_text_has_no_frames() {
    assert!(adk_event_to_frames(&AgentEvent { partial: true, content: None }).is_empty());
    assert!(adk_event_to_frames(&AgentEvent { partial: false, content: Some(vec![None]) }).is_empty());
    assert!(adk_event_to_frames(&text_event(false, &[""])).is_empty());
}

#[test]
fn frame_text_is_json_escaped() {
    let frames = adk_event_to_frames(&text_event(true, &["say \"hi\"\n\\"]));
    assert_eq!(frames[0].data, "{\"text\":\"say \\\"hi\\\"\\n\\\\\"}");
    assert_eq!(frames[0].data, json_object(&[("text", "say \"hi\"\n\\")]));
    let err = SseFrame::error("bad \"x\"");
    assert_eq!(err.event, "error");
    assert_eq!(err.data, "{\"error\":\"bad \\\"x\\\"\"}");
}

#[test]
fn error_and_done_frames() {
    let e = SseFrame::error("timeout");
    assert_eq!((e.event, e.data.as_str()), ("error", "{\"error\":\"timeout\"}"));
    let d = SseFrame::done();
    assert_eq!((d.event, d.data.as_str()), ("done", "{}"));
}

// ---- streaming chat ----

fn run_stream(inputs: Vec<StreamInput>) -> Vec<(String, String)> {
    let mut stream = ChatStream::new();
    let mut out = Vec::new();
    for input in inputs {
        out.extend(frame_pairs(&stream.step(input)));
    }
    out
}

#[test]
fn stream_of_events_then_end() {
    let out = run_stream(vec![
        StreamInput::Event(text_event(true, &["Hi"])),
        StreamInput::Event(text_event(true, &[" there"])),
        StreamInput::Event(text_event(false, &["Hi there"])),
        StreamInput::End,
    ]);
    let events: Vec<&str> = out.iter().map(|(e, _)| e.as_str()).collect();
    assert_eq!(events, vec!["delta", "delta", "message", "done"]);
    assert_eq!(out[3].1, "{}");
}

#[test]
fn stream_failure_sends_error_then_done() {
    let mut stream = ChatStream::new();
    assert!(!stream.is_finished());
    let frames = stream.step(StreamInput::Event(text_event(true, &["x"])));
    assert_eq!(frames.len(), 1);
    let frames = stream.step(StreamInput::Failure("model unavailable".to_string()));
    assert_eq!(
        frame_pairs(&frames),
        vec![
            ("error".to_string(), "{\"error\":\"model unavailable\"}".to_string()),
            ("done".to_string(), "{}".to_string()),
        ]
    );
    assert!(stream.is_finished());
    assert!(stream.step(StreamInput::Event(text_event(false, &["late"]))).is_empty());
    assert!(stream.step(StreamInput::End).is_empty());
}

#[test]
fn stream_done_sent_once_and_last() {
    let out = run_stream(vec![
        StreamInput::Event(text_event(false, &["a"])),
        StreamInput::End,
        StreamInput::End,
        StreamInput::Failure("x".to_string()),
    ]);
    let dones = out.iter().filter(|(e, _)| e == "done").count();
    assert_eq!(dones, 1);
    assert_eq!(out.last().unwrap().0, "done");
    let out = run_stream(vec![StreamInput::Event(text_event(false, &["a"]))]);
    assert!(out.iter().all(|(e, _)| e != "done"));
}

#[test]
fn stream_messages_match_chat_reply() {
    let events = vec![
        text_event(true, &["Hel"]),
        text_event(false, &["Hello"]),
        text_event(false, &[""]),
        text_event(true, &["!"]),
        text_event(false, &["!"]),
    ];
    let out = run_stream(events.iter().cloned().map(StreamInput::Event).collect());
    let messages: Vec<String> =
        out.iter().filter(|(e, _)| e == "message").map(|(_, d)| d.clone()).collect();
    assert_eq!(
        messages,
        vec![
            json_object(&[("role", "assistant"), ("text", "Hello")]),
            json_object(&[("role", "assistant"), ("text", "!")]),
        ]
    );
    assert_eq!(final_reply(&events), "Hello!");
}

#[test]
fn run_identity_keeps_user_and_session_apart() {
    let (user, session) = run_identity("session-1", "alice").unwrap();
    assert_eq!(user.as_str(), "alice");
    assert_eq!(session.as_str(), "session-1");
}

#[test]
fn session_ids_have_uuid_v4_shape() {
    for _ in 0..20 {
        let id: Vec<char> = new_session_id().chars().collect();
        assert_eq!(id.len(), 36);
        for (i, c) in id.iter().enumerate() {
            if [8, 13, 18, 23].contains(&i) {
                assert_eq!(*c, '-');
            } else {
                assert!(c.is_ascii_digit() || ('a'..='f').contains(c));
            }
        }
        assert_eq!(id[14], '4');
        assert!(['8', '9', 'a', 'b'].contains(&id[19]));
    }
}

#[test]
fn session_request_fields() {
    let req = new_session_request("user");
    assert_eq!(req.app_name, "rust_claw");
    assert_eq!(req.user_id, "user");
    assert_eq!(req.session_id.len(), 36);
    assert!(run_identity(&req.session_id, &req.user_id).is_ok());
}

#[test]
fn agent_service_needs_api_key() {
    let settings = Settings::from_vars(None, None, None, None, None).unwrap();
    match AgentService::new(&settings) {
        Err(InitFailure::Config(e)) => assert_eq!(e, ConfigError::MissingApiKey),
        _ => panic!("expected the missing key to be reported"),
    }
    let err = AgentService::new(&settings).err().unwrap();
    assert_eq!(err.message(), "缺少环境变量 DEEPSEEK_API_KEY，无法初始化 Agent 服务");
}

#[test]
fn agent_service_builds_with_api_key() {
    let settings =
        Settings::from_vars(None, None, None, None, Some("sk-test".to_string())).unwrap();
    match AgentService::new(&settings) {
        Ok(service) => {
            let copy = service.clone();
            assert!(std::sync::Arc::ptr_eq(&copy.session_service, &service.session_service));
        }
        Err(InitFailure::Model(_)) => {}
        Err(e) => panic!("unexpected failure: {}", e.message()),
    }
}

#[test]
fn init_failure_messages() {
    assert_eq!(
        InitFailure::Config(ConfigError::MissingApiKey).message(),
        "缺少环境变量 DEEPSEEK_API_KEY，无法初始化 Agent 服务"
    );
}

#[test]
fn control_characters_are_escaped_as_serde_json_does() {
    let text = "a\u{1}\u{8}\t\n\u{b}\u{c}\r\u{1f}\u{7f}\"\\中/";
    let frames = adk_event_to_frames(&text_event(true, &[text]));
    assert_eq!(
        frames[0].data,
        "{\"text\":\"a\\u0001\\b\\t\\n\\u000b\\f\\r\\u001f\u{7f}\\\"\\\\中/\"}"
    );
    assert_eq!(frames[0].data, json_object(&[("text", text)]));
}

#[test]
fn failed_model_setup_is_the_model_failure() {
    let err = AgentService::from_model(Err(adk_rust::AdkError::model("no client"))).err().unwrap();
    assert!(matches!(err, InitFailure::Model(_)));
    assert_eq!(err.message(), "初始化 DeepSeek 模型失败");
    assert_eq!(InitFailure::Agent(adk_rust::AdkError::model("x")).message(), "构建 LLM 智能体失败");
    assert_eq!(InitFailure::Runner(adk_rust::AdkError::model("x")).message(), "构建 Agent Runner 失败");
}

#[test]
fn agent_constants() {
    assert_eq!(AGENT_NAME, "assistant");
    assert_eq!(AGENT_DESCRIPTION, "通用 AI 助手");
    assert_eq!(AGENT_INSTRUCTION, "你是一个乐于助人的 AI 助手，请简洁准确地回答问题。");
    assert_eq!(USER_ROLE, "user");
}

#[test]
fn chat_outcome_cases() {
    let events = vec![text_event(false, &["hi"]), text_event(true, &["x"])];
    assert_eq!(chat_outcome(&events, false).unwrap(), "hi");
    let err = chat_outcome(&events, true).unwrap_err();
    assert!(matches!(err, AppError::Internal(_)));
    assert_eq!(err.message(), "读取 Agent 事件失败");
}

#[test]
fn feed_all_matches_step_by_step() {
    let inputs = vec![
        StreamInput::Event(text_event(true, &["a"])),
        StreamInput::Event(text_event(false, &["ab"])),
        StreamInput::Failure("lost".to_string()),
        StreamInput::Event(text_event(false, &["late"])),
        StreamInput::End,
    ];
    let mut stream = ChatStream::new();
    let all = frame_pairs(&stream.feed_all(inputs.clone()));
    assert!(stream.is_finished());
    assert_eq!(all, run_stream(inputs));
    let events: Vec<&str> = all.iter().map(|(e, _)| e.as_str()).collect();
    assert_eq!(events, vec!["delta", "message", "error", "done"]);
    let mut open = ChatStream::new();
    assert!(open.feed_all(vec![]).is_empty());
    assert!(!open.is_finished());
}
