use gpt_copy_v4_backend::db::{ConversationRecord, MessageRecord};
use gpt_copy_v4_backend::error::AppError;
use gpt_copy_v4_backend::models::{MessageDto, StreamEvent};
use gpt_copy_v4_backend::openrouter::ChatProviderError;
use gpt_copy_v4_backend::routes::{
    check_frontend_origin, ensure_conversation, prepare_provider_turn, validate_message,
    validate_title, StreamTurn,
};

fn conversation(title_generated: bool) -> ConversationRecord {
    ConversationRecord {
        id: "c1".to_string(),
        title: "New chat".to_string(),
        title_generated,
        created_at: "2024-01-01T00:00:00+00:00".to_string(),
        updated_at: "2024-01-01T00:00:00+00:00".to_string(),
    }
}

fn message(id: &str, role: &str, content: &str) -> MessageRecord {
    MessageRecord {
        id: id.to_string(),
        conversation_id: "c1".to_string(),
        role: role.to_string(),
        content: content.to_string(),
        created_at: "2024-01-01T00:00:00+00:00".to_string(),
    }
}

#[test]
fn validation_errors_are_structured() {
    let error = validate_title(Some("   ".to_string())).unwrap_err();
    assert_eq!(error.status_code(), 400);
    let body = error.body();
    assert_eq!(body.error.code, "validation_error");
    assert!(body.error.message.contains("title"));
    assert!(body.error.details.is_none());
}

#[test]
fn missing_title_is_generated() {
    assert_eq!(validate_title(None).unwrap(), ("New chat".to_string(), true));
}

#[test]
fn given_title_is_trimmed() {
    assert_eq!(
        validate_title(Some("  Persistence \n".to_string())).unwrap(),
        ("Persistence".to_string(), false)
    );
}

#[test]
fn title_length_is_counted_in_characters() {
    let ok = "é".repeat(120);
    assert_eq!(validate_title(Some(ok.clone())).unwrap(), (ok, false));
    match validate_title(Some("a".repeat(121))) {
        Err(AppError::Validation(m)) => assert_eq!(m, "title cannot exceed 120 characters"),
        other => panic!("unexpected {:?}", other),
    }
    match validate_title(Some("\u{3000}\t".to_string())) {
        Err(AppError::Validation(m)) => assert_eq!(m, "title cannot be blank"),
        other => panic!("unexpected {:?}", other),
    }
}

#[test]
fn accepted_title_is_accepted_again_unchanged() {
    let (t, generated) = validate_title(Some("\u{a0} Plans \u{2003}".to_string())).unwrap();
    assert!(!generated);
    assert_eq!(t, "Plans");
    assert_eq!(validate_title(Some(t.clone())).unwrap(), (t, false));
}

#[test]
fn message_content_is_validated() {
    assert_eq!(validate_message("  Hello \n".to_string()).unwrap(), "Hello");
    match validate_message(" \r\n ".to_string()) {
        Err(AppError::Validation(m)) => assert_eq!(m, "message content cannot be blank"),
        other => panic!("unexpected {:?}", other),
    }
    match validate_message("x".repeat(8001)) {
        Err(AppError::Validation(m)) => {
            assert_eq!(m, "message content cannot exceed 8000 characters")
        }
        other => panic!("unexpected {:?}", other),
    }
    let longest = "x".repeat(8000);
    assert_eq!(validate_message(format!(" {longest} ")).unwrap(), longest);
    let accepted = validate_message("\tHi there\t".to_string()).unwrap();
    assert_eq!(validate_message(accepted.clone()).unwrap(), accepted);
}

#[test]
fn missing_conversation_is_not_found() {
    let error = ensure_conversation(None).unwrap_err();
    assert_eq!(error.status_code(), 404);
    let detail = error.detail();
    assert_eq!(detail.code, "not_found");
    assert_eq!(detail.message, "conversation not found");
    assert_eq!(ensure_conversation(Some(conversation(false))).unwrap(), conversation(false));
}

#[test]
fn provider_turn_keeps_history_in_order() {
    let existing = vec![message("m1", "user", "Hello"), message("m2", "assistant", "Hi!")];
    let turn = prepare_provider_turn(conversation(true), existing, "How are you?");
    assert_eq!(turn.conversation, conversation(true));
    let pairs: Vec<(String, String)> = turn
        .provider_messages
        .iter()
        .map(|m| (m.role.clone(), m.content.clone()))
        .collect();
    assert_eq!(
        pairs,
        vec![
            ("user".to_string(), "Hello".to_string()),
            ("assistant".to_string(), "Hi!".to_string()),
            ("user".to_string(), "How are you?".to_string()),
        ]
    );
}

#[test]
fn frontend_origin_must_fit_in_a_header() {
    assert!(check_frontend_origin("http://localhost:3000").is_ok());
    assert!(check_frontend_origin("http://\tlocalhost").is_ok());
    match check_frontend_origin("http://local\nhost") {
        Err(AppError::Config(m)) => assert_eq!(m, "FRONTEND_ORIGIN must be a valid HTTP origin"),
        other => panic!("unexpected {:?}", other),
    }
    assert!(check_frontend_origin("bad\u{7f}").is_err());
}

#[test]
fn mocked_provider_stream_persists_assistant_message() {
    let (mut turn, first) = StreamTurn::start(message("u1", "user", "Stream please"));
    assert_eq!(
        first,
        StreamEvent::UserMessage {
            message: MessageDto::from(message("u1", "user", "Stream please"))
        }
    );
    let e1 = turn.on_chunk("mock ".to_string());
    let e2 = turn.on_chunk("stream".to_string());
    assert_eq!(e1, StreamEvent::Chunk { content: "mock ".to_string() });
    assert_eq!(e2, StreamEvent::Chunk { content: "stream".to_string() });
    assert_eq!(turn.assistant_content(), "mock stream");
    let stored = message("a1", "assistant", turn.assistant_content());
    let last = turn.on_saved(Ok(stored.clone()));
    assert_eq!(
        last,
        vec![
            StreamEvent::AssistantMessage { message: MessageDto::from(stored) },
            StreamEvent::Done
        ]
    );
}

#[test]
fn provider_failure_ends_the_stream_with_its_public_message() {
    let (mut turn, _) = StreamTurn::start(message("u1", "user", "Hi"));
    turn.on_chunk("partial".to_string());
    let event = turn.on_provider_error(&ChatProviderError::Request("connection reset".to_string()));
    assert_eq!(
        event,
        StreamEvent::Error {
            code: "provider_error".to_string(),
            message: "OpenRouter request failed".to_string()
        }
    );
    assert_eq!(turn.assistant_content(), "partial");
}

#[test]
fn failed_save_ends_the_stream_with_an_error() {
    let (mut turn, _) = StreamTurn::start(message("u1", "user", "Hi"));
    turn.on_chunk("answer".to_string());
    let events = turn.on_saved(Err(AppError::database("disk I/O error".to_string())));
    assert_eq!(
        events,
        vec![StreamEvent::Error {
            code: "database_error".to_string(),
            message: "database operation failed".to_string()
        }]
    );
}
