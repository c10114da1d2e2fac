use gpt_copy_v4_backend::config::{AppConfig, BindAddr, EnvValues, IpAddress, DEFAULT_OPENROUTER_MODEL};
use gpt_copy_v4_backend::db::{title_from_content, title_update, ConversationRecord, MessageRecord};
use gpt_copy_v4_backend::error::AppError;
use gpt_copy_v4_backend::models::{
    ConversationDto, ConversationListResponse, CreateConversationResponse, MessageDto,
    MessageListResponse, SendMessageResponse,
};

fn record(id: &str, title_generated: bool) -> ConversationRecord {
    ConversationRecord {
        id: id.to_string(),
        title: "New chat".to_string(),
        title_generated,
        created_at: "t0".to_string(),
        updated_at: "t1".to_string(),
    }
}

fn message(id: &str, content: &str) -> MessageRecord {
    MessageRecord {
        id: id.to_string(),
        conversation_id: "c".to_string(),
        role: "user".to_string(),
        content: content.to_string(),
        created_at: "t2".to_string(),
    }
}

fn env(bind_addr: Option<BindAddr>) -> EnvValues {
    EnvValues {
        database_url: None,
        openrouter_api_key: None,
        openrouter_model: None,
        openrouter_base_url: None,
        frontend_origin: None,
        bind_addr,
    }
}

fn local(port: u16) -> BindAddr {
    BindAddr { ip: IpAddress::V4([127, 0, 0, 1]), port }
}

#[test]
fn title_comes_from_the_first_line() {
    assert_eq!(title_from_content("Hello\nworld"), "Hello");
    assert_eq!(title_from_content("  Plan a trip  \r\nDetails"), "Plan a trip");
    assert_eq!(title_from_content(""), "New chat");
    assert_eq!(title_from_content("\nsecond line"), "New chat");
    assert_eq!(title_from_content(" \t \nx"), "New chat");
    let long = "ab".repeat(40);
    assert_eq!(title_from_content(&long), "ab".repeat(30));
    assert_eq!(title_from_content(&"ü".repeat(61)), "ü".repeat(60));
}

#[test]
fn only_generated_titles_are_replaced() {
    assert_eq!(title_update(&record("c", false), "Hello"), None);
    assert_eq!(title_update(&record("c", true), "Hello\nthere"), Some("Hello".to_string()));
}

#[test]
fn records_become_dtos_in_order() {
    let listed = ConversationListResponse::from_records(vec![record("a", true), record("b", false)]);
    let ids: Vec<String> = listed.conversations.iter().map(|c| c.id.clone()).collect();
    assert_eq!(ids, vec!["a".to_string(), "b".to_string()]);
    assert_eq!(
        listed.conversations[0],
        ConversationDto {
            id: "a".to_string(),
            title: "New chat".to_string(),
            created_at: "t0".to_string(),
            updated_at: "t1".to_string(),
        }
    );
    let messages = MessageListResponse::from_records(vec![message("m1", "Hello"), message("m2", "Bye")]);
    assert_eq!(messages.messages.len(), 2);
    assert_eq!(messages.messages[1].content, "Bye");
    let sent = SendMessageResponse::from_records(record("a", false), message("m1", "Hi"), message("m2", "Yo"));
    assert_eq!(sent.user_message, MessageDto::from(message("m1", "Hi")));
    assert_eq!(sent.assistant_message.content, "Yo");
    let created = CreateConversationResponse::from_record(record("z", true));
    assert_eq!(created.conversation.id, "z");
}

#[test]
fn config_defaults_apply() {
    let config = AppConfig::from_env_values(env(Some(local(8080)))).unwrap();
    assert_eq!(config.database_url, "sqlite://backend/gpt-copy-v4.sqlite3");
    assert_eq!(config.openrouter_model, DEFAULT_OPENROUTER_MODEL);
    assert_eq!(config.openrouter_base_url, "https://openrouter.ai/api/v1");
    assert_eq!(config.frontend_origin, "http://localhost:3000");
    assert_eq!(config.openrouter_api_key, None);
    assert_eq!(config.bind_addr, local(8080));
}

#[test]
fn blank_api_key_counts_as_none() {
    let mut values = env(Some(local(1)));
    values.openrouter_api_key = Some("  \t".to_string());
    assert_eq!(AppConfig::from_env_values(values).unwrap().openrouter_api_key, None);
    let mut values = env(Some(local(1)));
    values.openrouter_api_key = Some(" key ".to_string());
    values.openrouter_model = Some("m".to_string());
    let config = AppConfig::from_env_values(values).unwrap();
    assert_eq!(config.openrouter_api_key, Some(" key ".to_string()));
    assert_eq!(config.openrouter_model, "m");
}

#[test]
fn bind_address_must_be_loopback() {
    match AppConfig::from_env_values(env(None)) {
        Err(AppError::Config(m)) => assert_eq!(m, "BIND_ADDR must be a valid socket address"),
        other => panic!("unexpected {:?}", other),
    }
    let public = BindAddr { ip: IpAddress::V4([0, 0, 0, 0]), port: 8080 };
    match AppConfig::from_env_values(env(Some(public))) {
        Err(e) => {
            assert_eq!(e.status_code(), 500);
            let detail = e.detail();
            assert_eq!(detail.code, "configuration_error");
            assert_eq!(detail.message, "BIND_ADDR must be a loopback address");
        }
        Ok(c) => panic!("accepted {:?}", c),
    }
    let v6 = BindAddr { ip: IpAddress::V6([0, 0, 0, 0, 0, 0, 0, 1]), port: 9 };
    assert!(AppConfig::from_env_values(env(Some(v6))).is_ok());
    let other_v6 = BindAddr { ip: IpAddress::V6([0, 0, 0, 0, 0, 0, 0, 2]), port: 9 };
    assert!(AppConfig::from_env_values(env(Some(other_v6))).is_err());
    let loop_net = BindAddr { ip: IpAddress::V4([127, 8, 9, 10]), port: 9 };
    assert!(AppConfig::from_env_values(env(Some(loop_net))).is_ok());
}

#[test]
fn error_details_and_statuses() {
    let cases = vec![
        (AppError::validation("v"), 400, "validation_error", "v"),
        (AppError::not_found("n"), 404, "not_found", "n"),
        (AppError::invalid_json("bad body".to_string()), 400, "invalid_json", "bad body"),
        (AppError::database("locked".to_string()), 500, "database_error", "database operation failed"),
        (AppError::config("c"), 500, "configuration_error", "c"),
    ];
    for (error, status, code, message) in cases {
        assert_eq!(error.status_code(), status);
        let detail = error.detail();
        assert_eq!(detail.code, code);
        assert_eq!(detail.message, message);
        assert!(detail.details.is_none());
    }
}
