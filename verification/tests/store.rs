use askkit::entity::{AgentProvider, ChatMessageStatus};
use askkit::error::AppError;
use askkit::store::{
    CreateAgent, CreateChat, CreateChatMessage, Store, UpdateAgent, UpdateAgentConfig,
    UpdateChatMessage, UpdateCurrentAgent, UpsertAgentConfig,
};

fn agent(store: &mut Store, id: u128, model: &str) {
    store
        .create_agent(CreateAgent {
            id,
            provider: AgentProvider::Google,
            model: model.to_string(),
        })
        .unwrap();
}

#[test]
fn create_and_get_agent() {
    let mut store = Store::new();
    agent(&mut store, 1, "gemini-2.5-flash");
    let row = store.get_agent(1).unwrap();
    assert_eq!(row.id, 1);
    assert_eq!(row.model, "gemini-2.5-flash");
    assert!(matches!(row.provider, AgentProvider::Google));
    assert!(store.get_agent(2).is_none());
}

#[test]
fn duplicate_agent_id_is_rejected() {
    let mut store = Store::new();
    agent(&mut store, 1, "a");
    let r = store.create_agent(CreateAgent {
        id: 1,
        provider: AgentProvider::Groq,
        model: "b".to_string(),
    });
    assert_eq!(r.err(), Some(AppError::Sqlx));
    assert_eq!(store.get_agents().len(), 1);
}

#[test]
fn update_agent_assigns_present_fields_only() {
    let mut store = Store::new();
    agent(&mut store, 1, "old-model");
    store.update_agent(
        1,
        UpdateAgent { id: 1, provider: None, model: Some("new-model".to_string()) },
    );
    let row = store.get_agent(1).unwrap();
    assert_eq!(row.model, "new-model");
    assert!(matches!(row.provider, AgentProvider::Google));
}

#[test]
fn current_agent_pointer() {
    let mut store = Store::new();
    assert!(store.get_current_agent().is_none());
    agent(&mut store, 7, "m");
    store.update_current_agent(UpdateCurrentAgent { agent_id: 7 });
    assert_eq!(store.get_current_agent().unwrap().id, 7);
    // Pointing at a missing agent resolves to none.
    store.update_current_agent(UpdateCurrentAgent { agent_id: 8 });
    assert!(store.get_current_agent().is_none());
}

#[test]
fn upsert_agent_config_inserts_then_updates() {
    let mut store = Store::new();
    agent(&mut store, 1, "m");
    let affected = store.upsert_agent_config(1, UpsertAgentConfig { api_key: Some("k1".into()) });
    assert_eq!(affected, 1);
    assert_eq!(store.get_agent_config(1).unwrap().api_key.as_deref(), Some("k1"));
    let affected = store.upsert_agent_config(1, UpsertAgentConfig { api_key: Some("k2".into()) });
    assert_eq!(affected, 1);
    assert_eq!(store.get_agent_config(1).unwrap().api_key.as_deref(), Some("k2"));
    assert_eq!(store.agent_configs.len(), 1);
}

#[test]
fn upsert_agent_config_is_idempotent() {
    let mut store = Store::new();
    agent(&mut store, 1, "m");
    let first = store.upsert_agent_config(1, UpsertAgentConfig { api_key: Some("key".into()) });
    let created_at = store.get_agent_config(1).unwrap().created_at;
    let second = store.upsert_agent_config(1, UpsertAgentConfig { api_key: Some("key".into()) });
    assert_eq!(first, 1);
    assert_eq!(second, 1);
    // The same single row, with the later-supplied value, not duplicated.
    assert_eq!(store.agent_configs.len(), 1);
    let cfg = store.get_agent_config(1).unwrap();
    assert_eq!(cfg.api_key.as_deref(), Some("key"));
    assert_eq!(cfg.created_at, created_at);
}

#[test]
fn upsert_with_no_fields_on_existing_row_touches_nothing() {
    let mut store = Store::new();
    agent(&mut store, 1, "m");
    store.upsert_agent_config(1, UpsertAgentConfig { api_key: Some("key".into()) });
    let affected = store.upsert_agent_config(1, UpsertAgentConfig { api_key: None });
    assert_eq!(affected, 0);
    assert_eq!(store.get_agent_config(1).unwrap().api_key.as_deref(), Some("key"));
}

#[test]
fn update_config_with_all_fields_none_is_noop() {
    let mut store = Store::new();
    agent(&mut store, 1, "m");
    store.upsert_agent_config(1, UpsertAgentConfig { api_key: Some("key".into()) });
    let affected = store.update_agent_config(1, UpdateAgentConfig { api_key: None });
    assert_eq!(affected, 0);
    assert_eq!(store.get_agent_config(1).unwrap().api_key.as_deref(), Some("key"));
}

#[test]
fn update_config_counts_affected_rows() {
    let mut store = Store::new();
    agent(&mut store, 1, "m");
    store.upsert_agent_config(1, UpsertAgentConfig { api_key: None });
    let affected = store.update_agent_config(1, UpdateAgentConfig { api_key: Some("k".into()) });
    assert_eq!(affected, 1);
    let affected = store.update_agent_config(99, UpdateAgentConfig { api_key: Some("k".into()) });
    assert_eq!(affected, 0);
}

#[test]
fn chat_messages_are_filtered_and_ordered() {
    let mut store = Store::new();
    store.create_chat(CreateChat { id: 1, title: "t".into() }).unwrap();
    for (id, chat_id, content) in [(10u128, 1u128, "a"), (11, 2, "x"), (12, 1, "b")] {
        store
            .create_chat_message(CreateChatMessage {
                id,
                chat_id,
                role: "user".into(),
                content: content.into(),
                status: ChatMessageStatus::Completed,
            })
            .unwrap();
    }
    let msgs = store.get_chat_messages(1);
    assert_eq!(msgs.len(), 2);
    assert_eq!(msgs[0].content, "a");
    assert_eq!(msgs[1].content, "b");
    assert!(msgs[0].created_at < msgs[1].created_at);
}

#[test]
fn update_chat_message_with_all_fields_none_is_noop() {
    let mut store = Store::new();
    store
        .create_chat_message(CreateChatMessage {
            id: 1,
            chat_id: 1,
            role: "user".into(),
            content: "hello".into(),
            status: ChatMessageStatus::Completed,
        })
        .unwrap();
    store.update_chat_message(1, UpdateChatMessage::default());
    let msgs = store.get_chat_messages(1);
    assert_eq!(msgs[0].content, "hello");
    assert!(matches!(msgs[0].status, ChatMessageStatus::Completed));
}

#[test]
fn update_chat_message_partial_fields() {
    let mut store = Store::new();
    store
        .create_chat_message(CreateChatMessage {
            id: 1,
            chat_id: 1,
            role: "model".into(),
            content: String::new(),
            status: ChatMessageStatus::Pending,
        })
        .unwrap();
    store.update_chat_message(
        1,
        UpdateChatMessage { role: None, content: Some("partial".into()), status: None },
    );
    let msgs = store.get_chat_messages(1);
    assert_eq!(msgs[0].content, "partial");
    assert!(matches!(msgs[0].status, ChatMessageStatus::Pending));
    store.update_chat_message(
        1,
        UpdateChatMessage { role: None, content: None, status: Some(ChatMessageStatus::Failed) },
    );
    let msgs = store.get_chat_messages(1);
    assert_eq!(msgs[0].content, "partial");
    assert!(matches!(msgs[0].status, ChatMessageStatus::Failed));
}

#[test]
fn seed_data_creates_stock_agents_once() {
    let mut store = Store::new();
    store.seed_data(1, 2, 3);
    assert_eq!(store.get_agents().len(), 3);
    assert_eq!(store.get_agent(1).unwrap().model, "gemini-2.5-pro");
    assert_eq!(store.get_agent(2).unwrap().model, "gemini-2.5-flash");
    assert_eq!(store.get_agent(3).unwrap().model, "gemini-2.5-flash-lite");
    store.seed_data(4, 5, 6);
    assert_eq!(store.get_agents().len(), 3);
}
