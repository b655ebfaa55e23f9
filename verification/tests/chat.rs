use askkit::agent::{AgentTextGenParams, AgentTextGenResult};
use askkit::chat::{
    consume_stream, create_chat, send_chat_message, send_chat_message_commit,
    send_chat_message_setup, Notification, StreamConsumer,
};
use askkit::cipher::KeyringAesGcmCipher;
use askkit::entity::{ChatMessageStatus, AgentProvider};
use askkit::error::AppError;
use askkit::store::{CreateAgent, CreateChatMessage, Store, UpdateCurrentAgent, UpsertAgentConfig};

fn cipher() -> KeyringAesGcmCipher {
    KeyringAesGcmCipher::from_key((100u8..132u8).collect())
}

/// A store with one Gemini agent set as current and a configured key.
fn configured_store(cipher: &KeyringAesGcmCipher) -> Store {
    let mut store = Store::new();
    store
        .create_agent(CreateAgent {
            id: 1,
            provider: AgentProvider::Google,
            model: "gemini-2.5-flash".into(),
        })
        .unwrap();
    store.update_current_agent(UpdateCurrentAgent { agent_id: 1 });
    let encrypted = cipher.encrypt_str_base64("api-key").unwrap();
    store.upsert_agent_config(1, UpsertAgentConfig { api_key: Some(encrypted) });
    store
}

fn ok(text: &str) -> Result<AgentTextGenResult, AppError> {
    Ok(AgentTextGenResult { text: text.into() })
}

#[test]
fn scenario_a_full_turn_completes() {
    let cipher = cipher();
    let mut store = configured_store(&cipher);
    let items = vec![ok("Hi"), ok(" there"), ok("!")];
    let (notifs, r) = send_chat_message(&mut store, &cipher, 50, "Hello", 100, 101, &items);
    assert_eq!(r, Ok(()));

    // One completed user message with the submitted content.
    let msgs = store.get_chat_messages(50);
    assert_eq!(msgs.len(), 2);
    assert_eq!(msgs[0].id, 100);
    assert_eq!(msgs[0].role, "user");
    assert_eq!(msgs[0].content, "Hello");
    assert!(matches!(msgs[0].status, ChatMessageStatus::Completed));

    // One model message, created pending, eventually completed with the
    // concatenated streamed text.
    assert_eq!(msgs[1].id, 101);
    assert_eq!(msgs[1].role, "model");
    assert_eq!(msgs[1].content, "Hi there!");
    assert!(matches!(msgs[1].status, ChatMessageStatus::Completed));

    // Notifications in order: user created, placeholder created (pending),
    // one chunk per fragment, then the terminal status change.
    assert_eq!(notifs.len(), 2 + 3 + 1);
    match &notifs[0] {
        Notification::ChatMessageCreated(m) => {
            assert_eq!(m.id, 100);
            assert!(matches!(m.status, ChatMessageStatus::Completed));
        }
        _ => panic!("expected user-created notification"),
    }
    match &notifs[1] {
        Notification::ChatMessageCreated(m) => {
            assert_eq!(m.id, 101);
            assert_eq!(m.content, "");
            assert!(matches!(m.status, ChatMessageStatus::Pending));
        }
        _ => panic!("expected placeholder-created notification"),
    }
    match &notifs[2] {
        Notification::ChatMessageResponseChunk(p) => {
            assert_eq!(p.id, 101);
            assert_eq!(p.text, "Hi");
        }
        _ => panic!("expected chunk notification"),
    }
    match &notifs[5] {
        Notification::ChatMessageStatusChanged(p) => {
            assert_eq!(p.message_id, 101);
            assert!(matches!(p.status, ChatMessageStatus::Completed));
        }
        _ => panic!("expected status-changed notification"),
    }
}

#[test]
fn scenario_b_failed_commit_rolls_back() {
    let cipher = cipher();
    let mut store = configured_store(&cipher);
    let (setup_notifs, setup) = send_chat_message_setup(&store, &cipher, 50, "Hello", 100);
    let turn = setup.unwrap();
    assert_eq!(setup_notifs.len(), 1);

    // Force the "transaction still referenced" condition: keep a repository
    // handle alive across the commit.
    let mut uow = turn.unit_of_work;
    let _still_alive = uow.chat_repo();
    let (commit_notifs, committed) =
        send_chat_message_commit(uow, &mut store, 50, 100, 101);
    assert_eq!(committed.err(), Some(AppError::TransactionInUse));

    // Two rollback notifications, one per optimistically announced message.
    assert_eq!(commit_notifs.len(), 3);
    match &commit_notifs[1] {
        Notification::ChatMessageRollback(p) => assert_eq!(p.message_id, 100),
        _ => panic!("expected rollback of the user message"),
    }
    match &commit_notifs[2] {
        Notification::ChatMessageRollback(p) => assert_eq!(p.message_id, 101),
        _ => panic!("expected rollback of the placeholder"),
    }

    // And no rows persisted.
    assert_eq!(store.get_chat_messages(50).len(), 0);
}

fn store_with_placeholder() -> Store {
    let mut store = Store::new();
    store
        .create_chat_message(CreateChatMessage {
            id: 9,
            chat_id: 5,
            role: "model".into(),
            content: String::new(),
            status: ChatMessageStatus::Pending,
        })
        .unwrap();
    store
}

#[test]
fn scenario_c_error_flushes_partial_text_and_fails() {
    let mut store = store_with_placeholder();
    let mut consumer = StreamConsumer::new();
    for text in ["Hel", "lo", " there"] {
        let frag = AgentTextGenResult { text: text.into() };
        consumer.on_fragment(&mut store, 5, 9, &frag);
        // Fewer than five fragments: nothing is force-flushed mid-stream.
        assert_eq!(store.get_chat_messages(5)[0].content, "");
    }
    consumer.on_error(&mut store, 9);
    let row = &store.get_chat_messages(5)[0];
    assert_eq!(row.content, "Hello there");
    assert!(matches!(row.status, ChatMessageStatus::Failed));
}

#[test]
fn scenario_c_via_consume_stream() {
    let mut store = store_with_placeholder();
    let items = vec![ok("Hel"), ok("lo"), ok(" there"), Err(AppError::HttpTimeout)];
    let notifs = consume_stream(&mut store, 5, 9, &items);
    // Three chunks, no status notification on the failure path.
    assert_eq!(notifs.len(), 3);
    assert!(notifs.iter().all(|n| matches!(n, Notification::ChatMessageResponseChunk(_))));
    let row = &store.get_chat_messages(5)[0];
    assert_eq!(row.content, "Hello there");
    assert!(matches!(row.status, ChatMessageStatus::Failed));
}

#[test]
fn scenario_d_checkpoints_every_fifth_fragment() {
    let mut store = store_with_placeholder();
    let mut consumer = StreamConsumer::new();
    let full = "abcdefghijkl"; // twelve one-character fragments
    let mut checkpoints = Vec::new();
    for (i, c) in full.chars().enumerate() {
        let frag = AgentTextGenResult { text: c.to_string() };
        let before = store.get_chat_messages(5)[0].content.clone();
        consumer.on_fragment(&mut store, 5, 9, &frag);
        let after = store.get_chat_messages(5)[0].content.clone();
        if before != after {
            checkpoints.push((i + 1, after));
        }
    }
    // Durable checkpoints at fragments 5 and 10 exactly.
    assert_eq!(
        checkpoints,
        vec![(5, "abcde".to_string()), (10, "abcdefghij".to_string())]
    );
    let notif = consumer.on_complete(&mut store, 5, 9);
    assert!(matches!(notif, Notification::ChatMessageStatusChanged(_)));
    let row = &store.get_chat_messages(5)[0];
    assert_eq!(row.content, full);
    assert!(matches!(row.status, ChatMessageStatus::Completed));
}

#[test]
fn exhaustion_on_checkpoint_boundary_skips_the_final_flush() {
    let mut store = store_with_placeholder();
    let items: Vec<_> = (0..10).map(|_| ok("x")).collect();
    let notifs = consume_stream(&mut store, 5, 9, &items);
    assert_eq!(notifs.len(), 11); // ten chunks + one status change
    let row = &store.get_chat_messages(5)[0];
    assert_eq!(row.content, "xxxxxxxxxx");
    assert!(matches!(row.status, ChatMessageStatus::Completed));
}

#[test]
fn empty_stream_completes_with_placeholder_content() {
    let mut store = store_with_placeholder();
    let items = Vec::new();
    let notifs = consume_stream(&mut store, 5, 9, &items);
    assert_eq!(notifs.len(), 1);
    let row = &store.get_chat_messages(5)[0];
    assert_eq!(row.content, "");
    assert!(matches!(row.status, ChatMessageStatus::Completed));
}

#[test]
fn turn_without_current_agent_is_fatal() {
    let cipher = cipher();
    let mut store = Store::new();
    let items = Vec::new();
    let (notifs, r) = send_chat_message(&mut store, &cipher, 1, "hi", 2, 3, &items);
    assert_eq!(r, Err(AppError::AgentRequired));
    assert!(notifs.is_empty());
}

#[test]
fn turn_without_secret_config_requires_params() {
    let cipher = cipher();
    let mut store = Store::new();
    store
        .create_agent(CreateAgent {
            id: 1,
            provider: AgentProvider::Google,
            model: "m".into(),
        })
        .unwrap();
    store.update_current_agent(UpdateCurrentAgent { agent_id: 1 });
    let items = Vec::new();
    let (notifs, r) = send_chat_message(&mut store, &cipher, 1, "hi", 2, 3, &items);
    assert_eq!(r, Err(AppError::AgentTextGenParamsRequired));
    // The user-created notification was already sent optimistically.
    assert_eq!(notifs.len(), 1);
    // But nothing was persisted.
    assert_eq!(store.get_chat_messages(1).len(), 0);
}

#[test]
fn setup_builds_params_from_history_plus_submission() {
    let cipher = cipher();
    let mut store = configured_store(&cipher);
    store
        .create_chat_message(CreateChatMessage {
            id: 70,
            chat_id: 50,
            role: "model".into(),
            content: "earlier reply".into(),
            status: ChatMessageStatus::Completed,
        })
        .unwrap();
    let (_notifs, setup) = send_chat_message_setup(&store, &cipher, 50, "follow-up", 100);
    let turn = setup.unwrap();
    match &turn.params {
        AgentTextGenParams::Google(p) => {
            assert_eq!(p.api_key, "api-key");
            assert_eq!(p.messages.len(), 2);
            assert_eq!(p.messages[0].role, "model");
            assert_eq!(p.messages[0].content, "earlier reply");
            assert_eq!(p.messages[1].role, "user");
            assert_eq!(p.messages[1].content, "follow-up");
        }
        _ => panic!("expected Google parameters"),
    }
}

#[test]
fn create_chat_slugs_the_title() {
    let mut store = Store::new();
    let id = create_chat(&mut store, 42, "Hello World, how are you?").unwrap();
    assert_eq!(id, 42);
    let chat = store.get_chat(42).unwrap();
    assert_eq!(chat.title, "hello-world-how-are-you");
}

#[test]
fn upsert_cmd_encrypts_before_storing() {
    let cipher = cipher();
    let mut store = Store::new();
    store
        .create_agent(CreateAgent { id: 1, provider: AgentProvider::Google, model: "m".into() })
        .unwrap();
    let affected = askkit::agent::upsert_agent_config_cmd(
        &mut store,
        &cipher,
        1,
        askkit::agent::UpsertAgentConfigCmd { api_key: Some("  sk-plain  ".into()) },
    )
    .unwrap();
    assert_eq!(affected, 1);
    let stored = store.get_agent_config(1).unwrap().api_key.clone().unwrap();
    // Never stored in plaintext; decrypts back to the trimmed key.
    assert!(stored != "sk-plain" && stored != "  sk-plain  ");
    assert_eq!(cipher.decrypt_base64_str(&stored).unwrap(), "sk-plain");
}

#[test]
fn upsert_cmd_blank_key_clears_with_empty_sentinel() {
    let cipher = cipher();
    let mut store = Store::new();
    askkit::agent::upsert_agent_config_cmd(
        &mut store,
        &cipher,
        1,
        askkit::agent::UpsertAgentConfigCmd { api_key: Some("   ".into()) },
    )
    .unwrap();
    assert_eq!(store.get_agent_config(1).unwrap().api_key.as_deref(), Some(""));
}

#[test]
fn upsert_cmd_without_key_keeps_existing_value() {
    let cipher = cipher();
    let mut store = Store::new();
    store.upsert_agent_config(1, UpsertAgentConfig { api_key: Some("ct".into()) });
    let affected = askkit::agent::upsert_agent_config_cmd(
        &mut store,
        &cipher,
        1,
        askkit::agent::UpsertAgentConfigCmd { api_key: None },
    )
    .unwrap();
    assert_eq!(affected, 0);
    assert_eq!(store.get_agent_config(1).unwrap().api_key.as_deref(), Some("ct"));
}
