use askkit::entity::ChatMessageStatus;
use askkit::error::AppError;
use askkit::store::{CreateChatMessage, Store};
use askkit::unit_of_work::UnitOfWork;

fn msg(id: u128, content: &str) -> CreateChatMessage {
    CreateChatMessage {
        id,
        chat_id: 1,
        role: "user".into(),
        content: content.into(),
        status: ChatMessageStatus::Completed,
    }
}

#[test]
fn commit_applies_journalled_writes() {
    let mut store = Store::new();
    let mut uow = UnitOfWork::create(&store);
    let handle = uow.chat_repo();
    uow.create_chat_message(&handle, &store, msg(1, "first")).unwrap();
    uow.create_chat_message(&handle, &store, msg(2, "second")).unwrap();
    // Nothing is durable before commit.
    assert_eq!(store.get_chat_messages(1).len(), 0);
    uow.release_chat_repo(handle);
    uow.commit(&mut store).unwrap();
    let msgs = store.get_chat_messages(1);
    assert_eq!(msgs.len(), 2);
    assert_eq!(msgs[0].content, "first");
    assert_eq!(msgs[1].content, "second");
}

#[test]
fn commit_fails_while_a_repo_handle_is_alive() {
    let mut store = Store::new();
    let mut uow = UnitOfWork::create(&store);
    let handle = uow.chat_repo();
    uow.create_chat_message(&handle, &store, msg(1, "first")).unwrap();
    // The handle was never released: the transaction is still referenced.
    let r = uow.commit(&mut store);
    assert_eq!(r, Err(AppError::TransactionInUse));
    assert_eq!(store.get_chat_messages(1).len(), 0);
}

#[test]
fn agent_handle_also_blocks_commit() {
    let mut store = Store::new();
    let mut uow = UnitOfWork::create(&store);
    let _handle = uow.agent_repo();
    let r = uow.commit(&mut store);
    assert_eq!(r, Err(AppError::TransactionInUse));
}

#[test]
fn dropping_the_unit_of_work_discards_the_journal() {
    let mut store = Store::new();
    {
        let mut uow = UnitOfWork::create(&store);
        let handle = uow.chat_repo();
        uow.create_chat_message(&handle, &store, msg(1, "ghostly")).unwrap();
        uow.release_chat_repo(handle);
        // No commit: implicit rollback on drop.
    }
    assert_eq!(store.get_chat_messages(1).len(), 0);
}

#[test]
fn duplicate_id_is_rejected_against_store_and_journal() {
    let mut store = Store::new();
    store.create_chat_message(msg(1, "durable")).unwrap();
    let mut uow = UnitOfWork::create(&store);
    let handle = uow.chat_repo();
    assert_eq!(
        uow.create_chat_message(&handle, &store, msg(1, "dup")).err(),
        Some(AppError::Sqlx)
    );
    uow.create_chat_message(&handle, &store, msg(2, "fresh")).unwrap();
    assert_eq!(
        uow.create_chat_message(&handle, &store, msg(2, "dup-in-journal")).err(),
        Some(AppError::Sqlx)
    );
    uow.release_chat_repo(handle);
    uow.commit(&mut store).unwrap();
    assert_eq!(store.chat_messages.len(), 2);
}

#[test]
fn transactional_read_sees_the_store() {
    let mut store = Store::new();
    store.seed_data(1, 2, 3);
    store.update_current_agent(askkit::store::UpdateCurrentAgent { agent_id: 2 });
    let mut uow = UnitOfWork::create(&store);
    let handle = uow.agent_repo();
    let current = uow.get_current_agent(&handle, &store).unwrap();
    assert_eq!(current.id, 2);
    uow.release_agent_repo(handle);
}
