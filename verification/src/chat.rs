use vstd::prelude::*;

use crate::agent::{
    chat_history, google_history, groq_history, items_view, user_message_view, Agent,
    AgentTextGenParams, AgentTextGenParamsApi, AgentTextGenResult, stored_ciphertext,
};
use crate::cipher::{decrypt_b64_spec, KeyringAesGcmCipher};
use crate::entity::{
    AgentProvider, AgentRowView, ChatMessageRow, ChatMessageRowView, ChatMessageStatus,
    ChatRowView,
};
use crate::error::AppError;
use crate::store::{
    agent_with_id, chat_with_id, created_message_view, first_match, has_match, message_with_id,
    next_clock_spec, CreateChat, CreateChatMessage, Store, StoreView,
};
use crate::unit_of_work::{apply_journal, UnitOfWork};

verus! {

/// What `slug::slugify` returns: the result depends on the characters alone.
pub uninterp spec fn slug_of(s: Seq<char>) -> Seq<char>;

/// Relies on `slug::slugify`: derives the human-readable, URL-safe title
/// from a chat's first message.
#[verifier::external_body]
fn slugify(s: &str) -> (r: String)
    ensures
        r@ == slug_of(s@),
{
    slug::slugify(s)
}

// ---------------------------------------------------------------------------
// Notifications: what the UI shell is told, as data. Delivery is the shell's
// concern and is best-effort; the library only decides what to say and when.
// ---------------------------------------------------------------------------

pub struct ChatMessageResponseChunkPayload {
    pub chat_id: u128,
    pub id: u128,
    pub text: String,
}

pub struct ChatMessageRollbackPayload {
    pub chat_id: u128,
    pub message_id: u128,
}

pub struct ChatMessageStatusChangedPayload {
    pub chat_id: u128,
    pub message_id: u128,
    pub status: ChatMessageStatus,
}

pub enum Notification {
    ChatMessageCreated(ChatMessageRow),
    ChatMessageResponseChunk(ChatMessageResponseChunkPayload),
    ChatMessageStatusChanged(ChatMessageStatusChangedPayload),
    ChatMessageRollback(ChatMessageRollbackPayload),
}

#[verifier::ext_equal]
pub enum NotificationView {
    Created(ChatMessageRowView),
    Chunk { chat_id: int, id: int, text: Seq<char> },
    StatusChanged { chat_id: int, message_id: int, status: ChatMessageStatus },
    Rollback { chat_id: int, message_id: int },
}

impl View for Notification {
    type V = NotificationView;

    open spec fn view(&self) -> NotificationView {
        match self {
            Notification::ChatMessageCreated(m) => NotificationView::Created(m@),
            Notification::ChatMessageResponseChunk(p) => NotificationView::Chunk {
                chat_id: p.chat_id as int,
                id: p.id as int,
                text: p.text@,
            },
            Notification::ChatMessageStatusChanged(p) => NotificationView::StatusChanged {
                chat_id: p.chat_id as int,
                message_id: p.message_id as int,
                status: p.status,
            },
            Notification::ChatMessageRollback(p) => NotificationView::Rollback {
                chat_id: p.chat_id as int,
                message_id: p.message_id as int,
            },
        }
    }
}

pub open spec fn notifs_view(n: Seq<Notification>) -> Seq<NotificationView> {
    n.map_values(|x: Notification| x@)
}

// ---------------------------------------------------------------------------
// Creating a chat.
// ---------------------------------------------------------------------------

/// Create a conversation container titled with the slug of its first
/// message.
pub fn create_chat(store: &mut Store, chat_id: u128, content: &str) -> (r: Result<u128, AppError>)
    ensures
        has_match(old(store)@.chats, chat_with_id(chat_id as int)) ==> {
            &&& r == Err::<u128, AppError>(AppError::Sqlx)
            &&& *final(store) == *old(store)
        },
        !has_match(old(store)@.chats, chat_with_id(chat_id as int)) ==> {
            &&& r == Ok::<u128, AppError>(chat_id)
            &&& final(store)@.chats == old(store)@.chats.push(
                ChatRowView {
                    created_at: old(store).next_clock(),
                    id: chat_id as int,
                    title: slug_of(content@),
                },
            )
            &&& final(store)@.clock == old(store).next_clock()
            &&& final(store).agents == old(store).agents
            &&& final(store).agent_configs == old(store).agent_configs
            &&& final(store).current_agent == old(store).current_agent
            &&& final(store).chat_messages == old(store).chat_messages
        },
{
    let title = slugify(content);
    match store.create_chat(CreateChat { id: chat_id, title }) {
        Ok(_) => Ok(chat_id),
        Err(e) => Err(e),
    }
}

// ---------------------------------------------------------------------------
// The transactional phase of one chat turn.
// ---------------------------------------------------------------------------

/// The agent row the current-agent pointer designates, if any.
pub open spec fn current_agent_of(s: StoreView) -> Option<AgentRowView> {
    match s.current_agent {
        None => None,
        Some(id) => if has_match(s.agents, agent_with_id(id)) {
            Some(s.agents[first_match(s.agents, agent_with_id(id))])
        } else {
            None
        },
    }
}

/// Whether an agent value is the one an agent row configures.
pub open spec fn agent_matches_row(agent: Agent, row: AgentRowView) -> bool {
    match agent {
        Agent::Gemini(g) => {
            &&& row.provider == AgentProvider::Google
            &&& g.id as int == row.id
            &&& g.model@ == row.model
        },
        Agent::Groq(g) => {
            &&& row.provider == AgentProvider::Groq
            &&& g.id as int == row.id
            &&& g.model@ == row.model
        },
    }
}

/// The provider-shaped history an agent sends for one chat.
pub open spec fn provider_history(
    agent: Agent,
    s: StoreView,
    chat_id: int,
) -> Seq<crate::agent::ParamsMessageView> {
    match agent {
        Agent::Gemini(_) => google_history(chat_history(s, chat_id)),
        Agent::Groq(_) => groq_history(chat_history(s, chat_id)),
    }
}

/// The `CreateChatMessage` for the user's just-submitted message.
pub open spec fn user_create_view(
    chat_id: int,
    user_msg_id: int,
    content: Seq<char>,
) -> crate::store::CreateChatMessageView {
    crate::store::CreateChatMessageView {
        id: user_msg_id,
        chat_id: chat_id,
        role: "user"@,
        content: content,
        status: ChatMessageStatus::Completed,
    }
}

/// The `CreateChatMessage` for the placeholder the model's reply streams
/// into.
pub open spec fn model_create_view(chat_id: int, model_msg_id: int) -> crate::store::CreateChatMessageView {
    crate::store::CreateChatMessageView {
        id: model_msg_id,
        chat_id: chat_id,
        role: "model"@,
        content: Seq::empty(),
        status: ChatMessageStatus::Pending,
    }
}

/// Everything the transactional phase of a turn hands to the caller: the
/// open transaction holding the journalled user message, the created user
/// row, the resolved agent, and the generation parameters ending in the
/// just-submitted content.
pub struct ChatTurn {
    pub unit_of_work: UnitOfWork,
    pub user_message: ChatMessageRow,
    pub agent: Agent,
    pub params: AgentTextGenParams,
}

/// The first half of a chat turn, up to (not including) the provider call:
/// resolve the current agent, journal the user message as `Completed`,
/// announce it, and build generation parameters from the stored history
/// plus the just-submitted content. Reads see the shared store; the one
/// write sits in the returned transaction.
pub fn send_chat_message_setup(
    store: &Store,
    cipher: &KeyringAesGcmCipher,
    chat_id: u128,
    content: &str,
    user_msg_id: u128,
) -> (r: (Vec<Notification>, Result<ChatTurn, AppError>))
    requires
        cipher.wf(),
    ensures
        current_agent_of(store@) is None ==> {
            &&& r.1 == Err::<ChatTurn, AppError>(AppError::AgentRequired)
            &&& notifs_view(r.0@) == Seq::<NotificationView>::empty()
        },
        current_agent_of(store@) matches Some(av) ==> {
            let user_view = created_message_view(
                user_create_view(chat_id as int, user_msg_id as int, content@),
                next_clock_spec(store@.clock),
            );
            if has_match(store@.chat_messages, message_with_id(user_msg_id as int)) {
                &&& r.1 == Err::<ChatTurn, AppError>(AppError::Sqlx)
                &&& notifs_view(r.0@) == Seq::<NotificationView>::empty()
            } else {
                &&& notifs_view(r.0@) == seq![NotificationView::Created(user_view)]
                &&& match stored_ciphertext(store@, av.id) {
                    None => r.1 == Err::<ChatTurn, AppError>(AppError::AgentTextGenParamsRequired),
                    Some(ct) => match decrypt_b64_spec(cipher.key(), ct) {
                        Err(e) => r.1 == Err::<ChatTurn, AppError>(e),
                        Ok(pt) => {
                            &&& r.1 matches Ok(turn)
                            &&& agent_matches_row(turn.agent, av)
                            &&& turn.params.provider() == turn.agent.provider()
                            &&& turn.user_message@ == user_view
                            &&& turn.unit_of_work.journal() == seq![user_view]
                            &&& turn.unit_of_work.outstanding() == 0
                            &&& turn.unit_of_work.clock() == next_clock_spec(store@.clock)
                            &&& turn.params@.api_key == pt
                            &&& turn.params@.messages == provider_history(
                                turn.agent,
                                store@,
                                chat_id as int,
                            ).push(user_message_view(content@))
                        },
                    },
                }
            }
        },
{
    let mut notifs: Vec<Notification> = Vec::new();
    let mut uow = UnitOfWork::create(store);
    let agent_handle = uow.agent_repo();
    let current = match uow.get_current_agent(&agent_handle, store) {
        None => {
            uow.release_agent_repo(agent_handle);
            proof {
                assert(notifs_view(notifs@) =~= Seq::<NotificationView>::empty());
            }
            return (notifs, Err(AppError::AgentRequired));
        },
        Some(row) => row.clone_row(),
    };
    uow.release_agent_repo(agent_handle);
    let agent = Agent::from_row(current);
    let chat_handle = uow.chat_repo();
    let user_message = match uow.create_chat_message(
        &chat_handle,
        store,
        CreateChatMessage {
            id: user_msg_id,
            chat_id,
            role: "user".to_owned(),
            content: content.to_owned(),
            status: ChatMessageStatus::Completed,
        },
    ) {
        Ok(m) => m,
        Err(e) => {
            uow.release_chat_repo(chat_handle);
            proof {
                assert(notifs_view(notifs@) =~= Seq::<NotificationView>::empty());
            }
            return (notifs, Err(e));
        },
    };
    uow.release_chat_repo(chat_handle);
    notifs.push(Notification::ChatMessageCreated(user_message.clone_row()));
    let ghost expected_notifs = seq![
        NotificationView::Created(user_message@),
    ];
    proof {
        assert(notifs_view(notifs@) =~= expected_notifs);
    }
    let mut params = match agent.create_text_gen_params(store, cipher, chat_id) {
        Err(e) => {
            return (notifs, Err(e));
        },
        Ok(None) => {
            return (notifs, Err(AppError::AgentTextGenParamsRequired));
        },
        Ok(Some(p)) => p,
    };
    params.push_message_str(content);
    proof {
        assert(user_message@ =~= created_message_view(
            user_create_view(chat_id as int, user_msg_id as int, content@),
            next_clock_spec(store@.clock),
        ));
        assert(uow.journal() =~= seq![user_message@]);
    }
    (notifs, Ok(ChatTurn { unit_of_work: uow, user_message, agent, params }))
}

/// The second half of the transactional phase, run once the provider stream
/// has started: journal the `Pending` placeholder the reply will stream
/// into, announce it, and commit. A failing commit — the transaction still
/// referenced by some repository handle — retracts both optimistically
/// announced messages with rollback notifications and leaves the store
/// untouched.
pub fn send_chat_message_commit(
    uow: UnitOfWork,
    store: &mut Store,
    chat_id: u128,
    user_msg_id: u128,
    model_msg_id: u128,
) -> (r: (Vec<Notification>, Result<ChatMessageRow, AppError>))
    requires
        uow.outstanding() < u64::MAX,
    ensures
        ({
            let model_view = created_message_view(
                model_create_view(chat_id as int, model_msg_id as int),
                next_clock_spec(uow.clock()),
            );
            if has_match(old(store)@.chat_messages, message_with_id(model_msg_id as int))
                || has_match(uow.journal(), message_with_id(model_msg_id as int)) {
                &&& r.1 == Err::<ChatMessageRow, AppError>(AppError::Sqlx)
                &&& notifs_view(r.0@) == Seq::<NotificationView>::empty()
                &&& *final(store) == *old(store)
            } else if uow.outstanding() != 0 {
                &&& r.1 == Err::<ChatMessageRow, AppError>(AppError::TransactionInUse)
                &&& notifs_view(r.0@) == seq![
                    NotificationView::Created(model_view),
                    NotificationView::Rollback {
                        chat_id: chat_id as int,
                        message_id: user_msg_id as int,
                    },
                    NotificationView::Rollback {
                        chat_id: chat_id as int,
                        message_id: model_msg_id as int,
                    },
                ]
                &&& *final(store) == *old(store)
            } else {
                &&& r.1 matches Ok(row)
                &&& row@ == model_view
                &&& notifs_view(r.0@) == seq![NotificationView::Created(model_view)]
                &&& final(store)@ == apply_journal(
                    old(store)@,
                    uow.journal().push(model_view),
                    next_clock_spec(uow.clock()),
                )
            }
        }),
{
    let mut notifs: Vec<Notification> = Vec::new();
    let mut uow = uow;
    proof {
        uow.lemma_outstanding_nonneg();
    }
    let chat_handle = uow.chat_repo();
    let model_message = match uow.create_chat_message(
        &chat_handle,
        store,
        CreateChatMessage {
            id: model_msg_id,
            chat_id,
            role: "model".to_owned(),
            content: String::new(),
            status: ChatMessageStatus::Pending,
        },
    ) {
        Ok(m) => m,
        Err(e) => {
            uow.release_chat_repo(chat_handle);
            proof {
                assert(notifs_view(notifs@) =~= Seq::<NotificationView>::empty());
            }
            return (notifs, Err(e));
        },
    };
    uow.release_chat_repo(chat_handle);
    notifs.push(Notification::ChatMessageCreated(model_message.clone_row()));
    let ghost model_view = model_message@;
    match uow.commit(store) {
        Ok(()) => {
            proof {
                assert(notifs_view(notifs@) =~= seq![NotificationView::Created(model_view)]);
            }
            (notifs, Ok(model_message))
        },
        Err(e) => {
            notifs.push(
                Notification::ChatMessageRollback(
                    ChatMessageRollbackPayload { chat_id, message_id: user_msg_id },
                ),
            );
            notifs.push(
                Notification::ChatMessageRollback(
                    ChatMessageRollbackPayload { chat_id, message_id: model_msg_id },
                ),
            );
            proof {
                assert(notifs_view(notifs@) =~= seq![
                    NotificationView::Created(model_view),
                    NotificationView::Rollback {
                        chat_id: chat_id as int,
                        message_id: user_msg_id as int,
                    },
                    NotificationView::Rollback {
                        chat_id: chat_id as int,
                        message_id: model_msg_id as int,
                    },
                ]);
            }
            (notifs, Err(e))
        },
    }
}

// ---------------------------------------------------------------------------
// The streaming phase: accumulate fragments, checkpoint every fifth one,
// and flush the terminal state.
// ---------------------------------------------------------------------------

/// How many fragments accumulate between durable checkpoints.
pub open spec fn checkpoint_period() -> int {
    5
}

/// Index of the first error in the stream, or the stream's length.
pub open spec fn ok_prefix_len(its: Seq<Result<Seq<char>, AppError>>) -> int {
    first_match(its, |it: Result<Seq<char>, AppError>| it is Err)
}

/// The concatenation of the first `k` fragments' texts.
pub open spec fn concat_texts(its: Seq<Result<Seq<char>, AppError>>, k: int) -> Seq<char>
    decreases k,
{
    if k <= 0 {
        Seq::empty()
    } else {
        concat_texts(its, k - 1) + (match its[k - 1] {
            Ok(t) => t,
            Err(_) => Seq::empty(),
        })
    }
}

/// The content the placeholder row holds once the stream is over: on an
/// error, everything accumulated so far; on normal exhaustion, the whole
/// text — except that with no fragment at all the last checkpoint (or the
/// placeholder itself) already holds the latest text and no flush happens.
pub open spec fn final_stream_content(old_content: Seq<char>, its: Seq<Result<Seq<char>, AppError>>) -> Seq<char> {
    let k = ok_prefix_len(its);
    if k < its.len() {
        concat_texts(its, k)
    } else if its.len() == 0 {
        old_content
    } else {
        concat_texts(its, its.len() as int)
    }
}

/// `Failed` on a mid-stream error, `Completed` on normal exhaustion.
pub open spec fn final_stream_status(its: Seq<Result<Seq<char>, AppError>>) -> ChatMessageStatus {
    if ok_prefix_len(its) < its.len() {
        ChatMessageStatus::Failed
    } else {
        ChatMessageStatus::Completed
    }
}

/// The streaming phase drives the `Pending` placeholder into a terminal
/// status — a legal transition — and what it reaches is terminal indeed:
/// no stream outcome ever allows a transition back out of it.
pub proof fn lemma_stream_terminal_transition(its: Seq<Result<Seq<char>, AppError>>)
    ensures
        crate::entity::status_transition_allowed(
            ChatMessageStatus::Pending,
            final_stream_status(its),
        ),
        forall|next: ChatMessageStatus|
            !crate::entity::status_transition_allowed(final_stream_status(its), next),
{
}

/// The notifications one stream produces: a chunk per fragment consumed,
/// and — only on normal exhaustion — a final status change. No status
/// notification is defined for the failure path; the UI learns of a failure
/// from the persisted status.
pub open spec fn stream_notifs(
    chat_id: int,
    message_id: int,
    its: Seq<Result<Seq<char>, AppError>>,
) -> Seq<NotificationView> {
    let k = ok_prefix_len(its);
    let chunks = Seq::new(
        k as nat,
        |i: int| NotificationView::Chunk { chat_id: chat_id, id: message_id, text: its[i]->Ok_0 },
    );
    if k < its.len() {
        chunks
    } else {
        chunks.push(
            NotificationView::StatusChanged {
                chat_id: chat_id,
                message_id: message_id,
                status: ChatMessageStatus::Completed,
            },
        )
    }
}

/// A message row after a content-only write.
pub open spec fn row_with_content(m: ChatMessageRowView, content: Seq<char>) -> ChatMessageRowView {
    ChatMessageRowView { content: content, ..m }
}

/// A message row after the terminal flush.
pub open spec fn row_terminal(
    m: ChatMessageRowView,
    content: Option<Seq<char>>,
    status: ChatMessageStatus,
) -> ChatMessageRowView {
    ChatMessageRowView {
        content: match content {
            Some(c) => c,
            None => m.content,
        },
        status: status,
        ..m
    }
}

/// The state of one in-flight streamed reply: the accumulated text and the
/// fragment counter that drives checkpointing.
pub struct StreamConsumer {
    text: String,
    count: u64,
}

impl StreamConsumer {
    /// The text accumulated so far.
    pub closed spec fn text(&self) -> Seq<char> {
        self.text@
    }

    /// Fragments seen since the last checkpoint.
    pub closed spec fn count(&self) -> int {
        self.count as int
    }

    pub open spec fn wf(&self) -> bool {
        0 <= self.count() < checkpoint_period()
    }

    pub fn new() -> (r: StreamConsumer)
        ensures
            r.wf(),
            r.text() == Seq::<char>::empty(),
            r.count() == 0,
    {
        StreamConsumer { text: String::new(), count: 0 }
    }

    /// How many fragments arrived since the last durable checkpoint; zero
    /// right after one, which is when a caller that persists the store
    /// should do so.
    pub fn fragments_since_checkpoint(&self) -> (r: u64)
        ensures
            r as int == self.count(),
    {
        self.count
    }

    /// Consume one fragment: append its text, and on every fifth fragment
    /// flush the accumulated text to the message row and reset the counter.
    /// Every fragment yields a chunk notification, checkpoint or not.
    pub fn on_fragment(
        &mut self,
        store: &mut Store,
        chat_id: u128,
        message_id: u128,
        fragment: &AgentTextGenResult,
    ) -> (notif: Notification)
        requires
            old(self).wf(),
        ensures
            final(self).wf(),
            final(self).text() == old(self).text() + fragment@,
            notif@ == (NotificationView::Chunk {
                chat_id: chat_id as int,
                id: message_id as int,
                text: fragment@,
            }),
            old(self).count() + 1 == checkpoint_period() ==> {
                &&& final(self).count() == 0
                &&& final(store)@.chat_messages.len() == old(store)@.chat_messages.len()
                &&& forall|j: int|
                    0 <= j < old(store)@.chat_messages.len() ==> final(store)@.chat_messages[j]
                        == (if old(store)@.chat_messages[j].id == message_id as int {
                        row_with_content(
                            old(store)@.chat_messages[j],
                            old(self).text() + fragment@,
                        )
                    } else {
                        old(store)@.chat_messages[j]
                    })
                &&& final(store).agents == old(store).agents
                &&& final(store).agent_configs == old(store).agent_configs
                &&& final(store).current_agent == old(store).current_agent
                &&& final(store).chats == old(store).chats
                &&& final(store).clock == old(store).clock
            },
            old(self).count() + 1 != checkpoint_period() ==> {
                &&& final(self).count() == old(self).count() + 1
                &&& *final(store) == *old(store)
            },
    {
        self.text.append(fragment.text.as_str());
        self.count = self.count + 1;
        if self.count == 5 {
            self.count = 0;
            store.update_chat_message(
                message_id,
                crate::store::UpdateChatMessage {
                    role: None,
                    content: Some(self.text.clone()),
                    status: None,
                },
            );
        }
        Notification::ChatMessageResponseChunk(
            ChatMessageResponseChunkPayload {
                chat_id,
                id: message_id,
                text: fragment.text.clone(),
            },
        )
    }

    /// The stream ended without error: flush the text still unflushed (none,
    /// when the counter sits exactly at zero), mark the message `Completed`,
    /// and announce the status change.
    pub fn on_complete(self, store: &mut Store, chat_id: u128, message_id: u128) -> (notif:
        Notification)
        ensures
            final(store)@.chat_messages.len() == old(store)@.chat_messages.len(),
            forall|j: int|
                0 <= j < old(store)@.chat_messages.len() ==> final(store)@.chat_messages[j] == (if old(
                    store,
                )@.chat_messages[j].id == message_id as int {
                    row_terminal(
                        old(store)@.chat_messages[j],
                        if self.count() == 0 {
                            None
                        } else {
                            Some(self.text())
                        },
                        ChatMessageStatus::Completed,
                    )
                } else {
                    old(store)@.chat_messages[j]
                }),
            final(store).agents == old(store).agents,
            final(store).agent_configs == old(store).agent_configs,
            final(store).current_agent == old(store).current_agent,
            final(store).chats == old(store).chats,
            final(store).clock == old(store).clock,
            notif@ == (NotificationView::StatusChanged {
                chat_id: chat_id as int,
                message_id: message_id as int,
                status: ChatMessageStatus::Completed,
            }),
    {
        let content = if self.count == 0 {
            None
        } else {
            Some(self.text)
        };
        store.update_chat_message(
            message_id,
            crate::store::UpdateChatMessage {
                role: None,
                content,
                status: Some(ChatMessageStatus::Completed),
            },
        );
        Notification::ChatMessageStatusChanged(
            ChatMessageStatusChangedPayload {
                chat_id,
                message_id,
                status: ChatMessageStatus::Completed,
            },
        )
    }

    /// A stream item was an error: flush whatever text accumulated, mark the
    /// message `Failed`, and consume nothing further. No notification is
    /// defined for this path.
    pub fn on_error(self, store: &mut Store, message_id: u128)
        ensures
            final(store)@.chat_messages.len() == old(store)@.chat_messages.len(),
            forall|j: int|
                0 <= j < old(store)@.chat_messages.len() ==> final(store)@.chat_messages[j] == (if old(
                    store,
                )@.chat_messages[j].id == message_id as int {
                    row_terminal(
                        old(store)@.chat_messages[j],
                        Some(self.text()),
                        ChatMessageStatus::Failed,
                    )
                } else {
                    old(store)@.chat_messages[j]
                }),
            final(store).agents == old(store).agents,
            final(store).agent_configs == old(store).agent_configs,
            final(store).current_agent == old(store).current_agent,
            final(store).chats == old(store).chats,
            final(store).clock == old(store).clock,
    {
        store.update_chat_message(
            message_id,
            crate::store::UpdateChatMessage {
                role: None,
                content: Some(self.text),
                status: Some(ChatMessageStatus::Failed),
            },
        );
    }
}

/// Drive a finished provider stream, given as the finite sequence of its
/// items: a chunk notification per fragment, a durable checkpoint every
/// fifth fragment, and the terminal flush — `Failed` at the first error,
/// else `Completed`. Exactly the rows with the placeholder's id change, and
/// their final content and status are a function of the stream alone.
pub fn consume_stream(
    store: &mut Store,
    chat_id: u128,
    message_id: u128,
    items: &Vec<Result<AgentTextGenResult, AppError>>,
) -> (notifs: Vec<Notification>)
    ensures
        ({
            let its = items_view(items@);
            &&& notifs_view(notifs@) == stream_notifs(chat_id as int, message_id as int, its)
            &&& final(store)@.chat_messages.len() == old(store)@.chat_messages.len()
            &&& forall|j: int|
                0 <= j < old(store)@.chat_messages.len() ==> final(store)@.chat_messages[j] == (if old(
                    store,
                )@.chat_messages[j].id == message_id as int {
                    ChatMessageRowView {
                        content: final_stream_content(old(store)@.chat_messages[j].content, its),
                        status: final_stream_status(its),
                        ..old(store)@.chat_messages[j]
                    }
                } else {
                    old(store)@.chat_messages[j]
                })
            &&& final(store).agents == old(store).agents
            &&& final(store).agent_configs == old(store).agent_configs
            &&& final(store).current_agent == old(store).current_agent
            &&& final(store).chats == old(store).chats
            &&& final(store).clock == old(store).clock
        }),
{
    let ghost its = items_view(items@);
    let ghost errp = |it: Result<Seq<char>, AppError>| it is Err;
    let n = items.len();
    let mut consumer = StreamConsumer::new();
    let mut notifs: Vec<Notification> = Vec::new();
    let ghost mut cp: int = 0int;
    let mut i: usize = 0;
    proof {
        assert(its.len() == n);
    }
    while i < n
        invariant
            0 <= i <= n,
            n == items.len(),
            its == items_view(items@),
            its.len() == n,
            errp == (|it: Result<Seq<char>, AppError>| it is Err),
            forall|j: int| 0 <= j < i ==> !errp(its[j]),
            consumer.wf(),
            consumer.text() == concat_texts(its, i as int),
            0 <= cp <= i,
            consumer.count() == i - cp,
            notifs@.len() == i,
            forall|j: int|
                0 <= j < i ==> notifs_view(notifs@)[j] == (NotificationView::Chunk {
                    chat_id: chat_id as int,
                    id: message_id as int,
                    text: its[j]->Ok_0,
                }),
            store.agents == old(store).agents,
            store.agent_configs == old(store).agent_configs,
            store.current_agent == old(store).current_agent,
            store.chats == old(store).chats,
            store.clock == old(store).clock,
            store@.chat_messages.len() == old(store)@.chat_messages.len(),
            cp == 0 ==> store.chat_messages == old(store).chat_messages,
            cp > 0 ==> forall|j: int|
                0 <= j < old(store)@.chat_messages.len() ==> store@.chat_messages[j] == (if old(
                    store,
                )@.chat_messages[j].id == message_id as int {
                    row_with_content(old(store)@.chat_messages[j], concat_texts(its, cp))
                } else {
                    old(store)@.chat_messages[j]
                }),
        decreases n - i,
    {
        let ghost pre_count = consumer.count();
        let ghost pre_text = consumer.text();
        match &items[i] {
            Ok(fragment) => {
                proof {
                    assert(its[i as int] == (match items@[i as int] {
                        Ok(f) => Ok::<Seq<char>, AppError>(f@),
                        Err(e) => Err::<Seq<char>, AppError>(e),
                    }));
                }
                let ghost prev_notifs = notifs@;
                let notif = consumer.on_fragment(store, chat_id, message_id, fragment);
                notifs.push(notif);
                proof {
                    assert(concat_texts(its, i + 1) == concat_texts(its, i as int)
                        + its[i as int]->Ok_0);
                    if pre_count + 1 == checkpoint_period() {
                        cp = i + 1;
                    }
                    assert forall|j: int| 0 <= j < i + 1 implies notifs_view(notifs@)[j]
                        == (NotificationView::Chunk {
                        chat_id: chat_id as int,
                        id: message_id as int,
                        text: its[j]->Ok_0,
                    }) by {
                        assert(notifs_view(notifs@)[j] == notifs@[j]@);
                        if j < i {
                            assert(notifs@[j] == prev_notifs[j]);
                            assert(notifs_view(prev_notifs)[j] == prev_notifs[j]@);
                        }
                    }
                }
            },
            Err(e) => {
                proof {
                    assert(its[i as int] == (match items@[i as int] {
                        Ok(f) => Ok::<Seq<char>, AppError>(f@),
                        Err(e2) => Err::<Seq<char>, AppError>(e2),
                    }));
                    assert(errp(its[i as int]));
                    crate::store::lemma_first_match_is(its, errp, i as int);
                }
                consumer.on_error(store, message_id);
                proof {
                    let k = ok_prefix_len(its);
                    assert(k == i);
                    let target = stream_notifs(chat_id as int, message_id as int, its);
                    assert forall|j: int| 0 <= j < notifs@.len() implies notifs_view(notifs@)[j]
                        == target[j] by {
                        assert(notifs_view(notifs@)[j] == notifs@[j]@);
                    }
                    assert(notifs_view(notifs@) =~= target);
                }
                return notifs;
            },
        }
        i = i + 1;
    }
    proof {
        crate::store::lemma_first_match_is(its, errp, n as int);
        assert(ok_prefix_len(its) == n);
    }
    let ghost prev_notifs = notifs@;
    let notif = consumer.on_complete(store, chat_id, message_id);
    notifs.push(notif);
    proof {
        let target = stream_notifs(chat_id as int, message_id as int, its);
        assert forall|j: int| 0 <= j < notifs@.len() implies notifs_view(notifs@)[j] == target[j] by {
            assert(notifs_view(notifs@)[j] == notifs@[j]@);
            if j < n {
                assert(notifs@[j] == prev_notifs[j]);
                assert(notifs_view(prev_notifs)[j] == prev_notifs[j]@);
            }
        }
        assert(notifs_view(notifs@) =~= target);
    }
    notifs
}

/// One whole chat turn against local state, with the provider's stream
/// supplied as the finite sequence of its items: resolve the current agent,
/// persist the user message and the `Pending` placeholder atomically, then
/// drive the stream into the placeholder. Before the commit any failure
/// aborts the turn with the store untouched; the notifications returned are
/// exactly the created / chunk / status sequence the UI shell is to relay,
/// in order.
pub fn send_chat_message(
    store: &mut Store,
    cipher: &KeyringAesGcmCipher,
    chat_id: u128,
    content: &str,
    user_msg_id: u128,
    model_msg_id: u128,
    items: &Vec<Result<AgentTextGenResult, AppError>>,
) -> (r: (Vec<Notification>, Result<(), AppError>))
    requires
        cipher.wf(),
    ensures
        current_agent_of(old(store)@) is None ==> {
            &&& r.1 == Err::<(), AppError>(AppError::AgentRequired)
            &&& notifs_view(r.0@) == Seq::<NotificationView>::empty()
            &&& *final(store) == *old(store)
        },
        current_agent_of(old(store)@) matches Some(av) ==> {
            let c1 = next_clock_spec(old(store)@.clock);
            let c2 = next_clock_spec(c1);
            let user_view = created_message_view(
                user_create_view(chat_id as int, user_msg_id as int, content@),
                c1,
            );
            let model_view = created_message_view(
                model_create_view(chat_id as int, model_msg_id as int),
                c2,
            );
            let its = items_view(items@);
            if has_match(old(store)@.chat_messages, message_with_id(user_msg_id as int)) {
                &&& r.1 == Err::<(), AppError>(AppError::Sqlx)
                &&& notifs_view(r.0@) == Seq::<NotificationView>::empty()
                &&& *final(store) == *old(store)
            } else {
                match stored_ciphertext(old(store)@, av.id) {
                    None => {
                        &&& r.1 == Err::<(), AppError>(AppError::AgentTextGenParamsRequired)
                        &&& notifs_view(r.0@) == seq![NotificationView::Created(user_view)]
                        &&& *final(store) == *old(store)
                    },
                    Some(ct) => match decrypt_b64_spec(cipher.key(), ct) {
                        Err(e) => {
                            &&& r.1 == Err::<(), AppError>(e)
                            &&& notifs_view(r.0@) == seq![NotificationView::Created(user_view)]
                            &&& *final(store) == *old(store)
                        },
                        Ok(_) => {
                            if has_match(
                                old(store)@.chat_messages,
                                message_with_id(model_msg_id as int),
                            ) || user_msg_id == model_msg_id {
                                &&& r.1 == Err::<(), AppError>(AppError::Sqlx)
                                &&& notifs_view(r.0@) == seq![
                                    NotificationView::Created(user_view),
                                ]
                                &&& *final(store) == *old(store)
                            } else {
                                &&& r.1 == Ok::<(), AppError>(())
                                &&& notifs_view(r.0@) == seq![
                                    NotificationView::Created(user_view),
                                    NotificationView::Created(model_view),
                                ] + stream_notifs(chat_id as int, model_msg_id as int, its)
                                &&& final(store)@.chat_messages
                                    == old(store)@.chat_messages.push(user_view).push(
                                    ChatMessageRowView {
                                        content: final_stream_content(Seq::empty(), its),
                                        status: final_stream_status(its),
                                        ..model_view
                                    },
                                )
                                &&& final(store)@.clock == c2
                                &&& final(store)@.agents == old(store)@.agents
                                &&& final(store)@.agent_configs == old(store)@.agent_configs
                                &&& final(store)@.current_agent == old(store)@.current_agent
                                &&& final(store)@.chats == old(store)@.chats
                            }
                        },
                    },
                }
            }
        },
{
    let (mut notifs, setup) = send_chat_message_setup(
        store,
        cipher,
        chat_id,
        content,
        user_msg_id,
    );
    let turn = match setup {
        Ok(t) => t,
        Err(e) => {
            return (notifs, Err(e));
        },
    };
    let ChatTurn { unit_of_work, user_message, agent: _, params: _ } = turn;
    let ghost user_view = user_message@;
    let ghost s1 = notifs@;
    proof {
        let p = message_with_id(model_msg_id as int);
        assert(unit_of_work.journal().len() == 1);
        if user_msg_id == model_msg_id {
            assert(p(unit_of_work.journal()[0]));
            assert(has_match(unit_of_work.journal(), p));
        }
        if has_match(unit_of_work.journal(), p) {
            let w = choose|w: int|
                0 <= w < unit_of_work.journal().len() && p(unit_of_work.journal()[w]);
            assert(w == 0);
            assert(user_msg_id == model_msg_id);
        }
    }
    let (mut commit_notifs, committed) = send_chat_message_commit(
        unit_of_work,
        store,
        chat_id,
        user_msg_id,
        model_msg_id,
    );
    let ghost s2 = commit_notifs@;
    notifs.append(&mut commit_notifs);
    let model_message = match committed {
        Ok(m) => m,
        Err(e) => {
            proof {
                assert(notifs@ == s1 + s2);
                assert(notifs_view(s1).len() == s1.len());
                assert(s1.len() == 1);
                assert(notifs_view(s2).len() == s2.len());
                assert(s2.len() == 0);
                assert(notifs_view(notifs@).len() == notifs@.len());
                assert forall|j: int| 0 <= j < notifs@.len() implies notifs_view(notifs@)[j]
                    == seq![NotificationView::Created(user_view)][j] by {
                    assert(notifs_view(notifs@)[j] == notifs@[j]@);
                    if j < s1.len() {
                        assert(notifs@[j] == s1[j]);
                        assert(notifs_view(s1)[j] == s1[j]@);
                    } else {
                        assert(notifs@[j] == s2[j - s1.len()]);
                        assert(notifs_view(s2)[j - s1.len()] == s2[j - s1.len()]@);
                    }
                }
                assert(notifs_view(notifs@) =~= seq![NotificationView::Created(user_view)]);
            }
            return (notifs, Err(e));
        },
    };
    let ghost model_view = model_message@;
    let ghost mid_store = store@;
    proof {
        assert(mid_store.chat_messages =~= old(store)@.chat_messages.push(user_view).push(
            model_view,
        ));
    }
    let mut stream_ns = consume_stream(store, chat_id, model_msg_id, items);
    let ghost s3 = stream_ns@;
    notifs.append(&mut stream_ns);
    proof {
        let its = items_view(items@);
        let target_notifs = seq![
            NotificationView::Created(user_view),
            NotificationView::Created(model_view),
        ] + stream_notifs(chat_id as int, model_msg_id as int, its);
        assert(notifs@ == s1 + s2 + s3);
        assert(notifs_view(s1).len() == s1.len());
        assert(s1.len() == 1);
        assert(notifs_view(s2).len() == s2.len());
        assert(s2.len() == 1);
        assert(notifs_view(s3).len() == s3.len());
        assert(target_notifs.len() == 2 + s3.len());
        assert(notifs_view(notifs@).len() == notifs@.len());
        assert forall|j: int| 0 <= j < notifs@.len() implies notifs_view(notifs@)[j]
            == target_notifs[j] by {
            assert(notifs_view(notifs@)[j] == notifs@[j]@);
            if j < s1.len() {
                assert(notifs@[j] == s1[j]);
                assert(notifs_view(s1)[j] == s1[j]@);
            } else if j < s1.len() + s2.len() {
                assert(notifs@[j] == s2[j - s1.len()]);
                assert(notifs_view(s2)[j - s1.len()] == s2[j - s1.len()]@);
            } else {
                assert(notifs@[j] == s3[j - s1.len() - s2.len()]);
                assert(notifs_view(s3)[j - s1.len() - s2.len()] == s3[j - s1.len() - s2.len()]@);
            }
        }
        assert(notifs_view(notifs@) =~= target_notifs);
        let n0 = old(store)@.chat_messages.len();
        assert forall|j: int| 0 <= j < n0 + 2 implies store@.chat_messages[j] == old(
            store,
        )@.chat_messages.push(user_view).push(
            ChatMessageRowView {
                content: final_stream_content(Seq::empty(), its),
                status: final_stream_status(its),
                ..model_view
            },
        )[j] by {
            if j < n0 {
                assert(!message_with_id(model_msg_id as int)(old(store)@.chat_messages[j]));
                assert(mid_store.chat_messages[j] == old(store)@.chat_messages[j]);
            } else if j == n0 {
                assert(mid_store.chat_messages[j] == user_view);
                assert(user_view.id != model_msg_id as int);
            } else {
                assert(mid_store.chat_messages[j] == model_view);
            }
        }
        assert(store@.chat_messages =~= old(store)@.chat_messages.push(user_view).push(
            ChatMessageRowView {
                content: final_stream_content(Seq::empty(), its),
                status: final_stream_status(its),
                ..model_view
            },
        ));
    }
    (notifs, Ok(()))
}

} // verus!
