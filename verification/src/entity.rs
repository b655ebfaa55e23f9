use vstd::prelude::*;

verus! {

/// The closed set of hosted LLM providers an agent can target.
#[derive(Clone, Copy, Debug, PartialEq, Eq, Structural)]
pub enum AgentProvider {
    Google,
    Groq,
}

/// Lifecycle of a chat message: `Pending` while tokens are still arriving,
/// then exactly one of the terminal states.
#[derive(Clone, Copy, Debug, PartialEq, Eq, Structural)]
pub enum ChatMessageStatus {
    Pending,
    Completed,
    Failed,
}

/// No transition is legal out of a terminal status; a pending message may
/// stay pending (checkpointing) or move to either terminal status.
pub open spec fn status_transition_allowed(from: ChatMessageStatus, to: ChatMessageStatus) -> bool {
    from == ChatMessageStatus::Pending
}

/// One configured LLM endpoint.
pub struct AgentRow {
    pub created_at: i64,
    pub updated_at: i64,
    pub id: u128,
    pub provider: AgentProvider,
    pub model: String,
}

#[verifier::ext_equal]
pub struct AgentRowView {
    pub created_at: int,
    pub updated_at: int,
    pub id: int,
    pub provider: AgentProvider,
    pub model: Seq<char>,
}

impl View for AgentRow {
    type V = AgentRowView;

    open spec fn view(&self) -> AgentRowView {
        AgentRowView {
            created_at: self.created_at as int,
            updated_at: self.updated_at as int,
            id: self.id as int,
            provider: self.provider,
            model: self.model@,
        }
    }
}

impl AgentRow {
    pub fn clone_row(&self) -> (r: AgentRow)
        ensures
            r@ == self@,
    {
        AgentRow {
            created_at: self.created_at,
            updated_at: self.updated_at,
            id: self.id,
            provider: self.provider,
            model: self.model.clone(),
        }
    }
}

/// The zero-or-one-per-agent association holding the optionally stored,
/// encrypted API key (base64 text of nonce-prefixed AEAD output).
pub struct AgentConfigRow {
    pub created_at: i64,
    pub updated_at: i64,
    pub agent_id: u128,
    pub api_key: Option<String>,
}

#[verifier::ext_equal]
pub struct AgentConfigRowView {
    pub created_at: int,
    pub updated_at: int,
    pub agent_id: int,
    pub api_key: Option<Seq<char>>,
}

impl View for AgentConfigRow {
    type V = AgentConfigRowView;

    open spec fn view(&self) -> AgentConfigRowView {
        AgentConfigRowView {
            created_at: self.created_at as int,
            updated_at: self.updated_at as int,
            agent_id: self.agent_id as int,
            api_key: match self.api_key {
                Some(k) => Some(k@),
                None => None,
            },
        }
    }
}

impl AgentConfigRow {
    pub fn clone_row(&self) -> (r: AgentConfigRow)
        ensures
            r@ == self@,
    {
        AgentConfigRow {
            created_at: self.created_at,
            updated_at: self.updated_at,
            agent_id: self.agent_id,
            api_key: match &self.api_key {
                Some(k) => Some(k.clone()),
                None => None,
            },
        }
    }
}

/// One conversation container.
pub struct ChatRow {
    pub created_at: i64,
    pub id: u128,
    pub title: String,
}

#[verifier::ext_equal]
pub struct ChatRowView {
    pub created_at: int,
    pub id: int,
    pub title: Seq<char>,
}

impl View for ChatRow {
    type V = ChatRowView;

    open spec fn view(&self) -> ChatRowView {
        ChatRowView {
            created_at: self.created_at as int,
            id: self.id as int,
            title: self.title@,
        }
    }
}

impl ChatRow {
    pub fn clone_row(&self) -> (r: ChatRow)
        ensures
            r@ == self@,
    {
        ChatRow { created_at: self.created_at, id: self.id, title: self.title.clone() }
    }
}

/// One message of a conversation.
pub struct ChatMessageRow {
    pub created_at: i64,
    pub id: u128,
    pub chat_id: u128,
    pub role: String,
    pub content: String,
    pub status: ChatMessageStatus,
}

#[verifier::ext_equal]
pub struct ChatMessageRowView {
    pub created_at: int,
    pub id: int,
    pub chat_id: int,
    pub role: Seq<char>,
    pub content: Seq<char>,
    pub status: ChatMessageStatus,
}

impl View for ChatMessageRow {
    type V = ChatMessageRowView;

    open spec fn view(&self) -> ChatMessageRowView {
        ChatMessageRowView {
            created_at: self.created_at as int,
            id: self.id as int,
            chat_id: self.chat_id as int,
            role: self.role@,
            content: self.content@,
            status: self.status,
        }
    }
}

impl ChatMessageRow {
    pub fn clone_row(&self) -> (r: ChatMessageRow)
        ensures
            r@ == self@,
    {
        ChatMessageRow {
            created_at: self.created_at,
            id: self.id,
            chat_id: self.chat_id,
            role: self.role.clone(),
            content: self.content.clone(),
            status: self.status,
        }
    }
}

} // verus!
