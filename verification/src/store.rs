use vstd::prelude::*;
use vstd::seq_lib::*;

use crate::entity::{
    AgentConfigRow, AgentConfigRowView, AgentProvider, AgentRow, AgentRowView, ChatMessageRow,
    ChatMessageRowView, ChatRow, ChatRowView,
};
use crate::entity::ChatMessageStatus;
use crate::error::AppError;

verus! {

/// Index of the first element of `s` satisfying `p`, or `s.len()` if none does.
pub open spec fn first_match<T>(s: Seq<T>, p: spec_fn(T) -> bool) -> int
    decreases s.len(),
{
    if s.len() == 0 {
        0
    } else if p(s[0]) {
        0
    } else {
        1 + first_match(s.skip(1), p)
    }
}

pub proof fn lemma_first_match_bounds<T>(s: Seq<T>, p: spec_fn(T) -> bool)
    ensures
        0 <= first_match(s, p) <= s.len(),
        first_match(s, p) < s.len() ==> p(s[first_match(s, p)]),
        forall|j: int| 0 <= j < first_match(s, p) ==> !p(s[j]),
        first_match(s, p) == s.len() ==> forall|j: int| 0 <= j < s.len() ==> !p(s[j]),
    decreases s.len(),
{
    if s.len() == 0 {
    } else if p(s[0]) {
    } else {
        lemma_first_match_bounds(s.skip(1), p);
        assert forall|j: int| 0 <= j < first_match(s, p) implies !p(s[j]) by {
            if j > 0 {
                assert(s.skip(1)[j - 1] == s[j]);
            }
        }
        assert forall|j: int|
            first_match(s, p) == s.len() && 0 <= j < s.len() implies !p(s[j]) by {
            if j > 0 {
                assert(s.skip(1)[j - 1] == s[j]);
            }
        }
    }
}

/// If `i` is the first index satisfying `p` (or no index does and `i == s.len()`),
/// then `first_match` equals `i`.
pub proof fn lemma_first_match_is<T>(s: Seq<T>, p: spec_fn(T) -> bool, i: int)
    requires
        0 <= i <= s.len(),
        forall|j: int| 0 <= j < i ==> !p(s[j]),
        i < s.len() ==> p(s[i]),
    ensures
        first_match(s, p) == i,
    decreases s.len(),
{
    if s.len() == 0 {
    } else if p(s[0]) {
    } else {
        assert(forall|j: int| 0 <= j < i - 1 ==> s.skip(1)[j] == s[j + 1]);
        assert(i > 0);
        lemma_first_match_is(s.skip(1), p, i - 1);
    }
}

pub open spec fn has_match<T>(s: Seq<T>, p: spec_fn(T) -> bool) -> bool {
    exists|i: int| 0 <= i < s.len() && p(s[i])
}

// ---------------------------------------------------------------------------
// Command structs, mirroring what each store operation takes.
// ---------------------------------------------------------------------------

pub struct CreateAgent {
    pub id: u128,
    pub provider: AgentProvider,
    pub model: String,
}

pub struct UpdateAgent {
    pub id: u128,
    pub provider: Option<AgentProvider>,
    pub model: Option<String>,
}

pub struct UpdateCurrentAgent {
    pub agent_id: u128,
}

pub struct CreateAgentConfig {
    pub agent_id: u128,
    pub api_key: Option<String>,
}

pub struct UpdateAgentConfig {
    pub api_key: Option<String>,
}

pub struct UpsertAgentConfig {
    pub api_key: Option<String>,
}

pub struct CreateChat {
    pub id: u128,
    pub title: String,
}

pub struct CreateChatMessage {
    pub id: u128,
    pub chat_id: u128,
    pub role: String,
    pub content: String,
    pub status: ChatMessageStatus,
}

#[verifier::ext_equal]
pub struct CreateChatMessageView {
    pub id: int,
    pub chat_id: int,
    pub role: Seq<char>,
    pub content: Seq<char>,
    pub status: ChatMessageStatus,
}

impl View for CreateChatMessage {
    type V = CreateChatMessageView;

    open spec fn view(&self) -> CreateChatMessageView {
        CreateChatMessageView {
            id: self.id as int,
            chat_id: self.chat_id as int,
            role: self.role@,
            content: self.content@,
            status: self.status,
        }
    }
}

impl CreateChatMessage {
    pub fn clone_cmd(&self) -> (r: CreateChatMessage)
        ensures
            r@ == self@,
    {
        CreateChatMessage {
            id: self.id,
            chat_id: self.chat_id,
            role: self.role.clone(),
            content: self.content.clone(),
            status: self.status,
        }
    }
}

pub struct UpdateChatMessage {
    pub role: Option<String>,
    pub content: Option<String>,
    pub status: Option<ChatMessageStatus>,
}

impl Default for UpdateChatMessage {
    /// An update that assigns nothing.
    fn default() -> (r: Self)
        ensures
            r.role is None,
            r.content is None,
            r.status is None,
    {
        UpdateChatMessage { role: None, content: None, status: None }
    }
}

// ---------------------------------------------------------------------------
// The store itself.
// ---------------------------------------------------------------------------

/// The durable state: the five tables of the persisted schema, plus a logical
/// clock standing in for the row-creation timestamps the database would assign.
///
/// The fields are public so a persistence shell can load and save the tables
/// wholesale. The contracts below therefore assume nothing of a store's
/// shape: lookups read the first matching row, updates touch every matching
/// row, and the create operations refuse a duplicate key, so every store
/// built through them keeps its keys unique and its `created_at` values
/// non-decreasing in storage order.
pub struct Store {
    pub agents: Vec<AgentRow>,
    pub agent_configs: Vec<AgentConfigRow>,
    pub current_agent: Option<u128>,
    pub chats: Vec<ChatRow>,
    pub chat_messages: Vec<ChatMessageRow>,
    pub clock: i64,
}

#[verifier::ext_equal]
pub struct StoreView {
    pub agents: Seq<AgentRowView>,
    pub agent_configs: Seq<AgentConfigRowView>,
    pub current_agent: Option<int>,
    pub chats: Seq<ChatRowView>,
    pub chat_messages: Seq<ChatMessageRowView>,
    pub clock: int,
}

impl View for Store {
    type V = StoreView;

    open spec fn view(&self) -> StoreView {
        StoreView {
            agents: self.agents@.map_values(|r: AgentRow| r@),
            agent_configs: self.agent_configs@.map_values(|r: AgentConfigRow| r@),
            current_agent: match self.current_agent {
                Some(id) => Some(id as int),
                None => None,
            },
            chats: self.chats@.map_values(|r: ChatRow| r@),
            chat_messages: self.chat_messages@.map_values(|r: ChatMessageRow| r@),
            clock: self.clock as int,
        }
    }
}

pub open spec fn agent_with_id(id: int) -> spec_fn(AgentRowView) -> bool {
    |a: AgentRowView| a.id == id
}

pub open spec fn config_with_agent_id(id: int) -> spec_fn(AgentConfigRowView) -> bool {
    |c: AgentConfigRowView| c.agent_id == id
}

pub open spec fn chat_with_id(id: int) -> spec_fn(ChatRowView) -> bool {
    |c: ChatRowView| c.id == id
}

pub open spec fn message_with_id(id: int) -> spec_fn(ChatMessageRowView) -> bool {
    |m: ChatMessageRowView| m.id == id
}

impl Store {
    /// An empty store.
    pub fn new() -> (r: Store)
        ensures
            r@.agents == Seq::<AgentRowView>::empty(),
            r@.agent_configs == Seq::<AgentConfigRowView>::empty(),
            r@.current_agent is None,
            r@.chats == Seq::<ChatRowView>::empty(),
            r@.chat_messages == Seq::<ChatMessageRowView>::empty(),
            r@.clock == 0,
    {
        let r = Store {
            agents: Vec::new(),
            agent_configs: Vec::new(),
            current_agent: None,
            chats: Vec::new(),
            chat_messages: Vec::new(),
            clock: 0,
        };
        proof {
            assert(r@.agents =~= Seq::<AgentRowView>::empty());
            assert(r@.agent_configs =~= Seq::<AgentConfigRowView>::empty());
            assert(r@.chats =~= Seq::<ChatRowView>::empty());
            assert(r@.chat_messages =~= Seq::<ChatMessageRowView>::empty());
        }
        r
    }

    /// The next creation timestamp; the clock saturates rather than wraps.
    pub open spec fn next_clock(&self) -> int {
        if self.clock < i64::MAX {
            self.clock + 1
        } else {
            self.clock as int
        }
    }

    fn tick(&mut self) -> (r: i64)
        ensures
            r == old(self).next_clock(),
            final(self).clock == old(self).next_clock(),
            final(self).agents == old(self).agents,
            final(self).agent_configs == old(self).agent_configs,
            final(self).current_agent == old(self).current_agent,
            final(self).chats == old(self).chats,
            final(self).chat_messages == old(self).chat_messages,
    {
        if self.clock < i64::MAX {
            self.clock = self.clock + 1;
        }
        self.clock
    }

    // -- agents ------------------------------------------------------------

    /// All configured agents.
    pub fn get_agents(&self) -> (r: &Vec<AgentRow>)
        ensures
            r@.map_values(|a: AgentRow| a@) == self@.agents,
    {
        &self.agents
    }

    /// The agent with the given id, if any.
    pub fn get_agent(&self, agent_id: u128) -> (r: Option<&AgentRow>)
        ensures
            r is Some <==> has_match(self@.agents, agent_with_id(agent_id as int)),
            r matches Some(a) ==> a@ == self@.agents[first_match(
                self@.agents,
                agent_with_id(agent_id as int),
            )],
    {
        let ghost p = agent_with_id(agent_id as int);
        let n = self.agents.len();
        let mut i: usize = 0;
        while i < n
            invariant
                0 <= i <= n,
                n == self.agents.len(),
                forall|j: int| 0 <= j < i ==> !p(self@.agents[j]),
                p == agent_with_id(agent_id as int),
            decreases n - i,
        {
            if self.agents[i].id == agent_id {
                proof {
                    lemma_first_match_is(self@.agents, p, i as int);
                    assert(self@.agents[i as int] == self.agents@[i as int]@);
                    assert(p(self@.agents[i as int]));
                }
                return Some(&self.agents[i]);
            }
            i = i + 1;
        }
        proof {
            lemma_first_match_is(self@.agents, p, n as int);
        }
        None
    }

    /// Insert a new agent row; the primary key forbids a duplicate id.
    pub fn create_agent(&mut self, create: CreateAgent) -> (r: Result<AgentRow, AppError>)
        ensures
            has_match(old(self)@.agents, agent_with_id(create.id as int)) ==> {
                &&& r == Err::<AgentRow, AppError>(AppError::Sqlx)
                &&& *final(self) == *old(self)
            },
            !has_match(old(self)@.agents, agent_with_id(create.id as int)) ==> {
                &&& r matches Ok(row)
                &&& row@ == (AgentRowView {
                    created_at: old(self).next_clock(),
                    updated_at: old(self).next_clock(),
                    id: create.id as int,
                    provider: create.provider,
                    model: create.model@,
                })
                &&& final(self)@.agents == old(self)@.agents.push(row@)
                &&& has_match(final(self)@.agents, agent_with_id(create.id as int))
                &&& final(self)@.clock == old(self).next_clock()
                &&& final(self).agent_configs == old(self).agent_configs
                &&& final(self).current_agent == old(self).current_agent
                &&& final(self).chats == old(self).chats
                &&& final(self).chat_messages == old(self).chat_messages
            },
    {
        if self.get_agent(create.id).is_some() {
            proof {
                lemma_first_match_bounds(self@.agents, agent_with_id(create.id as int));
            }
            return Err(AppError::Sqlx);
        }
        let now = self.tick();
        let row = AgentRow {
            created_at: now,
            updated_at: now,
            id: create.id,
            provider: create.provider,
            model: create.model,
        };
        let out = row.clone_row();
        self.agents.push(row);
        proof {
            assert(self@.agents =~= old(self)@.agents.push(out@));
            assert(agent_with_id(create.id as int)(self@.agents[self@.agents.len() - 1]));
        }
        Ok(out)
    }

    /// Apply the supplied assignments to every agent row with the given id.
    pub fn update_agent(&mut self, id: u128, update: UpdateAgent)
        ensures
            final(self)@.agents.len() == old(self)@.agents.len(),
            forall|i: int|
                0 <= i < old(self)@.agents.len() ==> final(self)@.agents[i]
                    == (if old(self)@.agents[i].id == id as int {
                    updated_agent_view(old(self)@.agents[i], update@)
                } else {
                    old(self)@.agents[i]
                }),
            final(self).agent_configs == old(self).agent_configs,
            final(self).current_agent == old(self).current_agent,
            final(self).chats == old(self).chats,
            final(self).chat_messages == old(self).chat_messages,
            final(self).clock == old(self).clock,
    {
        let n = self.agents.len();
        let mut out: Vec<AgentRow> = Vec::new();
        let mut i: usize = 0;
        while i < n
            invariant
                0 <= i <= n,
                n == self.agents.len(),
                *self == *old(self),
                out@.len() == i,
                forall|j: int|
                    0 <= j < i ==> out@[j]@ == (if old(self)@.agents[j].id == id as int {
                        updated_agent_view(old(self)@.agents[j], update@)
                    } else {
                        old(self)@.agents[j]
                    }),
            decreases n - i,
        {
            let row = &self.agents[i];
            let row2 = if row.id == id {
                AgentRow {
                    created_at: row.created_at,
                    updated_at: row.updated_at,
                    id: row.id,
                    provider: match &update.provider {
                        Some(p) => *p,
                        None => row.provider,
                    },
                    model: match &update.model {
                        Some(m) => m.clone(),
                        None => row.model.clone(),
                    },
                }
            } else {
                row.clone_row()
            };
            proof {
                assert(old(self)@.agents[i as int] == old(self).agents@[i as int]@);
            }
            out.push(row2);
            i = i + 1;
        }
        self.agents = out;
        proof {
            assert forall|j: int| 0 <= j < old(self)@.agents.len() implies self@.agents[j]
                == (if old(self)@.agents[j].id == id as int {
                updated_agent_view(old(self)@.agents[j], update@)
            } else {
                old(self)@.agents[j]
            }) by {
                assert(self@.agents[j] == self.agents@[j]@);
            }
        }
    }

    // -- current-agent pointer ---------------------------------------------

    /// The agent the singleton pointer row designates, if both exist.
    pub fn get_current_agent(&self) -> (r: Option<&AgentRow>)
        ensures
            match self@.current_agent {
                None => r is None,
                Some(id) => {
                    &&& r is Some <==> has_match(self@.agents, agent_with_id(id))
                    &&& r matches Some(a) ==> a@ == self@.agents[first_match(
                        self@.agents,
                        agent_with_id(id),
                    )]
                },
            },
    {
        match self.current_agent {
            None => None,
            Some(id) => self.get_agent(id),
        }
    }

    /// Upsert the singleton pointer row.
    pub fn update_current_agent(&mut self, update: UpdateCurrentAgent)
        ensures
            final(self).current_agent == Some(update.agent_id),
            final(self).agents == old(self).agents,
            final(self).agent_configs == old(self).agent_configs,
            final(self).chats == old(self).chats,
            final(self).chat_messages == old(self).chat_messages,
            final(self).clock == old(self).clock,
    {
        self.current_agent = Some(update.agent_id);
    }
}

/// The result of applying an `UpdateAgent` to one agent row.
pub open spec fn updated_agent_view(a: AgentRowView, u: UpdateAgentView) -> AgentRowView {
    AgentRowView {
        provider: match u.provider {
            Some(p) => p,
            None => a.provider,
        },
        model: match u.model {
            Some(m) => m,
            None => a.model,
        },
        ..a
    }
}

#[verifier::ext_equal]
pub struct UpdateAgentView {
    pub id: int,
    pub provider: Option<AgentProvider>,
    pub model: Option<Seq<char>>,
}

impl View for UpdateAgent {
    type V = UpdateAgentView;

    open spec fn view(&self) -> UpdateAgentView {
        UpdateAgentView {
            id: self.id as int,
            provider: self.provider,
            model: match self.model {
                Some(ref m) => Some(m@),
                None => None,
            },
        }
    }
}

// ---------------------------------------------------------------------------
// Agent secret configuration.
// ---------------------------------------------------------------------------

#[verifier::ext_equal]
pub struct UpsertAgentConfigView {
    pub api_key: Option<Seq<char>>,
}

impl View for UpsertAgentConfig {
    type V = UpsertAgentConfigView;

    open spec fn view(&self) -> UpsertAgentConfigView {
        UpsertAgentConfigView {
            api_key: match self.api_key {
                Some(ref k) => Some(k@),
                None => None,
            },
        }
    }
}

impl View for UpdateAgentConfig {
    type V = UpsertAgentConfigView;

    open spec fn view(&self) -> UpsertAgentConfigView {
        UpsertAgentConfigView {
            api_key: match self.api_key {
                Some(ref k) => Some(k@),
                None => None,
            },
        }
    }
}

pub open spec fn next_clock_spec(clock: int) -> int {
    if clock < i64::MAX {
        clock + 1
    } else {
        clock
    }
}

/// The insert-or-update-by-agent-id semantics of `upsert_agent_config`:
/// the resulting store, and the number of rows the statement affected.
pub open spec fn upsert_agent_config_spec(
    s: StoreView,
    agent_id: int,
    api_key: Option<Seq<char>>,
) -> (StoreView, int) {
    let fm = first_match(s.agent_configs, config_with_agent_id(agent_id));
    if fm == s.agent_configs.len() {
        let row = AgentConfigRowView {
            created_at: next_clock_spec(s.clock),
            updated_at: next_clock_spec(s.clock),
            agent_id: agent_id,
            api_key: api_key,
        };
        (
            StoreView {
                agent_configs: s.agent_configs.push(row),
                clock: next_clock_spec(s.clock),
                ..s
            },
            1,
        )
    } else {
        match api_key {
            Some(k) => (
                StoreView {
                    agent_configs: s.agent_configs.update(
                        fm,
                        AgentConfigRowView { api_key: Some(k), ..s.agent_configs[fm] },
                    ),
                    ..s
                },
                1,
            ),
            None => (s, 0),
        }
    }
}

/// Upsert-agent-config is idempotent: a second call with the same fields
/// targets the same row and leaves the store exactly as the first call left it.
pub proof fn lemma_upsert_agent_config_idempotent(
    s: StoreView,
    agent_id: int,
    api_key: Option<Seq<char>>,
)
    ensures
        upsert_agent_config_spec(
            upsert_agent_config_spec(s, agent_id, api_key).0,
            agent_id,
            api_key,
        ).0 == upsert_agent_config_spec(s, agent_id, api_key).0,
{
    let p = config_with_agent_id(agent_id);
    let s1 = upsert_agent_config_spec(s, agent_id, api_key).0;
    let fm = first_match(s.agent_configs, p);
    lemma_first_match_bounds(s.agent_configs, p);
    if fm == s.agent_configs.len() {
        // The first call inserted a row at the end; the second finds it.
        lemma_first_match_is(s1.agent_configs, p, fm);
        match api_key {
            Some(k) => {
                assert(s1.agent_configs.update(
                    fm,
                    AgentConfigRowView { api_key: Some(k), ..s1.agent_configs[fm] },
                ) =~= s1.agent_configs);
                assert(upsert_agent_config_spec(s1, agent_id, api_key).0 =~= s1);
            },
            None => {
                assert(upsert_agent_config_spec(s1, agent_id, api_key).0 =~= s1);
            },
        }
    } else {
        match api_key {
            Some(k) => {
                // The first call updated row `fm`; it is still the first match.
                assert(forall|j: int| 0 <= j < fm ==> s1.agent_configs[j] == s.agent_configs[j]);
                lemma_first_match_is(s1.agent_configs, p, fm);
                assert(s1.agent_configs.update(
                    fm,
                    AgentConfigRowView { api_key: Some(k), ..s1.agent_configs[fm] },
                ) =~= s1.agent_configs);
                assert(upsert_agent_config_spec(s1, agent_id, api_key).0 =~= s1);
            },
            None => {},
        }
    }
}

impl Store {
    /// Index of the configuration row of the given agent, if one exists.
    fn config_index(&self, agent_id: u128) -> (r: Option<usize>)
        ensures
            match r {
                None => !has_match(self@.agent_configs, config_with_agent_id(agent_id as int)),
                Some(i) => {
                    &&& 0 <= i < self@.agent_configs.len()
                    &&& i as int == first_match(
                        self@.agent_configs,
                        config_with_agent_id(agent_id as int),
                    )
                    &&& has_match(self@.agent_configs, config_with_agent_id(agent_id as int))
                },
            },
    {
        let ghost p = config_with_agent_id(agent_id as int);
        let n = self.agent_configs.len();
        let mut i: usize = 0;
        while i < n
            invariant
                0 <= i <= n,
                n == self.agent_configs.len(),
                forall|j: int| 0 <= j < i ==> !p(self@.agent_configs[j]),
                p == config_with_agent_id(agent_id as int),
            decreases n - i,
        {
            if self.agent_configs[i].agent_id == agent_id {
                proof {
                    assert(self@.agent_configs[i as int] == self.agent_configs@[i as int]@);
                    assert(p(self@.agent_configs[i as int]));
                    lemma_first_match_is(self@.agent_configs, p, i as int);
                }
                return Some(i);
            }
            i = i + 1;
        }
        proof {
            lemma_first_match_is(self@.agent_configs, p, n as int);
        }
        None
    }

    /// The secret configuration of the given agent, if one exists.
    pub fn get_agent_config(&self, agent_id: u128) -> (r: Option<&AgentConfigRow>)
        ensures
            r is Some <==> has_match(self@.agent_configs, config_with_agent_id(agent_id as int)),
            r matches Some(c) ==> c@ == self@.agent_configs[first_match(
                self@.agent_configs,
                config_with_agent_id(agent_id as int),
            )],
    {
        let ghost p = config_with_agent_id(agent_id as int);
        let n = self.agent_configs.len();
        let mut i: usize = 0;
        while i < n
            invariant
                0 <= i <= n,
                n == self.agent_configs.len(),
                forall|j: int| 0 <= j < i ==> !p(self@.agent_configs[j]),
                p == config_with_agent_id(agent_id as int),
            decreases n - i,
        {
            if self.agent_configs[i].agent_id == agent_id {
                proof {
                    lemma_first_match_is(self@.agent_configs, p, i as int);
                    assert(self@.agent_configs[i as int] == self.agent_configs@[i as int]@);
                    assert(p(self@.agent_configs[i as int]));
                }
                return Some(&self.agent_configs[i]);
            }
            i = i + 1;
        }
        proof {
            lemma_first_match_is(self@.agent_configs, p, n as int);
        }
        None
    }

    /// Insert a new secret configuration; at most one per agent may exist.
    pub fn create_agent_config(&mut self, create: CreateAgentConfig) -> (r: Result<
        AgentConfigRow,
        AppError,
    >)
        ensures
            has_match(old(self)@.agent_configs, config_with_agent_id(create.agent_id as int))
                ==> {
                &&& r == Err::<AgentConfigRow, AppError>(AppError::Sqlx)
                &&& *final(self) == *old(self)
            },
            !has_match(old(self)@.agent_configs, config_with_agent_id(create.agent_id as int))
                ==> {
                &&& r matches Ok(row)
                &&& row@ == (AgentConfigRowView {
                    created_at: old(self).next_clock(),
                    updated_at: old(self).next_clock(),
                    agent_id: create.agent_id as int,
                    api_key: match create.api_key {
                        Some(ref k) => Some(k@),
                        None => None,
                    },
                })
                &&& final(self)@.agent_configs == old(self)@.agent_configs.push(row@)
                &&& has_match(final(self)@.agent_configs, config_with_agent_id(create.agent_id as int))
                &&& final(self)@.clock == old(self).next_clock()
                &&& final(self).agents == old(self).agents
                &&& final(self).current_agent == old(self).current_agent
                &&& final(self).chats == old(self).chats
                &&& final(self).chat_messages == old(self).chat_messages
            },
    {
        if self.get_agent_config(create.agent_id).is_some() {
            proof {
                lemma_first_match_bounds(
                    self@.agent_configs,
                    config_with_agent_id(create.agent_id as int),
                );
            }
            return Err(AppError::Sqlx);
        }
        let now = self.tick();
        let row = AgentConfigRow {
            created_at: now,
            updated_at: now,
            agent_id: create.agent_id,
            api_key: create.api_key,
        };
        let out = row.clone_row();
        self.agent_configs.push(row);
        proof {
            assert(self@.agent_configs =~= old(self)@.agent_configs.push(out@));
            assert(config_with_agent_id(create.agent_id as int)(
                self@.agent_configs[self@.agent_configs.len() - 1],
            ));
        }
        Ok(out)
    }

    /// Apply the supplied assignments to every configuration row of the given
    /// agent. An update that assigns nothing touches no row and reports zero
    /// affected rows.
    pub fn update_agent_config(&mut self, agent_id: u128, update: UpdateAgentConfig) -> (r: u64)
        ensures
            final(self)@.agent_configs.len() == old(self)@.agent_configs.len(),
            forall|i: int|
                0 <= i < old(self)@.agent_configs.len() ==> final(self)@.agent_configs[i] == (if old(
                    self,
                )@.agent_configs[i].agent_id == agent_id as int && update.api_key is Some {
                    AgentConfigRowView {
                        api_key: update@.api_key,
                        ..old(self)@.agent_configs[i]
                    }
                } else {
                    old(self)@.agent_configs[i]
                }),
            update.api_key is None ==> *final(self) == *old(self) && r == 0,
            update.api_key is Some ==> r as int == old(self)@.agent_configs.filter(
                config_with_agent_id(agent_id as int),
            ).len(),
            final(self).agents == old(self).agents,
            final(self).current_agent == old(self).current_agent,
            final(self).chats == old(self).chats,
            final(self).chat_messages == old(self).chat_messages,
            final(self).clock == old(self).clock,
    {
        broadcast use vstd::prelude::Seq::lemma_filter_push;

        let key = match update.api_key {
            Some(k) => k,
            None => {
                return 0;
            },
        };
        let ghost p = config_with_agent_id(agent_id as int);
        let n = self.agent_configs.len();
        let mut out: Vec<AgentConfigRow> = Vec::new();
        let mut count: u64 = 0;
        let mut i: usize = 0;
        while i < n
            invariant
                0 <= i <= n,
                n == self.agent_configs.len(),
                *self == *old(self),
                out@.len() == i,
                p == config_with_agent_id(agent_id as int),
                count <= i,
                count as int == old(self)@.agent_configs.take(i as int).filter(p).len(),
                forall|j: int|
                    0 <= j < i ==> out@[j]@ == (if old(self)@.agent_configs[j].agent_id
                        == agent_id as int {
                        AgentConfigRowView { api_key: Some(key@), ..old(self)@.agent_configs[j] }
                    } else {
                        old(self)@.agent_configs[j]
                    }),
            decreases n - i,
        {
            let row = &self.agent_configs[i];
            proof {
                let prev = old(self)@.agent_configs.take(i as int);
                let elem = old(self)@.agent_configs[i as int];
                assert(elem == old(self).agent_configs@[i as int]@);
                assert(old(self)@.agent_configs.take(i + 1) =~= prev.push(elem));
                prev.lemma_filter_len_push(p, elem);
            }
            if row.agent_id == agent_id {
                out.push(AgentConfigRow {
                    created_at: row.created_at,
                    updated_at: row.updated_at,
                    agent_id: row.agent_id,
                    api_key: Some(key.clone()),
                });
                count = count + 1;
            } else {
                out.push(row.clone_row());
            }
            i = i + 1;
        }
        self.agent_configs = out;
        proof {
            assert(old(self)@.agent_configs.take(n as int) =~= old(self)@.agent_configs);
            assert forall|j: int| 0 <= j < old(self)@.agent_configs.len() implies self@.agent_configs[j]
                == (if old(self)@.agent_configs[j].agent_id == agent_id as int {
                AgentConfigRowView { api_key: Some(key@), ..old(self)@.agent_configs[j] }
            } else {
                old(self)@.agent_configs[j]
            }) by {
                assert(self@.agent_configs[j] == self.agent_configs@[j]@);
            }
        }
        count
    }

    /// Insert the configuration row for `agent_id`, or update the columns that
    /// were supplied when a row already exists (`on conflict do update`).
    pub fn upsert_agent_config(&mut self, agent_id: u128, upsert: UpsertAgentConfig) -> (r: u64)
        ensures
            final(self)@ == upsert_agent_config_spec(old(self)@, agent_id as int, upsert@.api_key).0,
            r as int == upsert_agent_config_spec(old(self)@, agent_id as int, upsert@.api_key).1,
    {
        let ghost p = config_with_agent_id(agent_id as int);
        let ghost spec_out = upsert_agent_config_spec(old(self)@, agent_id as int, upsert@.api_key);
        let n = self.agent_configs.len();
        let found = self.config_index(agent_id);
        proof {
            lemma_first_match_bounds(old(self)@.agent_configs, p);
            let fm = first_match(old(self)@.agent_configs, p);
            if fm < old(self)@.agent_configs.len() {
                assert(has_match(old(self)@.agent_configs, p)) by {
                    assert(p(old(self)@.agent_configs[fm]));
                }
            }
        }
        if found.is_none() {
            let now = self.tick();
            let row = AgentConfigRow {
                created_at: now,
                updated_at: now,
                agent_id: agent_id,
                api_key: upsert.api_key,
            };
            self.agent_configs.push(row);
            proof {
                assert(self@.agent_configs =~= spec_out.0.agent_configs);
                assert(self@ =~= spec_out.0);
            }
            1
        } else {
            let idx = found.unwrap();
            match upsert.api_key {
                Some(key) => {
                    let ghost fm = idx as int;
                    let mut out: Vec<AgentConfigRow> = Vec::new();
                    let mut j: usize = 0;
                    while j < n
                        invariant
                            0 <= j <= n,
                            n == self.agent_configs.len(),
                            *self == *old(self),
                            fm == idx as int,
                            0 <= fm < n,
                            out@.len() == j,
                            forall|k: int|
                                0 <= k < j ==> out@[k]@ == (if k == fm {
                                    AgentConfigRowView {
                                        api_key: Some(key@),
                                        ..old(self)@.agent_configs[k]
                                    }
                                } else {
                                    old(self)@.agent_configs[k]
                                }),
                        decreases n - j,
                    {
                        let row = &self.agent_configs[j];
                        proof {
                            assert(old(self)@.agent_configs[j as int] == old(
                                self,
                            ).agent_configs@[j as int]@);
                        }
                        if j == idx {
                            out.push(AgentConfigRow {
                                created_at: row.created_at,
                                updated_at: row.updated_at,
                                agent_id: row.agent_id,
                                api_key: Some(key.clone()),
                            });
                        } else {
                            out.push(row.clone_row());
                        }
                        j = j + 1;
                    }
                    self.agent_configs = out;
                    proof {
                        assert forall|k: int| 0 <= k < n implies self@.agent_configs[k]
                            == spec_out.0.agent_configs[k] by {
                            assert(self@.agent_configs[k] == self.agent_configs@[k]@);
                        }
                        assert(self@.agent_configs =~= spec_out.0.agent_configs);
                        assert(self@ =~= spec_out.0);
                    }
                    1
                },
                None => {
                    proof {
                        assert(self@ =~= spec_out.0);
                    }
                    0
                },
            }
        }
    }
}

// ---------------------------------------------------------------------------
// Chats and chat messages.
// ---------------------------------------------------------------------------

#[verifier::ext_equal]
pub struct UpdateChatMessageView {
    pub role: Option<Seq<char>>,
    pub content: Option<Seq<char>>,
    pub status: Option<ChatMessageStatus>,
}

impl View for UpdateChatMessage {
    type V = UpdateChatMessageView;

    open spec fn view(&self) -> UpdateChatMessageView {
        UpdateChatMessageView {
            role: match self.role {
                Some(ref r) => Some(r@),
                None => None,
            },
            content: match self.content {
                Some(ref c) => Some(c@),
                None => None,
            },
            status: self.status,
        }
    }
}

/// Whether creation timestamps never decrease along a message sequence.
pub open spec fn created_at_sorted(msgs: Seq<ChatMessageRowView>) -> bool {
    forall|i: int, j: int| 0 <= i <= j < msgs.len() ==> msgs[i].created_at <= msgs[j].created_at
}

/// Filtering preserves the creation order: a chat's history, read off a
/// store whose messages are in creation order, is in creation order too.
pub proof fn lemma_filter_keeps_created_at_order(
    msgs: Seq<ChatMessageRowView>,
    p: spec_fn(ChatMessageRowView) -> bool,
)
    requires
        created_at_sorted(msgs),
    ensures
        created_at_sorted(msgs.filter(p)),
        msgs.len() > 0 ==> forall|k: int|
            0 <= k < msgs.filter(p).len() ==> #[trigger] msgs.filter(p)[k].created_at
                <= msgs.last().created_at,
    decreases msgs.len(),
{
    broadcast use vstd::prelude::Seq::lemma_filter_push;

    if msgs.len() > 0 {
        let d = msgs.drop_last();
        assert(created_at_sorted(d)) by {
            assert(forall|i: int, j: int|
                0 <= i <= j < d.len() ==> d[i] == msgs[i] && d[j] == msgs[j]);
        }
        lemma_filter_keeps_created_at_order(d, p);
        assert(msgs =~= d.push(msgs.last()));
        assert(d.push(msgs.last()).filter(p) == if p(msgs.last()) {
            d.filter(p).push(msgs.last())
        } else {
            d.filter(p)
        });
        assert(d.len() > 0 ==> d.last().created_at <= msgs.last().created_at) by {
            if d.len() > 0 {
                assert(d.last() == msgs[msgs.len() - 2]);
            }
        }
    }
}

/// The result of applying an `UpdateChatMessage` to one message row.
pub open spec fn updated_message_view(
    m: ChatMessageRowView,
    u: UpdateChatMessageView,
) -> ChatMessageRowView {
    ChatMessageRowView {
        role: match u.role {
            Some(r) => r,
            None => m.role,
        },
        content: match u.content {
            Some(c) => c,
            None => m.content,
        },
        status: match u.status {
            Some(s) => s,
            None => m.status,
        },
        ..m
    }
}

impl Store {
    /// The chat with the given id, if any.
    pub fn get_chat(&self, id: u128) -> (r: Option<&ChatRow>)
        ensures
            r is Some <==> has_match(self@.chats, chat_with_id(id as int)),
            r matches Some(c) ==> c@ == self@.chats[first_match(self@.chats, chat_with_id(id as int))],
    {
        let ghost p = chat_with_id(id as int);
        let n = self.chats.len();
        let mut i: usize = 0;
        while i < n
            invariant
                0 <= i <= n,
                n == self.chats.len(),
                forall|j: int| 0 <= j < i ==> !p(self@.chats[j]),
                p == chat_with_id(id as int),
            decreases n - i,
        {
            if self.chats[i].id == id {
                proof {
                    assert(self@.chats[i as int] == self.chats@[i as int]@);
                    assert(p(self@.chats[i as int]));
                    lemma_first_match_is(self@.chats, p, i as int);
                }
                return Some(&self.chats[i]);
            }
            i = i + 1;
        }
        proof {
            lemma_first_match_is(self@.chats, p, n as int);
        }
        None
    }

    /// Insert a new chat row; the primary key forbids a duplicate id.
    pub fn create_chat(&mut self, create: CreateChat) -> (r: Result<ChatRow, AppError>)
        ensures
            has_match(old(self)@.chats, chat_with_id(create.id as int)) ==> {
                &&& r == Err::<ChatRow, AppError>(AppError::Sqlx)
                &&& *final(self) == *old(self)
            },
            !has_match(old(self)@.chats, chat_with_id(create.id as int)) ==> {
                &&& r matches Ok(row)
                &&& row@ == (ChatRowView {
                    created_at: old(self).next_clock(),
                    id: create.id as int,
                    title: create.title@,
                })
                &&& final(self)@.chats == old(self)@.chats.push(row@)
                &&& has_match(final(self)@.chats, chat_with_id(create.id as int))
                &&& final(self)@.clock == old(self).next_clock()
                &&& final(self).agents == old(self).agents
                &&& final(self).agent_configs == old(self).agent_configs
                &&& final(self).current_agent == old(self).current_agent
                &&& final(self).chat_messages == old(self).chat_messages
            },
    {
        if self.get_chat(create.id).is_some() {
            proof {
                lemma_first_match_bounds(self@.chats, chat_with_id(create.id as int));
            }
            return Err(AppError::Sqlx);
        }
        let now = self.tick();
        let row = ChatRow { created_at: now, id: create.id, title: create.title };
        let out = row.clone_row();
        self.chats.push(row);
        proof {
            assert(self@.chats =~= old(self)@.chats.push(out@));
            assert(chat_with_id(create.id as int)(self@.chats[self@.chats.len() - 1]));
        }
        Ok(out)
    }

    /// All messages of one chat, in storage (= creation) order.
    pub fn get_chat_messages(&self, chat_id: u128) -> (r: Vec<ChatMessageRow>)
        ensures
            r@.map_values(|m: ChatMessageRow| m@) == self@.chat_messages.filter(
                |m: ChatMessageRowView| m.chat_id == chat_id as int,
            ),
            created_at_sorted(self@.chat_messages) ==> created_at_sorted(
                r@.map_values(|m: ChatMessageRow| m@),
            ),
    {
        let ghost p = |m: ChatMessageRowView| m.chat_id == chat_id as int;
        let n = self.chat_messages.len();
        let mut out: Vec<ChatMessageRow> = Vec::new();
        let mut i: usize = 0;
        while i < n
            invariant
                0 <= i <= n,
                n == self.chat_messages.len(),
                p == (|m: ChatMessageRowView| m.chat_id == chat_id as int),
                out@.map_values(|m: ChatMessageRow| m@) == self@.chat_messages.take(i as int).filter(p),
            decreases n - i,
        {
            let row = &self.chat_messages[i];
            proof {
                let prev = self@.chat_messages.take(i as int);
                let elem = self@.chat_messages[i as int];
                assert(elem == self.chat_messages@[i as int]@);
                assert(self@.chat_messages.take(i + 1) =~= prev.push(elem));
                prev.lemma_filter_push(elem, p);
            }
            if row.chat_id == chat_id {
                let r2 = row.clone_row();
                out.push(r2);
                proof {
                    assert(out@.map_values(|m: ChatMessageRow| m@) =~= self@.chat_messages.take(
                        i + 1,
                    ).filter(p));
                }
            } else {
                proof {
                    assert(out@.map_values(|m: ChatMessageRow| m@) =~= self@.chat_messages.take(
                        i + 1,
                    ).filter(p));
                }
            }
            i = i + 1;
        }
        proof {
            assert(self@.chat_messages.take(n as int) =~= self@.chat_messages);
            if created_at_sorted(self@.chat_messages) {
                lemma_filter_keeps_created_at_order(self@.chat_messages, p);
            }
        }
        out
    }

    /// Insert a new chat message; the primary key forbids a duplicate id.
    /// The returned row carries the creation timestamp the store assigned.
    pub fn create_chat_message(&mut self, message: CreateChatMessage) -> (r: Result<
        ChatMessageRow,
        AppError,
    >)
        ensures
            has_match(old(self)@.chat_messages, message_with_id(message.id as int)) ==> {
                &&& r == Err::<ChatMessageRow, AppError>(AppError::Sqlx)
                &&& *final(self) == *old(self)
            },
            !has_match(old(self)@.chat_messages, message_with_id(message.id as int)) ==> {
                &&& r matches Ok(row)
                &&& row@ == created_message_view(message@, old(self).next_clock())
                &&& final(self)@.chat_messages == old(self)@.chat_messages.push(row@)
                &&& has_match(final(self)@.chat_messages, message_with_id(message.id as int))
                &&& final(self)@.clock == old(self).next_clock()
                &&& final(self).agents == old(self).agents
                &&& final(self).agent_configs == old(self).agent_configs
                &&& final(self).current_agent == old(self).current_agent
                &&& final(self).chats == old(self).chats
            },
    {
        let ghost p = message_with_id(message.id as int);
        let n = self.chat_messages.len();
        let mut i: usize = 0;
        while i < n
            invariant
                0 <= i <= n,
                n == self.chat_messages.len(),
                forall|j: int| 0 <= j < i ==> !p(self@.chat_messages[j]),
                p == message_with_id(message.id as int),
            decreases n - i,
        {
            if self.chat_messages[i].id == message.id {
                proof {
                    assert(self@.chat_messages[i as int] == self.chat_messages@[i as int]@);
                    assert(has_match(old(self)@.chat_messages, p)) by {
                        assert(p(self@.chat_messages[i as int]));
                    }
                }
                return Err(AppError::Sqlx);
            }
            i = i + 1;
        }
        let now = self.tick();
        let row = ChatMessageRow {
            created_at: now,
            id: message.id,
            chat_id: message.chat_id,
            role: message.role,
            content: message.content,
            status: message.status,
        };
        let out = row.clone_row();
        self.chat_messages.push(row);
        proof {
            assert(self@.chat_messages =~= old(self)@.chat_messages.push(out@));
            assert(message_with_id(message.id as int)(
                self@.chat_messages[self@.chat_messages.len() - 1],
            ));
        }
        Ok(out)
    }

    /// Apply the supplied assignments to every message row with the given id.
    /// An update that assigns nothing leaves the store untouched.
    pub fn update_chat_message(&mut self, id: u128, update: UpdateChatMessage)
        ensures
            final(self)@.chat_messages.len() == old(self)@.chat_messages.len(),
            forall|i: int|
                0 <= i < old(self)@.chat_messages.len() ==> final(self)@.chat_messages[i] == (if old(
                    self,
                )@.chat_messages[i].id == id as int {
                    updated_message_view(old(self)@.chat_messages[i], update@)
                } else {
                    old(self)@.chat_messages[i]
                }),
            final(self).agents == old(self).agents,
            final(self).agent_configs == old(self).agent_configs,
            final(self).current_agent == old(self).current_agent,
            final(self).chats == old(self).chats,
            final(self).clock == old(self).clock,
    {
        let n = self.chat_messages.len();
        let mut out: Vec<ChatMessageRow> = Vec::new();
        let mut i: usize = 0;
        while i < n
            invariant
                0 <= i <= n,
                n == self.chat_messages.len(),
                *self == *old(self),
                out@.len() == i,
                forall|j: int|
                    0 <= j < i ==> out@[j]@ == (if old(self)@.chat_messages[j].id == id as int {
                        updated_message_view(old(self)@.chat_messages[j], update@)
                    } else {
                        old(self)@.chat_messages[j]
                    }),
            decreases n - i,
        {
            let row = &self.chat_messages[i];
            proof {
                assert(old(self)@.chat_messages[i as int] == old(self).chat_messages@[i as int]@);
            }
            let row2 = if row.id == id {
                ChatMessageRow {
                    created_at: row.created_at,
                    id: row.id,
                    chat_id: row.chat_id,
                    role: match &update.role {
                        Some(r) => r.clone(),
                        None => row.role.clone(),
                    },
                    content: match &update.content {
                        Some(c) => c.clone(),
                        None => row.content.clone(),
                    },
                    status: match &update.status {
                        Some(s) => *s,
                        None => row.status,
                    },
                }
            } else {
                row.clone_row()
            };
            out.push(row2);
            i = i + 1;
        }
        self.chat_messages = out;
        proof {
            assert forall|j: int| 0 <= j < old(self)@.chat_messages.len() implies self@.chat_messages[j]
                == (if old(self)@.chat_messages[j].id == id as int {
                updated_message_view(old(self)@.chat_messages[j], update@)
            } else {
                old(self)@.chat_messages[j]
            }) by {
                assert(self@.chat_messages[j] == self.chat_messages@[j]@);
            }
        }
    }
}

/// The message row created from a `CreateChatMessage` at the given timestamp.
pub open spec fn created_message_view(c: CreateChatMessageView, now: int) -> ChatMessageRowView {
    ChatMessageRowView {
        created_at: now,
        id: c.id,
        chat_id: c.chat_id,
        role: c.role,
        content: c.content,
        status: c.status,
    }
}

impl Store {
    /// First-run seeding: when no agent exists yet, create the three stock
    /// Gemini agents under the given fresh identifiers.
    pub fn seed_data(&mut self, id_pro: u128, id_flash: u128, id_lite: u128)
        requires
            id_pro != id_flash,
            id_pro != id_lite,
            id_flash != id_lite,
        ensures
            old(self)@.agents.len() > 0 ==> *final(self) == *old(self),
            old(self)@.agents.len() == 0 ==> {
                &&& final(self)@.agents.len() == 3
                &&& final(self)@.agents[0] == (AgentRowView {
                    created_at: next_clock_spec(old(self)@.clock),
                    updated_at: next_clock_spec(old(self)@.clock),
                    id: id_pro as int,
                    provider: AgentProvider::Google,
                    model: "gemini-2.5-pro"@,
                })
                &&& final(self)@.agents[1] == (AgentRowView {
                    created_at: next_clock_spec(next_clock_spec(old(self)@.clock)),
                    updated_at: next_clock_spec(next_clock_spec(old(self)@.clock)),
                    id: id_flash as int,
                    provider: AgentProvider::Google,
                    model: "gemini-2.5-flash"@,
                })
                &&& final(self)@.agents[2] == (AgentRowView {
                    created_at: next_clock_spec(
                        next_clock_spec(next_clock_spec(old(self)@.clock)),
                    ),
                    updated_at: next_clock_spec(
                        next_clock_spec(next_clock_spec(old(self)@.clock)),
                    ),
                    id: id_lite as int,
                    provider: AgentProvider::Google,
                    model: "gemini-2.5-flash-lite"@,
                })
                &&& final(self).agent_configs == old(self).agent_configs
                &&& final(self).current_agent == old(self).current_agent
                &&& final(self).chats == old(self).chats
                &&& final(self).chat_messages == old(self).chat_messages
            },
    {
        if !self.agents.is_empty() {
            return;
        }
        let c1 = self.tick();
        self.agents.push(
            AgentRow {
                created_at: c1,
                updated_at: c1,
                id: id_pro,
                provider: AgentProvider::Google,
                model: "gemini-2.5-pro".to_owned(),
            },
        );
        let c2 = self.tick();
        self.agents.push(
            AgentRow {
                created_at: c2,
                updated_at: c2,
                id: id_flash,
                provider: AgentProvider::Google,
                model: "gemini-2.5-flash".to_owned(),
            },
        );
        let c3 = self.tick();
        self.agents.push(
            AgentRow {
                created_at: c3,
                updated_at: c3,
                id: id_lite,
                provider: AgentProvider::Google,
                model: "gemini-2.5-flash-lite".to_owned(),
            },
        );
        proof {
            assert(self@.agents[0] == self.agents@[0]@);
            assert(self@.agents[1] == self.agents@[1]@);
            assert(self@.agents[2] == self.agents@[2]@);
        }
    }
}

} // verus!
