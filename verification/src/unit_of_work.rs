use vstd::prelude::*;

use crate::entity::{AgentRow, ChatMessageRow, ChatMessageRowView};
use crate::error::AppError;
use crate::store::{
    created_message_view, has_match, message_with_id, next_clock_spec, CreateChatMessage, Store,
    StoreView,
};

verus! {

/// Witness that a transaction-scoped agent repository was handed out and has
/// not yet been returned.
pub struct AgentRepoHandle {
}

/// Witness that a transaction-scoped chat repository was handed out and has
/// not yet been returned.
pub struct ChatRepoHandle {
}

/// One open transaction. Writes go to a journal and become durable only at
/// `commit`, which consumes the unit of work; dropping it instead discards
/// the journal (implicit rollback). Repository handles obtained from it must
/// all be released before `commit` can succeed.
pub struct UnitOfWork {
    journal: Vec<ChatMessageRow>,
    tx_clock: i64,
    handles: u64,
}

/// The store that results from making a transaction's journal durable.
pub open spec fn apply_journal(
    s: StoreView,
    rows: Seq<ChatMessageRowView>,
    tx_clock: int,
) -> StoreView {
    StoreView {
        chat_messages: s.chat_messages + rows,
        clock: if tx_clock > s.clock {
            tx_clock
        } else {
            s.clock
        },
        ..s
    }
}

impl UnitOfWork {
    /// The journalled writes, oldest first.
    pub closed spec fn journal(&self) -> Seq<ChatMessageRowView> {
        self.journal@.map_values(|r: ChatMessageRow| r@)
    }

    /// How many repository handles are outstanding.
    pub closed spec fn outstanding(&self) -> int {
        self.handles as int
    }

    /// The transaction's private clock, seeded from the store at creation.
    pub closed spec fn clock(&self) -> int {
        self.tx_clock as int
    }

    /// The handle count is a machine word: never negative.
    pub proof fn lemma_outstanding_nonneg(&self)
        ensures
            self.outstanding() >= 0,
    {
    }

    /// Open a transaction against the given store.
    pub fn create(store: &Store) -> (r: UnitOfWork)
        ensures
            r.journal() == Seq::<ChatMessageRowView>::empty(),
            r.outstanding() == 0,
            r.clock() == store.clock,
    {
        let r = UnitOfWork { journal: Vec::new(), tx_clock: store.clock, handles: 0 };
        proof {
            assert(r.journal() =~= Seq::<ChatMessageRowView>::empty());
        }
        r
    }

    /// Hand out a transaction-scoped agent repository.
    pub fn agent_repo(&mut self) -> (r: AgentRepoHandle)
        requires
            old(self).outstanding() < u64::MAX,
        ensures
            final(self).outstanding() == old(self).outstanding() + 1,
            final(self).journal() == old(self).journal(),
            final(self).clock() == old(self).clock(),
    {
        self.handles = self.handles + 1;
        AgentRepoHandle {  }
    }

    /// Hand out a transaction-scoped chat repository.
    pub fn chat_repo(&mut self) -> (r: ChatRepoHandle)
        requires
            old(self).outstanding() < u64::MAX,
        ensures
            final(self).outstanding() == old(self).outstanding() + 1,
            final(self).journal() == old(self).journal(),
            final(self).clock() == old(self).clock(),
    {
        self.handles = self.handles + 1;
        ChatRepoHandle {  }
    }

    /// Return an agent repository handle.
    pub fn release_agent_repo(&mut self, handle: AgentRepoHandle)
        requires
            old(self).outstanding() > 0,
        ensures
            final(self).outstanding() == old(self).outstanding() - 1,
            final(self).journal() == old(self).journal(),
            final(self).clock() == old(self).clock(),
    {
        let _ = handle;
        self.handles = self.handles - 1;
    }

    /// Return a chat repository handle.
    pub fn release_chat_repo(&mut self, handle: ChatRepoHandle)
        requires
            old(self).outstanding() > 0,
        ensures
            final(self).outstanding() == old(self).outstanding() - 1,
            final(self).journal() == old(self).journal(),
            final(self).clock() == old(self).clock(),
    {
        let _ = handle;
        self.handles = self.handles - 1;
    }

    /// Read the current agent through the transaction. The transaction's
    /// journal holds no agent writes, so the read passes through to the store.
    pub fn get_current_agent<'a>(&self, handle: &AgentRepoHandle, store: &'a Store) -> (r: Option<
        &'a AgentRow,
    >)
        ensures
            match store@.current_agent {
                None => r is None,
                Some(id) => {
                    &&& r is Some <==> has_match(store@.agents, crate::store::agent_with_id(id))
                    &&& r matches Some(a) ==> a@ == store@.agents[crate::store::first_match(
                        store@.agents,
                        crate::store::agent_with_id(id),
                    )]
                },
            },
    {
        let _ = handle;
        store.get_current_agent()
    }

    /// Journal the insertion of a chat message. The duplicate-id check the
    /// primary key would perform at statement time runs against the base store
    /// and the journal together.
    pub fn create_chat_message(
        &mut self,
        handle: &ChatRepoHandle,
        store: &Store,
        message: CreateChatMessage,
    ) -> (r: Result<ChatMessageRow, AppError>)
        ensures
            (has_match(store@.chat_messages, message_with_id(message.id as int)) || has_match(
                old(self).journal(),
                message_with_id(message.id as int),
            )) ==> {
                &&& r == Err::<ChatMessageRow, AppError>(AppError::Sqlx)
                &&& final(self).journal() == old(self).journal()
                &&& final(self).clock() == old(self).clock()
            },
            !(has_match(store@.chat_messages, message_with_id(message.id as int)) || has_match(
                old(self).journal(),
                message_with_id(message.id as int),
            )) ==> {
                &&& r matches Ok(row)
                &&& row@ == created_message_view(message@, next_clock_spec(old(self).clock()))
                &&& final(self).journal() == old(self).journal().push(row@)
                &&& final(self).clock() == next_clock_spec(old(self).clock())
            },
            final(self).outstanding() == old(self).outstanding(),
    {
        let _ = handle;
        let ghost p = message_with_id(message.id as int);
        let n = store.chat_messages.len();
        let mut i: usize = 0;
        while i < n
            invariant
                0 <= i <= n,
                n == store.chat_messages.len(),
                forall|j: int| 0 <= j < i ==> !p(store@.chat_messages[j]),
                p == message_with_id(message.id as int),
            decreases n - i,
        {
            if store.chat_messages[i].id == message.id {
                proof {
                    assert(store@.chat_messages[i as int] == store.chat_messages@[i as int]@);
                    assert(has_match(store@.chat_messages, p)) by {
                        assert(p(store@.chat_messages[i as int]));
                    }
                }
                return Err(AppError::Sqlx);
            }
            i = i + 1;
        }
        let m = self.journal.len();
        let mut j: usize = 0;
        while j < m
            invariant
                0 <= j <= m,
                m == self.journal.len(),
                *self == *old(self),
                forall|k: int| 0 <= k < j ==> !p(old(self).journal()[k]),
                p == message_with_id(message.id as int),
            decreases m - j,
        {
            if self.journal[j].id == message.id {
                proof {
                    assert(old(self).journal()[j as int] == self.journal@[j as int]@);
                    assert(has_match(old(self).journal(), p)) by {
                        assert(p(old(self).journal()[j as int]));
                    }
                }
                return Err(AppError::Sqlx);
            }
            j = j + 1;
        }
        if self.tx_clock < i64::MAX {
            self.tx_clock = self.tx_clock + 1;
        }
        let row = ChatMessageRow {
            created_at: self.tx_clock,
            id: message.id,
            chat_id: message.chat_id,
            role: message.role,
            content: message.content,
            status: message.status,
        };
        let out = row.clone_row();
        self.journal.push(row);
        proof {
            assert(self.journal() =~= old(self).journal().push(out@));
        }
        Ok(out)
    }

    /// Make the journal durable. Fails with `TransactionInUse`, leaving the
    /// store untouched, exactly when a repository handle is still outstanding.
    pub fn commit(self, store: &mut Store) -> (r: Result<(), AppError>)
        ensures
            self.outstanding() != 0 ==> {
                &&& r == Err::<(), AppError>(AppError::TransactionInUse)
                &&& *final(store) == *old(store)
            },
            self.outstanding() == 0 ==> {
                &&& r == Ok::<(), AppError>(())
                &&& final(store)@ == apply_journal(old(store)@, self.journal(), self.clock())
            },
    {
        if self.handles != 0 {
            return Err(AppError::TransactionInUse);
        }
        let UnitOfWork { mut journal, tx_clock, handles: _ } = self;
        let ghost rows = journal@.map_values(|r: ChatMessageRow| r@);
        let n = journal.len();
        let ghost orig = old(store)@.chat_messages;
        proof {
            assert(orig + rows.take(0) =~= orig);
        }
        let mut i: usize = 0;
        while i < n
            invariant
                0 <= i <= n,
                n == journal.len(),
                journal@.map_values(|r: ChatMessageRow| r@) == rows,
                store@.chat_messages == orig + rows.take(i as int),
                store.agents == old(store).agents,
                store.agent_configs == old(store).agent_configs,
                store.current_agent == old(store).current_agent,
                store.chats == old(store).chats,
                store.clock == old(store).clock,
            decreases n - i,
        {
            let row = journal[i].clone_row();
            let ghost before = store.chat_messages@;
            proof {
                assert(rows[i as int] == journal@[i as int]@);
                assert(row@ == rows[i as int]);
            }
            store.chat_messages.push(row);
            proof {
                assert(store.chat_messages@ == before.push(row));
                assert(rows.len() == n);
                assert(store@.chat_messages.len() == store.chat_messages@.len());
                assert(before.len() == (orig + rows.take(i as int)).len());
                assert((orig + rows.take(i + 1)).len() == orig.len() + i + 1);
                assert forall|k: int| 0 <= k < store.chat_messages@.len() implies store@.chat_messages[k]
                    == (orig + rows.take(i + 1))[k] by {
                    assert(store@.chat_messages[k] == store.chat_messages@[k]@);
                    if k < before.len() {
                        assert(store.chat_messages@[k] == before[k]);
                        assert(before[k]@ == (orig + rows.take(i as int))[k]);
                    } else {
                        assert(store.chat_messages@[k] == row);
                    }
                }
                assert(store@.chat_messages =~= orig + rows.take(i + 1));
            }
            i = i + 1;
        }
        if tx_clock > store.clock {
            store.clock = tx_clock;
        }
        proof {
            assert(rows.take(n as int) =~= rows);
            assert(store@ =~= apply_journal(old(store)@, self.journal(), self.clock()));
        }
        Ok(())
    }
}

} // verus!
