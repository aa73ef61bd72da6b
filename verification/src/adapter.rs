//! The adapter, the sessions it holds, and the sessions that outlive it.

use vstd::prelude::*;
use crate::table::Table;
use crate::text;

verus! {

/// The adapter holds fewer sessions than this before it takes in another one.
pub const MAX_SESSIONS: usize = 64;

/// A session that the adapter holds in memory.
pub struct Session {
    pub conversation_id: Option<String>,
    /// The last step that was read from the conversation.
    pub last_step_idx: i64,
    /// The model selected for this session.
    pub model_id: Option<String>,
}

/// A session as the state file keeps it.
pub struct StoredSession {
    pub conversation_id: Option<String>,
    /// The last step that was read from the conversation.
    pub last_step_idx: i64,
    /// The model selected for this session.
    pub model_id: Option<String>,
}

/// What a session says, in memory or in the state file.
pub struct SessionView {
    pub conversation_id: Option<Seq<char>>,
    pub last_step_idx: i64,
    pub model_id: Option<Seq<char>>,
}

impl View for Session {
    type V = SessionView;

    open spec fn view(&self) -> SessionView {
        SessionView {
            conversation_id: text::opt_text(self.conversation_id),
            last_step_idx: self.last_step_idx,
            model_id: text::opt_text(self.model_id),
        }
    }
}

impl View for StoredSession {
    type V = SessionView;

    open spec fn view(&self) -> SessionView {
        SessionView {
            conversation_id: text::opt_text(self.conversation_id),
            last_step_idx: self.last_step_idx,
            model_id: text::opt_text(self.model_id),
        }
    }
}

/// The sessions of the state file, by their ids.
pub struct SessionStore {
    pub sessions: Table<StoredSession>,
}

impl View for SessionStore {
    type V = Map<Seq<char>, SessionView>;

    open spec fn view(&self) -> Map<Seq<char>, SessionView> {
        self.sessions@
    }
}

/// A session to be written to the state file.
pub struct Persist {
    pub session_id: String,
    pub conversation_id: Option<String>,
    pub last_step_idx: i64,
    pub model_id: Option<String>,
}

impl Persist {
    /// The id and the session that this writes.
    pub open spec fn says(self, session_id: Seq<char>, session: SessionView) -> bool {
        &&& self.session_id@ == session_id
        &&& text::opt_text(self.conversation_id) == session.conversation_id
        &&& self.last_step_idx == session.last_step_idx
        &&& text::opt_text(self.model_id) == session.model_id
    }
}

/// The adapter: its sessions, its paths and the models it knows.
pub struct Adapter {
    pub sessions: Table<Session>,
    pub working_dir: String,
    pub conversations_dir: String,
    pub state_file: String,
    pub available_models: Option<Vec<String>>,
}

/// Nothing but the sessions differs.
pub open spec fn same_but_sessions(before: Adapter, after: Adapter) -> bool {
    &&& after.working_dir == before.working_dir
    &&& after.conversations_dir == before.conversations_dir
    &&& after.state_file == before.state_file
    &&& after.available_models == before.available_models
}

/// Nothing but the known models differs.
pub open spec fn same_but_models(before: Adapter, after: Adapter) -> bool {
    &&& after.sessions == before.sessions
    &&& after.working_dir == before.working_dir
    &&& after.conversations_dir == before.conversations_dir
    &&& after.state_file == before.state_file
}

/// What is left of `before` once there is room for one more session: all of it, or
/// one session less than the limit. Which sessions leave is not said.
pub open spec fn evicted(
    before: Map<Seq<char>, SessionView>,
    after: Map<Seq<char>, SessionView>,
) -> bool {
    if before.dom().len() < MAX_SESSIONS {
        after == before
    } else {
        &&& after.submap_of(before)
        &&& after.dom().finite()
        &&& after.dom().len() == MAX_SESSIONS - 1
    }
}

/// The sessions once `id` stands for `session`: in its old place where it had one, else
/// in the room that was made for it.
pub open spec fn settled(
    before: Map<Seq<char>, SessionView>,
    after: Map<Seq<char>, SessionView>,
    id: Seq<char>,
    session: SessionView,
) -> bool {
    if before.contains_key(id) {
        after == before.insert(id, session)
    } else {
        &&& evicted(before, after.remove(id))
        &&& after == after.remove(id).insert(id, session)
    }
}

/// The session that the state file gives back for `id`: one that is bound to a
/// conversation.
pub open spec fn restorable(
    store: Map<Seq<char>, SessionView>,
    id: Seq<char>,
) -> Option<SessionView> {
    if store.contains_key(id) && store[id].conversation_id is Some {
        Some(store[id])
    } else {
        None
    }
}

/// The session of `id`: the one in memory, else the one that the state file gives back.
pub open spec fn current_session(
    sessions: Map<Seq<char>, SessionView>,
    store: Map<Seq<char>, SessionView>,
    id: Seq<char>,
) -> Option<SessionView> {
    if sessions.contains_key(id) {
        Some(sessions[id])
    } else {
        restorable(store, id)
    }
}

impl SessionStore {
    /// The store without sessions.
    pub fn new() -> (r: SessionStore)
        ensures
            r@ == Map::<Seq<char>, SessionView>::empty(),
    {
        SessionStore { sessions: Table::new() }
    }
}

impl Adapter {
    /// The persisted sessions: those that the state file holds, or none where it could not
    /// be opened or read.
    pub fn load_store(parsed: Option<SessionStore>) -> (r: SessionStore)
        ensures
            r@ == (match parsed {
                Some(store) => store@,
                None => Map::<Seq<char>, SessionView>::empty(),
            }),
    {
        match parsed {
            Some(store) => store,
            None => SessionStore::new(),
        }
    }

    /// The conversation, the last step and the model that the store keeps for a session
    /// which is bound to a conversation.
    pub fn restore_session(store: &SessionStore, session_id: &str) -> (r: Option<
        (String, i64, Option<String>),
    >)
        ensures
            match r {
                Some((conversation_id, last_step_idx, model_id)) => restorable(
                    store@,
                    session_id@,
                ) == Some(
                    SessionView {
                        conversation_id: Some(conversation_id@),
                        last_step_idx,
                        model_id: text::opt_text(model_id),
                    },
                ),
                None => restorable(store@, session_id@) is None,
            },
    {
        match store.sessions.get(session_id) {
            Some(s) => match &s.conversation_id {
                Some(cid) => Some((cid.clone(), s.last_step_idx, text::copied_opt(&s.model_id))),
                None => None,
            },
            None => None,
        }
    }

    /// The store with a session written to it, in place of the one it may have had.
    pub fn persist_session(
        store: SessionStore,
        session_id: &str,
        conversation_id: Option<&str>,
        last_step_idx: i64,
        model_id: Option<&str>,
    ) -> (r: SessionStore)
        ensures
            r@ == store@.insert(
                session_id@,
                SessionView {
                    conversation_id: text::opt_str(conversation_id),
                    last_step_idx,
                    model_id: text::opt_str(model_id),
                },
            ),
    {
        let mut sessions = store.sessions;
        let session = StoredSession {
            conversation_id: text::owned_opt(conversation_id),
            last_step_idx,
            model_id: text::owned_opt(model_id),
        };
        sessions.insert(session_id, session);
        SessionStore { sessions }
    }

    /// Takes sessions out until there is room for one more.
    pub fn evict_if_needed(&mut self)
        ensures
            evicted(old(self).sessions@, final(self).sessions@),
            same_but_sessions(*old(self), *final(self)),
    {
        let ghost before = self.sessions@;
        let mut n: usize = self.sessions.len();
        while n >= MAX_SESSIONS
            invariant
                before == old(self).sessions@,
                same_but_sessions(*old(self), *self),
                self.sessions@.submap_of(before),
                self.sessions@.dom().finite(),
                n == self.sessions@.dom().len(),
                n <= before.dom().len(),
                n < before.dom().len() ==> n >= MAX_SESSIONS - 1,
                n == before.dom().len() ==> self.sessions@ == before,
            decreases n,
        {
            self.sessions.drop_one();
            n = self.sessions.len();
        }
    }

    /// Takes a session of the store into memory; whether the store has it.
    pub fn restore_session_state(&mut self, store: &SessionStore, session_id: &str) -> (r: bool)
        ensures
            same_but_sessions(*old(self), *final(self)),
            r == (restorable(store@, session_id@) is Some),
            match restorable(store@, session_id@) {
                Some(session) => settled(
                    old(self).sessions@,
                    final(self).sessions@,
                    session_id@,
                    session,
                ),
                None => final(self).sessions@ == old(self).sessions@,
            },
    {
        match Self::restore_session(store, session_id) {
            None => false,
            Some((conversation_id, last_step_idx, model_id)) => {
                let session = Session {
                    conversation_id: Some(conversation_id),
                    last_step_idx,
                    model_id,
                };
                self.settle(session_id, session);
                true
            },
        }
    }

    /// Gives `session_id` this session, after making room where it is a new one.
    fn settle(&mut self, session_id: &str, session: Session)
        ensures
            same_but_sessions(*old(self), *final(self)),
            settled(old(self).sessions@, final(self).sessions@, session_id@, session@),
    {
        if !self.sessions.contains_key(session_id) {
            self.evict_if_needed();
        }
        let ghost kept = self.sessions@;
        self.sessions.insert(session_id, session);
        proof {
            if !old(self).sessions@.contains_key(session_id@) {
                assert(!kept.contains_key(session_id@));
                assert(self.sessions@.remove(session_id@) =~= kept);
            }
        }
    }
}

} // verus!
