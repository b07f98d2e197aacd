//! The chat index of a workspace: its chats, which one is active, and how
//! creating, selecting, summarizing and archiving chats change it.
//!
//! `B` is the type of the agent model that a chat is bound to, which the
//! index keeps and hands back.
use vstd::prelude::*;
use crate::chat_store::{ChatErrorCode, ChatStoreError, valid_session_id, validate_session_id};
use crate::file_write::{hex_exec, hex_of};
use crate::plan_package::string_views;
use crate::scope::opt_string;
use crate::text::{append_chars, append_lit, chars_of, seq_eq, string_of};

verus! {

/// The version of the index format.
pub const CHAT_INDEX_VERSION: u32 = 1;

/// A chat of the index.
pub struct ChatIndexEntry<B> {
    pub chat_id: String,
    pub agent_id: String,
    pub create_request_id: Option<String>,
    pub title: String,
    pub goal: Option<String>,
    pub summary: Option<String>,
    pub open_questions: Vec<String>,
    pub archived: bool,
    pub created_at_ms: u64,
    pub updated_at_ms: u64,
    pub related_files: Vec<String>,
    pub messages_path: String,
    pub events_path: String,
    pub bound_model: Option<B>,
}

/// The chats of a workspace and the active one.
pub struct ChatIndex<B> {
    pub version: u32,
    pub active_chat_id: Option<String>,
    pub chats: Vec<ChatIndexEntry<B>>,
}

/// The active chat, when there is one, is an unarchived chat of the index.
pub open spec fn active_is_open<B>(active: Option<String>, chats: Seq<ChatIndexEntry<B>>) -> bool {
    match active {
        None => true,
        Some(id) => exists|i: int| 0 <= i < chats.len() && #[trigger] chats[i].chat_id@ == id@ && !chats[i].archived,
    }
}

/// `i` is the first chat with the id.
pub open spec fn first_chat<B>(chats: Seq<ChatIndexEntry<B>>, id: Seq<char>, i: int) -> bool {
    &&& 0 <= i < chats.len()
    &&& chats[i].chat_id@ == id
    &&& forall|k: int| 0 <= k < i ==> chats[k].chat_id@ != id
}

pub open spec fn has_chat<B>(chats: Seq<ChatIndexEntry<B>>, id: Seq<char>) -> bool {
    exists|i: int| 0 <= i < chats.len() && #[trigger] chats[i].chat_id@ == id
}

/// `i` is the first unarchived chat with the id.
pub open spec fn first_open_chat<B>(chats: Seq<ChatIndexEntry<B>>, id: Seq<char>, i: int) -> bool {
    &&& 0 <= i < chats.len()
    &&& chats[i].chat_id@ == id
    &&& !chats[i].archived
    &&& forall|k: int| 0 <= k < i ==> !(chats[k].chat_id@ == id && !chats[k].archived)
}

pub open spec fn has_open_chat<B>(chats: Seq<ChatIndexEntry<B>>, id: Seq<char>) -> bool {
    exists|i: int| 0 <= i < chats.len() && #[trigger] chats[i].chat_id@ == id && !chats[i].archived
}

/// `i` is the first chat created for the request.
pub open spec fn first_request<B>(chats: Seq<ChatIndexEntry<B>>, request_id: Seq<char>, i: int) -> bool {
    &&& 0 <= i < chats.len()
    &&& opt_string(chats[i].create_request_id) == Some(request_id)
    &&& forall|k: int| 0 <= k < i ==> opt_string(chats[k].create_request_id) != Some(request_id)
}

pub open spec fn has_request<B>(chats: Seq<ChatIndexEntry<B>>, request_id: Seq<char>) -> bool {
    exists|i: int| 0 <= i < chats.len() && opt_string(#[trigger] chats[i].create_request_id) == Some(request_id)
}

/// `i` is the first chat of the agent.
pub open spec fn first_agent<B>(chats: Seq<ChatIndexEntry<B>>, agent_id: Seq<char>, i: int) -> bool {
    &&& 0 <= i < chats.len()
    &&& chats[i].agent_id@ == agent_id
    &&& forall|k: int| 0 <= k < i ==> chats[k].agent_id@ != agent_id
}

pub open spec fn has_agent<B>(chats: Seq<ChatIndexEntry<B>>, agent_id: Seq<char>) -> bool {
    exists|i: int| 0 <= i < chats.len() && #[trigger] chats[i].agent_id@ == agent_id
}

/// `i` is the first unarchived chat.
pub open spec fn first_unarchived<B>(chats: Seq<ChatIndexEntry<B>>, i: int) -> bool {
    &&& 0 <= i < chats.len()
    &&& !chats[i].archived
    &&& forall|k: int| 0 <= k < i ==> chats[k].archived
}

fn find_chat<B>(chats: &Vec<ChatIndexEntry<B>>, id: &[char]) -> (r: Option<usize>)
    ensures
        match r {
            Some(i) => first_chat(chats@, id@, i as int),
            None => !has_chat(chats@, id@),
        },
{
    let mut i: usize = 0;
    while i < chats.len()
        invariant
            i <= chats.len(),
            forall|k: int| 0 <= k < i ==> chats@[k].chat_id@ != id@,
        decreases chats.len() - i,
    {
        if seq_eq(&chars_of(chats[i].chat_id.as_str()), id) {
            return Some(i);
        }
        i = i + 1;
    }
    None
}

fn find_open_chat<B>(chats: &Vec<ChatIndexEntry<B>>, id: &[char]) -> (r: Option<usize>)
    ensures
        match r {
            Some(i) => first_open_chat(chats@, id@, i as int),
            None => !has_open_chat(chats@, id@),
        },
{
    let mut i: usize = 0;
    while i < chats.len()
        invariant
            i <= chats.len(),
            forall|k: int| 0 <= k < i ==> !(chats@[k].chat_id@ == id@ && !chats@[k].archived),
        decreases chats.len() - i,
    {
        if !chats[i].archived && seq_eq(&chars_of(chats[i].chat_id.as_str()), id) {
            return Some(i);
        }
        i = i + 1;
    }
    None
}

fn find_request<B>(chats: &Vec<ChatIndexEntry<B>>, request_id: &[char]) -> (r: Option<usize>)
    ensures
        match r {
            Some(i) => first_request(chats@, request_id@, i as int),
            None => !has_request(chats@, request_id@),
        },
{
    let mut i: usize = 0;
    while i < chats.len()
        invariant
            i <= chats.len(),
            forall|k: int| 0 <= k < i ==> opt_string(chats@[k].create_request_id) != Some(request_id@),
        decreases chats.len() - i,
    {
        match &chats[i].create_request_id {
            Some(r) => if seq_eq(&chars_of(r.as_str()), request_id) {
                return Some(i);
            },
            None => {},
        }
        i = i + 1;
    }
    None
}

fn find_agent<B>(chats: &Vec<ChatIndexEntry<B>>, agent_id: &[char]) -> (r: Option<usize>)
    ensures
        match r {
            Some(i) => first_agent(chats@, agent_id@, i as int),
            None => !has_agent(chats@, agent_id@),
        },
{
    let mut i: usize = 0;
    while i < chats.len()
        invariant
            i <= chats.len(),
            forall|k: int| 0 <= k < i ==> chats@[k].agent_id@ != agent_id@,
        decreases chats.len() - i,
    {
        if seq_eq(&chars_of(chats[i].agent_id.as_str()), agent_id) {
            return Some(i);
        }
        i = i + 1;
    }
    None
}

fn find_unarchived<B>(chats: &Vec<ChatIndexEntry<B>>) -> (r: Option<usize>)
    ensures
        match r {
            Some(i) => first_unarchived(chats@, i as int),
            None => forall|k: int| 0 <= k < chats@.len() ==> #[trigger] chats@[k].archived,
        },
{
    let mut i: usize = 0;
    while i < chats.len()
        invariant
            i <= chats.len(),
            forall|k: int| 0 <= k < i ==> #[trigger] chats@[k].archived,
        decreases chats.len() - i,
    {
        if !chats[i].archived {
            return Some(i);
        }
        i = i + 1;
    }
    None
}

fn clone_text(s: &String) -> (r: String)
    ensures
        r@ == s@,
{
    s.as_str().to_owned()
}

fn not_found(message: &str) -> (r: ChatStoreError)
    ensures
        r.code == ChatErrorCode::NotFound,
        r.message@ == message@,
{
    ChatStoreError { code: ChatErrorCode::NotFound, message: message.to_owned() }
}

// ---------------------------------------------------------------------------
// Identifiers and new chats

/// `getrandom::fill` on sixteen bytes: on success any sixteen bytes, which
/// depend on chance; on failure the error's message, which depends on the
/// machine.
#[verifier::external_body]
fn random_bytes() -> (r: Result<Vec<u8>, String>)
    ensures
        r matches Ok(b) ==> b@.len() == 16,
{
    let mut bytes = [0u8; 16];
    match getrandom::fill(&mut bytes) {
        Ok(()) => Ok(bytes.to_vec()),
        Err(e) => Err(e.to_string()),
    }
}

/// The identifier made of a draw of random bytes: the prefix, a dash, and
/// the bytes in lowercase hexadecimal; a failed draw is an internal error
/// that carries its message.
pub fn identifier_from_draw(prefix: &str, drawn: Result<Vec<u8>, String>) -> (r: Result<String, ChatStoreError>)
    ensures
        match drawn {
            Ok(b) => r matches Ok(s) && s@ == prefix@ + "-"@ + hex_of(b@),
            Err(m) => r matches Err(e) && e.code == ChatErrorCode::Internal && e.message@ == "生成随机 id 失败: "@
                + m@,
        },
{
    match drawn {
        Err(m) => {
            let mut msg = chars_of("生成随机 id 失败: ");
            append_chars(&mut msg, &chars_of(m.as_str()));
            Err(ChatStoreError { code: ChatErrorCode::Internal, message: string_of(&msg) })
        },
        Ok(b) => {
            let mut out = chars_of(prefix);
            append_lit(&mut out, "-");
            append_chars(&mut out, &hex_exec(&b));
            proof {
                assert(out@ == prefix@ + "-"@ + hex_of(b@));
            }
            Ok(string_of(&out))
        },
    }
}

/// An identifier of chance: the prefix, a dash, and sixteen random bytes in
/// lowercase hexadecimal; or the failure to draw them. Which bytes come, and
/// whether the draw succeeds, rests on the machine.
pub fn random_identifier(prefix: &str) -> (r: Result<String, ChatStoreError>)
    ensures
        match r {
            Ok(s) => exists|b: Seq<u8>| b.len() == 16 && s@ == prefix@ + "-"@ + hex_of(b),
            Err(e) => e.code == ChatErrorCode::Internal,
        },
{
    let drawn = random_bytes();
    let ghost d = drawn;
    let r = identifier_from_draw(prefix, drawn);
    proof {
        if let Ok(b) = d {
            assert(b@.len() == 16);
        }
    }
    r
}

/// A new chat: not archived, no summary nor open questions yet, created and
/// updated now, its messages under `chats/` and its agent's events under
/// `agent-events/`, each named by its id.
pub fn new_index_entry<B>(
    title: String,
    goal: Option<String>,
    related_files: Vec<String>,
    create_request_id: Option<String>,
    bound_model: Option<B>,
    chat_id: String,
    agent_id: String,
    now_ms: u64,
) -> (r: ChatIndexEntry<B>)
    ensures
        r.chat_id@ == chat_id@,
        r.agent_id@ == agent_id@,
        r.create_request_id == create_request_id,
        r.title == title,
        r.goal == goal,
        r.summary is None,
        r.open_questions@.len() == 0,
        !r.archived,
        r.created_at_ms == now_ms,
        r.updated_at_ms == now_ms,
        r.related_files == related_files,
        r.messages_path@ == "chats/"@ + chat_id@ + ".jsonl"@,
        r.events_path@ == "agent-events/"@ + agent_id@ + ".jsonl"@,
        r.bound_model == bound_model,
{
    let mut messages_path = chars_of("chats/");
    append_chars(&mut messages_path, &chars_of(chat_id.as_str()));
    append_lit(&mut messages_path, ".jsonl");
    let mut events_path = chars_of("agent-events/");
    append_chars(&mut events_path, &chars_of(agent_id.as_str()));
    append_lit(&mut events_path, ".jsonl");
    ChatIndexEntry {
        chat_id,
        agent_id,
        create_request_id,
        title,
        goal,
        summary: None,
        open_questions: Vec::new(),
        archived: false,
        created_at_ms: now_ms,
        updated_at_ms: now_ms,
        related_files,
        messages_path: string_of(&messages_path),
        events_path: string_of(&events_path),
        bound_model,
    }
}

/// The text of a new chat's first meta message: its goal, else `chat:` and
/// its title.
pub fn meta_content<B>(entry: &ChatIndexEntry<B>) -> (r: String)
    ensures
        r@ == match entry.goal {
            Some(g) => g@,
            None => "chat:"@ + entry.title@,
        },
{
    match &entry.goal {
        Some(g) => clone_text(g),
        None => {
            let mut m = chars_of("chat:");
            append_chars(&mut m, &chars_of(entry.title.as_str()));
            string_of(&m)
        },
    }
}

/// What creating a chat answers: the chat's id, its agent's id, its title,
/// and whether it was created by this request.
pub struct ChatCreated {
    pub session_id: String,
    pub agent_id: String,
    pub title: String,
    pub created_now: bool,
}


/// The chats other than `i` are as they were, and so are the fields of `i`
/// that an update of its recency leaves.
pub open spec fn touched_only<B>(old_chats: Seq<ChatIndexEntry<B>>, new_chats: Seq<ChatIndexEntry<B>>, i: int) -> bool {
    &&& new_chats.len() == old_chats.len()
    &&& forall|k: int| 0 <= k < old_chats.len() && k != i ==> #[trigger] new_chats[k] == old_chats[k]
    &&& new_chats[i].chat_id == old_chats[i].chat_id
    &&& new_chats[i].agent_id == old_chats[i].agent_id
    &&& new_chats[i].create_request_id == old_chats[i].create_request_id
    &&& new_chats[i].title == old_chats[i].title
    &&& new_chats[i].created_at_ms == old_chats[i].created_at_ms
    &&& new_chats[i].messages_path == old_chats[i].messages_path
    &&& new_chats[i].events_path == old_chats[i].events_path
    &&& new_chats[i].bound_model == old_chats[i].bound_model
}

impl<B> ChatIndex<B> {
    /// An index from the chats found in the legacy folders: the first
    /// unarchived one is active.
    pub fn from_legacy(chats: Vec<ChatIndexEntry<B>>) -> (r: Self)
        ensures
            r.version == CHAT_INDEX_VERSION,
            r.chats@ == chats@,
            match find_first_unarchived(chats@) {
                Some(i) => opt_string(r.active_chat_id) == Some(chats@[i].chat_id@),
                None => r.active_chat_id is None,
            },
            active_is_open(r.active_chat_id, r.chats@),
    {
        let active = match find_unarchived(&chats) {
            Some(i) => Some(clone_text(&chats[i].chat_id)),
            None => None,
        };
        proof {
            lemma_first_unarchived_is_found(chats@);
        }
        ChatIndex { version: CHAT_INDEX_VERSION, active_chat_id: active, chats }
    }

    /// The chat that an earlier request with the same id created, when there
    /// is one: its creation is answered again and nothing changes.
    pub fn existing_creation(&self, request_id: Option<&str>) -> (r: Option<ChatCreated>)
        ensures
            match request_id {
                None => r is None,
                Some(q) => match r {
                    Some(c) => exists|i: int|
                        first_request(self.chats@, q@, i) && c.session_id@ == self.chats@[i].chat_id@ && c.agent_id@
                            == self.chats@[i].agent_id@ && c.title@ == self.chats@[i].title@ && !c.created_now,
                    None => !has_request(self.chats@, q@),
                },
            },
    {
        let q = match request_id {
            Some(q) => q,
            None => return None,
        };
        match find_request(&self.chats, &chars_of(q)) {
            Some(i) => Some(
                ChatCreated {
                    session_id: clone_text(&self.chats[i].chat_id),
                    agent_id: clone_text(&self.chats[i].agent_id),
                    title: clone_text(&self.chats[i].title),
                    created_now: false,
                },
            ),
            None => None,
        }
    }

    /// Whether a chat was created for the request.
    pub fn has_create_request_id(&self, request_id: &str) -> (r: bool)
        ensures
            r == has_request(self.chats@, request_id@),
    {
        find_request(&self.chats, &chars_of(request_id)).is_some()
    }

    /// Adds a created chat, which becomes the active one.
    pub fn add_chat(&mut self, entry: ChatIndexEntry<B>) -> (r: ChatCreated)
        ensures
            final(self).version == old(self).version,
            final(self).chats@ == old(self).chats@.push(entry),
            opt_string(final(self).active_chat_id) == Some(entry.chat_id@),
            !entry.archived ==> active_is_open(final(self).active_chat_id, final(self).chats@),
            r.session_id@ == entry.chat_id@,
            r.agent_id@ == entry.agent_id@,
            r.title@ == entry.title@,
            r.created_now,
    {
        let r = ChatCreated {
            session_id: clone_text(&entry.chat_id),
            agent_id: clone_text(&entry.agent_id),
            title: clone_text(&entry.title),
            created_now: true,
        };
        self.active_chat_id = Some(clone_text(&entry.chat_id));
        let ghost e = entry;
        self.chats.push(entry);
        proof {
            let n = old(self).chats@.len() as int;
            assert(self.chats@[n] == e);
        }
        r
    }

    /// The messages file of a chat; a chat that is not in the index is not
    /// found.
    pub fn messages_path_for(&self, session_id: &str) -> (r: Result<String, ChatStoreError>)
        ensures
            !valid_session_id(session_id@) ==> (r matches Err(e) && e.code == ChatErrorCode::InvalidCommand),
            valid_session_id(session_id@) ==> match r {
                Ok(p) => exists|i: int| first_chat(self.chats@, session_id@, i) && p@ == self.chats@[i].messages_path@,
                Err(e) => !has_chat(self.chats@, session_id@) && e.code == ChatErrorCode::NotFound
                    && e.message@ == "Chat session 不存在"@,
            },
    {
        if let Err(e) = validate_session_id(session_id) {
            return Err(e);
        }
        match find_chat(&self.chats, &chars_of(session_id)) {
            Some(i) => Ok(clone_text(&self.chats[i].messages_path)),
            None => Err(not_found("Chat session 不存在")),
        }
    }

    /// Records a chat's summary, goal, related files and open questions.
    pub fn update_summary(
        &mut self,
        session_id: &str,
        summary: String,
        goal: String,
        related_files: Vec<String>,
        open_questions: Vec<String>,
        now_ms: u64,
    ) -> (r: Result<(), ChatStoreError>)
        ensures
            final(self).version == old(self).version,
            final(self).active_chat_id == old(self).active_chat_id,
            !valid_session_id(session_id@) ==> (r matches Err(e) && e.code == ChatErrorCode::InvalidCommand
                && final(self).chats@ == old(self).chats@),
            valid_session_id(session_id@) ==> match r {
                Err(e) => !has_chat(old(self).chats@, session_id@) && e.code == ChatErrorCode::NotFound
                    && final(self).chats@ == old(self).chats@,
                Ok(_) => exists|i: int|
                    first_chat(old(self).chats@, session_id@, i) && touched_only(old(self).chats@, final(self).chats@, i)
                        && final(self).chats@[i].summary == Some(summary) && final(self).chats@[i].goal == Some(goal)
                        && final(self).chats@[i].related_files == related_files
                        && final(self).chats@[i].open_questions == open_questions
                        && final(self).chats@[i].archived == old(self).chats@[i].archived
                        && final(self).chats@[i].updated_at_ms == now_ms,
            },
            active_is_open(old(self).active_chat_id, old(self).chats@) ==> active_is_open(
                final(self).active_chat_id,
                final(self).chats@,
            ),
    {
        if let Err(e) = validate_session_id(session_id) {
            return Err(e);
        }
        let i = match find_chat(&self.chats, &chars_of(session_id)) {
            Some(i) => i,
            None => return Err(not_found("Chat session 不存在")),
        };
        let ghost before = self.chats@;
        let ghost (s, g, rf, oq) = (summary, goal, related_files, open_questions);
        let mut entry = self.chats.remove(i);
        entry.summary = Some(summary);
        entry.goal = Some(goal);
        entry.related_files = related_files;
        entry.open_questions = open_questions;
        entry.updated_at_ms = now_ms;
        self.chats.insert(i, entry);
        proof {
            assert(self.chats@ =~= before.update(i as int, self.chats@[i as int]));
            assert forall|k: int| 0 <= k < before.len() && k != i implies #[trigger] self.chats@[k] == before[k] by {}
            lemma_open_kept(self.active_chat_id, before, self.chats@, i as int);
        }
        Ok(())
    }

    /// Makes an unarchived chat the active one.
    pub fn select(&mut self, session_id: &str, now_ms: u64) -> (r: Result<(), ChatStoreError>)
        ensures
            final(self).version == old(self).version,
            !valid_session_id(session_id@) ==> (r matches Err(e) && e.code == ChatErrorCode::InvalidCommand
                && final(self).chats@ == old(self).chats@ && final(self).active_chat_id == old(self).active_chat_id),
            valid_session_id(session_id@) ==> match r {
                Err(e) => !has_open_chat(old(self).chats@, session_id@) && e.code == ChatErrorCode::NotFound
                    && final(self).chats@ == old(self).chats@ && final(self).active_chat_id == old(self).active_chat_id,
                Ok(_) => exists|i: int|
                    first_open_chat(old(self).chats@, session_id@, i) && touched_only(old(self).chats@, final(self).chats@, i)
                        && final(self).chats@[i].summary == old(self).chats@[i].summary
                        && final(self).chats@[i].goal == old(self).chats@[i].goal
                        && final(self).chats@[i].related_files == old(self).chats@[i].related_files
                        && final(self).chats@[i].open_questions == old(self).chats@[i].open_questions
                        && !final(self).chats@[i].archived && final(self).chats@[i].updated_at_ms == now_ms
                        && opt_string(final(self).active_chat_id) == Some(session_id@),
            },
            active_is_open(old(self).active_chat_id, old(self).chats@) ==> active_is_open(
                final(self).active_chat_id,
                final(self).chats@,
            ),
    {
        if let Err(e) = validate_session_id(session_id) {
            return Err(e);
        }
        let i = match find_open_chat(&self.chats, &chars_of(session_id)) {
            Some(i) => i,
            None => return Err(not_found("Chat session 不存在")),
        };
        let ghost before = self.chats@;
        let mut entry = self.chats.remove(i);
        entry.updated_at_ms = now_ms;
        self.chats.insert(i, entry);
        self.active_chat_id = Some(session_id.to_owned());
        proof {
            assert(self.chats@ =~= before.update(i as int, self.chats@[i as int]));
            assert forall|k: int| 0 <= k < before.len() && k != i implies #[trigger] self.chats@[k] == before[k] by {}
            assert(self.chats@[i as int].chat_id@ == session_id@ && !self.chats@[i as int].archived);
        }
        Ok(())
    }

    /// Archives a chat; when it was the active one, the first unarchived
    /// chat becomes active, or none.
    pub fn archive(&mut self, session_id: &str, now_ms: u64) -> (r: Result<(), ChatStoreError>)
        ensures
            final(self).version == old(self).version,
            !valid_session_id(session_id@) ==> (r matches Err(e) && e.code == ChatErrorCode::InvalidCommand
                && final(self).chats@ == old(self).chats@ && final(self).active_chat_id == old(self).active_chat_id),
            valid_session_id(session_id@) ==> match r {
                Err(e) => !has_chat(old(self).chats@, session_id@) && e.code == ChatErrorCode::NotFound
                    && final(self).chats@ == old(self).chats@ && final(self).active_chat_id == old(self).active_chat_id,
                Ok(_) => exists|i: int|
                    first_chat(old(self).chats@, session_id@, i) && touched_only(old(self).chats@, final(self).chats@, i)
                        && final(self).chats@[i].summary == old(self).chats@[i].summary
                        && final(self).chats@[i].goal == old(self).chats@[i].goal
                        && final(self).chats@[i].related_files == old(self).chats@[i].related_files
                        && final(self).chats@[i].open_questions == old(self).chats@[i].open_questions
                        && final(self).chats@[i].archived && final(self).chats@[i].updated_at_ms == now_ms
                        && if opt_string(old(self).active_chat_id) == Some(session_id@) {
                            match find_first_unarchived(final(self).chats@) {
                                Some(j) => opt_string(final(self).active_chat_id) == Some(final(self).chats@[j].chat_id@),
                                None => final(self).active_chat_id is None,
                            }
                        } else {
                            final(self).active_chat_id == old(self).active_chat_id
                        },
            },
            active_is_open(old(self).active_chat_id, old(self).chats@) ==> active_is_open(
                final(self).active_chat_id,
                final(self).chats@,
            ),
    {
        if let Err(e) = validate_session_id(session_id) {
            return Err(e);
        }
        let id = chars_of(session_id);
        let i = match find_chat(&self.chats, &id) {
            Some(i) => i,
            None => return Err(not_found("Chat session 不存在")),
        };
        let ghost before = self.chats@;
        let ghost old_active = self.active_chat_id;
        let mut entry = self.chats.remove(i);
        entry.archived = true;
        entry.updated_at_ms = now_ms;
        self.chats.insert(i, entry);
        proof {
            assert(self.chats@ =~= before.update(i as int, self.chats@[i as int]));
            assert forall|k: int| 0 <= k < before.len() && k != i implies #[trigger] self.chats@[k] == before[k] by {}
        }
        let was_active = match &self.active_chat_id {
            Some(a) => seq_eq(&chars_of(a.as_str()), &id),
            None => false,
        };
        if was_active {
            self.active_chat_id = match find_unarchived(&self.chats) {
                Some(j) => Some(clone_text(&self.chats[j].chat_id)),
                None => None,
            };
            proof {
                lemma_first_unarchived_is_found(self.chats@);
            }
        } else {
            proof {
                if active_is_open(old_active, before) {
                    if let Some(a) = old_active {
                        let j = choose|j: int| 0 <= j < before.len() && #[trigger] before[j].chat_id@ == a@ && !before[j].archived;
                        assert(j != i);
                        assert(self.chats@[j] == before[j]);
                    }
                }
            }
        }
        Ok(())
    }

    /// The agent of a chat.
    pub fn agent_id_for_session(&self, session_id: &str) -> (r: Result<String, ChatStoreError>)
        ensures
            match r {
                Ok(a) => exists|i: int| first_chat(self.chats@, session_id@, i) && a@ == self.chats@[i].agent_id@,
                Err(e) => !has_chat(self.chats@, session_id@) && e.code == ChatErrorCode::NotFound
                    && e.message@ == "Chat session 不存在"@,
            },
    {
        match find_chat(&self.chats, &chars_of(session_id)) {
            Some(i) => Ok(clone_text(&self.chats[i].agent_id)),
            None => Err(not_found("Chat session 不存在")),
        }
    }

    /// The model a chat is bound to.
    pub fn bound_model_for_session(&self, session_id: &str) -> (r: Result<&Option<B>, ChatStoreError>)
        ensures
            match r {
                Ok(m) => exists|i: int| first_chat(self.chats@, session_id@, i) && *m == self.chats@[i].bound_model,
                Err(e) => !has_chat(self.chats@, session_id@) && e.code == ChatErrorCode::NotFound
                    && e.message@ == "Chat session 不存在"@,
            },
    {
        match find_chat(&self.chats, &chars_of(session_id)) {
            Some(i) => Ok(&self.chats[i].bound_model),
            None => Err(not_found("Chat session 不存在")),
        }
    }

    /// The chat of an agent.
    pub fn session_id_for_agent(&self, agent_id: &str) -> (r: Result<String, ChatStoreError>)
        ensures
            match r {
                Ok(c) => exists|i: int| first_agent(self.chats@, agent_id@, i) && c@ == self.chats@[i].chat_id@,
                Err(e) => !has_agent(self.chats@, agent_id@) && e.code == ChatErrorCode::NotFound
                    && e.message@ == "Agent 不存在"@,
            },
    {
        match find_agent(&self.chats, &chars_of(agent_id)) {
            Some(i) => Ok(clone_text(&self.chats[i].chat_id)),
            None => Err(not_found("Agent 不存在")),
        }
    }

    /// The model an agent's chat is bound to.
    pub fn bound_model_for_agent(&self, agent_id: &str) -> (r: Result<&Option<B>, ChatStoreError>)
        ensures
            match r {
                Ok(m) => exists|i: int| first_agent(self.chats@, agent_id@, i) && *m == self.chats@[i].bound_model,
                Err(e) => !has_agent(self.chats@, agent_id@) && e.code == ChatErrorCode::NotFound
                    && e.message@ == "Agent 不存在"@,
            },
    {
        match find_agent(&self.chats, &chars_of(agent_id)) {
            Some(i) => Ok(&self.chats[i].bound_model),
            None => Err(not_found("Agent 不存在")),
        }
    }

    /// The positions of the chats a listing shows, in order: every chat, or
    /// only the unarchived ones.
    pub fn listed_chats(&self, include_archived: bool) -> (r: Vec<usize>)
        ensures
            r@ == listed_positions(self.chats@, include_archived, self.chats@.len() as int),
    {
        let mut out: Vec<usize> = Vec::new();
        let mut i: usize = 0;
        while i < self.chats.len()
            invariant
                i <= self.chats.len(),
                out@ == listed_positions(self.chats@, include_archived, i as int),
            decreases self.chats.len() - i,
        {
            if include_archived || !self.chats[i].archived {
                out.push(i);
            }
            i = i + 1;
        }
        out
    }
}

/// The positions below `n` of the chats a listing shows, in order.
pub open spec fn listed_positions<B>(chats: Seq<ChatIndexEntry<B>>, include_archived: bool, n: int) -> Seq<usize>
    decreases n,
{
    if n <= 0 {
        Seq::empty()
    } else if include_archived || !chats[n - 1].archived {
        listed_positions(chats, include_archived, n - 1).push((n - 1) as usize)
    } else {
        listed_positions(chats, include_archived, n - 1)
    }
}

/// The first unarchived chat, when there is one.
pub open spec fn find_first_unarchived<B>(chats: Seq<ChatIndexEntry<B>>) -> Option<int> {
    if exists|i: int| first_unarchived(chats, i) {
        Some(choose|i: int| first_unarchived(chats, i))
    } else {
        None
    }
}

proof fn lemma_first_unarchived_unique<B>(chats: Seq<ChatIndexEntry<B>>, i: int, j: int)
    requires
        first_unarchived(chats, i),
        first_unarchived(chats, j),
    ensures
        i == j,
{
    if i < j {
        assert(chats[i].archived);
    } else if j < i {
        assert(chats[j].archived);
    }
}

/// What `find_unarchived` finds is the first unarchived chat of the spec.
proof fn lemma_first_unarchived_is_found<B>(chats: Seq<ChatIndexEntry<B>>)
    ensures
        forall|i: int| first_unarchived(chats, i) ==> find_first_unarchived(chats) == Some(i),
        (forall|k: int| 0 <= k < chats.len() ==> #[trigger] chats[k].archived) ==> find_first_unarchived(chats) is None,
{
    assert forall|i: int| first_unarchived(chats, i) implies find_first_unarchived(chats) == Some(i) by {
        let c = choose|c: int| first_unarchived(chats, c);
        lemma_first_unarchived_unique(chats, i, c);
    }
}

/// An update that keeps every chat's id and archived flag keeps the active
/// chat open.
proof fn lemma_open_kept<B>(active: Option<String>, before: Seq<ChatIndexEntry<B>>, after: Seq<ChatIndexEntry<B>>, i: int)
    requires
        after.len() == before.len(),
        0 <= i < before.len(),
        after[i].chat_id == before[i].chat_id,
        after[i].archived == before[i].archived,
        forall|k: int| 0 <= k < before.len() && k != i ==> #[trigger] after[k] == before[k],
    ensures
        active_is_open(active, before) ==> active_is_open(active, after),
{
    if active_is_open(active, before) {
        if let Some(a) = active {
            let j = choose|j: int| 0 <= j < before.len() && #[trigger] before[j].chat_id@ == a@ && !before[j].archived;
            if j == i {
                assert(after[i].chat_id@ == a@);
            } else {
                assert(after[j] == before[j]);
            }
        }
    }
}

/// A repeated create request is answered with the chat that its first
/// arrival created: when no chat of the index was created for the request,
/// the chat added for it is the first one that the request finds.
pub proof fn law_repeated_create_finds_added_chat<B>(
    chats: Seq<ChatIndexEntry<B>>,
    entry: ChatIndexEntry<B>,
    request_id: Seq<char>,
)
    requires
        !has_request(chats, request_id),
        opt_string(entry.create_request_id) == Some(request_id),
    ensures
        has_request(chats.push(entry), request_id),
        first_request(chats.push(entry), request_id, chats.len() as int),
        chats.push(entry)[chats.len() as int].chat_id == entry.chat_id,
{
    let after = chats.push(entry);
    assert(after[chats.len() as int] == entry);
    assert forall|k: int| 0 <= k < chats.len() implies opt_string(#[trigger] after[k].create_request_id) != Some(request_id) by {
        assert(after[k] == chats[k]);
    }
}

} // verus!
