//! The chat store's rules: where its files live in the workspace, which
//! stored paths and session ids are acceptable, how long histories are cut,
//! and the registry of listeners told when the chat index changes.
use vstd::prelude::*;
use vstd::utf8::encode_utf8;
use crate::preview::{join_path, join_path_exec, path_extension};
use crate::text::{chars_of, eq_lit, join, join_exec, split, split_exec, string_of, views};
use crate::watch::{path_components, path_components_exec};
use crate::workspace_path::{dot, dot_dot, kept, kept_exec};

verus! {

/// What went wrong in the chat store.
#[derive(Debug, Clone, Copy, PartialEq, Eq, Structural)]
pub enum ChatErrorCode {
    InvalidCommand,
    NotFound,
    InvalidPathHandle,
    Internal,
}

#[derive(Debug, Clone, PartialEq, Eq)]
pub struct ChatStoreError {
    pub code: ChatErrorCode,
    pub message: String,
}

/// The chat store of a workspace.
#[derive(Debug, Clone, PartialEq, Eq)]
pub struct ChatStore {
    workspace_root: String,
}

impl ChatStore {
    pub closed spec fn root_view(&self) -> Seq<char> {
        self.workspace_root@
    }

    pub fn new(workspace_root: String) -> (r: Self)
        ensures
            r.root_view() == workspace_root@,
    {
        ChatStore { workspace_root }
    }

    /// The workspace the store belongs to.
    pub fn workspace_root(&self) -> (r: &str)
        ensures
            r@ == self.root_view(),
    {
        self.workspace_root.as_str()
    }

    /// `chats.json` in the workspace.
    pub fn index_path(&self) -> (r: String)
        ensures
            r@ == join_path(self.root_view(), "chats.json"@),
    {
        join_path_exec(self.workspace_root.as_str(), &chars_of("chats.json"))
    }

    /// `chats.json.tmp` in the workspace.
    pub fn index_tmp_path(&self) -> (r: String)
        ensures
            r@ == join_path(self.root_view(), "chats.json.tmp"@),
    {
        join_path_exec(self.workspace_root.as_str(), &chars_of("chats.json.tmp"))
    }

    /// The `chats` folder.
    pub fn chats_dir(&self) -> (r: String)
        ensures
            r@ == join_path(self.root_view(), "chats"@),
    {
        join_path_exec(self.workspace_root.as_str(), &chars_of("chats"))
    }

    /// The `chats/archived` folder.
    pub fn archive_dir(&self) -> (r: String)
        ensures
            r@ == join_path(join_path(self.root_view(), "chats"@), "archived"@),
    {
        let chats = self.chats_dir();
        join_path_exec(chats.as_str(), &chars_of("archived"))
    }

    /// A stored relative path in the workspace, once it is found acceptable.
    pub fn relative_path(&self, relative: &str) -> (r: Result<String, ChatStoreError>)
        ensures
            match r {
                Ok(p) => storage_path_check(relative@) is Ok && p@ == join_path(self.root_view(), relative@),
                Err(e) => storage_path_check(relative@) == Err::<(), Seq<char>>(e.message@) && e.code
                    == ChatErrorCode::InvalidPathHandle,
            },
    {
        match validate_relative_storage_path(relative) {
            Ok(_) => Ok(join_path_exec(self.workspace_root.as_str(), &chars_of(relative))),
            Err(e) => Err(e),
        }
    }
}

/// A stored path is non-empty, relative, and made of normal components.
pub open spec fn storage_path_check(path: Seq<char>) -> Result<(), Seq<char>> {
    let segs = split(path, '/');
    if path.len() == 0 {
        Err("Chat 存储路径不能为空"@)
    } else if path[0] == '/' {
        Err("Chat 存储路径不能是绝对路径"@)
    } else if segs[0] == dot() || kept(segs).contains(dot_dot()) {
        Err("Chat 存储路径不能逃逸 workspace"@)
    } else {
        Ok(())
    }
}

fn invalid_path(message: &str) -> (r: ChatStoreError)
    ensures
        r.code == ChatErrorCode::InvalidPathHandle,
        r.message@ == message@,
{
    ChatStoreError { code: ChatErrorCode::InvalidPathHandle, message: message.to_owned() }
}

fn has_parent(k: &Vec<Vec<char>>) -> (r: bool)
    ensures
        r == views(k@).contains(dot_dot()),
{
    proof {
        reveal_strlit("..");
        assert(".."@ =~= dot_dot());
    }
    let mut i: usize = 0;
    while i < k.len()
        invariant
            i <= k.len(),
            ".."@ == dot_dot(),
            forall|j: int| 0 <= j < i ==> views(k@)[j] != dot_dot(),
        decreases k.len() - i,
    {
        proof {
            assert(views(k@)[i as int] == k@[i as int]@);
        }
        if eq_lit(&k[i], "..") {
            return true;
        }
        i = i + 1;
    }
    false
}

/// Checks a path stored in the chat index.
pub fn validate_relative_storage_path(path: &str) -> (r: Result<(), ChatStoreError>)
    ensures
        match r {
            Ok(_) => storage_path_check(path@) is Ok,
            Err(e) => storage_path_check(path@) == Err::<(), Seq<char>>(e.message@) && e.code
                == ChatErrorCode::InvalidPathHandle,
        },
{
    let p = chars_of(path);
    if p.len() == 0 {
        return Err(invalid_path("Chat 存储路径不能为空"));
    }
    if p[0] == '/' {
        return Err(invalid_path("Chat 存储路径不能是绝对路径"));
    }
    let segs = split_exec(&p, '/');
    proof {
        crate::text::lemma_split_nonempty(p@, '/');
        assert(views(segs@)[0] == segs@[0]@);
        reveal_strlit(".");
        assert("."@ =~= dot());
    }
    let k = kept_exec(&segs);
    if eq_lit(&segs[0], ".") || has_parent(&k) {
        return Err(invalid_path("Chat 存储路径不能逃逸 workspace"));
    }
    Ok(())
}

/// A chat session id: non-empty, of ASCII letters, digits and `-`.
pub open spec fn valid_session_id(id: Seq<char>) -> bool {
    let b = encode_utf8(id);
    b.len() > 0 && forall|i: int| 0 <= i < b.len() ==> is_id_byte(#[trigger] b[i])
}

pub open spec fn is_id_byte(b: u8) -> bool {
    (48 <= b <= 57) || (65 <= b <= 90) || (97 <= b <= 122) || b == 45
}

/// Checks a chat session id.
pub fn validate_session_id(session_id: &str) -> (r: Result<(), ChatStoreError>)
    ensures
        r is Ok <==> valid_session_id(session_id@),
        r matches Err(e) ==> e.code == ChatErrorCode::InvalidCommand && e.message@ == "Chat session id 无效"@,
{
    let b = session_id.as_bytes();
    let mut ok = b.len() > 0;
    let mut i: usize = 0;
    while i < b.len()
        invariant
            i <= b.len(),
            b@ == encode_utf8(session_id@),
            ok == (b@.len() > 0 && forall|j: int| 0 <= j < i ==> is_id_byte(#[trigger] b@[j])),
        decreases b.len() - i,
    {
        let c = b[i];
        if !((48 <= c && c <= 57) || (65 <= c && c <= 90) || (97 <= c && c <= 122) || c == 45) {
            ok = false;
        }
        i = i + 1;
    }
    if ok {
        Ok(())
    } else {
        Err(ChatStoreError { code: ChatErrorCode::InvalidCommand, message: "Chat session id 无效".to_owned() })
    }
}

/// Keeps the last `limit` messages.
pub fn trim_to_limit<T>(messages: &mut Vec<T>, limit: usize)
    ensures
        old(messages)@.len() > limit ==> final(messages)@ == old(messages)@.subrange(
            old(messages)@.len() - limit,
            old(messages)@.len() as int,
        ),
        old(messages)@.len() <= limit ==> final(messages)@ == old(messages)@,
{
    if messages.len() <= limit {
        return;
    }
    let drop = messages.len() - limit;
    let ghost orig = messages@;
    let mut rest = messages.split_off(drop);
    std::mem::swap(messages, &mut rest);
    proof {
        assert(messages@ =~= orig.subrange(drop as int, orig.len() as int));
    }
}

/// A legacy chat log: extension `jsonl`.
pub open spec fn is_legacy_chat_file(path: Seq<char>) -> bool {
    path_extension(path) == Some("jsonl"@)
}

pub fn legacy_chat_file(path: &str) -> (r: bool)
    ensures
        r == is_legacy_chat_file(path@),
{
    let p = chars_of(path);
    proof {
        reveal_strlit("jsonl");
    }
    let c = path_components_exec(&p);
    let segs = split_exec(&p, '/');
    let k = kept_exec(&segs);
    if k.len() == 0 {
        return false;
    }
    let last = &k[k.len() - 1];
    proof {
        assert(views(k@).last() == last@);
        reveal_strlit("..");
        assert(".."@ =~= dot_dot());
    }
    if eq_lit(last, "..") {
        return false;
    }
    match crate::workspace_path::last_index_of_char_exec(last, '.') {
        Some(i) => {
            if i == 0 {
                return false;
            }
            assert(i < last.len());
            let ext = crate::text::slice_vec(last, i + 1, last.len());
            proof {
                assert(last@.subrange(0, last@.len() as int) =~= last@);
            }
            eq_lit(&ext, "jsonl")
        },
        None => false,
    }
}

/// The relative path made of a path's components, joined with `/`; only
/// normal components are accepted.
pub open spec fn relative_components_text(path: Seq<char>) -> Result<Seq<char>, Seq<char>> {
    let c = path_components(path);
    if exists|k: int| 0 <= k < c.len() && (c[k] == "/"@ || c[k] == "."@ || c[k] == ".."@) {
        Err("Chat 存储路径不能逃逸 workspace"@)
    } else {
        Ok(join(c, '/'))
    }
}

pub fn relative_path_to_string(path: &str) -> (r: Result<String, ChatStoreError>)
    ensures
        match r {
            Ok(s) => relative_components_text(path@) == Ok::<Seq<char>, Seq<char>>(s@),
            Err(e) => relative_components_text(path@) == Err::<Seq<char>, Seq<char>>(e.message@) && e.code
                == ChatErrorCode::InvalidPathHandle,
        },
{
    let c = path_components_exec(&chars_of(path));
    let mut i: usize = 0;
    while i < c.len()
        invariant
            i <= c.len(),
            views(c@) == path_components(path@),
            forall|j: int| 0 <= j < i ==> !(#[trigger] views(c@)[j] == "/"@ || views(c@)[j] == "."@ || views(c@)[j] == ".."@),
        decreases c.len() - i,
    {
        proof {
            assert(views(c@)[i as int] == c@[i as int]@);
        }
        if eq_lit(&c[i], "/") || eq_lit(&c[i], ".") || eq_lit(&c[i], "..") {
            proof {
                let cs = path_components(path@);
                assert(cs[i as int] == "/"@ || cs[i as int] == "."@ || cs[i as int] == ".."@);
            }
            return Err(invalid_path("Chat 存储路径不能逃逸 workspace"));
        }
        i = i + 1;
    }
    Ok(string_of(&join_exec(&c, '/')))
}

// ---------------------------------------------------------------------------
// Index listeners

/// A registered listener: the workspace it listens to and its id. The
/// caller keeps the callback under that id and unregisters it with this.
#[derive(Debug, Clone, PartialEq, Eq)]
pub struct ChatIndexListenerRegistration {
    pub workspace_root: String,
    pub id: u64,
}

/// The listeners of chat index changes, by workspace and id.
#[derive(Debug, Clone)]
pub struct ChatIndexListeners {
    next_id: u64,
    entries: Vec<(String, u64)>,
}

pub open spec fn entry_views(v: Seq<(String, u64)>) -> Seq<(Seq<char>, u64)> {
    v.map_values(|e: (String, u64)| (e.0@, e.1))
}

impl ChatIndexListeners {
    /// The registered listeners, in registration order.
    pub closed spec fn listeners(&self) -> Seq<(Seq<char>, u64)> {
        entry_views(self.entries@)
    }

    /// The id the next listener gets.
    pub closed spec fn next(&self) -> u64 {
        self.next_id
    }

    /// Ids are unique and below the next id, which is positive.
    pub open spec fn wf(&self) -> bool {
        &&& self.next() >= 1
        &&& forall|i: int| 0 <= i < self.listeners().len() ==> #[trigger] self.listeners()[i].1 < self.next()
        &&& forall|i: int, j: int|
            0 <= i < j < self.listeners().len() ==> #[trigger] self.listeners()[i].1 != #[trigger] self.listeners()[j].1
    }

    pub fn new() -> (r: Self)
        ensures
            r.wf(),
            r.listeners().len() == 0,
            r.next() == 1,
    {
        let r = ChatIndexListeners { next_id: 1, entries: Vec::new() };
        proof {
            assert(entry_views(r.entries@) =~= Seq::<(Seq<char>, u64)>::empty());
        }
        r
    }

    /// The ids listening to a workspace, in registration order.
    pub fn ids_for(&self, workspace_root: &str) -> (r: Vec<u64>)
        ensures
            r@ == ids_of(self.listeners(), workspace_root@),
    {
        let mut r: Vec<u64> = Vec::new();
        let ghost all = entry_views(self.entries@);
        let w = chars_of(workspace_root);
        let mut i: usize = 0;
        proof {
            assert(all.take(0) =~= Seq::<(Seq<char>, u64)>::empty());
        }
        while i < self.entries.len()
            invariant
                i <= self.entries.len(),
                all == entry_views(self.entries@),
                w@ == workspace_root@,
                r@ == ids_of(all.take(i as int), workspace_root@),
            decreases self.entries.len() - i,
        {
            proof {
                assert(all.take(i + 1).drop_last() =~= all.take(i as int));
                assert(all.take(i + 1).last() == (self.entries@[i as int].0@, self.entries@[i as int].1));
            }
            let e = chars_of(self.entries[i].0.as_str());
            if crate::text::seq_eq(&e, &w) {
                r.push(self.entries[i].1);
            }
            i = i + 1;
        }
        proof {
            assert(all.take(all.len() as int) =~= all);
        }
        r
    }

    /// Removes a registration; other listeners stay, in order.
    pub fn unregister(&mut self, registration: &ChatIndexListenerRegistration)
        requires
            old(self).wf(),
        ensures
            final(self).wf(),
            final(self).next() == old(self).next(),
            final(self).listeners() == without(old(self).listeners(), registration.workspace_root@, registration.id),
    {
        let ghost all = entry_views(self.entries@);
        let ghost next = self.next_id;
        let w = chars_of(registration.workspace_root.as_str());
        let mut kept_entries: Vec<(String, u64)> = Vec::new();
        let mut i: usize = 0;
        proof {
            assert(all.take(0) =~= Seq::<(Seq<char>, u64)>::empty());
            assert(entry_views(kept_entries@) =~= Seq::<(Seq<char>, u64)>::empty());
        }
        while i < self.entries.len()
            invariant
                i <= self.entries.len(),
                all == entry_views(self.entries@),
                next == self.next_id,
                self.wf(),
                w@ == registration.workspace_root@,
                entry_views(kept_entries@) == without(all.take(i as int), registration.workspace_root@, registration.id),
                forall|a: int| 0 <= a < entry_views(kept_entries@).len() ==> exists|j: int|
                    0 <= j < i && #[trigger] entry_views(kept_entries@)[a] == all[j],
                forall|a: int, b: int| 0 <= a < b < entry_views(kept_entries@).len() ==> #[trigger] entry_views(kept_entries@)[a].1
                    != #[trigger] entry_views(kept_entries@)[b].1,
            decreases self.entries.len() - i,
        {
            proof {
                assert(all.take(i + 1).drop_last() =~= all.take(i as int));
                assert(all.take(i + 1).last() == all[i as int]);
                assert(all[i as int] == (self.entries@[i as int].0@, self.entries@[i as int].1));
            }
            let e = chars_of(self.entries[i].0.as_str());
            let same = crate::text::seq_eq(&e, &w) && self.entries[i].1 == registration.id;
            if !same {
                let ghost before = entry_views(kept_entries@);
                kept_entries.push((self.entries[i].0.as_str().to_owned(), self.entries[i].1));
                proof {
                    assert(entry_views(kept_entries@) =~= before.push(all[i as int]));
                    let kv = entry_views(kept_entries@);
                    assert forall|a: int| 0 <= a < kv.len() implies exists|j: int| 0 <= j < i + 1 && #[trigger] kv[a] == all[j] by {
                        if a < before.len() {
                            assert(kv[a] == before[a]);
                            let j = choose|j: int| 0 <= j < i && #[trigger] before[a] == all[j];
                            assert(kv[a] == all[j]);
                        } else {
                            assert(kv[a] == all[i as int]);
                        }
                    }
                    assert forall|a: int, b: int| 0 <= a < b < kv.len() implies #[trigger] kv[a].1 != #[trigger] kv[b].1 by {
                        if b < before.len() {
                            assert(kv[a] == before[a]);
                            assert(kv[b] == before[b]);
                        } else {
                            assert(kv[a] == before[a]);
                            let j = choose|j: int| 0 <= j < i && #[trigger] before[a] == all[j];
                            assert(self.listeners() == all);
                            assert(self.listeners()[j].1 != self.listeners()[i as int].1);
                        }
                    }
                }
            } else {
                proof {
                    let kv = entry_views(kept_entries@);
                    assert forall|a: int| 0 <= a < kv.len() implies exists|j: int| 0 <= j < i + 1 && #[trigger] kv[a] == all[j] by {
                        let j = choose|j: int| 0 <= j < i && #[trigger] kv[a] == all[j];
                        assert(kv[a] == all[j]);
                    }
                }
            }
            i = i + 1;
        }
        proof {
            assert(all.take(all.len() as int) =~= all);
            let kv = entry_views(kept_entries@);
            assert forall|a: int| 0 <= a < kv.len() implies #[trigger] kv[a].1 < next by {
                let j = choose|j: int| 0 <= j < all.len() && #[trigger] kv[a] == all[j];
                assert(self.listeners() == all);
                assert(self.listeners()[j].1 < self.next());
            }
        }
        self.entries = kept_entries;
    }
}

/// The listeners without one registration, in order.
pub open spec fn without(v: Seq<(Seq<char>, u64)>, root: Seq<char>, id: u64) -> Seq<(Seq<char>, u64)>
    decreases v.len(),
{
    if v.len() == 0 {
        Seq::empty()
    } else {
        let prev = without(v.drop_last(), root, id);
        if v.last().0 == root && v.last().1 == id {
            prev
        } else {
            prev.push(v.last())
        }
    }
}

/// The ids of the listeners of a workspace, in order.
pub open spec fn ids_of(v: Seq<(Seq<char>, u64)>, root: Seq<char>) -> Seq<u64>
    decreases v.len(),
{
    if v.len() == 0 {
        Seq::empty()
    } else {
        let prev = ids_of(v.drop_last(), root);
        if v.last().0 == root {
            prev.push(v.last().1)
        } else {
            prev
        }
    }
}

/// Registers a listener of a workspace's chat index; it gets the next id.
pub fn register_chat_index_listener(listeners: &mut ChatIndexListeners, workspace_root: &str) -> (r:
    ChatIndexListenerRegistration)
    requires
        old(listeners).wf(),
        old(listeners).next() < u64::MAX,
    ensures
        final(listeners).wf(),
        r.workspace_root@ == workspace_root@,
        r.id == old(listeners).next(),
        final(listeners).next() == old(listeners).next() + 1,
        final(listeners).listeners() == old(listeners).listeners().push((workspace_root@, r.id)),
{
    listeners.register(workspace_root)
}

impl ChatIndexListeners {
    fn register(&mut self, workspace_root: &str) -> (r: ChatIndexListenerRegistration)
        requires
            old(self).wf(),
            old(self).next() < u64::MAX,
        ensures
            final(self).wf(),
            r.workspace_root@ == workspace_root@,
            r.id == old(self).next(),
            final(self).next() == old(self).next() + 1,
            final(self).listeners() == old(self).listeners().push((workspace_root@, r.id)),
    {
        let id = self.next_id;
        let ghost before = entry_views(self.entries@);
        self.entries.push((workspace_root.to_owned(), id));
        self.next_id = id + 1;
        proof {
            assert(entry_views(self.entries@) =~= before.push((workspace_root@, id)));
            let l = self.listeners();
            assert(before == old(self).listeners());
            assert forall|i: int| 0 <= i < l.len() implies #[trigger] l[i].1 < self.next() by {
                if i < before.len() {
                    assert(l[i] == before[i]);
                    assert(old(self).listeners()[i].1 < old(self).next());
                }
            }
            assert forall|i: int, j: int| 0 <= i < j < l.len() implies #[trigger] l[i].1 != #[trigger] l[j].1 by {
                assert(l[i] == before[i]);
                assert(old(self).listeners()[i].1 < old(self).next());
                if j < before.len() {
                    assert(l[j] == before[j]);
                    assert(old(self).listeners()[i].1 != old(self).listeners()[j].1);
                }
            }
        }
        ChatIndexListenerRegistration { workspace_root: workspace_root.to_owned(), id }
    }
}

proof fn lemma_without_absent(l: Seq<(Seq<char>, u64)>, root: Seq<char>, id: u64)
    requires
        forall|i: int| 0 <= i < l.len() ==> (#[trigger] l[i]).1 != id,
    ensures
        without(l, root, id) == l,
    decreases l.len(),
{
    if l.len() > 0 {
        lemma_without_absent(l.drop_last(), root, id);
        assert(l.drop_last().push(l.last()) =~= l);
    }
}

proof fn lemma_ids_absent(l: Seq<(Seq<char>, u64)>, root: Seq<char>, id: u64)
    requires
        forall|i: int| 0 <= i < l.len() ==> (#[trigger] l[i]).1 != id,
    ensures
        !ids_of(l, root).contains(id),
    decreases l.len(),
{
    if l.len() > 0 {
        lemma_ids_absent(l.drop_last(), root, id);
        assert(l.last().1 != id);
    }
}

/// Which listeners a change of a workspace's chat index is told to: a new
/// registration, with an id no listener has, is told of changes to its own
/// workspace once, after the listeners already there, and of no other
/// workspace's; once unregistered it is told of nothing, and the others are
/// told as before.
pub proof fn law_index_listeners_told(
    listeners: Seq<(Seq<char>, u64)>,
    root: Seq<char>,
    other: Seq<char>,
    id: u64,
)
    requires
        other != root,
        forall|i: int| 0 <= i < listeners.len() ==> (#[trigger] listeners[i]).1 != id,
    ensures
        ids_of(listeners.push((root, id)), root) == ids_of(listeners, root).push(id),
        !ids_of(listeners, root).contains(id),
        ids_of(listeners.push((root, id)), other) == ids_of(listeners, other),
        without(listeners.push((root, id)), root, id) == listeners,
        !ids_of(without(listeners.push((root, id)), root, id), root).contains(id),
{
    let after = listeners.push((root, id));
    assert(after.drop_last() =~= listeners);
    lemma_without_absent(listeners, root, id);
    lemma_ids_absent(listeners, root, id);
}

// ---------------------------------------------------------------------------
// Appending messages

/// A stored message as appending reads it: its id, and the client request
/// it was appended for, if any.
#[derive(Debug, Clone, PartialEq, Eq)]
pub struct StoredMessageIds {
    pub message_id: String,
    pub client_request_id: Option<String>,
}

pub open spec fn stored_ids_view(v: Seq<StoredMessageIds>) -> Seq<(Seq<char>, Option<Seq<char>>)> {
    v.map_values(
        |m: StoredMessageIds|
            (
                m.message_id@,
                match m.client_request_id {
                    Some(q) => Some(q@),
                    None => None,
                },
            ),
    )
}

/// The position of the first message appended for the request.
pub open spec fn first_for_request(msgs: Seq<(Seq<char>, Option<Seq<char>>)>, request: Seq<char>) -> Option<int>
    decreases msgs.len(),
{
    if msgs.len() == 0 {
        None
    } else if msgs[0].1 == Some(request) {
        Some(0)
    } else {
        match first_for_request(msgs.drop_first(), request) {
            Some(i) => Some(i + 1),
            None => None,
        }
    }
}

/// The id of the next message: `msg-` and the number of messages plus one.
pub open spec fn next_message_id(count: nat) -> Seq<char> {
    "msg-"@ + crate::preview::decimal(if count >= usize::MAX { count } else { count + 1 })
}

/// What an append answers and whether it writes: a request that an earlier
/// message was appended for is answered with that message's id and writes
/// nothing; otherwise a new message is written under the next id.
pub open spec fn append_decision(msgs: Seq<(Seq<char>, Option<Seq<char>>)>, request: Option<Seq<char>>) -> (
    Seq<char>,
    bool,
) {
    match request {
        Some(q) => match first_for_request(msgs, q) {
            Some(i) => (msgs[i].0, false),
            None => (next_message_id(msgs.len()), true),
        },
        None => (next_message_id(msgs.len()), true),
    }
}

proof fn lemma_first_for_request_bounds(msgs: Seq<(Seq<char>, Option<Seq<char>>)>, request: Seq<char>)
    ensures
        match first_for_request(msgs, request) {
            Some(i) => 0 <= i < msgs.len() && msgs[i].1 == Some(request) && forall|k: int|
                0 <= k < i ==> (#[trigger] msgs[k]).1 != Some(request),
            None => forall|k: int| 0 <= k < msgs.len() ==> (#[trigger] msgs[k]).1 != Some(request),
        },
    decreases msgs.len(),
{
    if msgs.len() > 0 && msgs[0].1 != Some(request) {
        let rest = msgs.drop_first();
        lemma_first_for_request_bounds(rest, request);
        match first_for_request(rest, request) {
            Some(j) => {
                assert(msgs[j + 1] == rest[j]);
                assert forall|k: int| 0 <= k < j + 1 implies (#[trigger] msgs[k]).1 != Some(request) by {
                    if k > 0 {
                        assert(msgs[k] == rest[k - 1]);
                    }
                }
            },
            None => {
                assert forall|k: int| 0 <= k < msgs.len() implies (#[trigger] msgs[k]).1 != Some(request) by {
                    if k > 0 {
                        assert(msgs[k] == rest[k - 1]);
                    }
                }
            },
        }
    }
}

proof fn lemma_first_for_request_is(msgs: Seq<(Seq<char>, Option<Seq<char>>)>, request: Seq<char>, i: int)
    requires
        0 <= i <= msgs.len(),
        forall|k: int| 0 <= k < i ==> (#[trigger] msgs[k]).1 != Some(request),
    ensures
        i < msgs.len() && msgs[i].1 == Some(request) ==> first_for_request(msgs, request) == Some(i),
        i == msgs.len() ==> first_for_request(msgs, request) is None,
    decreases i,
{
    if i > 0 {
        assert forall|k: int| 0 <= k < i - 1 implies (#[trigger] msgs.drop_first()[k]).1 != Some(request) by {
            assert(msgs.drop_first()[k] == msgs[k + 1]);
        }
        lemma_first_for_request_is(msgs.drop_first(), request, i - 1);
    } else if msgs.len() > 0 {
        lemma_first_for_request_bounds(msgs, request);
    }
}

/// The id an appended message is answered with, and whether the message is
/// to be written.
pub fn message_id_for_append(messages: &Vec<StoredMessageIds>, client_request_id: Option<&str>) -> (r: (String, bool))
    ensures
        (r.0@, r.1) == append_decision(
            stored_ids_view(messages@),
            match client_request_id {
                Some(q) => Some(q@),
                None => None,
            },
        ),
{
    let ghost msgs = stored_ids_view(messages@);
    if let Some(q) = client_request_id {
        let qc = chars_of(q);
        let mut i: usize = 0;
        while i < messages.len()
            invariant
                i <= messages.len(),
                msgs == stored_ids_view(messages@),
                client_request_id == Some(q),
                qc@ == q@,
                forall|k: int| 0 <= k < i ==> (#[trigger] msgs[k]).1 != Some(q@),
            decreases messages.len() - i,
        {
            let hit = match &messages[i].client_request_id {
                Some(x) => crate::text::seq_eq(&chars_of(x.as_str()), &qc),
                None => false,
            };
            if hit {
                proof {
                    assert(msgs[i as int] == (
                        messages@[i as int].message_id@,
                        match messages@[i as int].client_request_id {
                            Some(x) => Some(x@),
                            None => None,
                        },
                    ));
                    assert(msgs[i as int].1 == Some(q@));
                    lemma_first_for_request_is(msgs, q@, i as int);
                }
                let id = messages[i].message_id.as_str().to_owned();
                assert(id@ == msgs[i as int].0);
                return (id, false);
            }
            i = i + 1;
        }
        proof {
            lemma_first_for_request_is(msgs, q@, i as int);
        }
    }
    let n = messages.len();
    let next = if n == usize::MAX { n } else { n + 1 };
    let mut id = chars_of("msg-");
    crate::text::append_chars(&mut id, &crate::preview::decimal_usize(next));
    (crate::text::string_of(&id), true)
}

/// An append is idempotent by request: a request that no earlier message
/// had writes one message, numbered after the ones there; repeating the
/// request answers with that message's id and writes nothing.
pub proof fn law_repeated_append_writes_nothing(msgs: Seq<(Seq<char>, Option<Seq<char>>)>, request: Seq<char>)
    requires
        first_for_request(msgs, request) is None,
    ensures
        append_decision(msgs, Some(request)).1,
        append_decision(msgs, Some(request)).0 == next_message_id(msgs.len()),
        append_decision(
            msgs.push((append_decision(msgs, Some(request)).0, Some(request))),
            Some(request),
        ) == (append_decision(msgs, Some(request)).0, false),
{
    let id = append_decision(msgs, Some(request)).0;
    let after = msgs.push((id, Some(request)));
    lemma_first_for_request_bounds(msgs, request);
    assert forall|k: int| 0 <= k < msgs.len() implies (#[trigger] after[k]).1 != Some(request) by {
        assert(after[k] == msgs[k]);
    }
    lemma_first_for_request_is(after, request, msgs.len() as int);
}

} // verus!
