//! Coalescing of file change events: raw events for watched files are
//! collected, editor temporary files dropped, and one notification is given
//! once no event has come for the debounce interval.
//!
//! Paths are compared as `std::path::Path` compares them, component by
//! component; times are milliseconds on a monotonic clock.
use vstd::prelude::*;
use crate::plan_package::string_views;
use crate::text::{chars_of, contains, contains_lit, ends_with, ends_with_lit, seq_eq, split, split_exec, starts_with, starts_with_lit, views};
use crate::workspace_path::{dot, file_name, kept, kept_exec};

verus! {

/// The debounce interval, in milliseconds.
pub const DEBOUNCE_MS: u64 = 300;

/// The components of a path: a root (`/`) or a leading `.` when the path
/// has one, then its named segments; empty and other `.` segments vanish.
pub open spec fn path_components(p: Seq<char>) -> Seq<Seq<char>> {
    let segs = split(p, '/');
    if p.len() > 0 && p[0] == '/' {
        seq!["/"@] + kept(segs)
    } else if segs[0] == dot() {
        seq![dot()] + kept(segs)
    } else {
        kept(segs)
    }
}

/// `candidate` is `watched` or lies under it, component-wise.
pub open spec fn path_under(candidate: Seq<char>, watched: Seq<char>) -> bool {
    let c = path_components(candidate);
    let w = path_components(watched);
    w.len() <= c.len() && c.subrange(0, w.len() as int) == w
}

/// Some path is a watched file or lies under it.
pub open spec fn matches_path_spec(paths: Seq<Seq<char>>, watched: Option<Seq<char>>) -> bool {
    match watched {
        None => false,
        Some(w) => exists|k: int| 0 <= k < paths.len() && path_under(#[trigger] paths[k], w),
    }
}

pub open spec fn matches_any_spec(paths: Seq<Seq<char>>, watched: Seq<Seq<char>>) -> bool {
    exists|k: int| 0 <= k < watched.len() && matches_path_spec(paths, Some(#[trigger] watched[k]))
}

/// Editor temporary files: a name ending in `~`, starting with `.~`, or
/// holding `.~tmp`.
pub open spec fn is_filtered_temp_path(path: Seq<char>) -> bool {
    match file_name(path) {
        None => false,
        Some(name) => ends_with(name, "~"@) || starts_with(name, ".~"@) || contains(name, ".~tmp"@),
    }
}

/// The components of a path.
pub fn path_components_exec(p: &[char]) -> (r: Vec<Vec<char>>)
    ensures
        views(r@) == path_components(p@),
{
    let segs = split_exec(p, '/');
    proof {
        crate::text::lemma_split_nonempty(p@, '/');
        assert(views(segs@)[0] == segs@[0]@);
    }
    let k = kept_exec(&segs);
    let lead: Option<char> = if p.len() > 0 && p[0] == '/' {
        Some('/')
    } else if segs[0].len() == 1 && segs[0][0] == '.' {
        proof {
            assert(segs@[0]@ =~= dot());
        }
        Some('.')
    } else {
        proof {
            if segs@[0]@.len() == 1 {
                assert(segs@[0]@[0] != '.');
            }
            assert(segs@[0]@ != dot());
        }
        None
    };
    match lead {
        None => k,
        Some(c) => {
            let mut r: Vec<Vec<char>> = Vec::new();
            let first = vec![c];
            proof {
                assert(first@ =~= seq![c]);
            }
            r.push(first);
            let mut i: usize = 0;
            proof {
                assert(views(r@) =~= seq![seq![c]] + views(k@).take(0));
            }
            while i < k.len()
                invariant
                    i <= k.len(),
                    views(r@) == seq![seq![c]] + views(k@).take(i as int),
                decreases k.len() - i,
            {
                let ghost before = views(r@);
                r.push(crate::text::slice_vec(&k[i], 0, k[i].len()));
                proof {
                    assert(k@[i as int]@.subrange(0, k@[i as int]@.len() as int) =~= k@[i as int]@);
                    assert(views(r@) =~= before.push(k@[i as int]@));
                    assert(views(k@).take(i + 1) =~= views(k@).take(i as int).push(views(k@)[i as int]));
                }
                i = i + 1;
            }
            proof {
                assert(views(k@).take(k@.len() as int) =~= views(k@));
                reveal_strlit("/");
                assert(seq!['/'] =~= "/"@);
            }
            r
        },
    }
}

fn components_prefix(c: &Vec<Vec<char>>, w: &Vec<Vec<char>>) -> (r: bool)
    ensures
        r == (views(w@).len() <= views(c@).len() && views(c@).subrange(0, views(w@).len() as int) == views(w@)),
{
    if w.len() > c.len() {
        return false;
    }
    let mut i: usize = 0;
    while i < w.len()
        invariant
            w.len() <= c.len(),
            i <= w.len(),
            forall|j: int| 0 <= j < i ==> views(c@)[j] == views(w@)[j],
        decreases w.len() - i,
    {
        if !seq_eq(&c[i], &w[i]) {
            proof {
                assert(views(c@).subrange(0, views(w@).len() as int)[i as int] != views(w@)[i as int]);
            }
            return false;
        }
        i = i + 1;
    }
    proof {
        assert(views(c@).subrange(0, views(w@).len() as int) =~= views(w@));
    }
    true
}

/// Whether `candidate` is `watched` or lies under it.
pub fn path_under_exec(candidate: &[char], watched: &[char]) -> (r: bool)
    ensures
        r == path_under(candidate@, watched@),
{
    let c = path_components_exec(candidate);
    let w = path_components_exec(watched);
    components_prefix(&c, &w)
}

/// Whether some path is the watched file or lies under it.
pub fn matches_path(paths: &[String], watched_file: Option<&str>) -> (r: bool)
    ensures
        r == matches_path_spec(string_views(paths@), match watched_file {
            Some(w) => Some(w@),
            None => None,
        }),
{
    let w = match watched_file {
        None => return false,
        Some(w) => chars_of(w),
    };
    let ghost ps = string_views(paths@);
    let mut k: usize = 0;
    while k < paths.len()
        invariant
            k <= paths.len(),
            ps == string_views(paths@),
            watched_file matches Some(x) && x@ == w@,
            forall|j: int| 0 <= j < k ==> !path_under(#[trigger] ps[j], w@),
        decreases paths.len() - k,
    {
        let c = chars_of(paths[k].as_str());
        if path_under_exec(&c, &w) {
            proof {
                assert(ps[k as int] == c@);
            }
            return true;
        }
        proof {
            assert(ps[k as int] == c@);
        }
        k = k + 1;
    }
    false
}

/// Whether some path is one of the watched files or lies under one.
pub fn matches_any_path(paths: &[String], watched_files: &[String]) -> (r: bool)
    ensures
        r == matches_any_spec(string_views(paths@), string_views(watched_files@)),
{
    let ghost ws = string_views(watched_files@);
    let mut k: usize = 0;
    while k < watched_files.len()
        invariant
            k <= watched_files.len(),
            ws == string_views(watched_files@),
            forall|j: int| 0 <= j < k ==> !matches_path_spec(string_views(paths@), Some(#[trigger] ws[j])),
        decreases watched_files.len() - k,
    {
        proof {
            assert(ws[k as int] == watched_files@[k as int]@);
        }
        if matches_path(paths, Some(watched_files[k].as_str())) {
            return true;
        }
        k = k + 1;
    }
    false
}

/// Whether a path is an editor temporary file.
pub fn is_filtered_temp_path_exec(path: &[char]) -> (r: bool)
    ensures
        r == is_filtered_temp_path(path@),
{
    let c = path_components_exec(path);
    let segs = split_exec(path, '/');
    let k = kept_exec(&segs);
    if k.len() == 0 || crate::text::eq_lit(&k[k.len() - 1], "..") {
        proof {
            if k@.len() > 0 {
                assert(views(k@).last() == k@[k@.len() - 1]@);
                reveal_strlit("..");
                assert(".."@ =~= crate::workspace_path::dot_dot());
            }
        }
        return false;
    }
    let name = &k[k.len() - 1];
    proof {
        assert(views(k@).last() == name@);
        reveal_strlit("..");
        assert(".."@ =~= crate::workspace_path::dot_dot());
    }
    ends_with_lit(name, "~") || starts_with_lit(name, ".~") || contains_lit(name, ".~tmp")
}

// ---------------------------------------------------------------------------
// The coalescer

/// A watcher that could not be set up.
#[derive(Debug, Clone, PartialEq, Eq)]
pub struct WatchError(pub String);

/// A notification of the watcher.
#[derive(Debug, Clone, PartialEq, Eq)]
pub enum WatchMessage {
    /// These paths changed, each once, in the order they first changed.
    Changed(Vec<String>),
    Error(String),
}

/// The state of the coalescer.
#[derive(Debug, Clone)]
pub struct WatchCoalescer {
    watched_files: Vec<String>,
    subscribed: bool,
    pending_deadline: Option<u64>,
    pending_paths: Vec<String>,
}

/// The coalescer by its views.
pub struct CoalescerView {
    pub watched: Seq<Seq<char>>,
    pub subscribed: bool,
    pub deadline: Option<u64>,
    pub pending: Seq<Seq<char>>,
}

/// Two pending paths are never the same path.
pub open spec fn distinct_paths(v: Seq<Seq<char>>) -> bool {
    forall|i: int, j: int| 0 <= i < j < v.len() ==> path_components(#[trigger] v[i]) != path_components(#[trigger] v[j])
}

/// Some listed path is the same path as `p`.
pub open spec fn holds_path(v: Seq<Seq<char>>, p: Seq<char>) -> bool {
    exists|k: int| 0 <= k < v.len() && path_components(#[trigger] v[k]) == path_components(p)
}

/// What a raw event does to the state.
pub open spec fn after_push(s: CoalescerView, now: u64, path: Seq<char>) -> CoalescerView {
    if !s.subscribed || is_filtered_temp_path(path) || !matches_any_spec(seq![path], s.watched) {
        s
    } else {
        CoalescerView {
            pending: if holds_path(s.pending, path) {
                s.pending
            } else {
                s.pending.push(path)
            },
            deadline: Some((now + DEBOUNCE_MS) as u64),
            ..s
        }
    }
}

/// Whether a notification is due at `now`.
pub open spec fn due(s: CoalescerView, now: u64) -> bool {
    s.deadline matches Some(d) && now >= d
}

impl View for WatchCoalescer {
    type V = CoalescerView;

    closed spec fn view(&self) -> CoalescerView {
        CoalescerView {
            watched: string_views(self.watched_files@),
            subscribed: self.subscribed,
            deadline: self.pending_deadline,
            pending: string_views(self.pending_paths@),
        }
    }
}

pub open spec fn message_view(m: Option<WatchMessage>) -> Option<Seq<Seq<char>>> {
    match m {
        Some(WatchMessage::Changed(v)) => Some(string_views(v@)),
        _ => None,
    }
}

impl WatchCoalescer {
    /// The coalescer is well formed: pending paths are distinct.
    pub open spec fn wf(&self) -> bool {
        distinct_paths(self@.pending)
    }

    /// A coalescer watching nothing.
    pub fn new() -> (r: Self)
        ensures
            r.wf(),
            r@.watched.len() == 0,
            !r@.subscribed,
            r@.deadline is None,
            r@.pending.len() == 0,
    {
        WatchCoalescer {
            watched_files: Vec::new(),
            subscribed: false,
            pending_deadline: None,
            pending_paths: Vec::new(),
        }
    }

    /// Watches these (normalized) paths from now on, forgetting what was
    /// pending.
    pub fn subscribe(&mut self, paths: Vec<String>)
        ensures
            final(self).wf(),
            final(self)@.watched == string_views(paths@),
            final(self)@.subscribed,
            final(self)@.deadline is None,
            final(self)@.pending.len() == 0,
    {
        self.watched_files = paths;
        self.subscribed = true;
        self.pending_deadline = None;
        self.pending_paths = Vec::new();
    }

    /// Stops emitting, forgetting what was pending.
    pub fn unsubscribe(&mut self)
        ensures
            final(self).wf(),
            final(self)@.watched == old(self)@.watched,
            !final(self)@.subscribed,
            final(self)@.deadline is None,
            final(self)@.pending.len() == 0,
    {
        self.subscribed = false;
        self.pending_deadline = None;
        self.pending_paths = Vec::new();
    }

    /// A lost connection: as `unsubscribe`.
    pub fn disconnect(&mut self)
        ensures
            final(self).wf(),
            final(self)@.watched == old(self)@.watched,
            !final(self)@.subscribed,
            final(self)@.deadline is None,
            final(self)@.pending.len() == 0,
    {
        self.unsubscribe();
    }

    /// A restored connection forgets what was pending; it does not
    /// subscribe again.
    pub fn reconnect(&mut self)
        ensures
            final(self).wf(),
            final(self)@.watched == old(self)@.watched,
            final(self)@.subscribed == old(self)@.subscribed,
            final(self)@.deadline is None,
            final(self)@.pending.len() == 0,
    {
        self.pending_deadline = None;
        self.pending_paths = Vec::new();
    }

    /// Takes a raw event for a (normalized) path at `now`: a watched path
    /// that is no temporary file joins the pending paths once, and the
    /// deadline moves to `now` plus the debounce interval.
    pub fn push_raw_path(&mut self, now: u64, path: String)
        requires
            old(self).wf(),
            now <= u64::MAX - DEBOUNCE_MS,
        ensures
            final(self).wf(),
            final(self)@ == after_push(old(self)@, now, path@),
    {
        if !self.subscribed {
            return;
        }
        let p = chars_of(path.as_str());
        if is_filtered_temp_path_exec(&p) {
            return;
        }
        let one = vec![path];
        proof {
            assert(string_views(one@) =~= seq![p@]);
        }
        if !matches_any_path(&one, &self.watched_files) {
            return;
        }
        let path = one[0].as_str().to_owned();
        let pc = path_components_exec(&p);
        let ghost pend = string_views(self.pending_paths@);
        let mut found = false;
        let mut k: usize = 0;
        while k < self.pending_paths.len()
            invariant
                k <= self.pending_paths.len(),
                pend == string_views(self.pending_paths@),
                views(pc@) == path_components(p@),
                found == exists|j: int| 0 <= j < k && path_components(#[trigger] pend[j]) == path_components(p@),
            decreases self.pending_paths.len() - k,
        {
            let q = chars_of(self.pending_paths[k].as_str());
            let qc = path_components_exec(&q);
            proof {
                assert(pend[k as int] == q@);
            }
            let same = components_prefix(&qc, &pc) && qc.len() == pc.len();
            proof {
                if same {
                    assert(views(qc@).subrange(0, views(pc@).len() as int) =~= views(qc@));
                }
                if views(qc@) == views(pc@) {
                    assert(views(qc@).subrange(0, views(pc@).len() as int) =~= views(qc@));
                }
            }
            if same {
                found = true;
            }
            k = k + 1;
        }
        if !found {
            let ghost before = string_views(self.pending_paths@);
            self.pending_paths.push(path);
            proof {
                assert(string_views(self.pending_paths@) =~= before.push(p@));
                assert forall|i: int, j: int| 0 <= i < j < string_views(self.pending_paths@).len() implies path_components(
                    #[trigger] string_views(self.pending_paths@)[i],
                ) != path_components(#[trigger] string_views(self.pending_paths@)[j]) by {
                    if j == before.len() {
                        assert(string_views(self.pending_paths@)[i] == before[i]);
                    } else {
                        assert(string_views(self.pending_paths@)[i] == before[i]);
                        assert(string_views(self.pending_paths@)[j] == before[j]);
                    }
                }
            }
        }
        self.pending_deadline = Some(now + DEBOUNCE_MS);
    }

    /// The notification due at `now`, if any: once the deadline has passed,
    /// the pending paths are handed out and forgotten.
    pub fn take_due_notification(&mut self, now: u64) -> (r: Option<WatchMessage>)
        requires
            old(self).wf(),
        ensures
            final(self).wf(),
            final(self)@.watched == old(self)@.watched,
            final(self)@.subscribed == old(self)@.subscribed,
            !due(old(self)@, now) ==> final(self)@ == old(self)@ && r is None,
            due(old(self)@, now) ==> final(self)@.deadline is None && final(self)@.pending.len() == 0 && message_view(r)
                == (if old(self)@.pending.len() == 0 {
                None::<Seq<Seq<char>>>
            } else {
                Some(old(self)@.pending)
            }),
            r matches Some(m) ==> m is Changed,
    {
        let deadline = match self.pending_deadline {
            None => return None,
            Some(d) => d,
        };
        if now < deadline {
            return None;
        }
        self.pending_deadline = None;
        let mut paths: Vec<String> = Vec::new();
        std::mem::swap(&mut paths, &mut self.pending_paths);
        if paths.len() == 0 {
            None
        } else {
            Some(WatchMessage::Changed(paths))
        }
    }
}

// ---------------------------------------------------------------------------
// Laws

/// A notification is given once: right after one is taken, nothing more is
/// due until new events arrive.
pub proof fn law_notification_taken_once(s: CoalescerView, now: u64, later: u64)
    requires
        due(s, now),
    ensures
        !due(CoalescerView { deadline: None, pending: Seq::empty(), ..s }, later),
{
}

/// An unsubscribed coalescer ignores every event.
pub proof fn law_unsubscribed_ignores_events(s: CoalescerView, now: u64, path: Seq<char>)
    requires
        !s.subscribed,
    ensures
        after_push(s, now, path) == s,
{
}

/// Events keep pending paths distinct, and a watched path that is no
/// temporary file is pending after its event.
pub proof fn law_push_keeps_paths_distinct(s: CoalescerView, now: u64, path: Seq<char>)
    requires
        distinct_paths(s.pending),
        now <= u64::MAX - DEBOUNCE_MS,
    ensures
        distinct_paths(after_push(s, now, path).pending),
        s.subscribed && !is_filtered_temp_path(path) && matches_any_spec(seq![path], s.watched) ==> holds_path(
            after_push(s, now, path).pending,
            path,
        ),
{
    let t = after_push(s, now, path);
    if s.subscribed && !is_filtered_temp_path(path) && matches_any_spec(seq![path], s.watched) && !holds_path(
        s.pending,
        path,
    ) {
        let n = s.pending.push(path);
        assert forall|i: int, j: int| 0 <= i < j < n.len() implies path_components(#[trigger] n[i]) != path_components(
            #[trigger] n[j],
        ) by {
            if j == s.pending.len() {
                assert(n[i] == s.pending[i]);
            } else {
                assert(n[i] == s.pending[i]);
                assert(n[j] == s.pending[j]);
            }
        }
        assert(n[s.pending.len() as int] == path);
    }
}

/// Nothing is due before the debounce interval after the last event has
/// passed.
pub proof fn law_debounce_holds_back(s: CoalescerView, now: u64, path: Seq<char>, at: u64)
    requires
        now <= u64::MAX - DEBOUNCE_MS,
        s.subscribed,
        !is_filtered_temp_path(path),
        matches_any_spec(seq![path], s.watched),
        at < now + DEBOUNCE_MS,
    ensures
        !due(after_push(s, now, path), at),
{
}

} // verus!
