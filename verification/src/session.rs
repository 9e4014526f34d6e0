//! The table of live terminal sessions, keyed by session id.
//!
//! Each entry says which container serves the session, which shell it runs,
//! who owns it and which published project (if any) it shows. The table keeps
//! its entries in insertion order and never holds two entries with one id.
use vstd::prelude::*;
use crate::rejection::{opt_text, Rejection, reject};
use crate::models::LiveSessionMetric;
use crate::text::str_eq;

verus! {

/// The state kept for one terminal session.
#[derive(Debug)]
pub struct SessionContext {
    /// Name of the container behind the session (empty while a viewer
    /// container has not been started, `INITIALIZING` while a builder is set up).
    pub container_name: String,
    pub shell: String,
    /// Image of a published project whose viewer container is still to be started.
    pub pending_image_tag: Option<String>,
    /// The signed-in user the session belongs to, if any.
    pub owner_id: Option<i64>,
    /// Owner of the published project the session shows, if any.
    pub project_owner_id: Option<i64>,
    pub is_publishing: bool,
    pub project_slug: Option<String>,
    /// Creation time, in nanoseconds on the server's monotonic clock.
    pub created_at: u64,
    pub is_ws_connected: bool,
}

/// The mathematical value of a `SessionContext`.
pub struct SessionView {
    pub container_name: Seq<char>,
    pub shell: Seq<char>,
    pub pending_image_tag: Option<Seq<char>>,
    pub owner_id: Option<i64>,
    pub project_owner_id: Option<i64>,
    pub is_publishing: bool,
    pub project_slug: Option<Seq<char>>,
    pub created_at: u64,
    pub is_ws_connected: bool,
}

impl View for SessionContext {
    type V = SessionView;

    open spec fn view(&self) -> SessionView {
        SessionView {
            container_name: self.container_name@,
            shell: self.shell@,
            pending_image_tag: opt_text(self.pending_image_tag),
            owner_id: self.owner_id,
            project_owner_id: self.project_owner_id,
            is_publishing: self.is_publishing,
            project_slug: opt_text(self.project_slug),
            created_at: self.created_at,
            is_ws_connected: self.is_ws_connected,
        }
    }
}

/// A copy of an optional string.
pub fn copy_opt_text(o: &Option<String>) -> (r: Option<String>)
    ensures
        opt_text(r) == opt_text(*o),
{
    match o {
        Some(s) => Some(s.clone()),
        None => None,
    }
}

impl SessionContext {

    /// The state of a fresh builder session of `user` whose container is being set up.
    pub fn builder_placeholder(user: Option<i64>, now: u64) -> (r: SessionContext)
        ensures
            r@ == builder_placeholder(user, now),
    {
        let r = SessionContext {
            container_name: "INITIALIZING".to_owned(),
            shell: "".to_owned(),
            pending_image_tag: None,
            owner_id: user,
            project_owner_id: user,
            is_publishing: false,
            project_slug: None,
            created_at: now,
            is_ws_connected: true,
        };
        proof {
            reveal_strlit("");
        }
        assert(r@.shell =~= Seq::<char>::empty());
        r
    }

    /// The state of a new viewer session of a published project; its
    /// container is started when the viewer's terminal connects.
    pub fn viewer(image_tag: String, shell: String, project_owner: i64, slug: String, now: u64) -> (r: SessionContext)
        ensures
            r@ == (SessionView {
                container_name: Seq::empty(),
                shell: shell@,
                pending_image_tag: Some(image_tag@),
                owner_id: None,
                project_owner_id: Some(project_owner),
                is_publishing: false,
                project_slug: Some(slug@),
                created_at: now,
                is_ws_connected: false,
            }),
    {
        SessionContext {
            container_name: String::new(),
            shell,
            pending_image_tag: Some(image_tag),
            owner_id: None,
            project_owner_id: Some(project_owner),
            is_publishing: false,
            project_slug: Some(slug),
            created_at: now,
            is_ws_connected: false,
        }
    }

    /// A field-by-field copy.
    pub fn duplicate(&self) -> (r: SessionContext)
        ensures
            r@ == self@,
    {
        SessionContext {
            container_name: self.container_name.clone(),
            shell: self.shell.clone(),
            pending_image_tag: copy_opt_text(&self.pending_image_tag),
            owner_id: self.owner_id,
            project_owner_id: self.project_owner_id,
            is_publishing: self.is_publishing,
            project_slug: copy_opt_text(&self.project_slug),
            created_at: self.created_at,
            is_ws_connected: self.is_ws_connected,
        }
    }
}

/// One entry of the table: a session id and its state.
pub type Entry = (Seq<char>, SessionView);

/// No two entries share a session id.
pub open spec fn ids_distinct(s: Seq<Entry>) -> bool {
    forall|i: int, j: int| 0 <= i < j < s.len() ==> s[i].0 != s[j].0
}

/// Whether some entry has id `k`.
pub open spec fn has_id(s: Seq<Entry>, k: Seq<char>) -> bool {
    exists|i: int| 0 <= i < s.len() && s[i].0 == k
}

/// The state stored under id `k` (the last such entry), if any.
pub open spec fn lookup(s: Seq<Entry>, k: Seq<char>) -> Option<SessionView>
    decreases s.len(),
{
    if s.len() == 0 {
        None
    } else if s.last().0 == k {
        Some(s.last().1)
    } else {
        lookup(s.drop_last(), k)
    }
}

/// The entries of `s` that satisfy `p`, in order.
pub open spec fn keep(s: Seq<Entry>, p: spec_fn(Entry) -> bool) -> Seq<Entry>
    decreases s.len(),
{
    if s.len() == 0 {
        Seq::empty()
    } else if p(s.last()) {
        keep(s.drop_last(), p).push(s.last())
    } else {
        keep(s.drop_last(), p)
    }
}

/// `s` without the entry of id `k`.
pub open spec fn without(s: Seq<Entry>, k: Seq<char>) -> Seq<Entry> {
    keep(s, other_id(k))
}

/// Whether an entry's id differs from `k`.
pub open spec fn other_id(k: Seq<char>) -> spec_fn(Entry) -> bool {
    |e: Entry| e.0 != k
}

/// `s` with `v` stored under `k`: in place when `k` is present, appended otherwise.
pub open spec fn put(s: Seq<Entry>, k: Seq<char>, v: SessionView) -> Seq<Entry> {
    if has_id(s, k) {
        s.map_values(|e: Entry| if e.0 == k { (k, v) } else { e })
    } else {
        s.push((k, v))
    }
}

/// Number of entries of `s` that satisfy `p`.
pub open spec fn count(s: Seq<Entry>, p: spec_fn(Entry) -> bool) -> nat {
    keep(s, p).len()
}

pub proof fn lemma_lookup_at(s: Seq<Entry>, k: Seq<char>, i: int)
    requires
        ids_distinct(s),
        0 <= i < s.len(),
        s[i].0 == k,
    ensures
        lookup(s, k) == Some(s[i].1),
    decreases s.len(),
{
    if i < s.len() - 1 {
        assert(s.last().0 != k);
        assert(s.drop_last()[i] == s[i]);
        lemma_lookup_at(s.drop_last(), k, i);
    }
}

pub proof fn lemma_lookup_absent(s: Seq<Entry>, k: Seq<char>)
    requires
        !has_id(s, k),
    ensures
        lookup(s, k) is None,
    decreases s.len(),
{
    if s.len() > 0 {
        assert(s[s.len() - 1].0 != k);
        assert forall|i: int| 0 <= i < s.drop_last().len() implies s.drop_last()[i].0 != k by {
            assert(s.drop_last()[i] == s[i]);
        }
        lemma_lookup_absent(s.drop_last(), k);
    }
}

pub proof fn lemma_lookup_some(s: Seq<Entry>, k: Seq<char>)
    requires
        ids_distinct(s),
        lookup(s, k) is Some,
    ensures
        has_id(s, k),
{
    if !has_id(s, k) {
        lemma_lookup_absent(s, k);
    }
}

/// Every entry kept by `keep` is an entry of the sequence it was taken from.
pub proof fn lemma_keep_members(s: Seq<Entry>, p: spec_fn(Entry) -> bool)
    ensures
        forall|i: int| 0 <= i < keep(s, p).len() ==> (exists|j: int| 0 <= j < s.len() && s[j] == #[trigger] keep(s, p)[i]),
        forall|i: int| 0 <= i < keep(s, p).len() ==> p(#[trigger] keep(s, p)[i]),
        keep(s, p).len() <= s.len(),
    decreases s.len(),
{
    if s.len() > 0 {
        let t = s.drop_last();
        lemma_keep_members(t, p);
        let k = keep(s, p);
        assert forall|i: int| 0 <= i < k.len() implies (exists|j: int| 0 <= j < s.len() && s[j] == #[trigger] k[i]) by {
            if p(s.last()) && i == k.len() - 1 {
                assert(s[s.len() - 1] == k[i]);
            } else {
                assert(k[i] == keep(t, p)[i]);
                let j = choose|j: int| 0 <= j < t.len() && t[j] == keep(t, p)[i];
                assert(s[j] == t[j]);
            }
        }
        assert forall|i: int| 0 <= i < k.len() implies p(#[trigger] k[i]) by {
            if p(s.last()) && i == k.len() - 1 {
            } else {
                assert(k[i] == keep(t, p)[i]);
            }
        }
    }
}

/// Keeping entries preserves distinct ids.
pub proof fn lemma_keep_distinct(s: Seq<Entry>, p: spec_fn(Entry) -> bool)
    requires
        ids_distinct(s),
    ensures
        ids_distinct(keep(s, p)),
    decreases s.len(),
{
    if s.len() > 0 {
        let t = s.drop_last();
        assert(ids_distinct(t)) by {
            assert forall|i: int, j: int| 0 <= i < j < t.len() implies t[i].0 != t[j].0 by {
                assert(t[i] == s[i] && t[j] == s[j]);
            }
        }
        lemma_keep_distinct(t, p);
        lemma_keep_members(t, p);
        if p(s.last()) {
            let k = keep(s, p);
            let kt = keep(t, p);
            assert forall|i: int, j: int| 0 <= i < j < k.len() implies k[i].0 != k[j].0 by {
                if j == k.len() - 1 {
                    assert(k[i] == kt[i]);
                    let m = choose|m: int| 0 <= m < t.len() && t[m] == kt[i];
                    assert(s[m] == t[m]);
                    assert(s[m].0 != s[s.len() - 1].0);
                } else {
                    assert(k[i] == kt[i] && k[j] == kt[j]);
                }
            }
        }
    }
}

/// Keeping the entries of a prefix one step further.
pub proof fn lemma_keep_step(s: Seq<Entry>, p: spec_fn(Entry) -> bool, i: int)
    requires
        0 <= i < s.len(),
    ensures
        keep(s.take(i + 1), p) == if p(s[i]) {
            keep(s.take(i), p).push(s[i])
        } else {
            keep(s.take(i), p)
        },
{
    assert(s.take(i + 1).drop_last() =~= s.take(i));
    assert(s.take(i + 1).last() == s[i]);
}


/// Container name of a builder session whose container is still being set up.
pub open spec fn initializing() -> Seq<char> {
    "INITIALIZING"@
}

/// Whole seconds from `created` to `now` (zero when `now` is earlier), as
/// `Instant::duration_since(..).as_secs()` counts them.
pub open spec fn elapsed_secs(created: u64, now: u64) -> u64 {
    if now >= created {
        ((now - created) / 1_000_000_000) as u64
    } else {
        0
    }
}

/// The rules by which entries are dropped from the table.
#[derive(Debug)]
pub enum DropRule {
    /// Drop the session with this id.
    Id(String),
    /// Drop the sessions served by this container.
    Container(String),
    /// Drop the sessions whose container is neither being set up nor among these.
    Ghosts(Vec<String>),
}

/// The value of a drop rule.
pub enum DropRuleView {
    Id(Seq<char>),
    Container(Seq<char>),
    Ghosts(Seq<Seq<char>>),
}

impl View for DropRule {
    type V = DropRuleView;

    open spec fn view(&self) -> DropRuleView {
        match self {
            DropRule::Id(k) => DropRuleView::Id(k@),
            DropRule::Container(n) => DropRuleView::Container(n@),
            DropRule::Ghosts(v) => DropRuleView::Ghosts(v@.map_values(|s: String| s@)),
        }
    }
}

/// Whether an entry survives a drop rule.
pub open spec fn survives(r: DropRuleView, e: Entry) -> bool {
    match r {
        DropRuleView::Id(k) => e.0 != k,
        DropRuleView::Container(n) => e.1.container_name != n,
        DropRuleView::Ghosts(names) => e.1.container_name == initializing() || names.contains(
            e.1.container_name,
        ),
    }
}

/// The table after applying a drop rule.
pub open spec fn after_drop(s: Seq<Entry>, r: DropRuleView) -> Seq<Entry> {
    keep(s, |e: Entry| survives(r, e))
}

/// Whether an entry is a viewer session of a project owned by `owner`.
pub open spec fn views_project_of(e: Entry, owner: i64) -> bool {
    e.1.project_owner_id == Some(owner)
}

/// Number of sessions showing projects of `owner`.
pub open spec fn viewer_count(s: Seq<Entry>, owner: i64) -> nat {
    count(s, |e: Entry| views_project_of(e, owner))
}

/// Whether an entry is a live session of a published project of `owner`.
pub open spec fn is_live_of(e: Entry, owner: i64) -> bool {
    e.1.project_owner_id == Some(owner) && e.1.project_slug is Some
}

/// The analytics line for a live session at time `now`.
pub open spec fn metric_of(e: Entry, now: u64) -> (Seq<char>, u64, Seq<char>) {
    (e.1.project_slug.unwrap_or(Seq::empty()), elapsed_secs(e.1.created_at, now), e.1.container_name)
}

/// The analytics lines for the live sessions of `owner`'s projects.
pub open spec fn live_metrics(s: Seq<Entry>, owner: i64, now: u64) -> Seq<(Seq<char>, u64, Seq<char>)> {
    keep(s, |e: Entry| is_live_of(e, owner)).map_values(|e: Entry| metric_of(e, now))
}

/// Whether an entry is an unpublished builder session of `user`.
pub open spec fn is_builder_of(e: Entry, user: i64) -> bool {
    e.1.owner_id == Some(user) && e.1.project_slug is None
}

/// Whether an entry was never attached to and is older than 45 seconds.
pub open spec fn is_abandoned(e: Entry, now: u64) -> bool {
    !e.1.is_ws_connected && elapsed_secs(e.1.created_at, now) > 45
}

/// `v` once a WebSocket has attached to it.
pub open spec fn connected(v: SessionView) -> SessionView {
    SessionView { is_ws_connected: true, ..v }
}

/// `v` once a publish of it has started.
pub open spec fn publishing(v: SessionView) -> SessionView {
    SessionView { is_publishing: true, ..v }
}

/// The table after a WebSocket attaches to session `k`.
pub open spec fn after_connect(s: Seq<Entry>, k: Seq<char>) -> Seq<Entry> {
    match lookup(s, k) {
        Some(v) => put(s, k, connected(v)),
        None => s,
    }
}

/// Whether session `k` had a WebSocket attached before.
pub open spec fn was_connected(s: Seq<Entry>, k: Seq<char>) -> bool {
    match lookup(s, k) {
        Some(v) => v.is_ws_connected,
        None => false,
    }
}

/// The answer to a publish request for session `k` by `user`, and the table after it.
pub open spec fn publish_start(s: Seq<Entry>, k: Seq<char>, user: i64) -> (
    Result<(Seq<char>, Seq<char>), (u16, Seq<char>)>,
    Seq<Entry>,
) {
    match lookup(s, k) {
        None => (Err((400, "Session expired"@)), s),
        Some(v) => if v.owner_id != Some(user) {
            (Err((403, "You do not own this session"@)), s)
        } else {
            (Ok((v.container_name, v.shell)), put(s, k, publishing(v)))
        },
    }
}

/// Whether WebSocket access to session `k` is granted to `user`: `Ok`, or the refusing status.
pub open spec fn ws_access_verdict(s: Seq<Entry>, k: Seq<char>, user: Option<i64>) -> Result<(), u16> {
    match lookup(s, k) {
        Some(v) => match v.owner_id {
            Some(o) => if Some(o) != user {
                Err(403)
            } else {
                Ok(())
            },
            None => Ok(()),
        },
        None => if user is None {
            Err(401)
        } else {
            Ok(())
        },
    }
}

/// The state of a fresh builder session of `user` whose container is being set up.
pub open spec fn builder_placeholder(user: Option<i64>, now: u64) -> SessionView {
    SessionView {
        container_name: initializing(),
        shell: Seq::empty(),
        pending_image_tag: None,
        owner_id: user,
        project_owner_id: user,
        is_publishing: false,
        project_slug: None,
        created_at: now,
        is_ws_connected: true,
    }
}

/// The table when a WebSocket ends: a publishing session is kept for the
/// publish to finish, any other is removed. Also says whether it was removed.
pub open spec fn finish(s: Seq<Entry>, k: Seq<char>) -> (bool, Seq<Entry>) {
    match lookup(s, k) {
        Some(v) => if v.is_publishing {
            (false, s)
        } else {
            (true, without(s, k))
        },
        None => (false, s),
    }
}

/// The last entry served by the container named `name`, if any.
pub open spec fn last_with_container(s: Seq<Entry>, name: Seq<char>) -> Option<Entry>
    decreases s.len(),
{
    if s.len() == 0 {
        None
    } else if s.last().1.container_name == name {
        Some(s.last())
    } else {
        last_with_container(s.drop_last(), name)
    }
}

/// Whether `names` holds the text `name`.
pub fn list_contains(names: &Vec<String>, name: &str) -> (b: bool)
    ensures
        b == names@.map_values(|n: String| n@).contains(name@),
{
    let ghost m = names@.map_values(|n: String| n@);
    let mut i: usize = 0;
    while i < names.len()
        invariant
            m == names@.map_values(|n: String| n@),
            i <= names@.len(),
            forall|j: int| 0 <= j < i ==> m[j] != name@,
        decreases names.len() - i,
    {
        if str_eq(names[i].as_str(), name) {
            assert(m[i as int] == name@);
            return true;
        }
        i = i + 1;
    }
    false
}


/// What a read gives back of a write: after storing a state under an id,
/// that id reads back the stored state, every other id reads back what it
/// read before, and ids stay distinct.
pub proof fn law_read_after_write(s: Seq<Entry>, k: Seq<char>, v: SessionView)
    requires
        ids_distinct(s),
    ensures
        ids_distinct(put(s, k, v)),
        lookup(put(s, k, v), k) == Some(v),
        forall|k2: Seq<char>| k2 != k ==> lookup(put(s, k, v), k2) == lookup(s, k2),
{
    let t = put(s, k, v);
    if has_id(s, k) {
        let i = choose|i: int| 0 <= i < s.len() && s[i].0 == k;
        assert forall|a: int, b: int| 0 <= a < b < t.len() implies t[a].0 != t[b].0 by {
            assert(s[a].0 != s[b].0);
        }
        assert(t[i].0 == k && t[i].1 == v);
        lemma_lookup_at(t, k, i);
        assert forall|k2: Seq<char>| k2 != k implies lookup(t, k2) == lookup(s, k2) by {
            if has_id(s, k2) {
                let j = choose|j: int| 0 <= j < s.len() && s[j].0 == k2;
                assert(t[j] == s[j]);
                lemma_lookup_at(s, k2, j);
                lemma_lookup_at(t, k2, j);
            } else {
                lemma_lookup_absent(s, k2);
                assert forall|j: int| 0 <= j < t.len() implies t[j].0 != k2 by {
                    assert(s[j].0 != k2);
                }
                lemma_lookup_absent(t, k2);
            }
        }
    } else {
        assert forall|a: int, b: int| 0 <= a < b < t.len() implies t[a].0 != t[b].0 by {
            if b < s.len() {
                assert(s[a].0 != s[b].0);
            } else {
                assert(s[a].0 != k);
            }
        }
        assert(t.drop_last() =~= s);
    }
}

proof fn lemma_lookup_keep_id(s: Seq<Entry>, p: spec_fn(Entry) -> bool, k: Seq<char>, k2: Seq<char>)
    requires
        p == other_id(k),
    ensures
        lookup(keep(s, p), k2) == if k2 == k { None } else { lookup(s, k2) },
    decreases s.len(),
{
    if s.len() > 0 {
        let t = s.drop_last();
        lemma_lookup_keep_id(t, p, k, k2);
        if p(s.last()) {
            assert(keep(s, p).drop_last() =~= keep(t, p));
        }
    }
}

/// Removing a session forgets it and nothing else: its id reads back nothing
/// afterwards, every other id reads back what it read before, and ids stay distinct.
pub proof fn law_remove_forgets(s: Seq<Entry>, k: Seq<char>)
    requires
        ids_distinct(s),
    ensures
        ids_distinct(without(s, k)),
        lookup(without(s, k), k) is None,
        forall|k2: Seq<char>| k2 != k ==> #[trigger] lookup(without(s, k), k2) == lookup(s, k2),
{
    let p = other_id(k);
    lemma_keep_distinct(s, p);
    lemma_lookup_keep_id(s, p, k, k);
    assert forall|k2: Seq<char>| k2 != k implies #[trigger] lookup(without(s, k), k2) == lookup(s, k2) by {
        lemma_lookup_keep_id(s, p, k, k2);
    }
}

proof fn lemma_keep_all(s: Seq<Entry>, p: spec_fn(Entry) -> bool)
    requires
        forall|i: int| 0 <= i < s.len() ==> p(#[trigger] s[i]),
    ensures
        keep(s, p) == s,
    decreases s.len(),
{
    if s.len() > 0 {
        let t = s.drop_last();
        assert forall|i: int| 0 <= i < t.len() implies p(#[trigger] t[i]) by {
            assert(t[i] == s[i]);
        }
        lemma_keep_all(t, p);
        assert(p(s[s.len() - 1]));
        assert(t.push(s.last()) =~= s);
    }
}

/// Removing a session that was just stored under a fresh id gives back the
/// table as it was before.
pub proof fn law_remove_undoes_insert(s: Seq<Entry>, k: Seq<char>, v: SessionView)
    requires
        !has_id(s, k),
    ensures
        without(put(s, k, v), k) == s,
{
    let t = s.push((k, v));
    assert(put(s, k, v) == t);
    assert(t.drop_last() =~= s);
    assert forall|i: int| 0 <= i < s.len() implies #[trigger] other_id(k)(s[i]) by {
        assert(s[i].0 != k);
    }
    lemma_keep_all(s, other_id(k));
}

/// A builder session whose WebSocket ends before it is published leaves no
/// trace: claiming a fresh id for set-up and then finishing it gives back the
/// table as it was.
pub proof fn law_finish_undoes_claim(s: Seq<Entry>, k: Seq<char>, user: Option<i64>, now: u64)
    requires
        !has_id(s, k),
    ensures
        finish(s.push((k, builder_placeholder(user, now))), k) == (true, s),
{
    let v = builder_placeholder(user, now);
    let t = s.push((k, v));
    assert(t.drop_last() =~= s);
    assert(lookup(t, k) == Some(v));
    law_remove_undoes_insert(s, k, v);
    assert(put(s, k, v) == t);
}

/// The sessions the reaper abandons at time `now`, in table order.
pub open spec fn abandoned_entries(s: Seq<Entry>, now: u64) -> Seq<Entry> {
    keep(s, |e: Entry| is_abandoned(e, now))
}

/// The reaper abandons only sessions of the table that never had a WebSocket
/// attached and are older than 45 seconds; a connected session is never abandoned.
pub proof fn law_abandoned_never_connected(s: Seq<Entry>, now: u64)
    ensures
        forall|m: int| 0 <= m < abandoned_entries(s, now).len() ==> {
            let e = #[trigger] abandoned_entries(s, now)[m];
            !e.1.is_ws_connected && elapsed_secs(e.1.created_at, now) > 45 && s.contains(e)
        },
{
    let p = |e: Entry| is_abandoned(e, now);
    lemma_keep_members(s, p);
    assert forall|m: int| 0 <= m < keep(s, p).len() implies s.contains(#[trigger] keep(s, p)[m]) by {
        let j = choose|j: int| 0 <= j < s.len() && s[j] == keep(s, p)[m];
    }
}

/// Whether `s` holds a session showing a published project of `owner` whose
/// slug and container are those of `metric`.
pub open spec fn shows_metric(s: Seq<Entry>, owner: i64, metric: (Seq<char>, u64, Seq<char>)) -> bool {
    exists|j: int|
        0 <= j < s.len() && (#[trigger] s[j]).1.project_owner_id == Some(owner) && s[j].1.project_slug == Some(metric.0)
            && s[j].1.container_name == metric.2
}

/// The analytics page lists a live session only when it shows a published
/// project of the caller, and gives its slug and container as stored.
pub proof fn law_live_metrics_of_owner(s: Seq<Entry>, owner: i64, now: u64)
    ensures
        forall|m: int| 0 <= m < live_metrics(s, owner, now).len() ==> shows_metric(s, owner, #[trigger] live_metrics(s, owner, now)[m]),
{
    let p = |e: Entry| is_live_of(e, owner);
    lemma_keep_members(s, p);
    assert forall|m: int| 0 <= m < live_metrics(s, owner, now).len() implies shows_metric(s, owner, #[trigger] live_metrics(s, owner, now)[m]) by {
        let e = keep(s, p)[m];
        assert(p(e));
        let j = choose|j: int| 0 <= j < s.len() && s[j] == keep(s, p)[m];
        assert(s[j] == e);
        assert(live_metrics(s, owner, now)[m] == metric_of(e, now));
    }
}

/// A view is counted only once per session: after a WebSocket has attached,
/// a later attachment finds the session already connected.
pub proof fn law_view_counted_once(s: Seq<Entry>, k: Seq<char>)
    requires
        ids_distinct(s),
        has_id(s, k),
    ensures
        was_connected(after_connect(s, k), k),
        !was_connected(s, k) ==> was_connected(after_connect(s, k), k) != was_connected(s, k),
{
    let i = choose|i: int| 0 <= i < s.len() && s[i].0 == k;
    lemma_lookup_at(s, k, i);
    law_read_after_write(s, k, connected(s[i].1));
}

/// The concurrency limit of a publisher: at most this many sessions may show
/// projects of one owner.
pub open spec fn max_viewers() -> nat {
    5
}

/// Admitting a viewer only while a publisher has fewer than five sessions
/// keeps every publisher at five sessions or fewer.
pub proof fn law_viewer_cap(s: Seq<Entry>, k: Seq<char>, v: SessionView, owner: i64)
    requires
        !has_id(s, k),
        viewer_count(s, owner) < max_viewers(),
        v.project_owner_id == Some(owner),
    ensures
        viewer_count(put(s, k, v), owner) == viewer_count(s, owner) + 1,
        viewer_count(put(s, k, v), owner) <= max_viewers(),
{
    let t = s.push((k, v));
    assert(t.drop_last() =~= s);
}

/// Ending the WebSocket of a session that is not being published removes that
/// session, and only it: the end reports a removal, the id reads back nothing
/// afterwards, and every other id reads back what it read before. Viewer
/// sessions and builder sessions alike are removed this way.
pub proof fn law_finish_removes_unpublished(s: Seq<Entry>, k: Seq<char>)
    requires
        ids_distinct(s),
        lookup(s, k) matches Some(v) && !v.is_publishing,
    ensures
        finish(s, k).0,
        lookup(finish(s, k).1, k) is None,
        forall|k2: Seq<char>| k2 != k ==> #[trigger] lookup(finish(s, k).1, k2) == lookup(s, k2),
        finish(s, k).1.len() == s.len() - 1,
{
    law_remove_forgets(s, k);
    lemma_lookup_some(s, k);
    let i = choose|i: int| 0 <= i < s.len() && s[i].0 == k;
    lemma_count_one_id(s, k, i);
}

proof fn lemma_count_one_id(s: Seq<Entry>, k: Seq<char>, i: int)
    requires
        ids_distinct(s),
        0 <= i < s.len(),
        s[i].0 == k,
    ensures
        without(s, k).len() == s.len() - 1,
    decreases s.len(),
{
    let t = s.drop_last();
    let p = other_id(k);
    if i == s.len() - 1 {
        assert forall|j: int| 0 <= j < t.len() implies #[trigger] p(t[j]) by {
            assert(t[j] == s[j]);
            assert(s[j].0 != s[i].0);
        }
        lemma_keep_all(t, p);
    } else {
        assert(ids_distinct(t)) by {
            assert forall|a: int, b: int| 0 <= a < b < t.len() implies t[a].0 != t[b].0 by {
                assert(t[a] == s[a] && t[b] == s[b]);
            }
        }
        assert(t[i] == s[i]);
        assert(s.last().0 != k) by {
            assert(s[s.len() - 1].0 != s[i].0);
        }
        lemma_count_one_id(t, k, i);
    }
}

/// A session without an owner (a viewer of a published project) admits every
/// caller, signed in or not; a session with an owner admits exactly its
/// owner; an unknown session admits any signed-in caller and refuses a
/// caller who is not signed in with 401.
pub proof fn law_ws_access_rules(s: Seq<Entry>, k: Seq<char>, user: Option<i64>)
    ensures
        lookup(s, k) matches Some(v) && v.owner_id is None ==> ws_access_verdict(s, k, user) == Ok::<(), u16>(()),
        lookup(s, k) is Some && lookup(s, k).unwrap().owner_id is Some ==> (ws_access_verdict(s, k, user) is Ok
            <==> user == lookup(s, k).unwrap().owner_id),
        lookup(s, k) is Some && lookup(s, k).unwrap().owner_id is Some && user != lookup(s, k).unwrap().owner_id
            ==> ws_access_verdict(s, k, user) == Err::<(), u16>(403),
        lookup(s, k) is None ==> ws_access_verdict(s, k, user) == if user is Some { Ok::<(), u16>(()) } else { Err::<(), u16>(401) },
{
}

/// A session being published survives the end of its WebSocket unchanged.
pub proof fn law_publishing_session_survives(s: Seq<Entry>, k: Seq<char>)
    requires
        lookup(s, k) matches Some(v) && v.is_publishing,
    ensures
        finish(s, k) == (false, s),
{
}

/// Only the owner of a session can publish it.
pub proof fn law_publish_by_owner_only(s: Seq<Entry>, k: Seq<char>, user: i64)
    requires
        ids_distinct(s),
        publish_start(s, k, user).0 is Ok,
    ensures
        lookup(s, k) matches Some(v) && v.owner_id == Some(user),
        lookup(publish_start(s, k, user).1, k) matches Some(w) && w.is_publishing,
{
    let v = lookup(s, k).unwrap();
    law_read_after_write(s, k, publishing(v));
}

/// A session that belongs to a user is never opened to anybody else.
pub proof fn law_ws_owner_only(s: Seq<Entry>, k: Seq<char>, user: Option<i64>)
    requires
        lookup(s, k) matches Some(v) && v.owner_id is Some,
        ws_access_verdict(s, k, user) is Ok,
    ensures
        lookup(s, k).unwrap().owner_id == user,
{
}

/// An entry that satisfies the predicate is kept.
pub proof fn lemma_keep_keeps(s: Seq<Entry>, p: spec_fn(Entry) -> bool, i: int)
    requires
        0 <= i < s.len(),
        p(s[i]),
    ensures
        keep(s, p).contains(s[i]),
    decreases s.len(),
{
    let k = keep(s, p);
    if i == s.len() - 1 {
        assert(k[k.len() - 1] == s[i]);
    } else {
        let t = s.drop_last();
        assert(t[i] == s[i]);
        lemma_keep_keeps(t, p, i);
        let j = choose|j: int| 0 <= j < keep(t, p).len() && keep(t, p)[j] == s[i];
        assert(k[j] == s[i]);
    }
}

/// When a user has a single builder session, taking it leaves the user with none.
pub proof fn law_builder_dedup(s: Seq<Entry>, user: i64, i: int)
    requires
        ids_distinct(s),
        0 <= i < s.len(),
        is_builder_of(s[i], user),
        forall|j: int| 0 <= j < s.len() && j != i ==> !is_builder_of(#[trigger] s[j], user),
    ensures
        forall|m: int| 0 <= m < without(s, s[i].0).len() ==> !is_builder_of(#[trigger] without(s, s[i].0)[m], user),
{
    let p = other_id(s[i].0);
    lemma_keep_members(s, p);
    assert forall|m: int| 0 <= m < without(s, s[i].0).len() implies !is_builder_of(#[trigger] without(s, s[i].0)[m], user) by {
        let w = without(s, s[i].0);
        let j = choose|j: int| 0 <= j < s.len() && s[j] == keep(s, p)[m];
        assert(p(keep(s, p)[m]));
        assert(j != i);
    }
}

/// After the sweep of ghost sessions every session is still being set up or
/// is served by an existing container, and no session being set up is lost.
pub proof fn law_ghost_sweep(s: Seq<Entry>, existing: Seq<Seq<char>>)
    ensures
        forall|m: int| 0 <= m < after_drop(s, DropRuleView::Ghosts(existing)).len() ==> {
            let e = #[trigger] after_drop(s, DropRuleView::Ghosts(existing))[m];
            e.1.container_name == initializing() || existing.contains(e.1.container_name)
        },
        forall|i: int| 0 <= i < s.len() && s[i].1.container_name == initializing()
            ==> after_drop(s, DropRuleView::Ghosts(existing)).contains(#[trigger] s[i]),
{
    let p = |e: Entry| survives(DropRuleView::Ghosts(existing), e);
    lemma_keep_members(s, p);
    assert forall|i: int| 0 <= i < s.len() && s[i].1.container_name == initializing()
        implies after_drop(s, DropRuleView::Ghosts(existing)).contains(#[trigger] s[i]) by {
        lemma_keep_keeps(s, p, i);
    }
}

/// The entries of a vector of sessions, as values.
pub open spec fn entries_view(v: Seq<(String, SessionContext)>) -> Seq<Entry> {
    v.map_values(|e: (String, SessionContext)| (e.0@, e.1@))
}

/// The state of the table of sessions.
pub struct SessionTable {
    entries: Vec<(String, SessionContext)>,
}

impl View for SessionTable {
    type V = Seq<Entry>;

    closed spec fn view(&self) -> Seq<Entry> {
        entries_view(self.entries@)
    }
}

impl SessionTable {
    /// No two sessions share an id.
    #[verifier::type_invariant]
    closed spec fn well_formed(self) -> bool {
        ids_distinct(self@)
    }

    /// An empty table.
    pub fn new() -> (t: SessionTable)
        ensures
            t@ == Seq::<Entry>::empty(),
    {
        let t = SessionTable { entries: Vec::new() };
        assert(t@ =~= Seq::<Entry>::empty());
        t
    }

    /// The number of sessions.
    pub fn len(&self) -> (n: usize)
        ensures
            n == self@.len(),
    {
        self.entries.len()
    }

    /// The position of the session `id`, if present.
    fn position(&self, id: &str) -> (r: Option<usize>)
        ensures
            match r {
                Some(i) => i < self@.len() && self@[i as int].0 == id@,
                None => !has_id(self@, id@),
            },
    {
        let mut i: usize = 0;
        while i < self.entries.len()
            invariant
                i <= self.entries@.len(),
                forall|j: int| 0 <= j < i ==> self@[j].0 != id@,
            decreases self.entries.len() - i,
        {
            if crate::text::str_eq(self.entries[i].0.as_str(), id) {
                return Some(i);
            }
            i = i + 1;
        }
        None
    }

    /// Whether the session `id` is present.
    pub fn contains(&self, id: &str) -> (b: bool)
        ensures
            b == has_id(self@, id@),
            b == lookup(self@, id@) is Some,
    {
        proof {
            use_type_invariant(self);
        }
        match self.position(id) {
            Some(i) => {
                proof {
                    lemma_lookup_at(self@, id@, i as int);
                }
                true
            },
            None => {
                proof {
                    lemma_lookup_absent(self@, id@);
                }
                false
            },
        }
    }

    /// A copy of the state of session `id`, if present.
    pub fn get(&self, id: &str) -> (r: Option<SessionContext>)
        ensures
            match r {
                Some(c) => lookup(self@, id@) == Some(c@),
                None => lookup(self@, id@) is None,
            },
    {
        proof {
            use_type_invariant(self);
        }
        match self.position(id) {
            Some(i) => {
                proof {
                    lemma_lookup_at(self@, id@, i as int);
                }
                Some(self.entries[i].1.duplicate())
            },
            None => {
                proof {
                    lemma_lookup_absent(self@, id@);
                }
                None
            },
        }
    }


    /// Whether the entry at position `i` survives `rule`.
    fn survives_at(&self, i: usize, rule: &DropRule) -> (b: bool)
        requires
            i < self@.len(),
        ensures
            b == survives(rule@, self@[i as int]),
    {
        let e = &self.entries[i];
        match rule {
            DropRule::Id(k) => !str_eq(e.0.as_str(), k.as_str()),
            DropRule::Container(n) => !str_eq(e.1.container_name.as_str(), n.as_str()),
            DropRule::Ghosts(names) => {
                str_eq(e.1.container_name.as_str(), "INITIALIZING") || list_contains(
                    names,
                    e.1.container_name.as_str(),
                )
            },
        }
    }

    /// Removes the sessions that do not survive `rule`, keeping the order of the others.
    pub fn drop_where(&mut self, rule: &DropRule)
        ensures
            final(self)@ == after_drop(old(self)@, rule@),
    {
        proof {
            use_type_invariant(&*self);
        }
        let ghost s = self@;
        let ghost p = |e: Entry| survives(rule@, e);
        let mut kept: Vec<(String, SessionContext)> = Vec::new();
        let mut i: usize = 0;
        while i < self.entries.len()
            invariant
                s == self@,
                i <= s.len(),
                entries_view(kept@) == keep(s.take(i as int), p),
                p == (|e: Entry| survives(rule@, e)),
            decreases self.entries.len() - i,
        {
            let ghost before = entries_view(kept@);
            proof {
                lemma_keep_step(s, p, i as int);
            }
            let b = self.survives_at(i, rule);
            assert(p(s[i as int]) == b);
            if b {
                let id = self.entries[i].0.clone();
                let ctx = self.entries[i].1.duplicate();
                kept.push((id, ctx));
                assert(entries_view(kept@) =~= before.push(s[i as int]));
            }
            i = i + 1;
        }
        proof {
            assert(s.take(s.len() as int) =~= s);
            lemma_keep_distinct(s, p);
        }
        self.entries = kept;
    }

    /// Removes session `id` and gives back its state.
    pub fn remove(&mut self, id: &str) -> (r: Option<SessionContext>)
        ensures
            final(self)@ == without(old(self)@, id@),
            match r {
                Some(c) => lookup(old(self)@, id@) == Some(c@),
                None => lookup(old(self)@, id@) is None,
            },
    {
        let r = self.get(id);
        let rule = DropRule::Id(id.to_owned());
        self.drop_where(&rule);
        proof {
            assert((|e: Entry| survives(rule@, e)) =~= other_id(id@));
        }
        r
    }

    /// Removes every session served by container `name`.
    pub fn remove_container(&mut self, name: &str)
        ensures
            final(self)@ == keep(old(self)@, |e: Entry| e.1.container_name != name@),
    {
        let rule = DropRule::Container(name.to_owned());
        self.drop_where(&rule);
        proof {
            assert((|e: Entry| survives(rule@, e)) =~= (|e: Entry| e.1.container_name != name@));
        }
    }

    /// Removes the sessions whose container no longer exists, sparing those
    /// whose container is still being set up.
    pub fn remove_ghosts(&mut self, existing: Vec<String>)
        ensures
            final(self)@ == keep(
                old(self)@,
                |e: Entry|
                    e.1.container_name == initializing() || existing@.map_values(
                        |n: String| n@,
                    ).contains(e.1.container_name),
            ),
    {
        let rule = DropRule::Ghosts(existing);
        self.drop_where(&rule);
        proof {
            assert((|e: Entry| survives(rule@, e)) =~= (|e: Entry|
                e.1.container_name == initializing() || existing@.map_values(
                    |n: String| n@,
                ).contains(e.1.container_name)));
        }
    }

    /// Number of sessions showing a project of `owner`.
    pub fn count_viewers(&self, owner: i64) -> (n: usize)
        ensures
            n == viewer_count(self@, owner),
    {
        let ghost s = self@;
        let ghost p = |e: Entry| views_project_of(e, owner);
        let mut n: usize = 0;
        let mut i: usize = 0;
        while i < self.entries.len()
            invariant
                s == self@,
                i <= s.len(),
                n == keep(s.take(i as int), p).len(),
                p == (|e: Entry| views_project_of(e, owner)),
                n <= i,
            decreases self.entries.len() - i,
        {
            proof {
                lemma_keep_step(s, p, i as int);
            }
            let b = self.entries[i].1.project_owner_id == Some(owner);
            assert(p(s[i as int]) == b);
            if b {
                n = n + 1;
            }
            i = i + 1;
        }
        assert(s.take(s.len() as int) =~= s);
        n
    }

    /// The analytics lines for the live sessions of `owner`'s projects at time `now`.
    pub fn live_metrics(&self, owner: i64, now: u64) -> (r: Vec<LiveSessionMetric>)
        ensures
            r@.map_values(|m: LiveSessionMetric| m@) == live_metrics(self@, owner, now),
    {
        let ghost s = self@;
        let ghost p = |e: Entry| is_live_of(e, owner);
        let ghost f = |e: Entry| metric_of(e, now);
        let mut r: Vec<LiveSessionMetric> = Vec::new();
        let mut i: usize = 0;
        while i < self.entries.len()
            invariant
                s == self@,
                i <= s.len(),
                r@.map_values(|m: LiveSessionMetric| m@) == keep(s.take(i as int), p).map_values(f),
                p == (|e: Entry| is_live_of(e, owner)),
                f == (|e: Entry| metric_of(e, now)),
            decreases self.entries.len() - i,
        {
            proof {
                lemma_keep_step(s, p, i as int);
            }
            let ghost before = r@.map_values(|m: LiveSessionMetric| m@);
            let ctx = &self.entries[i].1;
            let b = ctx.project_owner_id == Some(owner) && ctx.project_slug.is_some();
            assert(p(s[i as int]) == b);
            if b {
                let slug = match &ctx.project_slug {
                    Some(x) => x.clone(),
                    None => String::new(),
                };
                let uptime = if now >= ctx.created_at {
                    (now - ctx.created_at) / 1_000_000_000
                } else {
                    0
                };
                let m = LiveSessionMetric { slug, uptime_seconds: uptime, container_name: ctx.container_name.clone() };
                assert(m@ == f(s[i as int]));
                r.push(m);
                proof {
                    let k = keep(s.take(i as int), p);
                    assert(k.push(s[i as int]).map_values(f) =~= k.map_values(f).push(f(s[i as int])));
                    assert(r@.map_values(|m: LiveSessionMetric| m@) =~= before.push(f(s[i as int])));
                }
            }
            i = i + 1;
        }
        assert(s.take(s.len() as int) =~= s);
        r
    }


    /// Records that a WebSocket attached to session `id`; answers whether one had attached before.
    pub fn mark_connected(&mut self, id: &str) -> (was: bool)
        ensures
            was == was_connected(old(self)@, id@),
            final(self)@ == after_connect(old(self)@, id@),
    {
        match self.get(id) {
            Some(mut ctx) => {
                let was = ctx.is_ws_connected;
                ctx.is_ws_connected = true;
                assert(ctx@ == connected(lookup(old(self)@, id@).unwrap()));
                self.insert(id.to_owned(), ctx);
                was
            },
            None => false,
        }
    }

    /// Starts publishing session `id` for `user`: the session must exist and
    /// belong to `user`; it is then marked as publishing so that closing its
    /// terminal keeps the container. Gives back the container name and shell.
    pub fn begin_publish(&mut self, id: &str, user: i64) -> (r: Result<(String, String), Rejection>)
        ensures
            (match r {
                Ok((c, sh)) => Ok((c@, sh@)),
                Err(e) => Err(e@),
            }) == publish_start(old(self)@, id@, user).0,
            final(self)@ == publish_start(old(self)@, id@, user).1,
    {
        match self.get(id) {
            Some(mut ctx) => {
                if ctx.owner_id != Some(user) {
                    return Err(reject(403, "You do not own this session"));
                }
                ctx.is_publishing = true;
                let name = ctx.container_name.clone();
                let shell = ctx.shell.clone();
                assert(ctx@ == publishing(lookup(old(self)@, id@).unwrap()));
                self.insert(id.to_owned(), ctx);
                Ok((name, shell))
            },
            None => Err(reject(400, "Session expired")),
        }
    }

    /// Whether `user` may attach a WebSocket to session `id`: `Ok`, or the
    /// refusing status (403 when the session belongs to someone else, 401 when
    /// an unknown session is asked for without signing in).
    pub fn ws_access(&self, id: &str, user: Option<i64>) -> (r: Result<(), u16>)
        ensures
            r == ws_access_verdict(self@, id@, user),
    {
        match self.get(id) {
            Some(ctx) => match ctx.owner_id {
                Some(o) => if Some(o) != user {
                    Err(403)
                } else {
                    Ok(())
                },
                None => Ok(()),
            },
            None => if user.is_none() {
                Err(401)
            } else {
                Ok(())
            },
        }
    }

    /// The image and shell of a viewer session whose container is still to be
    /// started: one with an empty container name and a pending image.
    pub fn pending_spawn(&self, id: &str) -> (r: Option<(String, String)>)
        ensures
            match r {
                Some((img, sh)) => lookup(self@, id@) matches Some(v) && v.container_name.len() == 0
                    && v.pending_image_tag == Some(img@) && v.shell == sh@,
                None => !(lookup(self@, id@) matches Some(v) && v.container_name.len() == 0
                    && v.pending_image_tag is Some),
            },
    {
        match self.get(id) {
            Some(ctx) => {
                if ctx.container_name.as_str().is_empty() {
                    match ctx.pending_image_tag {
                        Some(img) => Some((img, ctx.shell)),
                        None => None,
                    }
                } else {
                    None
                }
            },
            None => None,
        }
    }

    /// Records that the viewer container `name` now serves session `id`.
    pub fn start_viewer(&mut self, id: &str, name: String)
        ensures
            final(self)@ == match lookup(old(self)@, id@) {
                Some(v) => put(
                    old(self)@,
                    id@,
                    SessionView { container_name: name@, pending_image_tag: None, ..v },
                ),
                None => old(self)@,
            },
    {
        match self.get(id) {
            Some(mut ctx) => {
                ctx.container_name = name;
                ctx.pending_image_tag = None;
                self.insert(id.to_owned(), ctx);
            },
            None => {},
        }
    }

    /// Records the container and shell of a builder session once its container
    /// runs; answers whether the session is still there.
    pub fn set_container_and_shell(&mut self, id: &str, name: String, shell: String) -> (present: bool)
        ensures
            present == has_id(old(self)@, id@),
            final(self)@ == match lookup(old(self)@, id@) {
                Some(v) => put(old(self)@, id@, SessionView { container_name: name@, shell: shell@, ..v }),
                None => old(self)@,
            },
    {
        proof {
            use_type_invariant(&*self);
        }
        match self.get(id) {
            Some(mut ctx) => {
                proof {
                    lemma_lookup_some(self@, id@);
                }
                ctx.container_name = name;
                ctx.shell = shell;
                self.insert(id.to_owned(), ctx);
                true
            },
            None => {
                proof {
                    if has_id(self@, id@) {
                        let i = choose|i: int| 0 <= i < self@.len() && self@[i].0 == id@;
                        lemma_lookup_at(self@, id@, i);
                    }
                }
                false
            },
        }
    }

    /// Claims session `id` for a new builder of `user` unless it already
    /// exists; answers whether it was claimed.
    pub fn claim_for_setup(&mut self, id: &str, user: Option<i64>, now: u64) -> (claimed: bool)
        ensures
            claimed == !has_id(old(self)@, id@),
            final(self)@ == if claimed {
                old(self)@.push((id@, builder_placeholder(user, now)))
            } else {
                old(self)@
            },
    {
        if self.contains(id) {
            false
        } else {
            let ctx = SessionContext::builder_placeholder(user, now);
            self.insert(id.to_owned(), ctx);
            true
        }
    }

    /// Ends the WebSocket of session `id`. A session that is being published is
    /// kept so the publish can finish; any other is removed. Gives back the
    /// state the session had and whether it was removed.
    pub fn finish_session(&mut self, id: &str) -> (r: (Option<SessionContext>, bool))
        ensures
            match r.0 {
                Some(c) => lookup(old(self)@, id@) == Some(c@),
                None => lookup(old(self)@, id@) is None,
            },
            r.1 == finish(old(self)@, id@).0,
            final(self)@ == finish(old(self)@, id@).1,
    {
        let snapshot = self.get(id);
        match &snapshot {
            Some(ctx) => {
                if ctx.is_publishing {
                    (snapshot, false)
                } else {
                    self.remove(id);
                    (snapshot, true)
                }
            },
            None => (snapshot, false),
        }
    }

    /// Removes one unpublished builder session of `user` (the earliest one),
    /// giving back its id and container name.
    pub fn take_builder_session(&mut self, user: i64) -> (r: Option<(String, String)>)
        ensures
            match r {
                Some((id, name)) => exists|i: int|
                    0 <= i < old(self)@.len() && is_builder_of(old(self)@[i], user) && (forall|j: int|
                        0 <= j < i ==> !is_builder_of(#[trigger] old(self)@[j], user))
                        && old(self)@[i].0 == id@ && old(self)@[i].1.container_name == name@
                        && final(self)@ == without(old(self)@, id@),
                None => (forall|i: int| 0 <= i < old(self)@.len() ==> !is_builder_of(#[trigger] old(self)@[i], user))
                    && final(self)@ == old(self)@,
            },
    {
        let ghost s = self@;
        let mut i: usize = 0;
        while i < self.entries.len()
            invariant
                s == self@,
                s == old(self)@,
                i <= s.len(),
                forall|j: int| 0 <= j < i ==> !is_builder_of(#[trigger] s[j], user),
            decreases self.entries.len() - i,
        {
            let ctx = &self.entries[i].1;
            if ctx.owner_id == Some(user) && ctx.project_slug.is_none() {
                let id = self.entries[i].0.clone();
                let name = ctx.container_name.clone();
                assert(is_builder_of(s[i as int], user));
                self.remove(id.as_str());
                assert(0 <= i < s.len() && is_builder_of(s[i as int], user) && (forall|j: int|
                    0 <= j < i ==> !is_builder_of(#[trigger] s[j], user)) && s[i as int].0 == id@
                    && s[i as int].1.container_name == name@ && self@ == without(s, id@));
                return Some((id, name));
            }
            i = i + 1;
        }
        None
    }

    /// The sessions never attached to and older than 45 seconds at time `now`:
    /// their ids and container names.
    pub fn abandoned_sessions(&self, now: u64) -> (r: Vec<(String, String)>)
        ensures
            r@.map_values(|p: (String, String)| (p.0@, p.1@)) == abandoned_entries(self@, now).map_values(
                |e: Entry| (e.0, e.1.container_name),
            ),
    {
        let ghost s = self@;
        let ghost p = |e: Entry| is_abandoned(e, now);
        let ghost f = |e: Entry| (e.0, e.1.container_name);
        let mut r: Vec<(String, String)> = Vec::new();
        let mut i: usize = 0;
        while i < self.entries.len()
            invariant
                s == self@,
                i <= s.len(),
                p == (|e: Entry| is_abandoned(e, now)),
                f == (|e: Entry| (e.0, e.1.container_name)),
                r@.map_values(|p: (String, String)| (p.0@, p.1@)) == keep(s.take(i as int), p).map_values(f),
            decreases self.entries.len() - i,
        {
            proof {
                lemma_keep_step(s, p, i as int);
            }
            let ghost before = r@.map_values(|p: (String, String)| (p.0@, p.1@));
            let ctx = &self.entries[i].1;
            let age = if now >= ctx.created_at {
                (now - ctx.created_at) / 1_000_000_000
            } else {
                0
            };
            let b = !ctx.is_ws_connected && age > 45;
            assert(p(s[i as int]) == b);
            if b {
                let item = (self.entries[i].0.clone(), ctx.container_name.clone());
                r.push(item);
                proof {
                    let k = keep(s.take(i as int), p);
                    assert(k.push(s[i as int]).map_values(f) =~= k.map_values(f).push(f(s[i as int])));
                    assert(r@.map_values(|p: (String, String)| (p.0@, p.1@)) =~= before.push(f(s[i as int])));
                }
            }
            i = i + 1;
        }
        assert(s.take(s.len() as int) =~= s);
        r
    }

    /// The container names of all sessions, in order.
    pub fn container_names(&self) -> (r: Vec<String>)
        ensures
            r@.map_values(|n: String| n@) == self@.map_values(|e: Entry| e.1.container_name),
    {
        let ghost s = self@;
        let mut r: Vec<String> = Vec::new();
        let mut i: usize = 0;
        while i < self.entries.len()
            invariant
                s == self@,
                i <= s.len(),
                r@.map_values(|n: String| n@) == s.take(i as int).map_values(|e: Entry| e.1.container_name),
            decreases self.entries.len() - i,
        {
            let ghost before = r@.map_values(|n: String| n@);
            r.push(self.entries[i].1.container_name.clone());
            proof {
                assert(s.take(i + 1) =~= s.take(i as int).push(s[i as int]));
                assert(s.take(i as int).push(s[i as int]).map_values(|e: Entry| e.1.container_name)
                    =~= s.take(i as int).map_values(|e: Entry| e.1.container_name).push(s[i as int].1.container_name));
                assert(r@.map_values(|n: String| n@) =~= before.push(s[i as int].1.container_name));
            }
            i = i + 1;
        }
        assert(s.take(s.len() as int) =~= s);
        r
    }

    /// The session served by container `name` (the last one, when several are).
    pub fn session_for_container(&self, name: &str) -> (r: Option<(String, SessionContext)>)
        ensures
            match r {
                Some((id, c)) => last_with_container(self@, name@) == Some((id@, c@)),
                None => last_with_container(self@, name@) is None,
            },
    {
        let ghost s = self@;
        let mut found: Option<(String, SessionContext)> = None;
        let mut i: usize = 0;
        while i < self.entries.len()
            invariant
                s == self@,
                i <= s.len(),
                match found {
                    Some((id, c)) => last_with_container(s.take(i as int), name@) == Some((id@, c@)),
                    None => last_with_container(s.take(i as int), name@) is None,
                },
            decreases self.entries.len() - i,
        {
            assert(s.take(i + 1).drop_last() =~= s.take(i as int));
            assert(s.take(i + 1).last() == s[i as int]);
            if str_eq(self.entries[i].1.container_name.as_str(), name) {
                found = Some((self.entries[i].0.clone(), self.entries[i].1.duplicate()));
            }
            i = i + 1;
        }
        assert(s.take(s.len() as int) =~= s);
        found
    }

    /// Stores `ctx` under `id`, replacing any earlier state of that session.
    pub fn insert(&mut self, id: String, ctx: SessionContext)
        ensures
            final(self)@ == put(old(self)@, id@, ctx@),
    {
        proof {
            use_type_invariant(&*self);
        }
        let ghost s = self@;
        let ghost k = id@;
        let ghost v = ctx@;
        match self.position(id.as_str()) {
            Some(i) => {
                let mut entries = Vec::new();
                std::mem::swap(&mut entries, &mut self.entries);
                entries.set(i, (id, ctx));
                proof {
                    let n = entries_view(entries@);
                    assert forall|j: int| 0 <= j < s.len() implies n[j] == (if s[j].0 == k { (k, v) } else { s[j] }) by {
                        if j != i {
                            assert(s[j].0 != s[i as int].0);
                        }
                    }
                    assert(n =~= s.map_values(|e: Entry| if e.0 == k { (k, v) } else { e }));
                    assert(has_id(s, k));
                    assert forall|a: int, b: int| 0 <= a < b < n.len() implies n[a].0 != n[b].0 by {
                        assert(s[a].0 != s[b].0);
                    }
                }
                self.entries = entries;
            },
            None => {
                let mut entries = Vec::new();
                std::mem::swap(&mut entries, &mut self.entries);
                entries.push((id, ctx));
                proof {
                    let n = entries_view(entries@);
                    assert(n =~= s.push((k, v)));
                    assert forall|a: int, b: int| 0 <= a < b < n.len() implies n[a].0 != n[b].0 by {
                        if b == n.len() - 1 {
                            assert(s[a].0 != k);
                        }
                    }
                }
                self.entries = entries;
            },
        }
    }
}

} // verus!
