//! The periodic clean-up of containers and sessions, and the records kept
//! when a session ends.
use vstd::prelude::*;
use crate::text::{Strip, strip_start, trim_start_slashes};
use crate::session::{SessionContext, SessionView, list_contains, elapsed_secs};

verus! {

/// Seconds a container unknown to the session table may live before it is removed.
pub const ZOMBIE_GRACE_SECS: i64 = 30;

/// Seconds a session may wait for its WebSocket before it is abandoned.
pub const ABANDON_AFTER_SECS: u64 = 45;

/// Bytes of network traffic after which a container is stopped as abusive (1 GiB).
pub const NETWORK_LIMIT_BYTES: u64 = 1073741824;

/// A Docker container name without its leading slashes.
pub open spec fn bare_name(n: Seq<char>) -> Seq<char> {
    strip_start(n, Strip::Slash)
}

/// The names of the containers Docker reports, without leading slashes, in order.
pub open spec fn bare_names(names: Seq<Seq<Seq<char>>>) -> Seq<Seq<char>>
    decreases names.len(),
{
    if names.len() == 0 {
        Seq::empty()
    } else {
        bare_names(names.drop_last()) + names.last().map_values(|n: Seq<char>| bare_name(n))
    }
}

/// The bare names of every container Docker reports, in order.
pub fn existing_container_names(containers: &Vec<Vec<String>>) -> (r: Vec<String>)
    ensures
        r@.map_values(|s: String| s@) == bare_names(
            containers@.map_values(|v: Vec<String>| v@.map_values(|s: String| s@)),
        ),
{
    let ghost all = containers@.map_values(|v: Vec<String>| v@.map_values(|s: String| s@));
    let mut r: Vec<String> = Vec::new();
    let mut i: usize = 0;
    while i < containers.len()
        invariant
            all == containers@.map_values(|v: Vec<String>| v@.map_values(|s: String| s@)),
            i <= containers@.len(),
            r@.map_values(|s: String| s@) == bare_names(all.take(i as int)),
        decreases containers.len() - i,
    {
        let names = &containers[i];
        let ghost before = r@.map_values(|s: String| s@);
        let ghost cur = all[i as int];
        assert(cur == names@.map_values(|s: String| s@));
        let mut k: usize = 0;
        while k < names.len()
            invariant
                cur == names@.map_values(|s: String| s@),
                k <= names@.len(),
                r@.map_values(|s: String| s@) == before + cur.take(k as int).map_values(|n: Seq<char>| bare_name(n)),
            decreases names.len() - k,
        {
            let bare = trim_start_slashes(names[k].as_str());
            let ghost prev = r@.map_values(|s: String| s@);
            let owned = bare.to_owned();
            assert(owned@ == bare_name(cur[k as int]));
            r.push(owned);
            assert(r@.map_values(|s: String| s@) =~= prev.push(owned@));
            assert(cur.take(k + 1) =~= cur.take(k as int).push(cur[k as int]));
            assert(cur.take(k + 1).map_values(|n: Seq<char>| bare_name(n)) =~= cur.take(k as int).map_values(|n: Seq<char>| bare_name(n)).push(bare_name(cur[k as int])));
            assert(r@.map_values(|s: String| s@) =~= before + cur.take(k + 1).map_values(|n: Seq<char>| bare_name(n)));
            k = k + 1;
        }
        assert(cur.take(names@.len() as int) =~= cur);
        assert(all.take(i + 1).drop_last() =~= all.take(i as int));
        assert(all.take(i + 1).last() == cur);
        i = i + 1;
    }
    assert(all.take(containers@.len() as int) =~= all);
    r
}

/// Whether any of a container's names, without leading slashes, belongs to a live session.
pub open spec fn known_container(names: Seq<Seq<char>>, session_names: Seq<Seq<char>>) -> bool {
    exists|i: int| 0 <= i < names.len() && session_names.contains(bare_name(#[trigger] names[i]))
}

/// Decides whether a container serves a live session (see `known_container`).
pub fn is_known_container(names: &Vec<String>, session_names: &Vec<String>) -> (b: bool)
    ensures
        b == known_container(
            names@.map_values(|s: String| s@),
            session_names@.map_values(|s: String| s@),
        ),
{
    let ghost ns = names@.map_values(|s: String| s@);
    let ghost vs = session_names@.map_values(|s: String| s@);
    let mut i: usize = 0;
    while i < names.len()
        invariant
            ns == names@.map_values(|s: String| s@),
            vs == session_names@.map_values(|s: String| s@),
            i <= names@.len(),
            forall|j: int| 0 <= j < i ==> !vs.contains(bare_name(#[trigger] ns[j])),
        decreases names.len() - i,
    {
        let bare = trim_start_slashes(names[i].as_str());
        if list_contains(session_names, bare) {
            assert(vs.contains(bare_name(ns[i as int])));
            return true;
        }
        i = i + 1;
    }
    false
}

/// The name by which a container is matched to its session: its first
/// name without leading slashes, or the empty name.
pub fn primary_name(names: &Vec<String>) -> (r: String)
    ensures
        r@ == if names@.len() > 0 { bare_name(names@[0]@) } else { Seq::empty() },
{
    if names.len() > 0 {
        trim_start_slashes(names[0].as_str()).to_owned()
    } else {
        String::new()
    }
}

/// Whether a container unknown to the session table is old enough to be
/// removed: created more than 30 seconds before `now` (both in Unix seconds).
pub fn zombie_expired(created: i64, now: i64) -> (b: bool)
    requires
        i64::MIN <= now - created <= i64::MAX,
    ensures
        b == (now - created > 30),
{
    now - created > ZOMBIE_GRACE_SECS
}

/// A container as Docker lists it to the reaper: its id, its names and its
/// creation time in seconds since the epoch.
#[derive(Debug)]
pub struct ListedContainer {
    pub id: Option<String>,
    pub names: Vec<String>,
    pub created: i64,
}

/// The value of a `ListedContainer`.
pub struct ListedView {
    pub id: Option<Seq<char>>,
    pub names: Seq<Seq<char>>,
    pub created: i64,
}

impl View for ListedContainer {
    type V = ListedView;

    open spec fn view(&self) -> ListedView {
        ListedView {
            id: crate::rejection::opt_text(self.id),
            names: self.names@.map_values(|n: String| n@),
            created: self.created,
        }
    }
}

/// Whether the reaper removes a listed container: no session knows it, it is
/// older than the grace period, and Docker gave it an id.
pub open spec fn zombie_at(c: ListedView, session_names: Seq<Seq<char>>, now: i64) -> bool {
    !known_container(c.names, session_names) && now - c.created > ZOMBIE_GRACE_SECS && c.id is Some
}

/// The ids of the listed containers that the reaper removes, in listing order.
pub open spec fn zombie_ids(cs: Seq<ListedView>, session_names: Seq<Seq<char>>, now: i64) -> Seq<Seq<char>>
    decreases cs.len(),
{
    if cs.len() == 0 {
        Seq::empty()
    } else {
        zombie_ids(cs.drop_last(), session_names, now) + if zombie_at(cs.last(), session_names, now) {
            seq![cs.last().id.unwrap()]
        } else {
            Seq::empty()
        }
    }
}

/// The views of listed containers.
pub open spec fn listed_views(v: Seq<ListedContainer>) -> Seq<ListedView> {
    v.map_values(|c: ListedContainer| c@)
}

/// The ids of the containers to remove in one reaper pass (see `zombie_ids`).
pub fn zombie_containers(listed: &Vec<ListedContainer>, session_names: &Vec<String>, now: i64) -> (r: Vec<String>)
    requires
        forall|i: int|
            0 <= i < listed@.len() && !known_container(#[trigger] listed@[i]@.names, session_names@.map_values(|n: String| n@))
                ==> i64::MIN <= now - listed@[i].created <= i64::MAX,
    ensures
        r@.map_values(|s: String| s@) == zombie_ids(
            listed_views(listed@),
            session_names@.map_values(|n: String| n@),
            now,
        ),
{
    let ghost cs = listed_views(listed@);
    let ghost sn = session_names@.map_values(|n: String| n@);
    let mut r: Vec<String> = Vec::new();
    let mut i: usize = 0;
    while i < listed.len()
        invariant
            cs == listed_views(listed@),
            sn == session_names@.map_values(|n: String| n@),
            i <= listed@.len(),
            r@.map_values(|s: String| s@) == zombie_ids(cs.take(i as int), sn, now),
            forall|j: int|
                0 <= j < listed@.len() && !known_container(#[trigger] listed@[j]@.names, sn)
                    ==> i64::MIN <= now - listed@[j].created <= i64::MAX,
        decreases listed.len() - i,
    {
        let c = &listed[i];
        let ghost before = r@.map_values(|s: String| s@);
        assert(cs.take(i + 1).drop_last() =~= cs.take(i as int));
        assert(cs.take(i + 1).last() == c@);
        let known = is_known_container(&c.names, session_names);
        assert(listed@[i as int]@.names == c.names@.map_values(|n: String| n@));
        if !known && zombie_expired(c.created, now) {
            match &c.id {
                Some(id) => {
                    r.push(id.clone());
                    assert(r@.map_values(|s: String| s@) =~= before.push(id@));
                },
                None => {},
            }
        }
        assert(r@.map_values(|s: String| s@) =~= zombie_ids(cs.take(i + 1), sn, now));
        i = i + 1;
    }
    assert(cs.take(listed@.len() as int) =~= cs);
    r
}

proof fn lemma_zombie_ids_members(cs: Seq<ListedView>, sn: Seq<Seq<char>>, now: i64)
    ensures
        forall|i: int| 0 <= i < cs.len() && zombie_at(#[trigger] cs[i], sn, now)
            ==> zombie_ids(cs, sn, now).contains(cs[i].id.unwrap()),
    decreases cs.len(),
{
    if cs.len() > 0 {
        let t = cs.drop_last();
        lemma_zombie_ids_members(t, sn, now);
        let z = zombie_ids(cs, sn, now);
        let zt = zombie_ids(t, sn, now);
        assert forall|i: int| 0 <= i < cs.len() && zombie_at(#[trigger] cs[i], sn, now) implies z.contains(cs[i].id.unwrap()) by {
            if i == cs.len() - 1 {
                assert(z[z.len() - 1] == cs[i].id.unwrap());
            } else {
                assert(t[i] == cs[i]);
                assert(zt.contains(t[i].id.unwrap()));
                let k = choose|k: int| 0 <= k < zt.len() && zt[k] == t[i].id.unwrap();
                assert(z[k] == zt[k]);
            }
        }
    }
}

proof fn lemma_zombie_id_source(cs: Seq<ListedView>, sn: Seq<Seq<char>>, now: i64, j: int) -> (i: int)
    requires
        0 <= j < zombie_ids(cs, sn, now).len(),
    ensures
        0 <= i < cs.len(),
        zombie_at(cs[i], sn, now),
        cs[i].id == Some(zombie_ids(cs, sn, now)[j]),
    decreases cs.len(),
{
    let t = cs.drop_last();
    let zt = zombie_ids(t, sn, now);
    if j < zt.len() {
        let i = lemma_zombie_id_source(t, sn, now, j);
        assert(cs[i] == t[i]);
        i
    } else {
        cs.len() - 1
    }
}

/// Whether some listed container with id `id` is one the reaper removes.
pub open spec fn zombie_with_id(listed: Seq<ListedView>, session_names: Seq<Seq<char>>, now: i64, id: Seq<char>) -> bool {
    exists|i: int| 0 <= i < listed.len() && zombie_at(#[trigger] listed[i], session_names, now) && listed[i].id == Some(id)
}

/// The names Docker lists, without their leading slashes.
pub open spec fn listed_names(listed: Seq<ListedView>) -> Seq<Seq<char>> {
    bare_names(listed.map_values(|c: ListedView| c.names))
}

/// The session table after the ghost sweep of a reaper pass.
pub open spec fn swept_table(s: Seq<crate::session::Entry>, listed: Seq<ListedView>) -> Seq<crate::session::Entry> {
    crate::session::after_drop(s, crate::session::DropRuleView::Ghosts(listed_names(listed)))
}

/// The container names of the sessions left after the ghost sweep.
pub open spec fn swept_names(s: Seq<crate::session::Entry>, listed: Seq<ListedView>) -> Seq<Seq<char>> {
    swept_table(s, listed).map_values(|e: crate::session::Entry| e.1.container_name)
}

/// One reaper pass over the session table `s` and the containers Docker
/// lists: after the ghost sweep every remaining session is being set up or is
/// served by a listed container, no session being set up is lost, and the
/// containers removed are exactly the listed ones that no remaining session
/// knows and that are older than the grace period.
pub proof fn law_reaper_pass(s: Seq<crate::session::Entry>, listed: Seq<ListedView>, now: i64)
    ensures
        forall|m: int| 0 <= m < swept_table(s, listed).len() ==> (#[trigger] swept_table(s, listed)[m]).1.container_name
            == crate::session::initializing() || listed_names(listed).contains(swept_table(s, listed)[m].1.container_name),
        forall|i: int| 0 <= i < s.len() && (#[trigger] s[i]).1.container_name == crate::session::initializing()
            ==> swept_table(s, listed).contains(s[i]),
        forall|i: int| 0 <= i < listed.len() && zombie_at(#[trigger] listed[i], swept_names(s, listed), now)
            ==> zombie_ids(listed, swept_names(s, listed), now).contains(listed[i].id.unwrap()),
        forall|j: int| 0 <= j < zombie_ids(listed, swept_names(s, listed), now).len() ==> zombie_with_id(
            listed,
            swept_names(s, listed),
            now,
            #[trigger] zombie_ids(listed, swept_names(s, listed), now)[j],
        ),
{
    crate::session::law_ghost_sweep(s, listed_names(listed));
    lemma_zombie_ids_members(listed, swept_names(s, listed), now);
    assert forall|j: int| 0 <= j < zombie_ids(listed, swept_names(s, listed), now).len() implies zombie_with_id(
        listed,
        swept_names(s, listed),
        now,
        #[trigger] zombie_ids(listed, swept_names(s, listed), now)[j],
    ) by {
        let i = lemma_zombie_id_source(listed, swept_names(s, listed), now, j);
        assert(zombie_at(listed[i], swept_names(s, listed), now));
    }
}

/// Total bytes received and sent over a container's networks.
pub open spec fn traffic_total(traffic: Seq<(u64, u64)>) -> int
    decreases traffic.len(),
{
    if traffic.len() == 0 {
        0
    } else {
        traffic_total(traffic.drop_last()) + traffic.last().0 + traffic.last().1
    }
}

proof fn lemma_traffic_prefix(traffic: Seq<(u64, u64)>, k: int)
    requires
        0 <= k <= traffic.len(),
    ensures
        traffic_total(traffic.take(k)) <= traffic_total(traffic),
    decreases traffic.len() - k,
{
    if k < traffic.len() {
        assert(traffic.drop_last().take(k) =~= traffic.take(k));
        lemma_traffic_prefix(traffic.drop_last(), k);
    } else {
        assert(traffic.take(k) =~= traffic);
    }
}

/// Whether a container has moved more than 1 GiB over its networks.
pub fn network_abuse(traffic: &Vec<(u64, u64)>) -> (b: bool)
    requires
        traffic_total(traffic@) <= u64::MAX,
    ensures
        b == (traffic_total(traffic@) > NETWORK_LIMIT_BYTES),
{
    let mut total: u64 = 0;
    let mut i: usize = 0;
    while i < traffic.len()
        invariant
            i <= traffic@.len(),
            total == traffic_total(traffic@.take(i as int)),
            traffic_total(traffic@) <= u64::MAX,
        decreases traffic.len() - i,
    {
        proof {
            assert(traffic@.take(i + 1).drop_last() =~= traffic@.take(i as int));
            lemma_traffic_prefix(traffic@, i + 1);
        }
        let (rx, tx) = traffic[i];
        total = total + rx + tx;
        i = i + 1;
    }
    assert(traffic@.take(traffic@.len() as int) =~= traffic@);
    total > NETWORK_LIMIT_BYTES
}

/// The published project a session shows: its owner and slug.
pub open spec fn shown_project(v: SessionView) -> Option<(i64, Seq<char>)> {
    match (v.project_owner_id, v.project_slug) {
        (Some(o), Some(s)) => Some((o, s)),
        _ => None,
    }
}

/// The published project a session shows, if any.
pub fn project_of(ctx: &SessionContext) -> (r: Option<(i64, String)>)
    ensures
        match r {
            Some((o, s)) => shown_project(ctx@) == Some((o, s@)),
            None => shown_project(ctx@) is None,
        },
{
    match (ctx.project_owner_id, &ctx.project_slug) {
        (Some(o), Some(s)) => Some((o, s.clone())),
        _ => None,
    }
}

/// Whole seconds a session has lived at `now`.
pub fn session_duration(ctx: &SessionContext, now: u64) -> (d: i64)
    ensures
        d == elapsed_secs(ctx@.created_at, now),
{
    let secs = if now >= ctx.created_at {
        (now - ctx.created_at) / 1_000_000_000
    } else {
        0
    };
    assert(secs <= 18446744073);
    secs as i64
}

/// The analytics record of a session that ends: viewer sessions that were
/// attached are recorded with their project and length in seconds.
pub fn session_end_record(ctx: &SessionContext, now: u64) -> (r: Option<(i64, String, i64)>)
    ensures
        match r {
            Some((o, s, d)) => ctx@.is_ws_connected && shown_project(ctx@) == Some((o, s@))
                && d == elapsed_secs(ctx@.created_at, now),
            None => !ctx@.is_ws_connected || shown_project(ctx@) is None,
        },
{
    if !ctx.is_ws_connected {
        return None;
    }
    match project_of(ctx) {
        Some((o, s)) => Some((o, s, session_duration(ctx, now))),
        None => None,
    }
}

} // verus!
