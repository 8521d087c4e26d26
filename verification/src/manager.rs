//! The tunnel manager: the configuration the user edits and the set of
//! running tunnels, each with the handle that stops it.
//!
//! The handle type `H` is whatever the caller uses to signal a running
//! tunnel's task; the manager only stores and returns it.
use vstd::prelude::*;
use crate::config::{AppConfig, TunnelConfig};
use crate::text::{owned, str_eq};

verus! {

// ---------------------------------------------------------------------------
// The model
// ---------------------------------------------------------------------------

/// The position of the first tunnel with id `id`, or -1.
pub open spec fn tunnel_position(ts: Seq<TunnelConfig>, id: Seq<char>) -> int
    decreases ts.len(),
{
    if ts.len() == 0 {
        -1
    } else {
        let p = tunnel_position(ts.drop_last(), id);
        if p >= 0 {
            p
        } else if ts.last().id@ == id {
            ts.len() - 1
        } else {
            -1
        }
    }
}

/// The tunnels after `t` is saved: it replaces the first tunnel with its
/// id, or is added at the end.
pub open spec fn saved(ts: Seq<TunnelConfig>, t: TunnelConfig) -> Seq<TunnelConfig> {
    let p = tunnel_position(ts, t.id@);
    if p >= 0 {
        ts.update(p, t)
    } else {
        ts.push(t)
    }
}

/// The tunnels whose id is not `id`, in order.
pub open spec fn without_tunnel(ts: Seq<TunnelConfig>, id: Seq<char>) -> Seq<TunnelConfig>
    decreases ts.len(),
{
    if ts.len() == 0 {
        ts
    } else if ts.last().id@ == id {
        without_tunnel(ts.drop_last(), id)
    } else {
        without_tunnel(ts.drop_last(), id).push(ts.last())
    }
}

/// The position of the running tunnel `id`, or -1.
pub open spec fn active_position<H>(a: Seq<(String, H)>, id: Seq<char>) -> int
    decreases a.len(),
{
    if a.len() == 0 {
        -1
    } else {
        let p = active_position(a.drop_last(), id);
        if p >= 0 {
            p
        } else if a.last().0@ == id {
            a.len() - 1
        } else {
            -1
        }
    }
}

/// The ids of the running tunnels, in the order they were started.
pub open spec fn active_ids<H>(a: Seq<(String, H)>) -> Seq<Seq<char>> {
    a.map_values(|p: (String, H)| p.0@)
}

/// No tunnel is recorded as running twice.
pub open spec fn distinct_active<H>(a: Seq<(String, H)>) -> bool {
    forall|i: int, j: int|
        0 <= i < a.len() && 0 <= j < a.len() && i != j ==> #[trigger] a[i].0@ != #[trigger] a[j].0@
}

/// [`tunnel_position`] finds the first tunnel with the id, or gives -1 when
/// there is none.
pub proof fn lemma_tunnel_position(ts: Seq<TunnelConfig>, id: Seq<char>)
    ensures
        -1 <= tunnel_position(ts, id) < ts.len(),
        tunnel_position(ts, id) >= 0 ==> ts[tunnel_position(ts, id)].id@ == id,
        tunnel_position(ts, id) >= 0 ==> forall|k: int|
            0 <= k < tunnel_position(ts, id) ==> ts[k].id@ != id,
        tunnel_position(ts, id) == -1 <==> forall|k: int| 0 <= k < ts.len() ==> ts[k].id@ != id,
    decreases ts.len(),
{
    if ts.len() > 0 {
        lemma_tunnel_position(ts.drop_last(), id);
        assert forall|k: int| 0 <= k < ts.len() - 1 implies ts.drop_last()[k] == ts[k] by {}
    }
}

/// [`active_position`] finds the running tunnel, or gives -1 when it is
/// not running.
pub proof fn lemma_active_position<H>(a: Seq<(String, H)>, id: Seq<char>)
    ensures
        -1 <= active_position(a, id) < a.len(),
        active_position(a, id) >= 0 ==> a[active_position(a, id)].0@ == id,
        active_position(a, id) >= 0 ==> forall|k: int|
            0 <= k < active_position(a, id) ==> a[k].0@ != id,
        active_position(a, id) == -1 <==> forall|k: int| 0 <= k < a.len() ==> a[k].0@ != id,
    decreases a.len(),
{
    if a.len() > 0 {
        lemma_active_position(a.drop_last(), id);
        assert forall|k: int| 0 <= k < a.len() - 1 implies a.drop_last()[k] == a[k] by {}
    }
}

/// What [`without_tunnel`] keeps: exactly the tunnels with another id.
pub proof fn lemma_without_tunnel(ts: Seq<TunnelConfig>, id: Seq<char>)
    ensures
        forall|k: int|
            0 <= k < without_tunnel(ts, id).len() ==> #[trigger] without_tunnel(ts, id)[k].id@ != id,
        forall|t: TunnelConfig| #[trigger]
            without_tunnel(ts, id).contains(t) <==> ts.contains(t) && t.id@ != id,
        without_tunnel(ts, id).len() <= ts.len(),
    decreases ts.len(),
{
    if ts.len() > 0 {
        let rest = ts.drop_last();
        lemma_without_tunnel(rest, id);
        let w = without_tunnel(ts, id);
        let wr = without_tunnel(rest, id);
        assert forall|t: TunnelConfig| w.contains(t) <==> ts.contains(t) && t.id@ != id by {
            if ts.contains(t) && t.id@ != id {
                let k = choose|k: int| 0 <= k < ts.len() && ts[k] == t;
                if k < ts.len() - 1 {
                    assert(rest[k] == t);
                    assert(wr.contains(t));
                    let j = choose|j: int| 0 <= j < wr.len() && wr[j] == t;
                    if ts.last().id@ == id {
                        assert(w[j] == t);
                    } else {
                        assert(w[j] == t);
                    }
                } else {
                    assert(w[w.len() - 1] == t);
                }
            }
            if w.contains(t) {
                let j = choose|j: int| 0 <= j < w.len() && w[j] == t;
                if j < wr.len() {
                    assert(wr[j] == t);
                    assert(wr.contains(t));
                    let k = choose|k: int| 0 <= k < rest.len() && rest[k] == t;
                    assert(ts[k] == t);
                } else {
                    assert(t == ts.last());
                    assert(ts[ts.len() - 1] == t);
                }
            }
        }
    }
}

/// Read after write: once `t` is saved, the first tunnel with its id is
/// `t`.
pub proof fn lemma_save_then_find(ts: Seq<TunnelConfig>, t: TunnelConfig)
    ensures
        tunnel_position(saved(ts, t), t.id@) >= 0,
        saved(ts, t)[tunnel_position(saved(ts, t), t.id@)] == t,
{
    let id = t.id@;
    lemma_tunnel_position(ts, id);
    let u = saved(ts, t);
    lemma_tunnel_position(u, id);
    let p = tunnel_position(ts, id);
    if p >= 0 {
        assert forall|k: int| 0 <= k < p implies u[k].id@ != id by {
            assert(u[k] == ts[k]);
        }
        if tunnel_position(u, id) == -1 {
            assert(u[p].id@ != id);
        }
        assert(tunnel_position(u, id) == p);
    } else {
        assert forall|k: int| 0 <= k < ts.len() implies u[k].id@ != id by {
            assert(u[k] == ts[k]);
        }
        if tunnel_position(u, id) == -1 {
            assert(u[ts.len() as int].id@ != id);
        }
        assert(tunnel_position(u, id) == ts.len());
    }
}

/// Saving a tunnel leaves every other position as it was and adds at most
/// one tunnel.
pub proof fn lemma_save_keeps_others(ts: Seq<TunnelConfig>, t: TunnelConfig)
    ensures
        saved(ts, t).len() == ts.len() || saved(ts, t).len() == ts.len() + 1,
        forall|k: int|
            0 <= k < ts.len() && ts[k].id@ != t.id@ ==> #[trigger] saved(ts, t)[k] == ts[k],
{
    lemma_tunnel_position(ts, t.id@);
}

/// Deleting the tunnels with an id after saving one with that id leaves
/// the same tunnels as deleting them at once: a delete undoes a save.
pub proof fn lemma_delete_undoes_save(ts: Seq<TunnelConfig>, t: TunnelConfig)
    ensures
        without_tunnel(saved(ts, t), t.id@) == without_tunnel(ts, t.id@),
{
    lemma_tunnel_position(ts, t.id@);
    let p = tunnel_position(ts, t.id@);
    if p >= 0 {
        lemma_without_update(ts, p, t);
    } else {
        assert(saved(ts, t).drop_last() =~= ts);
    }
}

/// Replacing a tunnel by another with the same id does not change what a
/// delete of that id leaves.
proof fn lemma_without_update(ts: Seq<TunnelConfig>, p: int, t: TunnelConfig)
    requires
        0 <= p < ts.len(),
        ts[p].id@ == t.id@,
    ensures
        without_tunnel(ts.update(p, t), t.id@) == without_tunnel(ts, t.id@),
    decreases ts.len(),
{
    let u = ts.update(p, t);
    if p == ts.len() - 1 {
        assert(u.drop_last() =~= ts.drop_last());
    } else {
        assert(u.drop_last() =~= ts.drop_last().update(p, t));
        lemma_without_update(ts.drop_last(), p, t);
    }
}

/// Deleting twice is deleting once.
pub proof fn lemma_delete_idempotent(ts: Seq<TunnelConfig>, id: Seq<char>)
    ensures
        without_tunnel(without_tunnel(ts, id), id) == without_tunnel(ts, id),
    decreases ts.len(),
{
    if ts.len() > 0 {
        lemma_delete_idempotent(ts.drop_last(), id);
        let w = without_tunnel(ts.drop_last(), id);
        if ts.last().id@ != id {
            assert(w.push(ts.last()).drop_last() =~= w);
        }
    }
}

/// Starting a tunnel that is not running and then stopping it hands back
/// its handle and leaves the running tunnels as they were.
pub proof fn lemma_stop_undoes_start<H>(a: Seq<(String, H)>, id: String, h: H)
    requires
        active_position(a, id@) < 0,
    ensures
        active_position(a.push((id, h)), id@) == a.len(),
        a.push((id, h))[active_position(a.push((id, h)), id@)].1 == h,
        a.push((id, h)).remove(active_position(a.push((id, h)), id@)) == a,
{
    assert(a.push((id, h)).drop_last() =~= a);
    assert(a.push((id, h)).remove(a.len() as int) =~= a);
}

// ---------------------------------------------------------------------------
// The manager
// ---------------------------------------------------------------------------

/// Why a request to the manager was refused.
#[derive(Debug, Clone, Copy, PartialEq, Eq, Structural)]
pub enum ManagerError {
    /// The tunnel to start is running already.
    AlreadyRunning,
    /// No tunnel has the id asked for.
    ConfigNotFound,
    /// The tunnel to stop is not running.
    NotRunning,
}

impl ManagerError {
    /// The message shown to the user.
    pub open spec fn spec_message(self) -> Seq<char> {
        match self {
            ManagerError::AlreadyRunning => "Tunnel is already running"@,
            ManagerError::ConfigNotFound => "Tunnel config not found"@,
            ManagerError::NotRunning => "Tunnel is not running"@,
        }
    }

    /// The message shown to the user.
    pub fn message(&self) -> (r: String)
        ensures
            r@ == self.spec_message(),
    {
        match self {
            ManagerError::AlreadyRunning => owned("Tunnel is already running"),
            ManagerError::ConfigNotFound => owned("Tunnel config not found"),
            ManagerError::NotRunning => owned("Tunnel is not running"),
        }
    }
}

/// The configuration and the running tunnels with their stop handles.
pub struct TunnelManagerState<H> {
    pub config: AppConfig,
    pub active_tunnels: Vec<(String, H)>,
}

/// The tunnel manager.
pub struct TunnelManager<H>(pub TunnelManagerState<H>);

/// What a tunnel needs to start: its configuration and the relay's address
/// and token.
pub struct TunnelLaunch {
    pub config: TunnelConfig,
    pub worker_url: String,
    pub auth_token: String,
    /// The configured log limit.
    pub max_logs: u32,
}

impl<H> TunnelManager<H> {
    /// The manager's invariant: no tunnel is recorded as running twice.
    pub open spec fn wf(&self) -> bool {
        distinct_active(self.0.active_tunnels@)
    }

    /// The configured tunnels.
    pub open spec fn tunnels(&self) -> Seq<TunnelConfig> {
        self.0.config.tunnels@
    }

    /// The running tunnels with their handles.
    pub open spec fn active(&self) -> Seq<(String, H)> {
        self.0.active_tunnels@
    }

    /// A manager for `config` with no tunnel running.
    pub fn new(config: AppConfig) -> (r: Self)
        ensures
            r.0.config == config,
            r.active().len() == 0,
            r.wf(),
    {
        TunnelManager(TunnelManagerState { config, active_tunnels: Vec::new() })
    }

    /// Forgets every running tunnel and hands back their handles, in the
    /// order they were started, so that each can be told to stop.
    pub fn stop_all(&mut self) -> (r: Vec<H>)
        ensures
            r@ == old(self).active().map_values(|p: (String, H)| p.1),
            final(self).active().len() == 0,
            final(self).0.config == old(self).0.config,
            final(self).wf(),
    {
        let mut handles: Vec<H> = Vec::new();
        let ghost a = self.0.active_tunnels@;
        let mut drained: Vec<(String, H)> = Vec::new();
        std::mem::swap(&mut drained, &mut self.0.active_tunnels);
        let mut rest: Vec<(String, H)> = Vec::new();
        // Take the entries from the back, then hand them out front first.
        while drained.len() > 0
            invariant
                drained@ + rest@.reverse() == a,
            decreases drained.len(),
        {
            let ghost before = drained@;
            let e = drained.pop().unwrap();
            rest.push(e);
            assert(drained@ + rest@.reverse() =~= a) by {
                assert(before == drained@.push(e));
                assert(rest@.reverse() =~= seq![e] + rest@.drop_last().reverse());
            }
        }
        assert(rest@.reverse() =~= a);
        while rest.len() > 0
            invariant
                handles@ + rest@.reverse().map_values(|p: (String, H)| p.1) == a.map_values(
                    |p: (String, H)| p.1,
                ),
            decreases rest.len(),
        {
            let ghost before = rest@;
            let (_, h) = rest.pop().unwrap();
            handles.push(h);
            assert(handles@ + rest@.reverse().map_values(|p: (String, H)| p.1) =~= a.map_values(
                |p: (String, H)| p.1,
            )) by {
                assert(before.reverse() =~= seq![before.last()] + rest@.reverse());
            }
        }
        handles
    }
}

/// A copy of the whole configuration (the `get_config` command).
pub fn get_config<H>(m: &TunnelManager<H>) -> (r: AppConfig)
    ensures
        r.worker_url == m.0.config.worker_url,
        r.auth_token == m.0.config.auth_token,
        r.tunnels@ == m.tunnels(),
        r.max_logs == m.0.config.max_logs,
{
    m.0.config.clone()
}

/// Sets the relay's address and token (the `update_settings` command).
pub fn update_settings<H>(m: &mut TunnelManager<H>, worker_url: String, auth_token: String)
    ensures
        final(m).0.config.worker_url == worker_url,
        final(m).0.config.auth_token == auth_token,
        final(m).0.config.max_logs == old(m).0.config.max_logs,
        final(m).tunnels() == old(m).tunnels(),
        final(m).active() == old(m).active(),
{
    m.0.config.worker_url = worker_url;
    m.0.config.auth_token = auth_token;
}

/// The position of the first tunnel with id `id`, if any.
fn find_tunnel(ts: &Vec<TunnelConfig>, id: &str) -> (r: Option<usize>)
    ensures
        r.is_some() == (tunnel_position(ts@, id@) >= 0),
        r matches Some(p) ==> p == tunnel_position(ts@, id@) && p < ts.len(),
{
    let mut i: usize = 0;
    while i < ts.len()
        invariant
            i <= ts.len(),
            forall|k: int| 0 <= k < i ==> ts@[k].id@ != id@,
        decreases ts.len() - i,
    {
        if str_eq(ts[i].id.as_str(), id) {
            proof {
                lemma_tunnel_position(ts@, id@);
                if tunnel_position(ts@, id@) != i {
                    assert(ts@[i as int].id@ == id@);
                }
            }
            return Some(i);
        }
        i = i + 1;
    }
    proof {
        lemma_tunnel_position(ts@, id@);
    }
    None
}

/// The position of the running tunnel `id`, if it runs.
fn find_active<H>(a: &Vec<(String, H)>, id: &str) -> (r: Option<usize>)
    ensures
        r.is_some() == (active_position(a@, id@) >= 0),
        r matches Some(p) ==> p == active_position(a@, id@) && p < a.len(),
{
    let mut i: usize = 0;
    while i < a.len()
        invariant
            i <= a.len(),
            forall|k: int| 0 <= k < i ==> a@[k].0@ != id@,
        decreases a.len() - i,
    {
        if str_eq(a[i].0.as_str(), id) {
            proof {
                lemma_active_position(a@, id@);
                if active_position(a@, id@) != i {
                    assert(a@[i as int].0@ == id@);
                }
            }
            return Some(i);
        }
        i = i + 1;
    }
    proof {
        lemma_active_position(a@, id@);
    }
    None
}

/// Saves `tunnel` in a list of tunnels: it replaces the first tunnel with
/// the same id, or is added at the end.
pub fn upsert_tunnel(ts: &mut Vec<TunnelConfig>, tunnel: TunnelConfig)
    ensures
        final(ts)@ == saved(old(ts)@, tunnel),
{
    match find_tunnel(ts, tunnel.id.as_str()) {
        Some(pos) => {
            ts.set(pos, tunnel);
        },
        None => {
            ts.push(tunnel);
        },
    }
}

/// Removes every tunnel with id `id` from a list of tunnels, keeping the
/// others in order.
pub fn remove_tunnel(ts: &mut Vec<TunnelConfig>, id: &str)
    ensures
        final(ts)@ == without_tunnel(old(ts)@, id@),
{
    let ghost all = ts@;
    let mut kept: Vec<TunnelConfig> = Vec::new();
    let mut i: usize = 0;
    while i < ts.len()
        invariant
            all == ts@,
            i <= all.len(),
            kept@ == without_tunnel(all.take(i as int), id@),
        decreases all.len() - i,
    {
        assert(all.take(i + 1).drop_last() =~= all.take(i as int));
        if !str_eq(ts[i].id.as_str(), id) {
            kept.push(ts[i].clone());
        }
        i = i + 1;
    }
    assert(all.take(all.len() as int) =~= all);
    *ts = kept;
}

/// Saves `tunnel`: it replaces the first tunnel with the same id, or is
/// added at the end (the `save_tunnel` command).
pub fn save_tunnel<H>(m: &mut TunnelManager<H>, tunnel: TunnelConfig)
    ensures
        final(m).tunnels() == saved(old(m).tunnels(), tunnel),
        final(m).active() == old(m).active(),
        final(m).0.config.worker_url == old(m).0.config.worker_url,
        final(m).0.config.auth_token == old(m).0.config.auth_token,
{
    upsert_tunnel(&mut m.0.config.tunnels, tunnel);
}

/// Removes the running tunnel `id`, if it runs, and hands back its handle.
fn take_active<H>(a: &mut Vec<(String, H)>, id: &str) -> (r: Option<H>)
    ensures
        r.is_some() == (active_position(old(a)@, id@) >= 0),
        r matches Some(h) ==> h == old(a)@[active_position(old(a)@, id@)].1 && final(a)@ == old(
            a,
        )@.remove(active_position(old(a)@, id@)),
        r.is_none() ==> final(a)@ == old(a)@,
        distinct_active(old(a)@) ==> distinct_active(final(a)@),
        distinct_active(old(a)@) ==> forall|k: int|
            0 <= k < final(a)@.len() ==> #[trigger] final(a)@[k].0@ != id@,
{
    proof {
        lemma_active_position(a@, id@);
    }
    match find_active(a, id) {
        Some(pos) => {
            let ghost before = a@;
            let (_, h) = a.remove(pos);
            proof {
                let after = a@;
                if distinct_active(before) {
                    assert forall|x: int, y: int|
                        0 <= x < after.len() && 0 <= y < after.len() && x != y implies #[trigger] after[x].0@
                            != #[trigger] after[y].0@ by {
                        let x0 = if x < pos { x } else { x + 1 };
                        let y0 = if y < pos { y } else { y + 1 };
                        assert(after[x] == before[x0]);
                        assert(after[y] == before[y0]);
                    }
                    assert forall|k: int| 0 <= k < after.len() implies #[trigger] after[k].0@ != id@ by {
                        let k0 = if k < pos { k } else { k + 1 };
                        assert(after[k] == before[k0]);
                        assert(k0 != pos);
                    }
                }
            }
            Some(h)
        },
        None => None,
    }
}

/// Deletes tunnel `id`: it stops being recorded as running (its handle is
/// handed back, so that it can be told to stop) and every tunnel with that
/// id leaves the configuration (the `delete_tunnel` command).
pub fn delete_tunnel<H>(m: &mut TunnelManager<H>, id: &str) -> (r: Option<H>)
    ensures
        old(m).wf() ==> final(m).wf(),
        final(m).tunnels() == without_tunnel(old(m).tunnels(), id@),
        r.is_some() == (active_position(old(m).active(), id@) >= 0),
        r matches Some(h) ==> h == old(m).active()[active_position(old(m).active(), id@)].1
            && final(m).active() == old(m).active().remove(active_position(old(m).active(), id@)),
        r.is_none() ==> final(m).active() == old(m).active(),
        old(m).wf() ==> forall|k: int|
            0 <= k < final(m).active().len() ==> #[trigger] final(m).active()[k].0@ != id@,
        final(m).0.config.worker_url == old(m).0.config.worker_url,
        final(m).0.config.auth_token == old(m).0.config.auth_token,
{
    let handle = take_active(&mut m.0.active_tunnels, id);
    remove_tunnel(&mut m.0.config.tunnels, id);
    handle
}

/// Prepares to start tunnel `id`: refused when it runs already, or when no
/// tunnel has that id; otherwise what the tunnel needs to start, from the
/// first tunnel with that id (the `start_tunnel` command, which records the
/// tunnel as running with [`mark_started`] once its task is launched).
pub fn start_tunnel<H>(m: &TunnelManager<H>, id: &str) -> (r: Result<TunnelLaunch, ManagerError>)
    ensures
        active_position(m.active(), id@) >= 0 ==> r == Err::<TunnelLaunch, ManagerError>(
            ManagerError::AlreadyRunning,
        ),
        active_position(m.active(), id@) < 0 && tunnel_position(m.tunnels(), id@) < 0 ==> r
            == Err::<TunnelLaunch, ManagerError>(ManagerError::ConfigNotFound),
        r.is_ok() == (active_position(m.active(), id@) < 0 && tunnel_position(m.tunnels(), id@)
            >= 0),
        r matches Ok(launch) ==> launch.config == m.tunnels()[tunnel_position(m.tunnels(), id@)]
            && launch.worker_url == m.0.config.worker_url && launch.auth_token
            == m.0.config.auth_token && launch.max_logs == m.0.config.max_logs,
{
    if find_active(&m.0.active_tunnels, id).is_some() {
        return Err(ManagerError::AlreadyRunning);
    }
    match find_tunnel(&m.0.config.tunnels, id) {
        Some(pos) => Ok(
            TunnelLaunch {
                config: m.0.config.tunnels[pos].clone(),
                worker_url: m.0.config.worker_url.clone(),
                auth_token: m.0.config.auth_token.clone(),
                max_logs: m.0.config.max_logs,
            },
        ),
        None => Err(ManagerError::ConfigNotFound),
    }
}

/// Records tunnel `id` as running with `handle`. A tunnel recorded already
/// has its handle replaced, and the old one is handed back.
pub fn mark_started<H>(m: &mut TunnelManager<H>, id: String, handle: H) -> (r: Option<H>)
    ensures
        old(m).wf() ==> final(m).wf(),
        final(m).0.config == old(m).0.config,
        active_position(old(m).active(), id@) < 0 ==> r.is_none() && final(m).active() == old(
            m,
        ).active().push((id, handle)),
        active_position(old(m).active(), id@) >= 0 ==> r == Some(
            old(m).active()[active_position(old(m).active(), id@)].1,
        ) && final(m).active() == old(m).active().update(
            active_position(old(m).active(), id@),
            (id, handle),
        ),
{
    proof {
        lemma_active_position(m.0.active_tunnels@, id@);
    }
    let ghost before = m.0.active_tunnels@;
    match find_active(&m.0.active_tunnels, id.as_str()) {
        Some(pos) => {
            let (_, old_handle) = m.0.active_tunnels.remove(pos);
            m.0.active_tunnels.insert(pos, (id, handle));
            proof {
                let after = m.0.active_tunnels@;
                assert(after =~= before.update(pos as int, after[pos as int]));
                if distinct_active(before) {
                    assert forall|x: int, y: int|
                        0 <= x < after.len() && 0 <= y < after.len() && x != y implies #[trigger] after[x].0@
                            != #[trigger] after[y].0@ by {
                        if x != pos && y != pos {
                            assert(before[x].0@ != before[y].0@);
                        } else if x == pos {
                            assert(before[y].0@ != before[pos as int].0@);
                        } else {
                            assert(before[x].0@ != before[pos as int].0@);
                        }
                    }
                }
            }
            Some(old_handle)
        },
        None => {
            m.0.active_tunnels.push((id, handle));
            proof {
                let after = m.0.active_tunnels@;
                if distinct_active(before) {
                    assert forall|x: int, y: int|
                        0 <= x < after.len() && 0 <= y < after.len() && x != y implies #[trigger] after[x].0@
                            != #[trigger] after[y].0@ by {
                        if x < before.len() && y < before.len() {
                            assert(before[x].0@ != before[y].0@);
                        }
                    }
                }
            }
            None
        },
    }
}

/// Stops tunnel `id`: refused when it is not running; otherwise it stops
/// being recorded as running and its handle is handed back (the
/// `stop_tunnel` command).
pub fn stop_tunnel<H>(m: &mut TunnelManager<H>, id: &str) -> (r: Result<H, ManagerError>)
    ensures
        old(m).wf() ==> final(m).wf(),
        final(m).0.config == old(m).0.config,
        r.is_ok() == (active_position(old(m).active(), id@) >= 0),
        r matches Ok(h) ==> h == old(m).active()[active_position(old(m).active(), id@)].1
            && final(m).active() == old(m).active().remove(active_position(old(m).active(), id@)),
        r matches Err(e) ==> e == ManagerError::NotRunning && final(m).active() == old(m).active(),
{
    match take_active(&mut m.0.active_tunnels, id) {
        Some(h) => Ok(h),
        None => Err(ManagerError::NotRunning),
    }
}

/// The ids of the running tunnels, in the order they were started (the
/// `get_active_tunnels` command).
pub fn get_active_tunnels<H>(m: &TunnelManager<H>) -> (r: Vec<String>)
    ensures
        r@.map_values(|s: String| s@) == active_ids(m.active()),
{
    let mut r: Vec<String> = Vec::new();
    let mut i: usize = 0;
    while i < m.0.active_tunnels.len()
        invariant
            i <= m.active().len(),
            r@.map_values(|s: String| s@) == active_ids(m.active().take(i as int)),
        decreases m.active().len() - i,
    {
        let ghost prev = r@;
        let id = m.0.active_tunnels[i].0.clone();
        r.push(id);
        assert(m.active().take(i + 1) =~= m.active().take(i as int).push(m.active()[i as int]));
        assert(r@ =~= prev.push(id));
        assert(r@.map_values(|s: String| s@) =~= prev.map_values(|s: String| s@).push(id@));
        assert(r@.map_values(|s: String| s@) =~= active_ids(m.active().take(i + 1)));
        i = i + 1;
    }
    assert(m.active().take(m.active().len() as int) =~= m.active());
    r
}

} // verus!
