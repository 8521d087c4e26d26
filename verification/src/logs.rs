//! The request log: one entry per relayed request, kept in arrival order,
//! updated in place when the request completes, and bounded in length by
//! dropping the oldest entries.
use vstd::prelude::*;
use crate::category::{categorize_request, request_category, Headers};
use crate::config::copy_opt_string;

verus! {

/// A request as the relay forwards it.
#[derive(Debug)]
pub struct TunnelRequest {
    pub id: String,
    pub method: String,
    pub path: String,
    pub headers: Headers,
    /// The body, base64-encoded.
    pub body: Option<String>,
}

/// The answer sent back to the relay for one request.
#[derive(Debug)]
pub struct TunnelResponse {
    /// Always "response".
    pub msg_type: String,
    pub id: String,
    pub status: u16,
    pub headers: Headers,
    /// The body, base64-encoded.
    pub body: Option<String>,
}

impl Clone for TunnelResponse {
    fn clone(&self) -> (r: Self)
        ensures
            r.msg_type == self.msg_type,
            r.id == self.id,
            r.status == self.status,
            r.headers@ == self.headers@,
            r.body == self.body,
    {
        TunnelResponse {
            msg_type: self.msg_type.clone(),
            id: self.id.clone(),
            status: self.status,
            headers: copy_headers(&self.headers),
            body: copy_opt_string(&self.body),
        }
    }
}

/// One line of the request log.
#[derive(Debug)]
pub struct RequestLogEntry {
    pub tunnel_id: String,
    pub request_id: String,
    pub method: String,
    pub path: String,
    /// 0 while the request is pending.
    pub status: u16,
    pub duration_ms: u64,
    pub timestamp: u64,
    pub category: String,
}

impl Clone for RequestLogEntry {
    fn clone(&self) -> (r: Self)
        ensures
            r == *self,
    {
        RequestLogEntry {
            tunnel_id: self.tunnel_id.clone(),
            request_id: self.request_id.clone(),
            method: self.method.clone(),
            path: self.path.clone(),
            status: self.status,
            duration_ms: self.duration_ms,
            timestamp: self.timestamp,
            category: self.category.clone(),
        }
    }
}

/// A copy of a header list.
pub fn copy_headers(h: &Headers) -> (r: Headers)
    ensures
        r@ == h@,
{
    let mut r: Headers = Vec::new();
    let mut i: usize = 0;
    while i < h.len()
        invariant
            i <= h.len(),
            r@ == h@.take(i as int),
        decreases h.len() - i,
    {
        let (k, v) = &h[i];
        r.push((k.clone(), v.clone()));
        assert(r@ =~= h@.take(i + 1));
        i = i + 1;
    }
    assert(h@.take(h.len() as int) =~= h@);
    r
}

impl Clone for TunnelRequest {
    fn clone(&self) -> (r: Self)
        ensures
            r.id == self.id,
            r.method == self.method,
            r.path == self.path,
            r.headers@ == self.headers@,
            r.body == self.body,
    {
        TunnelRequest {
            id: self.id.clone(),
            method: self.method.clone(),
            path: self.path.clone(),
            headers: copy_headers(&self.headers),
            body: copy_opt_string(&self.body),
        }
    }
}

/// The log entry for a request of tunnel `tunnel_id` with the given status,
/// duration and time stamp, and the category its method, path and headers
/// give.
pub fn build_log_entry(
    tunnel_id: &str,
    req: &TunnelRequest,
    status: u16,
    duration_ms: u64,
    timestamp: u64,
) -> (r: RequestLogEntry)
    ensures
        r.tunnel_id@ == tunnel_id@,
        r.request_id == req.id,
        r.method == req.method,
        r.path == req.path,
        r.status == status,
        r.duration_ms == duration_ms,
        r.timestamp == timestamp,
        r.category@ == request_category(req.method@, req.path@, req.headers@),
{
    RequestLogEntry {
        tunnel_id: tunnel_id.to_owned(),
        request_id: req.id.clone(),
        method: req.method.clone(),
        path: req.path.clone(),
        status,
        duration_ms,
        timestamp,
        category: categorize_request(req.method.as_str(), req.path.as_str(), &req.headers),
    }
}

// ---------------------------------------------------------------------------
// The log store
// ---------------------------------------------------------------------------

/// The position of the first entry for request `id`, or -1.
pub open spec fn position_of(log: Seq<RequestLogEntry>, id: Seq<char>) -> int
    decreases log.len(),
{
    if log.len() == 0 {
        -1
    } else {
        let p = position_of(log.drop_last(), id);
        if p >= 0 {
            p
        } else if log.last().request_id@ == id {
            log.len() - 1
        } else {
            -1
        }
    }
}

/// No two entries belong to the same request.
pub open spec fn distinct_requests(log: Seq<RequestLogEntry>) -> bool {
    forall|i: int, j: int|
        0 <= i < log.len() && 0 <= j < log.len() && i != j ==> #[trigger] log[i].request_id@
            != #[trigger] log[j].request_id@
}

/// The last `max` entries of `log` (all of it when it is no longer).
pub open spec fn newest(log: Seq<RequestLogEntry>, max: nat) -> Seq<RequestLogEntry> {
    if log.len() > max {
        log.skip(log.len() - max)
    } else {
        log
    }
}

/// The log after `e` is recorded with a limit of `max` entries: an entry for
/// the same request is replaced where it stands; a new request is appended
/// and the oldest entries beyond `max` are dropped.
pub open spec fn upserted(log: Seq<RequestLogEntry>, e: RequestLogEntry, max: nat) -> Seq<
    RequestLogEntry,
> {
    let p = position_of(log, e.request_id@);
    if p >= 0 {
        log.update(p, e)
    } else {
        newest(log.push(e), max)
    }
}

/// The position that [`position_of`] gives is that of the first entry for
/// the request, or -1 when no entry is for it.
pub proof fn lemma_position_of(log: Seq<RequestLogEntry>, id: Seq<char>)
    ensures
        -1 <= position_of(log, id) < log.len(),
        position_of(log, id) >= 0 ==> log[position_of(log, id)].request_id@ == id,
        position_of(log, id) >= 0 ==> forall|k: int|
            0 <= k < position_of(log, id) ==> log[k].request_id@ != id,
        position_of(log, id) == -1 <==> forall|k: int|
            0 <= k < log.len() ==> log[k].request_id@ != id,
    decreases log.len(),
{
    if log.len() > 0 {
        lemma_position_of(log.drop_last(), id);
        assert forall|k: int| 0 <= k < log.len() - 1 implies log.drop_last()[k] == log[k] by {}
    }
}

/// Read after write: once `e` is recorded with a limit of at least one
/// entry, the log's entry for `e`'s request is `e`.
pub proof fn lemma_upsert_then_find(log: Seq<RequestLogEntry>, e: RequestLogEntry, max: nat)
    requires
        max >= 1,
    ensures
        position_of(upserted(log, e, max), e.request_id@) >= 0,
        upserted(log, e, max)[position_of(upserted(log, e, max), e.request_id@)] == e,
{
    let id = e.request_id@;
    lemma_position_of(log, id);
    let p = position_of(log, id);
    let u = upserted(log, e, max);
    lemma_position_of(u, id);
    if p >= 0 {
        assert(u[p] == e);
        assert forall|k: int| 0 <= k < p implies u[k].request_id@ != id by {
            assert(u[k] == log[k]);
        }
        if position_of(u, id) == -1 {
            assert(u[p].request_id@ != id);
        }
        assert(position_of(u, id) == p);
    } else {
        let l = log.push(e);
        assert(u.last() == e);
        assert forall|k: int| 0 <= k < u.len() - 1 implies u[k].request_id@ != id by {
            if l.len() > max {
                assert(u[k] == l[k + (l.len() - max)]);
            } else {
                assert(u[k] == l[k]);
            }
        }
        if position_of(u, id) == -1 {
            assert(u[u.len() - 1].request_id@ != id);
        }
        assert(position_of(u, id) == u.len() - 1);
    }
}

/// A log that is within its limit stays within it when a request is
/// recorded; recording a request already logged keeps the length.
pub proof fn lemma_upsert_bounded(log: Seq<RequestLogEntry>, e: RequestLogEntry, max: nat)
    ensures
        log.len() <= max ==> upserted(log, e, max).len() <= max,
        upserted(log, e, max).len() <= if log.len() >= max { log.len() } else { max },
        position_of(log, e.request_id@) >= 0 ==> upserted(log, e, max).len() == log.len(),
        position_of(log, e.request_id@) < 0 && log.len() < max ==> upserted(log, e, max).len()
            == log.len() + 1,
{
    lemma_position_of(log, e.request_id@);
}

/// Recording `e` adds no entry but `e`: every other entry of the new log
/// was in the old one, and the entries that stay keep their order.
pub proof fn lemma_upsert_only_adds_e(log: Seq<RequestLogEntry>, e: RequestLogEntry, max: nat)
    ensures
        forall|x: RequestLogEntry| #[trigger] upserted(log, e, max).contains(x) ==> x == e || log.contains(x),
        position_of(log, e.request_id@) < 0 ==> upserted(log, e, max) == newest(log.push(e), max),
{
    lemma_position_of(log, e.request_id@);
    let p = position_of(log, e.request_id@);
    let u = upserted(log, e, max);
    assert forall|x: RequestLogEntry| u.contains(x) implies x == e || log.contains(x) by {
        let k = choose|k: int| 0 <= k < u.len() && u[k] == x;
        if p >= 0 {
            if k != p {
                assert(log[k] == x);
            }
        } else {
            let l = log.push(e);
            let j = if l.len() > max { k + (l.len() - max) } else { k };
            assert(u[k] == l[j]);
            if j < log.len() {
                assert(log[j] == x);
            }
        }
    }
}

/// Drops the oldest lines of `log` beyond the newest `max` (how the
/// interface bounds the lines it has been sent).
pub fn keep_newest(log: &mut Vec<RequestLogEntry>, max: usize)
    ensures
        final(log)@ == newest(old(log)@, max as nat),
{
    if log.len() > max {
        let excess = log.len() - max;
        let mut kept: Vec<RequestLogEntry> = Vec::new();
        let mut i: usize = excess;
        while i < log.len()
            invariant
                excess <= i <= log.len(),
                excess == log@.len() - max,
                kept@ == log@.subrange(excess as int, i as int),
            decreases log.len() - i,
        {
            kept.push(log[i].clone());
            assert(kept@ =~= log@.subrange(excess as int, i + 1));
            i = i + 1;
        }
        assert(kept@ =~= log@.skip(excess as int));
        *log = kept;
    }
}

/// A store of log entries, oldest first, with at most one entry per request.
pub struct RequestLogStore {
    entries: Vec<RequestLogEntry>,
}

impl View for RequestLogStore {
    type V = Seq<RequestLogEntry>;

    closed spec fn view(&self) -> Seq<RequestLogEntry> {
        self.entries@
    }
}

impl RequestLogStore {
    /// The store's invariant: at most one entry per request.
    pub open spec fn wf(&self) -> bool {
        distinct_requests(self@)
    }

    /// An empty log.
    pub fn new() -> (r: Self)
        ensures
            r@ == Seq::<RequestLogEntry>::empty(),
            r.wf(),
    {
        RequestLogStore { entries: Vec::new() }
    }

    /// Records `entry`: replaces the entry of the same request where it
    /// stands, or appends it and drops the oldest entries beyond `max_logs`.
    pub fn upsert(&mut self, entry: RequestLogEntry, max_logs: usize)
        ensures
            final(self)@ == upserted(old(self)@, entry, max_logs as nat),
            old(self).wf() ==> final(self).wf(),
    {
        let mut i: usize = 0;
        let n = self.entries.len();
        let mut found = false;
        assert(self.entries@.take(0) =~= Seq::<RequestLogEntry>::empty());
        while i < n
            invariant_except_break
                !found,
            invariant
                n == self.entries.len(),
                i <= n,
                position_of(self.entries@.take(i as int), entry.request_id@) == -1,
            ensures
                found ==> i < n && self.entries@[i as int].request_id@ == entry.request_id@
                    && position_of(self.entries@.take(i as int), entry.request_id@) == -1,
                !found ==> i == n && position_of(self.entries@.take(i as int), entry.request_id@)
                    == -1,
            decreases n - i,
        {
            if self.entries[i].request_id == entry.request_id {
                found = true;
                break;
            }
            assert(self.entries@.take(i + 1).drop_last() =~= self.entries@.take(i as int));
            i = i + 1;
        }
        let ghost old_log = self.entries@;
        if found {
            proof {
                lemma_position_of(old_log.take(i as int), entry.request_id@);
                lemma_position_of(old_log, entry.request_id@);
                let p = position_of(old_log, entry.request_id@);
                assert forall|k: int| 0 <= k < i implies old_log[k].request_id@ != entry.request_id@ by {
                    assert(old_log.take(i as int)[k] == old_log[k]);
                }
                assert(p == i);
            }
            self.entries.set(i, entry);
            proof {
                if distinct_requests(old_log) {
                assert forall|a: int, b: int|
                    0 <= a < self.entries@.len() && 0 <= b < self.entries@.len() && a != b
                        implies #[trigger] self.entries@[a].request_id@
                        != #[trigger] self.entries@[b].request_id@ by {
                    if a != i && b != i {
                        assert(old_log[a].request_id@ != old_log[b].request_id@);
                    } else if a == i {
                        assert(old_log[b].request_id@ != old_log[i as int].request_id@);
                    } else {
                        assert(old_log[a].request_id@ != old_log[i as int].request_id@);
                    }
                }
                }
            }
        } else {
            proof {
                assert(old_log.take(n as int) =~= old_log);
                lemma_position_of(old_log, entry.request_id@);
            }
            self.entries.push(entry);
            proof {
                let l = self.entries@;
                if distinct_requests(old_log) {
                    assert forall|a: int, b: int|
                        0 <= a < l.len() && 0 <= b < l.len() && a != b implies #[trigger] l[a].request_id@
                            != #[trigger] l[b].request_id@ by {
                        if a < n && b < n {
                            assert(old_log[a].request_id@ != old_log[b].request_id@);
                        }
                    }
                }
            }
            if self.entries.len() > max_logs {
                let excess = self.entries.len() - max_logs;
                self.drop_oldest(excess);
            }
        }
    }

    /// Drops the `k` oldest entries.
    fn drop_oldest(&mut self, k: usize)
        requires
            k <= old(self)@.len(),
        ensures
            final(self)@ == old(self)@.skip(k as int),
            old(self).wf() ==> final(self).wf(),
    {
        let mut kept: Vec<RequestLogEntry> = Vec::new();
        let mut old_entries: Vec<RequestLogEntry> = Vec::new();
        std::mem::swap(&mut old_entries, &mut self.entries);
        let ghost log = old_entries@;
        let mut i: usize = k;
        while i < old_entries.len()
            invariant
                old_entries@ == log,
                k <= i <= log.len(),
                kept@ == log.subrange(k as int, i as int),
            decreases log.len() - i,
        {
            kept.push(old_entries[i].clone());
            assert(kept@ =~= log.subrange(k as int, i + 1));
            i = i + 1;
        }
        assert(kept@ =~= log.skip(k as int));
        proof {
            if distinct_requests(log) {
            assert forall|a: int, b: int|
                0 <= a < kept@.len() && 0 <= b < kept@.len() && a != b implies #[trigger] kept@[a].request_id@
                    != #[trigger] kept@[b].request_id@ by {
                assert(kept@[a] == log[a + k]);
                assert(kept@[b] == log[b + k]);
            }
            }
        }
        self.entries = kept;
    }

    /// A copy of all entries, oldest first.
    pub fn list(&self) -> (r: Vec<RequestLogEntry>)
        ensures
            r@ == self@,
    {
        let mut r: Vec<RequestLogEntry> = Vec::new();
        let mut i: usize = 0;
        while i < self.entries.len()
            invariant
                i <= self.entries.len(),
                r@ == self.entries@.take(i as int),
            decreases self.entries.len() - i,
        {
            r.push(self.entries[i].clone());
            assert(r@ =~= self.entries@.take(i + 1));
            i = i + 1;
        }
        assert(self.entries@.take(self.entries.len() as int) =~= self.entries@);
        r
    }

    /// Removes every entry.
    pub fn clear(&mut self)
        ensures
            final(self)@ == Seq::<RequestLogEntry>::empty(),
            final(self).wf(),
    {
        self.entries = Vec::new();
    }
}

// ---------------------------------------------------------------------------
// The details cache
// ---------------------------------------------------------------------------

/// What the inspector shows of one request.
#[derive(Debug)]
pub struct RequestDetails {
    /// The public URL the request came in on.
    pub url: String,
    /// The local URL it was forwarded to.
    pub local_url: String,
    pub request_headers: Headers,
    pub request_body: Option<String>,
    pub response_headers: Headers,
    pub response_body: Option<String>,
    pub timestamp: u64,
}

/// `a` and `b` hold the same details.
pub open spec fn same_details(a: RequestDetails, b: RequestDetails) -> bool {
    &&& a.url == b.url
    &&& a.local_url == b.local_url
    &&& a.request_headers@ == b.request_headers@
    &&& a.request_body == b.request_body
    &&& a.response_headers@ == b.response_headers@
    &&& a.response_body == b.response_body
    &&& a.timestamp == b.timestamp
}

impl Clone for RequestDetails {
    fn clone(&self) -> (r: Self)
        ensures
            same_details(r, *self),
    {
        RequestDetails {
            url: self.url.clone(),
            local_url: self.local_url.clone(),
            request_headers: copy_headers(&self.request_headers),
            request_body: copy_opt_string(&self.request_body),
            response_headers: copy_headers(&self.response_headers),
            response_body: copy_opt_string(&self.response_body),
            timestamp: self.timestamp,
        }
    }
}

/// The position of the entry for request `id` in the cache, or -1.
pub open spec fn cache_position(c: Seq<(String, RequestDetails)>, id: Seq<char>) -> int
    decreases c.len(),
{
    if c.len() == 0 {
        -1
    } else {
        let p = cache_position(c.drop_last(), id);
        if p >= 0 {
            p
        } else if c.last().0@ == id {
            c.len() - 1
        } else {
            -1
        }
    }
}

/// The position of the first of the oldest entries (smallest time stamp).
pub open spec fn oldest_position(c: Seq<(String, RequestDetails)>) -> int
    decreases c.len(),
{
    if c.len() <= 1 {
        0
    } else {
        let p = oldest_position(c.drop_last());
        if c.last().1.timestamp < c[p].1.timestamp {
            c.len() - 1
        } else {
            p
        }
    }
}

/// No two entries of the cache are for the same request.
pub open spec fn distinct_keys(c: Seq<(String, RequestDetails)>) -> bool {
    forall|i: int, j: int|
        0 <= i < c.len() && 0 <= j < c.len() && i != j ==> #[trigger] c[i].0@ != #[trigger] c[j].0@
}

/// The cache limit for a configured number of entries: that number, and at
/// least one.
pub open spec fn effective_limit(max_logs: u32) -> nat {
    if max_logs == 0 {
        1
    } else {
        max_logs as nat
    }
}

/// The cache after the oldest entry is dropped, if it holds `limit` entries
/// or more.
pub open spec fn cache_after_eviction(c: Seq<(String, RequestDetails)>, limit: nat) -> Seq<
    (String, RequestDetails),
> {
    if c.len() >= limit && c.len() > 0 {
        c.remove(oldest_position(c))
    } else {
        c
    }
}

/// The cache after the details `d` of request `id` are stored with a limit
/// of `limit` entries: when full, the oldest entry leaves first; then the
/// entry for `id` is replaced, or added at the end.
pub open spec fn cached(
    c: Seq<(String, RequestDetails)>,
    id: String,
    d: RequestDetails,
    limit: nat,
) -> Seq<(String, RequestDetails)> {
    let e = cache_after_eviction(c, limit);
    let p = cache_position(e, id@);
    if p >= 0 {
        e.update(p, (id, d))
    } else {
        e.push((id, d))
    }
}

/// [`cache_position`] finds the first entry for `id`, or gives -1 when
/// none is for it.
pub proof fn lemma_cache_position(c: Seq<(String, RequestDetails)>, id: Seq<char>)
    ensures
        -1 <= cache_position(c, id) < c.len(),
        cache_position(c, id) >= 0 ==> c[cache_position(c, id)].0@ == id,
        cache_position(c, id) >= 0 ==> forall|k: int|
            0 <= k < cache_position(c, id) ==> c[k].0@ != id,
        cache_position(c, id) == -1 <==> forall|k: int| 0 <= k < c.len() ==> c[k].0@ != id,
    decreases c.len(),
{
    if c.len() > 0 {
        lemma_cache_position(c.drop_last(), id);
        assert forall|k: int| 0 <= k < c.len() - 1 implies c.drop_last()[k] == c[k] by {}
    }
}

/// [`oldest_position`] is the first position of a smallest time stamp.
pub proof fn lemma_oldest_position(c: Seq<(String, RequestDetails)>)
    requires
        c.len() > 0,
    ensures
        0 <= oldest_position(c) < c.len(),
        forall|k: int| 0 <= k < c.len() ==> c[oldest_position(c)].1.timestamp <= #[trigger] c[k].1.timestamp,
        forall|k: int| 0 <= k < oldest_position(c) ==> c[oldest_position(c)].1.timestamp < #[trigger] c[k].1.timestamp,
    decreases c.len(),
{
    if c.len() > 1 {
        lemma_oldest_position(c.drop_last());
        assert forall|k: int| 0 <= k < c.len() - 1 implies c.drop_last()[k] == c[k] by {}
    }
}

/// Read after write: once details are stored for a request, the cache's
/// entry for that request holds them.
pub proof fn lemma_record_then_get(
    c: Seq<(String, RequestDetails)>,
    id: String,
    d: RequestDetails,
    limit: nat,
)
    ensures
        cache_position(cached(c, id, d, limit), id@) >= 0,
        cached(c, id, d, limit)[cache_position(cached(c, id, d, limit), id@)] == (id, d),
{
    let e = cache_after_eviction(c, limit);
    lemma_cache_position(e, id@);
    let p = cache_position(e, id@);
    let u = cached(c, id, d, limit);
    lemma_cache_position(u, id@);
    if p >= 0 {
        assert(u[p] == (id, d));
        assert forall|k: int| 0 <= k < p implies u[k].0@ != id@ by {
            assert(u[k] == e[k]);
        }
        if cache_position(u, id@) == -1 {
            assert(u[p].0@ != id@);
        }
        assert(cache_position(u, id@) == p);
    } else {
        assert forall|k: int| 0 <= k < e.len() implies u[k].0@ != id@ by {
            assert(u[k] == e[k]);
        }
        if cache_position(u, id@) == -1 {
            assert(u[e.len() as int].0@ != id@);
        }
        assert(cache_position(u, id@) == e.len());
    }
}

/// A cache within its limit stays within it: storing makes room first
/// when the cache is full.
pub proof fn lemma_record_bounded(
    c: Seq<(String, RequestDetails)>,
    id: String,
    d: RequestDetails,
    limit: nat,
)
    requires
        limit >= 1,
        c.len() <= limit,
    ensures
        cached(c, id, d, limit).len() <= limit,
{
    if c.len() > 0 && c.len() >= limit {
        lemma_oldest_position(c);
    }
    lemma_cache_position(cache_after_eviction(c, limit), id@);
}

/// When a full cache makes room, the entry that leaves is one of the
/// oldest: no entry has a smaller time stamp.
pub proof fn lemma_eviction_takes_oldest(c: Seq<(String, RequestDetails)>, limit: nat)
    requires
        c.len() > 0,
        c.len() >= limit,
    ensures
        cache_after_eviction(c, limit) == c.remove(oldest_position(c)),
        forall|k: int| 0 <= k < c.len() ==> c[oldest_position(c)].1.timestamp <= #[trigger] c[k].1.timestamp,
{
    lemma_oldest_position(c);
}

/// The details of recent requests, at most one entry per request.
pub struct LogCache {
    entries: Vec<(String, RequestDetails)>,
}

impl View for LogCache {
    type V = Seq<(String, RequestDetails)>;

    closed spec fn view(&self) -> Seq<(String, RequestDetails)> {
        self.entries@
    }
}

impl LogCache {
    /// The cache's invariant: at most one entry per request.
    pub open spec fn wf(&self) -> bool {
        distinct_keys(self@)
    }

    /// An empty cache.
    pub fn new() -> (r: Self)
        ensures
            r@ == Seq::<(String, RequestDetails)>::empty(),
            r.wf(),
    {
        LogCache { entries: Vec::new() }
    }

    /// The number of entries.
    pub fn len(&self) -> (r: usize)
        ensures
            r == self@.len(),
    {
        self.entries.len()
    }

    /// The details stored for request `id`, if any.
    pub fn get(&self, id: &str) -> (r: Option<RequestDetails>)
        ensures
            r.is_some() == (cache_position(self@, id@) >= 0),
            r matches Some(d) ==> same_details(d, self@[cache_position(self@, id@)].1),
    {
        let mut i: usize = 0;
        while i < self.entries.len()
            invariant
                i <= self.entries.len(),
                forall|k: int| 0 <= k < i ==> self.entries@[k].0@ != id@,
            decreases self.entries.len() - i,
        {
            if crate::text::str_eq(self.entries[i].0.as_str(), id) {
                proof {
                    lemma_cache_position(self@, id@);
                    if cache_position(self@, id@) != i {
                        assert(self@[i as int].0@ == id@);
                    }
                }
                return Some(self.entries[i].1.clone());
            }
            i = i + 1;
        }
        proof {
            lemma_cache_position(self@, id@);
        }
        None
    }

    /// Empties the cache: the stored headers and bodies are discarded.
    pub fn clear(&mut self)
        ensures
            final(self)@ == Seq::<(String, RequestDetails)>::empty(),
            final(self).wf(),
    {
        self.entries.clear();
    }

    /// Stores the details `d` of request `id`, keeping at most
    /// `max(max_logs, 1)` entries: when the cache is full the oldest entry
    /// (smallest time stamp, the first of them on a tie) leaves first.
    pub fn record(&mut self, id: String, d: RequestDetails, max_logs: u32)
        ensures
            final(self)@ == cached(old(self)@, id, d, effective_limit(max_logs)),
            old(self).wf() ==> final(self).wf(),
    {
        let limit: u32 = if max_logs == 0 {
            1
        } else {
            max_logs
        };
        let ghost c0 = self.entries@;
        let ghost entry = (id, d);
        if self.entries.len() >= limit as usize && self.entries.len() > 0 {
            let k = self.oldest_index();
            proof {
                lemma_oldest_position(c0);
            }
            self.entries.remove(k);
            proof {
                let c1 = self.entries@;
                if distinct_keys(c0) {
                    assert forall|a: int, b: int|
                        0 <= a < c1.len() && 0 <= b < c1.len() && a != b implies #[trigger] c1[a].0@
                            != #[trigger] c1[b].0@ by {
                        let a0 = if a < k { a } else { a + 1 };
                        let b0 = if b < k { b } else { b + 1 };
                        assert(c1[a] == c0[a0]);
                        assert(c1[b] == c0[b0]);
                    }
                }
            }
        }
        let ghost c1 = self.entries@;
        assert(c1 == cache_after_eviction(c0, effective_limit(max_logs)));
        proof {
            lemma_cache_position(c1, id@);
        }
        let mut i: usize = 0;
        while i < self.entries.len()
            invariant
                self.entries@ == c1,
                c1 == cache_after_eviction(c0, effective_limit(max_logs)),
                c0 == old(self)@,
                entry == (id, d),
                distinct_keys(c0) ==> distinct_keys(c1),
                i <= c1.len(),
                forall|k: int| 0 <= k < i ==> c1[k].0@ != id@,
            decreases c1.len() - i,
        {
            if crate::text::str_eq(self.entries[i].0.as_str(), id.as_str()) {
                proof {
                    lemma_cache_position(c1, id@);
                    assert(cache_position(c1, id@) == i) by {
                        if cache_position(c1, id@) == -1 {
                            assert(c1[i as int].0@ != id@);
                        }
                    }
                }
                self.entries.set(i, (id, d));
                proof {
                    let c2 = self.entries@;
                    if distinct_keys(c1) {
                        assert forall|a: int, b: int|
                            0 <= a < c2.len() && 0 <= b < c2.len() && a != b implies #[trigger] c2[a].0@
                                != #[trigger] c2[b].0@ by {
                            if a != i && b != i {
                                assert(c1[a].0@ != c1[b].0@);
                            } else if a == i {
                                assert(c1[b].0@ != c1[i as int].0@);
                            } else {
                                assert(c1[a].0@ != c1[i as int].0@);
                            }
                        }
                    }
                    assert(c2 =~= cached(c0, entry.0, entry.1, effective_limit(max_logs)));
                }
                return ;
            }
            i = i + 1;
        }
        self.entries.push((id, d));
        proof {
            lemma_cache_position(c1, id@);
            let c2 = self.entries@;
            if distinct_keys(c1) {
                assert forall|a: int, b: int|
                    0 <= a < c2.len() && 0 <= b < c2.len() && a != b implies #[trigger] c2[a].0@
                        != #[trigger] c2[b].0@ by {
                    if a < c1.len() && b < c1.len() {
                        assert(c1[a].0@ != c1[b].0@);
                    }
                }
            }
        }
    }

    /// The position of the first entry with the smallest time stamp.
    fn oldest_index(&self) -> (r: usize)
        requires
            self@.len() > 0,
        ensures
            r == oldest_position(self@),
    {
        let mut best: usize = 0;
        let mut i: usize = 1;
        while i < self.entries.len()
            invariant
                1 <= i <= self.entries.len(),
                best == oldest_position(self.entries@.take(i as int)),
                best < i,
            decreases self.entries.len() - i,
        {
            let ghost t = self.entries@.take(i + 1);
            assert(t.drop_last() =~= self.entries@.take(i as int));
            assert(t[best as int] == self.entries@[best as int]);
            if self.entries[i].1.timestamp < self.entries[best].1.timestamp {
                best = i;
            }
            i = i + 1;
        }
        assert(self.entries@.take(self.entries.len() as int) =~= self.entries@);
        best
    }
}

} // verus!
