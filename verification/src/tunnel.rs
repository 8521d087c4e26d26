//! The tunnel client's decisions: the relay's WebSocket address, the
//! reconnection state machine with its back-off, how a relayed request is
//! forwarded to the local server, and what is logged of it.
use vstd::prelude::*;
use crate::category::Headers;
use crate::codec::{base64_decode, base64_decoded, base64_encode, base64_encoded};
use crate::logs::{copy_headers, RequestDetails, TunnelRequest, TunnelResponse};
use vstd::utf8::encode_utf8;
use crate::text::{
    from_char_range, is_prefix_of, is_suffix_of, join2, join3, lowercase, owned,
    replace_all, replace_all_spec, starts_with, str_eq, to_chars, to_lowercase,
};

verus! {

// ---------------------------------------------------------------------------
// Addresses
// ---------------------------------------------------------------------------

/// The relay's base address as a WebSocket address: `https://` becomes
/// `wss://` and `http://` becomes `ws://` (every occurrence, as
/// `str::replace` does); an address without a scheme gets `wss://`.
pub open spec fn ws_base(worker_url: Seq<char>) -> Seq<char> {
    if is_prefix_of("https://"@, worker_url) {
        replace_all_spec(worker_url, "https://"@, "wss://"@)
    } else if is_prefix_of("http://"@, worker_url) {
        replace_all_spec(worker_url, "http://"@, "ws://"@)
    } else {
        "wss://"@ + worker_url
    }
}

/// `u` without one trailing `/`.
pub open spec fn without_trailing_slash(u: Seq<char>) -> Seq<char> {
    if u.len() > 0 && u.last() == '/' {
        u.drop_last()
    } else {
        u
    }
}

/// The address a tunnel connects to:
/// `<ws base>/connect?id=<tunnel id>&token=<token>`.
pub open spec fn ws_connect_url(worker_url: Seq<char>, id: Seq<char>, token: Seq<char>) -> Seq<
    char,
> {
    without_trailing_slash(ws_base(worker_url)) + "/connect?id="@ + id + "&token="@ + token
}

/// The WebSocket address for tunnel `tunnel_id` on the relay at
/// `worker_url`, authenticated by `auth_token`.
pub fn build_ws_url(worker_url: &str, tunnel_id: &str, auth_token: &str) -> (r: String)
    ensures
        r@ == ws_connect_url(worker_url@, tunnel_id@, auth_token@),
{
    proof {
        reveal_strlit("https://");
        reveal_strlit("http://");
    }
    let base = if starts_with(worker_url, "https://") {
        replace_all(worker_url, "https://", "wss://")
    } else if starts_with(worker_url, "http://") {
        replace_all(worker_url, "http://", "ws://")
    } else {
        join2("wss://", worker_url)
    };
    let v = to_chars(base.as_str());
    let trimmed = if v.len() > 0 && v[v.len() - 1] == '/' {
        from_char_range(&v, 0, v.len() - 1)
    } else {
        base
    };
    assert(v@.subrange(0, v@.len() - 1) =~= v@.drop_last());
    let mut r = join3(trimmed.as_str(), "/connect?id=", tunnel_id);
    r.append("&token=");
    r.append(auth_token);
    r
}

/// Replacing a pattern in a text that starts with it puts the replacement
/// first.
proof fn lemma_replace_all_prefix(s: Seq<char>, p: Seq<char>, t: Seq<char>)
    requires
        p.len() > 0,
        is_prefix_of(p, s),
    ensures
        is_prefix_of(t, replace_all_spec(s, p, t)),
{
    let r = replace_all_spec(s, p, t);
    assert(r == t + replace_all_spec(s.skip(p.len() as int), p, t));
    assert(r.take(t.len() as int) =~= t);
}

/// The address a tunnel connects to is a WebSocket address (`ws://` for a
/// relay reached over plain `http://`, else `wss://`) that ends with the
/// tunnel's id and token.
pub proof fn lemma_ws_url_shape(worker_url: Seq<char>, id: Seq<char>, token: Seq<char>)
    ensures
        is_prefix_of("wss://"@, ws_connect_url(worker_url, id, token)) || is_prefix_of(
            "ws://"@,
            ws_connect_url(worker_url, id, token),
        ),
        is_prefix_of("http://"@, worker_url) ==> is_prefix_of(
            "ws://"@,
            ws_connect_url(worker_url, id, token),
        ),
        !is_prefix_of("http://"@, worker_url) ==> is_prefix_of(
            "wss://"@,
            ws_connect_url(worker_url, id, token),
        ),
        is_suffix_of("/connect?id="@ + id + "&token="@ + token, ws_connect_url(worker_url, id, token)),
{
    reveal_strlit("https://");
    reveal_strlit("http://");
    reveal_strlit("wss://");
    reveal_strlit("ws://");
    reveal_strlit("/connect?id=");
    let b = ws_base(worker_url);
    if is_prefix_of("http://"@, worker_url) {
        assert(worker_url[4] == "http://"@[4]);
        assert(worker_url.take(7)[4] == worker_url[4]);
        if is_prefix_of("https://"@, worker_url) {
            assert(worker_url.take(8)[4] == worker_url[4]);
            assert(false);
        }
    }
    if is_prefix_of("https://"@, worker_url) {
        lemma_replace_all_prefix(worker_url, "https://"@, "wss://"@);
    } else if is_prefix_of("http://"@, worker_url) {
        lemma_replace_all_prefix(worker_url, "http://"@, "ws://"@);
    } else {
        assert(b.take(6) =~= "wss://"@);
    }
    let w = without_trailing_slash(b);
    let u = ws_connect_url(worker_url, id, token);
    assert(u == w + "/connect?id="@ + id + "&token="@ + token);
    let scheme = if is_prefix_of("http://"@, worker_url) { "ws://"@ } else { "wss://"@ };
    assert(is_prefix_of(scheme, b));
    assert(u.take(scheme.len() as int) =~= scheme) by {
        assert forall|k: int| 0 <= k < scheme.len() implies u[k] == scheme[k] by {
            if k < w.len() {
                assert(u[k] == w[k]);
                assert(w[k] == b[k]);
                assert(b.take(scheme.len() as int)[k] == b[k]);
            } else {
                // Only the last `/` of the scheme can have been dropped; the
                // next text starts with `/`.
                assert(k == scheme.len() - 1);
                assert(u[k] == "/connect?id="@[0]);
            }
        }
    }
    assert(u.skip(u.len() - ("/connect?id="@ + id + "&token="@ + token).len()) =~= "/connect?id="@
        + id + "&token="@ + token);
}

/// The local address with a scheme: unchanged when it has `http://` or
/// `https://`, else with `http://` in front.
pub open spec fn local_base(local_addr: Seq<char>) -> Seq<char> {
    if is_prefix_of("http://"@, local_addr) || is_prefix_of("https://"@, local_addr) {
        local_addr
    } else {
        "http://"@ + local_addr
    }
}

/// The local URL that a request for `path` is forwarded to.
pub fn local_target_url(local_addr: &str, path: &str) -> (r: String)
    ensures
        r@ == local_base(local_addr@) + path@,
{
    if starts_with(local_addr, "http://") || starts_with(local_addr, "https://") {
        join2(local_addr, path)
    } else {
        join3("http://", local_addr, path)
    }
}

/// The value of the first header (in order) whose lowercased name is
/// `host`, or the empty string.
pub open spec fn first_host(h: Seq<(String, String)>) -> Seq<char>
    decreases h.len(),
{
    if h.len() == 0 {
        Seq::empty()
    } else if lowercase(h[0].0@) == "host"@ {
        h[0].1@
    } else {
        first_host(h.skip(1))
    }
}

/// The public URL a request came in on: `https://<host><path>` when it
/// names a host, else just its path.
pub open spec fn public_url_of(h: Seq<(String, String)>, path: Seq<char>) -> Seq<char> {
    if first_host(h).len() > 0 {
        "https://"@ + first_host(h) + path
    } else {
        path
    }
}

/// The public URL of a request with headers `headers` and path `path`.
pub fn public_request_url(headers: &Headers, path: &str) -> (r: String)
    ensures
        r@ == public_url_of(headers@, path@),
{
    let mut host = String::new();
    let mut i: usize = 0;
    let ghost h = headers@;
    assert(h.skip(0) =~= h);
    while i < headers.len()
        invariant
            h == headers@,
            i <= h.len(),
            host@.len() == 0,
            first_host(h) == first_host(h.skip(i as int)),
        decreases h.len() - i,
    {
        let key = to_lowercase(headers[i].0.as_str());
        if str_eq(key.as_str(), "host") {
            host = headers[i].1.clone();
            assert(first_host(h) == host@);
            if host.as_str().is_empty() {
                return owned(path);
            }
            return join3("https://", host.as_str(), path);
        }
        assert(h.skip(i as int).skip(1) =~= h.skip(i + 1));
        i = i + 1;
    }
    owned(path)
}

// ---------------------------------------------------------------------------
// Connection state machine
// ---------------------------------------------------------------------------

/// The local server's address: an address that names its scheme (`http://`
/// or `https://`) is used as it is, any other gets `http://` in front; the
/// request's path follows.
pub proof fn lemma_local_url(local_addr: Seq<char>, path: Seq<char>)
    ensures
        (is_prefix_of("http://"@, local_addr) || is_prefix_of("https://"@, local_addr))
            ==> local_base(local_addr) + path == local_addr + path,
        !is_prefix_of("http://"@, local_addr) && !is_prefix_of("https://"@, local_addr)
            ==> local_base(local_addr) + path == "http://"@ + local_addr + path,
{
}

/// The public address logged for a request: with a `Host` header (any
/// letter case; the first one counts) whose value is not empty, `https://`,
/// that host and the path; otherwise the path alone.
pub proof fn lemma_public_url(h: Seq<(String, String)>, path: Seq<char>, i: int)
    ensures
        0 <= i < h.len() && lowercase(h[i].0@) == "host"@ && (forall|j: int|
            0 <= j < i ==> lowercase(#[trigger] h[j].0@) != "host"@) ==> public_url_of(h, path)
            == if h[i].1@.len() > 0 {
            "https://"@ + h[i].1@ + path
        } else {
            path
        },
        (forall|j: int| 0 <= j < h.len() ==> lowercase(#[trigger] h[j].0@) != "host"@)
            ==> public_url_of(h, path) == path,
    decreases h.len(),
{
    if h.len() > 0 {
        lemma_public_url(h.skip(1), path, i - 1);
        if 0 < i < h.len() && lowercase(h[i].0@) == "host"@ && (forall|j: int|
            0 <= j < i ==> lowercase(#[trigger] h[j].0@) != "host"@) {
            assert(lowercase(h[0].0@) != "host"@);
            assert(h.skip(1)[i - 1] == h[i]);
            assert forall|j: int| 0 <= j < i - 1 implies lowercase(#[trigger] h.skip(1)[j].0@)
                != "host"@ by {
                assert(h.skip(1)[j] == h[j + 1]);
            }
        }
        if forall|j: int| 0 <= j < h.len() ==> lowercase(#[trigger] h[j].0@) != "host"@ {
            assert(lowercase(h[0].0@) != "host"@);
            assert forall|j: int| 0 <= j < h.len() - 1 implies lowercase(
                #[trigger] h.skip(1)[j].0@,
            ) != "host"@ by {
                assert(h.skip(1)[j] == h[j + 1]);
            }
        }
    }
}


/// The wait before the first retry, in seconds.
pub const INITIAL_BACKOFF_SECS: u64 = 1;

/// The longest wait between retries, in seconds.
pub const MAX_BACKOFF_SECS: u64 = 30;

/// The next wait after `b` seconds: twice as long, at most 30 seconds.
pub open spec fn doubled(b: u64) -> u64 {
    if b >= 15 {
        MAX_BACKOFF_SECS
    } else {
        (b * 2) as u64
    }
}

/// Where a tunnel's connection stands.
#[derive(Debug, Clone, Copy, PartialEq, Eq, Structural)]
pub enum LinkPhase {
    /// A connection attempt is under way.
    Connecting,
    /// Connected; requests are being served.
    Connected,
    /// The last attempt failed; waiting before the next one.
    Waiting,
    /// Stopped for good.
    Stopped,
}

/// A status the tunnel reports to the user interface.
#[derive(Debug, Clone, Copy, PartialEq, Eq, Structural)]
pub enum LinkStatus {
    Connecting,
    Connected,
    ConnectingError,
    Disconnected,
    Stopped,
}

/// What the connection loop learns.
#[derive(Debug, Clone, Copy, PartialEq, Eq, Structural)]
pub enum LinkEvent {
    /// The WebSocket connection was established.
    ConnectSucceeded,
    /// The connection attempt failed.
    ConnectFailed,
    /// The relay closed the connection, or writing to it failed.
    SessionClosed,
    /// The user stopped the tunnel.
    StopRequested,
    /// The wait before the next attempt is over.
    RetryDue,
}

/// What the connection loop does next.
#[derive(Debug, Clone, Copy, PartialEq, Eq, Structural)]
pub enum LinkAction {
    /// Open a connection to the relay.
    Connect,
    /// Serve requests over the open connection.
    Serve,
    /// Wait this many seconds (or until stopped).
    Sleep(u64),
    /// End the tunnel's task.
    Finish,
    /// Nothing: the event does not apply in this phase.
    Ignore,
}

/// A tunnel's connection: its phase and the wait before the next retry.
#[derive(Debug, Clone, Copy, PartialEq, Eq, Structural)]
pub struct Link {
    pub phase: LinkPhase,
    pub backoff_secs: u64,
}

impl LinkStatus {
    /// The status's name as the user interface receives it.
    pub open spec fn spec_name(self) -> Seq<char> {
        match self {
            LinkStatus::Connecting => "connecting"@,
            LinkStatus::Connected => "connected"@,
            LinkStatus::ConnectingError => "connecting_error"@,
            LinkStatus::Disconnected => "disconnected"@,
            LinkStatus::Stopped => "stopped"@,
        }
    }

    /// The status's name as the user interface receives it.
    pub fn name(&self) -> (r: String)
        ensures
            r@ == self.spec_name(),
    {
        match self {
            LinkStatus::Connecting => owned("connecting"),
            LinkStatus::Connected => owned("connected"),
            LinkStatus::ConnectingError => owned("connecting_error"),
            LinkStatus::Disconnected => owned("disconnected"),
            LinkStatus::Stopped => owned("stopped"),
        }
    }
}

/// The wait is within its bounds.
pub open spec fn link_wf(l: Link) -> bool {
    INITIAL_BACKOFF_SECS <= l.backoff_secs <= MAX_BACKOFF_SECS
}

/// The state, statuses and action that follow event `e` in state `l`.
pub open spec fn link_step(l: Link, e: LinkEvent) -> (Link, Seq<LinkStatus>, LinkAction) {
    match (l.phase, e) {
        (LinkPhase::Connecting, LinkEvent::ConnectSucceeded) => (
            Link { phase: LinkPhase::Connected, backoff_secs: INITIAL_BACKOFF_SECS },
            seq![LinkStatus::Connected],
            LinkAction::Serve,
        ),
        (LinkPhase::Connecting, LinkEvent::ConnectFailed) => (
            Link { phase: LinkPhase::Waiting, backoff_secs: l.backoff_secs },
            seq![LinkStatus::ConnectingError],
            LinkAction::Sleep(l.backoff_secs),
        ),
        (LinkPhase::Connected, LinkEvent::SessionClosed) => (
            Link { phase: LinkPhase::Connecting, backoff_secs: l.backoff_secs },
            seq![LinkStatus::Disconnected],
            LinkAction::Connect,
        ),
        (LinkPhase::Connected, LinkEvent::StopRequested) => (
            Link { phase: LinkPhase::Stopped, backoff_secs: l.backoff_secs },
            seq![LinkStatus::Disconnected, LinkStatus::Stopped],
            LinkAction::Finish,
        ),
        (LinkPhase::Waiting, LinkEvent::RetryDue) => (
            Link { phase: LinkPhase::Connecting, backoff_secs: doubled(l.backoff_secs) },
            Seq::empty(),
            LinkAction::Connect,
        ),
        (LinkPhase::Waiting, LinkEvent::StopRequested) => (
            Link { phase: LinkPhase::Stopped, backoff_secs: l.backoff_secs },
            seq![LinkStatus::Stopped],
            LinkAction::Finish,
        ),
        _ => (l, Seq::empty(), LinkAction::Ignore),
    }
}

impl Link {
    /// A tunnel that starts: it reports "connecting" and connects, with the
    /// shortest wait before a retry.
    pub fn start() -> (r: (Link, Vec<LinkStatus>, LinkAction))
        ensures
            r.0 == (Link { phase: LinkPhase::Connecting, backoff_secs: INITIAL_BACKOFF_SECS }),
            r.1@ == seq![LinkStatus::Connecting],
            r.2 == LinkAction::Connect,
    {
        let mut statuses: Vec<LinkStatus> = Vec::new();
        statuses.push(LinkStatus::Connecting);
        (
            Link { phase: LinkPhase::Connecting, backoff_secs: INITIAL_BACKOFF_SECS },
            statuses,
            LinkAction::Connect,
        )
    }

    /// The next state after event `e`, the statuses to report (in order)
    /// and what to do next.
    pub fn step(&self, e: LinkEvent) -> (r: (Link, Vec<LinkStatus>, LinkAction))
        ensures
            r.0 == link_step(*self, e).0,
            r.1@ == link_step(*self, e).1,
            r.2 == link_step(*self, e).2,
    {
        let mut statuses: Vec<LinkStatus> = Vec::new();
        match (self.phase, e) {
            (LinkPhase::Connecting, LinkEvent::ConnectSucceeded) => {
                statuses.push(LinkStatus::Connected);
                (
                    Link { phase: LinkPhase::Connected, backoff_secs: INITIAL_BACKOFF_SECS },
                    statuses,
                    LinkAction::Serve,
                )
            },
            (LinkPhase::Connecting, LinkEvent::ConnectFailed) => {
                statuses.push(LinkStatus::ConnectingError);
                (
                    Link { phase: LinkPhase::Waiting, backoff_secs: self.backoff_secs },
                    statuses,
                    LinkAction::Sleep(self.backoff_secs),
                )
            },
            (LinkPhase::Connected, LinkEvent::SessionClosed) => {
                statuses.push(LinkStatus::Disconnected);
                (
                    Link { phase: LinkPhase::Connecting, backoff_secs: self.backoff_secs },
                    statuses,
                    LinkAction::Connect,
                )
            },
            (LinkPhase::Connected, LinkEvent::StopRequested) => {
                statuses.push(LinkStatus::Disconnected);
                statuses.push(LinkStatus::Stopped);
                (
                    Link { phase: LinkPhase::Stopped, backoff_secs: self.backoff_secs },
                    statuses,
                    LinkAction::Finish,
                )
            },
            (LinkPhase::Waiting, LinkEvent::RetryDue) => {
                let next = if self.backoff_secs >= 15 {
                    MAX_BACKOFF_SECS
                } else {
                    self.backoff_secs * 2
                };
                (Link { phase: LinkPhase::Connecting, backoff_secs: next }, statuses, LinkAction::Connect)
            },
            (LinkPhase::Waiting, LinkEvent::StopRequested) => {
                statuses.push(LinkStatus::Stopped);
                (
                    Link { phase: LinkPhase::Stopped, backoff_secs: self.backoff_secs },
                    statuses,
                    LinkAction::Finish,
                )
            },
            _ => (*self, statuses, LinkAction::Ignore),
        }
    }
}

/// The wait between retries stays between 1 and 30 seconds whatever
/// happens.
pub proof fn lemma_backoff_bounded(l: Link, e: LinkEvent)
    requires
        link_wf(l),
    ensures
        link_wf(link_step(l, e).0),
{
}

/// What the connection loop does after each event: a new connection is
/// served; a failed attempt waits its back-off; a closed connection or an
/// elapsed wait leads to a new attempt; a stop ends the task once the
/// tunnel is connected or waiting; any other event changes nothing.
pub proof fn lemma_link_actions(l: Link, e: LinkEvent)
    ensures
        l.phase == LinkPhase::Connecting && e == LinkEvent::ConnectSucceeded ==> link_step(l, e).2
            == LinkAction::Serve && link_step(l, e).0.phase == LinkPhase::Connected,
        l.phase == LinkPhase::Connecting && e == LinkEvent::ConnectFailed ==> link_step(l, e).2
            == LinkAction::Sleep(l.backoff_secs) && link_step(l, e).0.phase == LinkPhase::Waiting,
        l.phase == LinkPhase::Connected && e == LinkEvent::SessionClosed ==> link_step(l, e).2
            == LinkAction::Connect && link_step(l, e).0.phase == LinkPhase::Connecting,
        l.phase == LinkPhase::Waiting && e == LinkEvent::RetryDue ==> link_step(l, e).2
            == LinkAction::Connect && link_step(l, e).0.phase == LinkPhase::Connecting,
        (l.phase == LinkPhase::Connected || l.phase == LinkPhase::Waiting) && e
            == LinkEvent::StopRequested ==> link_step(l, e).2 == LinkAction::Finish && link_step(
            l,
            e,
        ).0.phase == LinkPhase::Stopped,
        !(l.phase == LinkPhase::Connecting && (e == LinkEvent::ConnectSucceeded || e
            == LinkEvent::ConnectFailed)) && !(l.phase == LinkPhase::Connected && (e
            == LinkEvent::SessionClosed || e == LinkEvent::StopRequested)) && !(l.phase
            == LinkPhase::Waiting && (e == LinkEvent::RetryDue || e == LinkEvent::StopRequested))
            ==> link_step(l, e) == (l, Seq::<LinkStatus>::empty(), LinkAction::Ignore),
{
}

/// A stopped tunnel stays stopped and does nothing more.
pub proof fn lemma_stopped_is_final(l: Link, e: LinkEvent)
    requires
        l.phase == LinkPhase::Stopped,
    ensures
        link_step(l, e).0 == l,
        link_step(l, e).1.len() == 0,
        link_step(l, e).2 == LinkAction::Ignore,
{
}

/// After a failed attempt the tunnel waits its current back-off; each
/// further failure doubles the wait, up to 30 seconds; a successful
/// connection brings it back to 1 second.
pub proof fn lemma_backoff_grows_then_resets(l: Link)
    requires
        l.phase == LinkPhase::Connecting,
        link_wf(l),
    ensures
        link_step(l, LinkEvent::ConnectFailed).2 == LinkAction::Sleep(l.backoff_secs),
        link_step(link_step(l, LinkEvent::ConnectFailed).0, LinkEvent::RetryDue).0 == (Link {
            phase: LinkPhase::Connecting,
            backoff_secs: if 2 * l.backoff_secs <= 30 { (2 * l.backoff_secs) as u64 } else { 30 },
        }),
        link_step(l, LinkEvent::ConnectSucceeded).0.backoff_secs == INITIAL_BACKOFF_SECS,
{
}

/// A tunnel reports "stopped" exactly when it reaches the stopped phase,
/// and that is the last status it reports.
pub proof fn lemma_stop_is_reported(l: Link, e: LinkEvent)
    requires
        l.phase != LinkPhase::Stopped,
    ensures
        (link_step(l, e).0.phase == LinkPhase::Stopped) == (link_step(l, e).1.len() > 0
            && link_step(l, e).1.last() == LinkStatus::Stopped),
        link_step(l, e).0.phase == LinkPhase::Stopped ==> link_step(l, e).2 == LinkAction::Finish,
{
}

/// The tunnel as it starts: connecting, with the shortest wait.
pub open spec fn started_link() -> Link {
    Link { phase: LinkPhase::Connecting, backoff_secs: INITIAL_BACKOFF_SECS }
}

/// The state reached and the statuses reported, in order, when a tunnel
/// starts and then meets `events`.
pub open spec fn run_link(events: Seq<LinkEvent>) -> (Link, Seq<LinkStatus>)
    decreases events.len(),
{
    if events.len() == 0 {
        (started_link(), seq![LinkStatus::Connecting])
    } else {
        let prev = run_link(events.drop_last());
        let next = link_step(prev.0, events.last());
        (next.0, prev.1 + next.1)
    }
}

/// `s` is a series of finished attempts: each either "connecting_error",
/// or "connected" followed by "disconnected".
pub open spec fn finished_attempts(s: Seq<LinkStatus>) -> bool
    decreases s.len(),
{
    if s.len() == 0 {
        true
    } else if s.last() == LinkStatus::ConnectingError {
        finished_attempts(s.drop_last())
    } else if s.len() >= 2 && s.last() == LinkStatus::Disconnected && s[s.len() - 2]
        == LinkStatus::Connected {
        finished_attempts(s.take(s.len() - 2))
    } else {
        false
    }
}

/// The statuses `t` that a tunnel in `phase` has reported: "connecting",
/// then finished attempts, then "connected" while connected, or "stopped"
/// once stopped (which comes after at least one finished attempt).
pub open spec fn reported_for(t: Seq<LinkStatus>, phase: LinkPhase) -> bool {
    &&& t.len() >= 1
    &&& t[0] == LinkStatus::Connecting
    &&& {
        let rest = t.skip(1);
        match phase {
            LinkPhase::Connecting => finished_attempts(rest),
            LinkPhase::Waiting => finished_attempts(rest) && rest.len() > 0 && rest.last()
                == LinkStatus::ConnectingError,
            LinkPhase::Connected => rest.len() > 0 && rest.last() == LinkStatus::Connected
                && finished_attempts(rest.drop_last()),
            LinkPhase::Stopped => rest.len() > 1 && rest.last() == LinkStatus::Stopped
                && finished_attempts(rest.drop_last()),
        }
    }
}

/// One step keeps the reported statuses in the shape of [`reported_for`].
proof fn lemma_step_keeps_shape(l: Link, t: Seq<LinkStatus>, e: LinkEvent)
    requires
        reported_for(t, l.phase),
    ensures
        reported_for(t + link_step(l, e).1, link_step(l, e).0.phase),
{
    let s = link_step(l, e);
    let t2 = t + s.1;
    let rest = t.skip(1);
    let rest2 = t2.skip(1);
    assert(rest2 =~= rest + s.1);
    match (l.phase, e) {
        (LinkPhase::Connecting, LinkEvent::ConnectSucceeded) => {
            assert(rest2.drop_last() =~= rest);
        },
        (LinkPhase::Connecting, LinkEvent::ConnectFailed) => {
            assert(rest2.drop_last() =~= rest);
        },
        (LinkPhase::Connected, LinkEvent::SessionClosed) => {
            assert(rest2.take(rest2.len() - 2) =~= rest.drop_last());
        },
        (LinkPhase::Connected, LinkEvent::StopRequested) => {
            assert(rest2.drop_last().take(rest2.drop_last().len() - 2) =~= rest.drop_last());
            assert(rest2.drop_last() =~= rest + seq![LinkStatus::Disconnected]);
        },
        (LinkPhase::Waiting, LinkEvent::RetryDue) => {
            assert(rest2 =~= rest);
        },
        (LinkPhase::Waiting, LinkEvent::StopRequested) => {
            assert(rest2.drop_last() =~= rest);
        },
        _ => {
            assert(rest2 =~= rest);
        },
    }
}

/// Whatever happens, a tunnel reports "connecting" first, then attempts
/// that each end in "connecting_error" or in "connected" and
/// "disconnected"; while connected the last status is "connected"; and it
/// reports "stopped" only last, once it is stopped, which happens only
/// after the user asked for it.
pub proof fn lemma_status_sequence(events: Seq<LinkEvent>)
    ensures
        reported_for(run_link(events).1, run_link(events).0.phase),
        run_link(events).0.phase == LinkPhase::Stopped ==> events.contains(
            LinkEvent::StopRequested,
        ),
    decreases events.len(),
{
    if events.len() > 0 {
        let prev = run_link(events.drop_last());
        lemma_status_sequence(events.drop_last());
        lemma_step_keeps_shape(prev.0, prev.1, events.last());
        if run_link(events).0.phase == LinkPhase::Stopped {
            if prev.0.phase == LinkPhase::Stopped {
                let k = choose|k: int|
                    0 <= k < events.drop_last().len() && events.drop_last()[k]
                        == LinkEvent::StopRequested;
                assert(events[k] == LinkEvent::StopRequested);
            } else {
                assert(events[events.len() - 1] == LinkEvent::StopRequested);
            }
        }
    } else {
        assert(seq![LinkStatus::Connecting].skip(1) =~= Seq::<LinkStatus>::empty());
    }
}

/// The log limit the connection loop applies: the configured number, and
/// at least one.
pub fn log_limit(max_logs: u32) -> (r: usize)
    ensures
        r == if max_logs == 0 { 1 } else { max_logs },
{
    if max_logs == 0 {
        1
    } else {
        max_logs as usize
    }
}

// ---------------------------------------------------------------------------
// Forwarding a request
// ---------------------------------------------------------------------------

/// A header that concerns only the hop between the relay and this client.
pub open spec fn is_hop_header(lower_name: Seq<char>) -> bool {
    ||| lower_name == "host"@
    ||| lower_name == "connection"@
    ||| lower_name == "upgrade"@
    ||| lower_name == "sec-websocket-key"@
}

/// The headers of `h` that are forwarded, in order.
pub open spec fn end_to_end_headers(h: Seq<(String, String)>) -> Seq<(String, String)>
    decreases h.len(),
{
    if h.len() == 0 {
        h
    } else if is_hop_header(lowercase(h.last().0@)) {
        end_to_end_headers(h.drop_last())
    } else {
        end_to_end_headers(h.drop_last()).push(h.last())
    }
}

/// A header that is forwarded to the local server: any whose name, in small
/// letters, is not host, connection, upgrade or sec-websocket-key.
pub open spec fn reaches_local_server(e: (String, String)) -> bool {
    let n = lowercase(e.0@);
    n != "host"@ && n != "connection"@ && n != "upgrade"@ && n != "sec-websocket-key"@
}

/// The forwarded headers are exactly the request's headers but those named
/// host, connection, upgrade or sec-websocket-key (in any letter case),
/// unchanged and in their order; every other header, `Content-Type` and
/// `Accept` among them, reaches the local server.
pub proof fn lemma_forwarded_headers_kept(h: Seq<(String, String)>)
    ensures
        end_to_end_headers(h) == h.filter(|e: (String, String)| reaches_local_server(e)),
        forall|i: int|
            0 <= i < h.len() && reaches_local_server(h[i]) ==> #[trigger] end_to_end_headers(
                h,
            ).contains(h[i]),
        forall|e: (String, String)| #[trigger]
            end_to_end_headers(h).contains(e) ==> h.contains(e) && reaches_local_server(e),
    decreases h.len(),
{
    reveal(Seq::filter);
    let f = |e: (String, String)| reaches_local_server(e);
    if h.len() > 0 {
        lemma_forwarded_headers_kept(h.drop_last());
        assert(h.filter(f) == if f(h.last()) {
            h.drop_last().filter(f).push(h.last())
        } else {
            h.drop_last().filter(f)
        });
    }
    broadcast use vstd::seq_lib::group_filter_ensures;
    assert forall|i: int| 0 <= i < h.len() && reaches_local_server(h[i]) implies #[trigger] end_to_end_headers(
        h,
    ).contains(h[i]) by {
        h.lemma_filter_contains(f, i);
    }
    assert forall|e: (String, String)| #[trigger]
        end_to_end_headers(h).contains(e) implies h.contains(e) && reaches_local_server(e) by {
        let r = end_to_end_headers(h);
        let k = choose|k: int| 0 <= k < r.len() && r[k] == e;
        let d = end_to_end_headers(h.drop_last());
        if k < d.len() {
            assert(d[k] == e);
            assert(d.contains(e));
            let j = choose|j: int| 0 <= j < h.drop_last().len() && h.drop_last()[j] == e;
            assert(h[j] == e);
        } else {
            assert(e == h.last());
            assert(h[h.len() - 1] == e);
        }
    }
}

/// The headers to send to the local server for a request with headers
/// `headers`, on a tunnel with the given `Host` header.
pub fn forwarded_headers(headers: &Headers, host_header: &Option<String>) -> (r: Headers)
    ensures
        host_header.is_none() ==> r@ == end_to_end_headers(headers@),
        host_header matches Some(host) ==> r@.drop_last() == end_to_end_headers(headers@)
            && r@.len() > 0 && r@.last().0@ == "Host"@ && r@.last().1 == host,
{
    let mut r: Headers = Vec::new();
    let mut i: usize = 0;
    while i < headers.len()
        invariant
            i <= headers.len(),
            r@ == end_to_end_headers(headers@.take(i as int)),
        decreases headers.len() - i,
    {
        assert(headers@.take(i + 1).drop_last() =~= headers@.take(i as int));
        let key = to_lowercase(headers[i].0.as_str());
        let k = key.as_str();
        if !(str_eq(k, "host") || str_eq(k, "connection") || str_eq(k, "upgrade") || str_eq(
            k,
            "sec-websocket-key",
        )) {
            r.push((headers[i].0.clone(), headers[i].1.clone()));
        }
        i = i + 1;
    }
    assert(headers@.take(headers.len() as int) =~= headers@);
    match host_header {
        Some(host) => {
            r.push((owned("Host"), host.clone()));
        },
        None => {},
    }
    r
}

/// The request body to send, decoded from base64, or the message to report
/// when it is not valid base64.
pub open spec fn decoded_body(body: Option<String>) -> Result<Option<Seq<u8>>, Seq<char>> {
    match body {
        None => Ok(None),
        Some(b) => match base64_decoded(b@) {
            Ok(bytes) => Ok(Some(bytes)),
            Err(e) => Err("Failed to decode request body: "@ + e),
        },
    }
}

/// The request body in bytes, or the message that explains why the
/// base64 text cannot be decoded.
pub fn decode_request_body(body: &Option<String>) -> (r: Result<Option<Vec<u8>>, String>)
    ensures
        r.is_ok() == decoded_body(*body).is_ok(),
        r matches Ok(Some(v)) ==> decoded_body(*body) == Ok::<Option<Seq<u8>>, Seq<char>>(Some(v@)),
        r matches Ok(None) ==> body.is_none(),
        r matches Err(m) ==> m@ == decoded_body(*body)->Err_0,
{
    match body {
        None => Ok(None),
        Some(b) => match base64_decode(b.as_str()) {
            Ok(bytes) => Ok(Some(bytes)),
            Err(e) => Err(join2("Failed to decode request body: ", e.as_str())),
        },
    }
}

/// A character that HTTP allows in a method name (a `tchar` of RFC 9110).
pub open spec fn is_method_char(c: char) -> bool {
    ||| ('0' <= c && c <= '9')
    ||| ('A' <= c && c <= 'Z')
    ||| ('a' <= c && c <= 'z')
    ||| c == '!' || c == '#' || c == '$' || c == '%' || c == '&' || c == '\''
    ||| c == '*' || c == '+' || c == '-' || c == '.' || c == '^' || c == '_'
    ||| c == '`' || c == '|' || c == '~'
}

/// A valid HTTP method name: one or more method characters.
pub open spec fn is_http_method(s: Seq<char>) -> bool {
    s.len() > 0 && forall|i: int| 0 <= i < s.len() ==> #[trigger] is_method_char(s[i])
}

/// `reqwest::Method::from_bytes` on the bytes of `s`, keeping only whether
/// it succeeds: it accepts exactly the non-empty byte strings of method
/// characters (all ASCII, so a character outside them, whatever its UTF-8
/// bytes, is refused), and its error reads "invalid HTTP method".
#[verifier::external_body]
pub(crate) fn check_http_method(s: &str) -> (r: Result<(), String>)
    ensures
        r.is_ok() == is_http_method(s@),
        r matches Err(m) ==> m@ == "invalid HTTP method"@,
{
    match reqwest::Method::from_bytes(s.as_bytes()) {
        Ok(_) => Ok(()),
        Err(e) => Err(e.to_string()),
    }
}

/// A request ready to be sent to the local server.
pub struct LocalRequest {
    /// The method name, checked to be a valid HTTP method.
    pub method: String,
    pub url: String,
    pub headers: Headers,
    pub body: Option<Vec<u8>>,
}

/// The request to send to the local server `local_addr` for the relayed
/// request `req`, on a tunnel with `Host` header `host_header`; or the
/// message of the first problem: an invalid method, then an invalid body.
pub fn prepare_local_request(local_addr: &str, host_header: &Option<String>, req: &TunnelRequest) -> (r:
    Result<LocalRequest, String>)
    ensures
        r.is_ok() == (is_http_method(req.method@) && decoded_body(req.body).is_ok()),
        !is_http_method(req.method@) ==> (r matches Err(m) && m@ == "Invalid HTTP method: "@
            + "invalid HTTP method"@),
        is_http_method(req.method@) && decoded_body(req.body).is_err() ==> (r matches Err(m)
            && m@ == decoded_body(req.body)->Err_0),
        r matches Ok(plan) ==> {
            &&& plan.method@ == req.method@
            &&& plan.url@ == local_base(local_addr@) + req.path@
            &&& host_header.is_none() ==> plan.headers@ == end_to_end_headers(req.headers@)
            &&& host_header matches Some(host) ==> plan.headers@.drop_last() == end_to_end_headers(
                req.headers@,
            ) && plan.headers@.len() > 0 && plan.headers@.last().0@ == "Host"@
                && plan.headers@.last().1 == host
            &&& match plan.body {
                Some(b) => decoded_body(req.body) == Ok::<Option<Seq<u8>>, Seq<char>>(Some(b@)),
                None => req.body.is_none(),
            }
        },
{
    let url = local_target_url(local_addr, req.path.as_str());
    match check_http_method(req.method.as_str()) {
        Ok(()) => {},
        Err(e) => {
            return Err(join2("Invalid HTTP method: ", e.as_str()));
        },
    }
    let method = req.method.clone();
    let headers = forwarded_headers(&req.headers, host_header);
    let body = match decode_request_body(&req.body) {
        Ok(b) => b,
        Err(e) => {
            return Err(e);
        },
    };
    Ok(LocalRequest { method, url, headers, body })
}

// ---------------------------------------------------------------------------
// Answers and what is logged of them
// ---------------------------------------------------------------------------

/// The largest body, in decoded bytes, that the inspector keeps.
pub const MAX_BODY_CACHE_BYTES: u64 = 524288;

/// The request or response body that is kept for the inspector: the base64
/// text when it decodes to at most 512 KiB, else none.
pub open spec fn kept_body(body: Option<String>) -> Option<String> {
    match body {
        Some(b) => match base64_decoded(b@) {
            Ok(bytes) => if bytes.len() <= MAX_BODY_CACHE_BYTES {
                Some(b)
            } else {
                None
            },
            Err(_) => None,
        },
        None => None,
    }
}

/// The request or response body that the inspector keeps (see
/// [`kept_body`]).
pub fn cached_body(body: &Option<String>) -> (r: Option<String>)
    ensures
        r == kept_body(*body),
{
    match body {
        Some(b) => match base64_decode(b.as_str()) {
            Ok(bytes) => if bytes.len() as u64 <= MAX_BODY_CACHE_BYTES {
                Some(b.clone())
            } else {
                None
            },
            Err(_) => None,
        },
        None => None,
    }
}

/// A body is kept for the inspector exactly when its base64 text decodes
/// to at most 524288 bytes (512 KiB), and then it is kept as it came.
pub proof fn lemma_kept_body_limit(body: Option<String>)
    ensures
        kept_body(body) is Some <==> (body is Some && base64_decoded(body->Some_0@) is Ok
            && base64_decoded(body->Some_0@)->Ok_0.len() <= 524288),
        kept_body(body) is Some ==> kept_body(body) == body,
{
}

/// A request body is sent as the bytes its base64 text decodes to; a body
/// that is not base64 is refused with the decoder's message after
/// "Failed to decode request body: "; no body sends none.
pub proof fn lemma_decoded_body(body: Option<String>)
    ensures
        body is None ==> decoded_body(body) == Ok::<Option<Seq<u8>>, Seq<char>>(None),
        body is Some && base64_decoded(body->Some_0@) is Ok ==> decoded_body(body) == Ok::<
            Option<Seq<u8>>,
            Seq<char>,
        >(Some(base64_decoded(body->Some_0@)->Ok_0)),
        body is Some && base64_decoded(body->Some_0@) is Err ==> decoded_body(body) == Err::<
            Option<Seq<u8>>,
            Seq<char>,
        >("Failed to decode request body: "@ + base64_decoded(body->Some_0@)->Err_0),
{
}

/// The text of the answer sent when the local server cannot be reached.
pub open spec fn client_error_text(err: Seq<char>) -> Seq<char> {
    "LocaGate client error: "@ + err
}

/// The answer for request `request_id` when forwarding it failed with
/// `err`: status 502, a plain-text content type, and the error message,
/// base64-encoded from its UTF-8 bytes, as the body. (The body is left out
/// only for a message too long to encode, which no real string is.)
pub fn error_response(request_id: &str, err: &str) -> (r: TunnelResponse)
    ensures
        r.msg_type@ == "response"@,
        r.id@ == request_id@,
        r.status == 502,
        r.headers@.len() == 1,
        r.headers@[0].0@ == "content-type"@,
        r.headers@[0].1@ == "text/plain"@,
        r.body.is_some() == (encode_utf8(client_error_text(err@)).len() <= usize::MAX / 2),
        r.body matches Some(b) ==> b@ == base64_encoded(encode_utf8(client_error_text(err@))),
        r.body matches Some(b) ==> base64_decoded(b@) == Ok::<Seq<u8>, Seq<char>>(
            encode_utf8(client_error_text(err@)),
        ),
{
    let text = join2("LocaGate client error: ", err);
    let bytes = text.as_str().as_bytes();
    let body = if bytes.len() <= usize::MAX / 2 {
        Some(base64_encode(bytes))
    } else {
        None
    };
    let mut headers: Headers = Vec::new();
    headers.push((owned("content-type"), owned("text/plain")));
    TunnelResponse { msg_type: owned("response"), id: owned(request_id), status: 502, headers, body }
}

/// The answer built from the local server's reply: its status and headers,
/// and its body base64-encoded (the body is left out only for one too long
/// to encode, which no real reply is).
pub fn local_response(request_id: String, status: u16, headers: Headers, body: &[u8]) -> (r:
    TunnelResponse)
    ensures
        r.msg_type@ == "response"@,
        r.id == request_id,
        r.status == status,
        r.headers == headers,
        r.body.is_some() == (body@.len() <= usize::MAX / 2),
        r.body matches Some(b) ==> b@ == base64_encoded(body@),
        r.body matches Some(b) ==> base64_decoded(b@) == Ok::<Seq<u8>, Seq<char>>(body@),
{
    let encoded = if body.len() <= usize::MAX / 2 {
        Some(base64_encode(body))
    } else {
        None
    };
    TunnelResponse { msg_type: owned("response"), id: request_id, status, headers, body: encoded }
}

/// What the inspector keeps of a request that tunnel `local_addr` forwarded
/// and of its answer, at time `now`. Each body is kept only when it decodes
/// to at most 512 KiB.
pub fn build_request_details(
    req: &TunnelRequest,
    resp: &TunnelResponse,
    local_addr: &str,
    now: u64,
) -> (r: RequestDetails)
    ensures
        r.url@ == public_url_of(req.headers@, req.path@),
        r.local_url@ == local_base(local_addr@) + req.path@,
        r.request_headers@ == req.headers@,
        r.request_body == kept_body(req.body),
        r.response_headers@ == resp.headers@,
        r.response_body == kept_body(resp.body),
        r.timestamp == now,
{
    RequestDetails {
        url: public_request_url(&req.headers, req.path.as_str()),
        local_url: local_target_url(local_addr, req.path.as_str()),
        request_headers: copy_headers(&req.headers),
        request_body: cached_body(&req.body),
        response_headers: copy_headers(&resp.headers),
        response_body: cached_body(&resp.body),
        timestamp: now,
    }
}

} // verus!
