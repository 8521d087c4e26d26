//! What the desktop interface decides about what it shows: the status pill
//! of a tunnel, its public address, the request log's filtering, and the
//! styles that follow from a value.
use vstd::prelude::*;
use crate::config::TunnelType;
use crate::logs::RequestLogEntry;
use crate::tunnel::LinkStatus;
use crate::text::{
    ascii_lowered, contains, has_substring, is_ascii, is_prefix_of, join3, lowercase, occurs_at, owned,
    str_eq, strip_prefix, to_lowercase,
};

verus! {

/// The interface's copy of a log line.
pub type RequestLog = RequestLogEntry;

// ---------------------------------------------------------------------------
// Status pill
// ---------------------------------------------------------------------------

/// The style class of a status pill: "online" for a connected tunnel,
/// "error" for a failed connection, else the status in lowercase.
pub open spec fn status_class_of(status: Seq<char>) -> Seq<char> {
    if status == "connected"@ {
        "online"@
    } else if status == "connecting_error"@ {
        "error"@
    } else {
        lowercase(status)
    }
}

/// The style class of the status pill for `status`.
pub fn status_pill_class(status: &str) -> (r: String)
    ensures
        r@ == status_class_of(status@),
{
    if str_eq(status, "connected") {
        owned("online")
    } else if str_eq(status, "connecting_error") {
        owned("error")
    } else {
        to_lowercase(status)
    }
}

/// The text a status pill shows.
pub open spec fn status_label_of(status: Seq<char>) -> Seq<char> {
    if status == "connecting_error"@ {
        "CONN ERR"@
    } else if status == "connecting"@ {
        "CONNECTING"@
    } else if status == "connected"@ {
        "ONLINE"@
    } else if status == "disconnected"@ {
        "OFFLINE"@
    } else if status == "stopped"@ {
        "STOPPED"@
    } else {
        "IDLE"@
    }
}

/// The text the status pill for `status` shows.
pub fn status_pill_label(status: &str) -> (r: String)
    ensures
        r@ == status_label_of(status@),
{
    if str_eq(status, "connecting_error") {
        owned("CONN ERR")
    } else if str_eq(status, "connecting") {
        owned("CONNECTING")
    } else if str_eq(status, "connected") {
        owned("ONLINE")
    } else if str_eq(status, "disconnected") {
        owned("OFFLINE")
    } else if str_eq(status, "stopped") {
        owned("STOPPED")
    } else {
        owned("IDLE")
    }
}

/// Every status a tunnel reports has a label of its own on the pill (none
/// shows as idle), and the card treats a tunnel as active exactly while it
/// is connecting, connected, or failing to connect.
pub proof fn lemma_reported_statuses_are_labelled(s: LinkStatus)
    ensures
        status_label_of(s.spec_name()) != "IDLE"@,
        is_active_status(s.spec_name()) <==> (s == LinkStatus::Connecting || s
            == LinkStatus::Connected || s == LinkStatus::ConnectingError),
{
    reveal_strlit("connecting");
    reveal_strlit("connected");
    reveal_strlit("connecting_error");
    reveal_strlit("disconnected");
    reveal_strlit("stopped");
    reveal_strlit("IDLE");
    reveal_strlit("CONN ERR");
    reveal_strlit("CONNECTING");
    reveal_strlit("ONLINE");
    reveal_strlit("OFFLINE");
    reveal_strlit("STOPPED");
    assert("connecting"@.len() == 10);
    assert("connected"@.len() == 9);
    assert("connecting_error"@.len() == 16);
    assert("disconnected"@.len() == 12);
    assert("stopped"@.len() == 7);
    assert("IDLE"@.len() == 4);
    assert("CONN ERR"@.len() == 8);
    assert("CONNECTING"@.len() == 10);
    assert("ONLINE"@.len() == 6);
    assert("OFFLINE"@.len() == 7);
    assert("STOPPED"@.len() == 7);
    assert("connecting"@[8] != "connected"@[8]);
}

// ---------------------------------------------------------------------------
// Buttons and tunnel cards
// ---------------------------------------------------------------------------

/// The style class of a button of the given variant ("primary" when the
/// variant is unknown).
pub open spec fn button_class_of(variant: Seq<char>) -> Seq<char> {
    if variant == "secondary"@ {
        "ds-btn-secondary"@
    } else if variant == "ghost"@ {
        "ds-btn-ghost"@
    } else if variant == "danger"@ {
        "ds-btn-danger"@
    } else {
        "ds-btn-primary"@
    }
}

/// The style class of a button of the given variant.
pub fn button_variant_class(variant: &str) -> (r: String)
    ensures
        r@ == button_class_of(variant@),
{
    if str_eq(variant, "secondary") {
        owned("ds-btn-secondary")
    } else if str_eq(variant, "ghost") {
        owned("ds-btn-ghost")
    } else if str_eq(variant, "danger") {
        owned("ds-btn-danger")
    } else {
        owned("ds-btn-primary")
    }
}

/// A tunnel with this status is running or trying to: it can be stopped,
/// but not edited or deleted.
pub open spec fn is_active_status(status: Seq<char>) -> bool {
    status == "connected"@ || status == "connecting"@ || status == "connecting_error"@
}

/// Whether a tunnel with this status is running or trying to.
pub fn tunnel_is_active(status: &str) -> (r: bool)
    ensures
        r == is_active_status(status@),
{
    str_eq(status, "connected") || str_eq(status, "connecting") || str_eq(status, "connecting_error")
}

/// The label of a tunnel type on its card.
pub open spec fn type_label_of(t: TunnelType) -> Seq<char> {
    match t {
        TunnelType::Port => "Port Proxy"@,
        TunnelType::VirtualDomain => "V-Domain"@,
    }
}

/// The label of a tunnel type on its card.
pub fn tunnel_type_label(t: TunnelType) -> (r: String)
    ensures
        r@ == type_label_of(t),
{
    match t {
        TunnelType::Port => owned("Port Proxy"),
        TunnelType::VirtualDomain => owned("V-Domain"),
    }
}

/// The public address of tunnel `id` on the relay at `worker_url`: a path
/// under a local relay (one on `localhost` or `127.0.0.1`), else a
/// subdomain of the relay's host, with the relay's scheme (`https` when it
/// has none).
pub open spec fn public_url_for(worker_url: Seq<char>, id: Seq<char>) -> Seq<char> {
    if has_substring(worker_url, "localhost"@) || has_substring(worker_url, "127.0.0.1"@) {
        worker_url + "/t/"@ + id + "/"@
    } else if is_prefix_of("https://"@, worker_url) {
        "https://"@ + id + "."@ + worker_url.skip(8)
    } else if is_prefix_of("http://"@, worker_url) {
        "http://"@ + id + "."@ + worker_url.skip(7)
    } else {
        "https://"@ + id + "."@ + worker_url
    }
}

/// The public address of tunnel `id` on the relay at `worker_url`.
pub fn tunnel_public_url(worker_url: &str, id: &str) -> (r: String)
    ensures
        r@ == public_url_for(worker_url@, id@),
{
    proof {
        reveal_strlit("https://");
        reveal_strlit("http://");
    }
    if contains(worker_url, "localhost") || contains(worker_url, "127.0.0.1") {
        let mut r = join3(worker_url, "/t/", id);
        r.append("/");
        r
    } else {
        match strip_prefix(worker_url, "https://") {
            Some(stripped) => {
                let mut r = join3("https://", id, ".");
                r.append(stripped.as_str());
                r
            },
            None => match strip_prefix(worker_url, "http://") {
                Some(stripped) => {
                    let mut r = join3("http://", id, ".");
                    r.append(stripped.as_str());
                    r
                },
                None => {
                    let mut r = join3("https://", id, ".");
                    r.append(worker_url);
                    r
                },
            },
        }
    }
}

/// The status shown for tunnel `id`: the last status it reported, or
/// "stopped" when it has reported none.
pub open spec fn shown_status(statuses: Seq<(String, String)>, id: Seq<char>) -> Seq<char>
    decreases statuses.len(),
{
    if statuses.len() == 0 {
        "stopped"@
    } else if statuses.last().0@ == id {
        statuses.last().1@
    } else {
        shown_status(statuses.drop_last(), id)
    }
}

/// The status shown for tunnel `id`, from the statuses received so far
/// (oldest first).
pub fn tunnel_status(statuses: &Vec<(String, String)>, id: &str) -> (r: String)
    ensures
        r@ == shown_status(statuses@, id@),
{
    let mut i: usize = statuses.len();
    assert(statuses@.take(i as int) =~= statuses@);
    while i > 0
        invariant
            i <= statuses.len(),
            shown_status(statuses@, id@) == shown_status(statuses@.take(i as int), id@),
        decreases i,
    {
        assert(statuses@.take(i as int).drop_last() =~= statuses@.take(i - 1));
        if str_eq(statuses[i - 1].0.as_str(), id) {
            return statuses[i - 1].1.clone();
        }
        i = i - 1;
    }
    owned("stopped")
}

/// No two reported statuses belong to the same tunnel.
pub open spec fn distinct_tunnel_ids(statuses: Seq<(String, String)>) -> bool {
    forall|i: int, j: int|
        0 <= i < statuses.len() && 0 <= j < statuses.len() && i != j ==> #[trigger] statuses[i].0@
            != #[trigger] statuses[j].0@
}

/// The position of the first status of tunnel `id`, or -1.
pub open spec fn status_position(statuses: Seq<(String, String)>, id: Seq<char>) -> int
    decreases statuses.len(),
{
    if statuses.len() == 0 {
        -1
    } else {
        let p = status_position(statuses.drop_last(), id);
        if p >= 0 {
            p
        } else if statuses.last().0@ == id {
            statuses.len() - 1
        } else {
            -1
        }
    }
}

/// The statuses after tunnel `id` reports `status`: its entry is replaced
/// where it stands, or a new entry is appended.
pub open spec fn status_recorded(statuses: Seq<(String, String)>, id: String, status: String) -> Seq<
    (String, String),
> {
    let p = status_position(statuses, id@);
    if p >= 0 {
        statuses.update(p, (id, status))
    } else {
        statuses.push((id, status))
    }
}

/// [`status_position`] finds the first status of the tunnel, or gives -1
/// when there is none.
pub proof fn lemma_status_position(statuses: Seq<(String, String)>, id: Seq<char>)
    ensures
        -1 <= status_position(statuses, id) < statuses.len(),
        status_position(statuses, id) >= 0 ==> statuses[status_position(statuses, id)].0@ == id,
        status_position(statuses, id) >= 0 ==> forall|k: int|
            0 <= k < status_position(statuses, id) ==> statuses[k].0@ != id,
        status_position(statuses, id) == -1 <==> forall|k: int|
            0 <= k < statuses.len() ==> statuses[k].0@ != id,
    decreases statuses.len(),
{
    if statuses.len() > 0 {
        lemma_status_position(statuses.drop_last(), id);
        assert forall|k: int| 0 <= k < statuses.len() - 1 implies statuses.drop_last()[k]
            == statuses[k] by {}
    }
}

/// With one entry per tunnel, the status shown for a tunnel is that of its
/// entry, or "stopped" when it has none.
proof fn lemma_shown_is_entry(statuses: Seq<(String, String)>, id: Seq<char>, i: int)
    requires
        distinct_tunnel_ids(statuses),
        0 <= i < statuses.len(),
        statuses[i].0@ == id,
    ensures
        shown_status(statuses, id) == statuses[i].1@,
    decreases statuses.len(),
{
    if i < statuses.len() - 1 {
        assert(statuses.last().0@ != id);
        assert(statuses.drop_last()[i] == statuses[i]);
        lemma_shown_is_entry(statuses.drop_last(), id, i);
    }
}

/// A tunnel with no entry shows "stopped".
proof fn lemma_shown_without_entry(statuses: Seq<(String, String)>, id: Seq<char>)
    requires
        forall|k: int| 0 <= k < statuses.len() ==> statuses[k].0@ != id,
    ensures
        shown_status(statuses, id) == "stopped"@,
    decreases statuses.len(),
{
    if statuses.len() > 0 {
        assert(statuses.last().0@ != id);
        lemma_shown_without_entry(statuses.drop_last(), id);
    }
}

/// Recording a status keeps one entry per tunnel.
proof fn lemma_recorded_distinct(statuses: Seq<(String, String)>, id: String, status: String)
    requires
        distinct_tunnel_ids(statuses),
    ensures
        distinct_tunnel_ids(status_recorded(statuses, id, status)),
{
    lemma_status_position(statuses, id@);
    let p = status_position(statuses, id@);
    let r = status_recorded(statuses, id, status);
    assert forall|a: int, b: int| 0 <= a < r.len() && 0 <= b < r.len() && a != b implies #[trigger] r[a].0@
        != #[trigger] r[b].0@ by {
        if p >= 0 {
            if a != p && b != p {
                assert(statuses[a].0@ != statuses[b].0@);
            } else if a == p {
                assert(statuses[b].0@ != statuses[p].0@);
            } else {
                assert(statuses[a].0@ != statuses[p].0@);
            }
        } else if a < statuses.len() && b < statuses.len() {
            assert(statuses[a].0@ != statuses[b].0@);
        }
    }
}

/// Once tunnel `id` reports `status`, the interface shows `status` for it,
/// and every other tunnel's shown status stays as it was.
pub proof fn lemma_recorded_status_is_shown(
    statuses: Seq<(String, String)>,
    id: String,
    status: String,
    other: Seq<char>,
)
    requires
        distinct_tunnel_ids(statuses),
    ensures
        shown_status(status_recorded(statuses, id, status), id@) == status@,
        other != id@ ==> shown_status(status_recorded(statuses, id, status), other)
            == shown_status(statuses, other),
{
    lemma_status_position(statuses, id@);
    lemma_recorded_distinct(statuses, id, status);
    let p = status_position(statuses, id@);
    let r = status_recorded(statuses, id, status);
    let q = if p >= 0 { p } else { statuses.len() as int };
    assert(r[q] == (id, status));
    lemma_shown_is_entry(r, id@, q);
    if other != id@ {
        if exists|k: int| 0 <= k < statuses.len() && statuses[k].0@ == other {
            let k = choose|k: int| 0 <= k < statuses.len() && statuses[k].0@ == other;
            assert(k != q);
            assert(r[k] == statuses[k]);
            lemma_shown_is_entry(statuses, other, k);
            lemma_shown_is_entry(r, other, k);
        } else {
            lemma_shown_without_entry(statuses, other);
            assert forall|k: int| 0 <= k < r.len() implies r[k].0@ != other by {
                if k != q {
                    assert(r[k] == statuses[k]);
                }
            }
            lemma_shown_without_entry(r, other);
        }
    }
}

/// Records that tunnel `id` reported `status` (see [`status_recorded`]).
pub fn record_status(statuses: &mut Vec<(String, String)>, id: String, status: String)
    ensures
        final(statuses)@ == status_recorded(old(statuses)@, id, status),
        distinct_tunnel_ids(old(statuses)@) ==> distinct_tunnel_ids(final(statuses)@),
{
    proof {
        lemma_status_position(old(statuses)@, id@);
        if distinct_tunnel_ids(old(statuses)@) {
            lemma_recorded_distinct(old(statuses)@, id, status);
        }
    }
    let n = statuses.len();
    let mut i: usize = 0;
    while i < n
        invariant
            n == statuses.len(),
            statuses@ == old(statuses)@,
            i <= n,
            forall|k: int| 0 <= k < i ==> statuses@[k].0@ != id@,
        decreases n - i,
    {
        if str_eq(statuses[i].0.as_str(), id.as_str()) {
            proof {
                lemma_status_position(statuses@, id@);
                let p = status_position(statuses@, id@);
                assert(statuses@[i as int].0@ == id@);
                assert(p != -1);
                if p < i {
                    assert(statuses@[p].0@ != id@);
                }
                assert(p == i);
            }
            statuses.set(i, (id, status));
            assert(statuses@ =~= old(statuses)@.update(i as int, (id, status)));
            return;
        }
        i = i + 1;
    }
    statuses.push((id, status));
}

// ---------------------------------------------------------------------------
// The request log view
// ---------------------------------------------------------------------------

/// The style class of an HTTP status: 2xx, 3xx, and everything else shown
/// as an error.
pub open spec fn status_code_class_of(status: u16) -> Seq<char> {
    if 200 <= status <= 299 {
        "status-2xx"@
    } else if 300 <= status <= 399 {
        "status-3xx"@
    } else {
        "status-5xx"@
    }
}

/// The style class of an HTTP status.
pub fn status_code_class(status: u16) -> (r: String)
    ensures
        r@ == status_code_class_of(status),
{
    if 200 <= status && status <= 299 {
        owned("status-2xx")
    } else if 300 <= status && status <= 399 {
        owned("status-3xx")
    } else {
        owned("status-5xx")
    }
}

/// The entry passes the filter: "all" passes everything, any other filter
/// passes the entries of that category.
pub open spec fn passes_filter(e: RequestLog, filter: Seq<char>) -> bool {
    filter == "all"@ || e.category@ == filter
}

/// The entries of `logs` that pass `filter`, newest first.
pub open spec fn visible_logs(logs: Seq<RequestLog>, filter: Seq<char>) -> Seq<RequestLog>
    decreases logs.len(),
{
    if logs.len() == 0 {
        logs
    } else if passes_filter(logs.last(), filter) {
        seq![logs.last()] + visible_logs(logs.drop_last(), filter)
    } else {
        visible_logs(logs.drop_last(), filter)
    }
}

/// The test "the line's category is `category`".
pub open spec fn in_category(category: Seq<char>) -> spec_fn(RequestLog) -> bool {
    |e: RequestLog| e.category@ == category
}

/// The lines a filter keeps, oldest first: all of them for "all", else
/// those whose category is the filter.
pub open spec fn kept_by_filter(logs: Seq<RequestLog>, filter: Seq<char>) -> Seq<RequestLog> {
    if filter == "all"@ {
        logs
    } else {
        logs.filter(in_category(filter))
    }
}

/// Reversing a sequence with one more element puts that element first.
proof fn lemma_reverse_push(s: Seq<RequestLog>, x: RequestLog)
    ensures
        s.push(x).reverse() == seq![x] + s.reverse(),
{
    assert(s.push(x).reverse() =~= seq![x] + s.reverse());
}

/// A filter shows every line for "all", and otherwise exactly the lines
/// whose category equals the filter; in both cases unchanged and newest
/// first. So under a category tab no line of another category appears.
pub proof fn lemma_filter_shows_matching(logs: Seq<RequestLog>, filter: Seq<char>)
    ensures
        visible_logs(logs, filter) == kept_by_filter(logs, filter).reverse(),
        filter != "all"@ ==> forall|i: int|
            0 <= i < visible_logs(logs, filter).len() ==> (#[trigger] visible_logs(
                logs,
                filter,
            )[i]).category@ == filter,
    decreases logs.len(),
{
    reveal(Seq::filter);
    if logs.len() == 0 {
        assert(kept_by_filter(logs, filter).reverse() =~= Seq::<RequestLog>::empty());
    } else {
        lemma_filter_shows_matching(logs.drop_last(), filter);
        let k = kept_by_filter(logs.drop_last(), filter);
        if filter == "all"@ {
            assert(logs == logs.drop_last().push(logs.last()));
            lemma_reverse_push(logs.drop_last(), logs.last());
        } else if logs.last().category@ == filter {
            lemma_reverse_push(k, logs.last());
        }
    }
    let v = visible_logs(logs, filter);
    if filter != "all"@ {
        let pred = in_category(filter);
        let kf = kept_by_filter(logs, filter);
        assert forall|i: int| 0 <= i < v.len() implies (#[trigger] v[i]).category@ == filter by {
            assert(v[i] == kf[kf.len() - 1 - i]);
            logs.lemma_filter_pred(pred, kf.len() - 1 - i);
        }
    }
}

/// The log lines to show for `filter`, newest first.
pub fn filter_logs(logs: &Vec<RequestLog>, filter: &str) -> (r: Vec<RequestLog>)
    ensures
        r@ == visible_logs(logs@, filter@),
{
    let mut r: Vec<RequestLog> = Vec::new();
    let mut i: usize = logs.len();
    let all = str_eq(filter, "all");
    assert(logs@.take(logs.len() as int) =~= logs@);
    while i > 0
        invariant
            i <= logs.len(),
            all == (filter@ == "all"@),
            r@ + visible_logs(logs@.take(i as int), filter@) == visible_logs(logs@, filter@),
        decreases i,
    {
        let ghost before = r@;
        let ghost t = logs@.take(i as int);
        assert(t.drop_last() =~= logs@.take(i - 1));
        if all || str_eq(logs[i - 1].category.as_str(), filter) {
            r.push(logs[i - 1].clone());
            assert(before.push(t.last()) + visible_logs(t.drop_last(), filter@) =~= before + (
            seq![t.last()] + visible_logs(t.drop_last(), filter@)));
        }
        i = i - 1;
    }
    assert(r@ + visible_logs(logs@.take(0), filter@) =~= r@);
    r
}

/// The position of the first entry for request `id`, or -1.
pub open spec fn log_position(logs: Seq<RequestLog>, id: Seq<char>) -> int
    decreases logs.len(),
{
    if logs.len() == 0 {
        -1
    } else {
        let p = log_position(logs.drop_last(), id);
        if p >= 0 {
            p
        } else if logs.last().request_id@ == id {
            logs.len() - 1
        } else {
            -1
        }
    }
}

/// The first log line of request `id`, if any (what the inspector shows).
pub fn find_log(logs: &Vec<RequestLog>, id: &str) -> (r: Option<RequestLog>)
    ensures
        r.is_some() == (log_position(logs@, id@) >= 0),
        r matches Some(e) ==> e == logs@[log_position(logs@, id@)],
{
    let mut i: usize = 0;
    assert(logs@.take(0) =~= Seq::<RequestLog>::empty());
    while i < logs.len()
        invariant
            i <= logs.len(),
            log_position(logs@.take(i as int), id@) == -1,
        decreases logs.len() - i,
    {
        let ghost t = logs@.take(i + 1);
        assert(t.drop_last() =~= logs@.take(i as int));
        if str_eq(logs[i].request_id.as_str(), id) {
            proof {
                lemma_log_position_prefix(logs@, id@, i as int);
            }
            return Some(logs[i].clone());
        }
        i = i + 1;
    }
    assert(logs@.take(logs.len() as int) =~= logs@);
    None
}

/// When no entry before `i` is for `id` and entry `i` is, the first entry
/// for `id` is at `i`.
proof fn lemma_log_position_prefix(logs: Seq<RequestLog>, id: Seq<char>, i: int)
    requires
        0 <= i < logs.len(),
        log_position(logs.take(i), id) == -1,
        logs[i].request_id@ == id,
    ensures
        log_position(logs, id) == i,
    decreases logs.len(),
{
    if logs.len() - 1 == i {
        assert(logs.drop_last() =~= logs.take(i));
    } else {
        assert(logs.drop_last().take(i) =~= logs.take(i));
        lemma_log_position_prefix(logs.drop_last(), id, i);
    }
}

/// How many clicks on the "status: online" footer reveal the relay
/// settings (the worker URL and the token).
pub const DEV_SETTINGS_CLICKS: u32 = 3;

/// The footer's click count after one more click; it stops counting once
/// the relay settings are revealed.
pub fn footer_clicked(clicks: u32) -> (r: u32)
    ensures
        r == if clicks >= DEV_SETTINGS_CLICKS { DEV_SETTINGS_CLICKS as int } else { clicks + 1 },
{
    if clicks >= DEV_SETTINGS_CLICKS {
        DEV_SETTINGS_CLICKS
    } else {
        clicks + 1
    }
}

/// Whether the relay settings are shown after `clicks` clicks on the
/// footer.
pub fn relay_settings_shown(clicks: u32) -> (r: bool)
    ensures
        r == (clicks >= DEV_SETTINGS_CLICKS),
{
    clicks >= DEV_SETTINGS_CLICKS
}

/// The footer's click count after `n` clicks from a fresh start.
pub open spec fn footer_count(n: nat) -> int
    decreases n,
{
    if n == 0 {
        0
    } else {
        let c = footer_count((n - 1) as nat);
        if c >= DEV_SETTINGS_CLICKS { DEV_SETTINGS_CLICKS as int } else { c + 1 }
    }
}

/// The relay settings stay hidden for the first two clicks on the footer,
/// appear at the third, and stay shown after any further clicks; the count
/// never exceeds three, so it cannot overflow.
pub proof fn lemma_third_click_reveals(n: nat)
    ensures
        0 <= footer_count(n) <= DEV_SETTINGS_CLICKS,
        n < DEV_SETTINGS_CLICKS ==> footer_count(n) == n,
        (footer_count(n) >= DEV_SETTINGS_CLICKS) == (n >= DEV_SETTINGS_CLICKS),
    decreases n,
{
    if n > 0 {
        lemma_third_click_reveals((n - 1) as nat);
    }
}

// ---------------------------------------------------------------------------
// What the interface shows, stated on its own
// ---------------------------------------------------------------------------

/// The pill of each status a tunnel reports: connecting shows CONNECTING,
/// connected shows ONLINE in the online style, a failed attempt shows CONN
/// ERR in the error style, disconnected shows OFFLINE and stopped shows
/// STOPPED, each of the last three in the style named by the status itself.
pub proof fn lemma_status_pills(s: LinkStatus)
    ensures
        status_label_of(s.spec_name()) == match s {
            LinkStatus::Connecting => "CONNECTING"@,
            LinkStatus::Connected => "ONLINE"@,
            LinkStatus::ConnectingError => "CONN ERR"@,
            LinkStatus::Disconnected => "OFFLINE"@,
            LinkStatus::Stopped => "STOPPED"@,
        },
        status_class_of(s.spec_name()) == match s {
            LinkStatus::Connecting => "connecting"@,
            LinkStatus::Connected => "online"@,
            LinkStatus::ConnectingError => "error"@,
            LinkStatus::Disconnected => "disconnected"@,
            LinkStatus::Stopped => "stopped"@,
        },
{
    reveal_strlit("connecting");
    reveal_strlit("connected");
    reveal_strlit("connecting_error");
    reveal_strlit("disconnected");
    reveal_strlit("stopped");
    assert("connecting"@[8] != "connected"@[8]);
    assert(is_ascii("connecting"@) && ascii_lowered("connecting"@) =~= "connecting"@);
    assert(is_ascii("disconnected"@) && ascii_lowered("disconnected"@) =~= "disconnected"@);
    assert(is_ascii("stopped"@) && ascii_lowered("stopped"@) =~= "stopped"@);
}

/// A button's style follows its variant: secondary, ghost and danger have
/// their own styles, and every other variant is styled as primary.
pub proof fn lemma_button_styles(variant: Seq<char>)
    ensures
        variant == "secondary"@ ==> button_class_of(variant) == "ds-btn-secondary"@,
        variant == "ghost"@ ==> button_class_of(variant) == "ds-btn-ghost"@,
        variant == "danger"@ ==> button_class_of(variant) == "ds-btn-danger"@,
        variant != "secondary"@ && variant != "ghost"@ && variant != "danger"@ ==> button_class_of(
            variant,
        ) == "ds-btn-primary"@,
{
    reveal_strlit("secondary");
    reveal_strlit("ghost");
    reveal_strlit("danger");
    assert("ghost"@ != "secondary"@) by {
        assert("ghost"@[0] != "secondary"@[0]);
    }
    assert("danger"@ != "secondary"@ && "danger"@ != "ghost"@) by {
        assert("danger"@[0] != "secondary"@[0] && "danger"@[0] != "ghost"@[0]);
    }
}

/// A response status is styled by its class: 200 to 299 as success, 300
/// to 399 as redirect, and every other status, 0 for a pending request
/// among them, as an error.
pub proof fn lemma_status_code_styles(status: u16)
    ensures
        200 <= status < 300 ==> status_code_class_of(status) == "status-2xx"@,
        300 <= status < 400 ==> status_code_class_of(status) == "status-3xx"@,
        (status < 200 || status >= 400) ==> status_code_class_of(status) == "status-5xx"@,
{
}

/// A tunnel card shows "Port Proxy" for a port tunnel and "V-Domain" for a
/// virtual domain, and counts a tunnel as running exactly while its status
/// is connecting, connected or connecting_error.
pub proof fn lemma_card_labels(t: TunnelType, status: Seq<char>)
    ensures
        t == TunnelType::Port ==> type_label_of(t) == "Port Proxy"@,
        t == TunnelType::VirtualDomain ==> type_label_of(t) == "V-Domain"@,
        is_active_status(status) <==> (status == "connecting"@ || status == "connected"@ || status
            == "connecting_error"@),
{
}

/// A tunnel's public address: under a relay on `localhost` or `127.0.0.1`
/// the path `/t/<id>/` of the relay; otherwise the subdomain `<id>.` of the
/// relay's host, keeping an `http://` scheme and using `https://` in every
/// other case. The tunnel's id always appears in it.
pub proof fn lemma_public_address(worker_url: Seq<char>, id: Seq<char>, host: Seq<char>)
    ensures
        (has_substring(worker_url, "localhost"@) || has_substring(worker_url, "127.0.0.1"@))
            ==> public_url_for(worker_url, id) == worker_url + "/t/"@ + id + "/"@,
        !has_substring("https://"@ + host, "localhost"@) && !has_substring(
            "https://"@ + host,
            "127.0.0.1"@,
        ) ==> public_url_for("https://"@ + host, id) == "https://"@ + id + "."@ + host,
        !has_substring("http://"@ + host, "localhost"@) && !has_substring(
            "http://"@ + host,
            "127.0.0.1"@,
        ) && !is_prefix_of("https://"@, "http://"@ + host) ==> public_url_for(
            "http://"@ + host,
            id,
        ) == "http://"@ + id + "."@ + host,
        !has_substring(worker_url, "localhost"@) && !has_substring(worker_url, "127.0.0.1"@)
            && !is_prefix_of("https://"@, worker_url) && !is_prefix_of("http://"@, worker_url)
            ==> public_url_for(worker_url, id) == "https://"@ + id + "."@ + worker_url,
        has_substring(public_url_for(worker_url, id), id),
{
    reveal_strlit("https://");
    reveal_strlit("http://");
    reveal_strlit("/t/");
    reveal_strlit("/");
    reveal_strlit(".");
    let hs = "https://"@ + host;
    assert(hs.take(8) =~= "https://"@);
    assert(hs.skip(8) =~= host);
    let h = "http://"@ + host;
    assert(h.take(7) =~= "http://"@);
    assert(h.skip(7) =~= host);
    let u = public_url_for(worker_url, id);
    if has_substring(worker_url, "localhost"@) || has_substring(worker_url, "127.0.0.1"@) {
        let k: int = worker_url.len() as int + 3;
        assert(u.subrange(k, k + id.len() as int) =~= id);
        assert(occurs_at(u, id, k));
    } else if is_prefix_of("https://"@, worker_url) {
        assert(u.subrange(8, 8 + id.len() as int) =~= id);
        assert(occurs_at(u, id, 8));
    } else if is_prefix_of("http://"@, worker_url) {
        assert(u.subrange(7, 7 + id.len() as int) =~= id);
        assert(occurs_at(u, id, 7));
    } else {
        assert(u.subrange(8, 8 + id.len() as int) =~= id);
        assert(occurs_at(u, id, 8));
    }
}

/// The inspector opens the first log line of a request: the line found is
/// one of that request, and no earlier line is; a request with no line
/// finds none.
pub proof fn lemma_found_log_is_first(logs: Seq<RequestLog>, id: Seq<char>)
    ensures
        log_position(logs, id) >= 0 ==> log_position(logs, id) < logs.len() && logs[log_position(
            logs,
            id,
        )].request_id@ == id && forall|k: int|
            0 <= k < log_position(logs, id) ==> logs[k].request_id@ != id,
        log_position(logs, id) < 0 <==> forall|k: int|
            0 <= k < logs.len() ==> logs[k].request_id@ != id,
    decreases logs.len(),
{
    if logs.len() > 0 {
        lemma_found_log_is_first(logs.drop_last(), id);
        assert forall|k: int| 0 <= k < logs.len() - 1 implies logs.drop_last()[k] == logs[k] by {}
    }
}

} // verus!
