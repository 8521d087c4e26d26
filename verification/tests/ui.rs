use locagate::tunnel::LinkStatus;
use locagate::config::TunnelType;
use locagate::logs::RequestLogEntry;
use locagate::ui::{
    footer_clicked, record_status, relay_settings_shown,
    button_variant_class, filter_logs, find_log, status_code_class, status_pill_class,
    status_pill_label, tunnel_is_active, tunnel_public_url, tunnel_status, tunnel_type_label,
};

#[test]
fn status_pills() {
    assert_eq!(status_pill_class("connected"), "online");
    assert_eq!(status_pill_class("connecting_error"), "error");
    assert_eq!(status_pill_class("Stopped"), "stopped");
    assert_eq!(status_pill_label("connecting_error"), "CONN ERR");
    assert_eq!(status_pill_label("connecting"), "CONNECTING");
    assert_eq!(status_pill_label("connected"), "ONLINE");
    assert_eq!(status_pill_label("disconnected"), "OFFLINE");
    assert_eq!(status_pill_label("stopped"), "STOPPED");
    assert_eq!(status_pill_label("whatever"), "IDLE");
}

#[test]
fn buttons() {
    assert_eq!(button_variant_class("primary"), "ds-btn-primary");
    assert_eq!(button_variant_class("secondary"), "ds-btn-secondary");
    assert_eq!(button_variant_class("ghost"), "ds-btn-ghost");
    assert_eq!(button_variant_class("danger"), "ds-btn-danger");
    assert_eq!(button_variant_class("fancy"), "ds-btn-primary");
}

#[test]
fn cards() {
    assert!(tunnel_is_active("connected"));
    assert!(tunnel_is_active("connecting"));
    assert!(tunnel_is_active("connecting_error"));
    assert!(!tunnel_is_active("stopped"));
    assert_eq!(tunnel_type_label(TunnelType::Port), "Port Proxy");
    assert_eq!(tunnel_type_label(TunnelType::VirtualDomain), "V-Domain");
}

#[test]
fn card_public_urls() {
    assert_eq!(tunnel_public_url("http://localhost:8787", "t1"), "http://localhost:8787/t/t1/");
    assert_eq!(tunnel_public_url("http://127.0.0.1:8787", "t1"), "http://127.0.0.1:8787/t/t1/");
    assert_eq!(tunnel_public_url("https://relay.dev", "t1"), "https://t1.relay.dev");
    assert_eq!(tunnel_public_url("http://relay.dev", "t1"), "http://t1.relay.dev");
    assert_eq!(tunnel_public_url("relay.dev", "t1"), "https://t1.relay.dev");
}

#[test]
fn statuses() {
    let s = vec![
        ("a".to_string(), "connecting".to_string()),
        ("b".to_string(), "connected".to_string()),
        ("a".to_string(), "connected".to_string()),
    ];
    assert_eq!(tunnel_status(&s, "a"), "connected");
    assert_eq!(tunnel_status(&s, "c"), "stopped");
}

#[test]
fn status_codes() {
    assert_eq!(status_code_class(200), "status-2xx");
    assert_eq!(status_code_class(299), "status-2xx");
    assert_eq!(status_code_class(304), "status-3xx");
    assert_eq!(status_code_class(404), "status-5xx");
    assert_eq!(status_code_class(0), "status-5xx");
}

fn log(id: &str, category: &str) -> RequestLogEntry {
    RequestLogEntry {
        tunnel_id: "t".to_string(),
        request_id: id.to_string(),
        method: "GET".to_string(),
        path: "/".to_string(),
        status: 200,
        duration_ms: 1,
        timestamp: 1,
        category: category.to_string(),
    }
}

#[test]
fn log_filtering_newest_first() {
    let logs = vec![log("1", "fetch"), log("2", "image"), log("3", "fetch")];
    let all: Vec<_> = filter_logs(&logs, "all").into_iter().map(|e| e.request_id).collect();
    assert_eq!(all, vec!["3", "2", "1"]);
    let fetch: Vec<_> = filter_logs(&logs, "fetch").into_iter().map(|e| e.request_id).collect();
    assert_eq!(fetch, vec!["3", "1"]);
    assert!(filter_logs(&logs, "other").is_empty());
}

#[test]
fn finding_logs() {
    let logs = vec![log("1", "fetch"), log("2", "image")];
    assert_eq!(find_log(&logs, "2").unwrap().category, "image");
    assert!(find_log(&logs, "9").is_none());
}

#[test]
fn reported_statuses_have_labels() {
    for s in [
        LinkStatus::Connecting,
        LinkStatus::Connected,
        LinkStatus::ConnectingError,
        LinkStatus::Disconnected,
        LinkStatus::Stopped,
    ] {
        let name = s.name();
        assert_ne!(status_pill_label(&name), "IDLE");
        let active = matches!(s, LinkStatus::Connecting | LinkStatus::Connected | LinkStatus::ConnectingError);
        assert_eq!(tunnel_is_active(&name), active);
    }
}

#[test]
fn third_footer_click_reveals_relay_settings() {
    let mut clicks = 0u32;
    let mut shown = vec![];
    for _ in 0..5 {
        clicks = footer_clicked(clicks);
        shown.push(relay_settings_shown(clicks));
    }
    assert_eq!(shown, vec![false, false, true, true, true]);
    assert_eq!(clicks, 3);
    assert!(!relay_settings_shown(0));
    assert_eq!(footer_clicked(u32::MAX), 3);
}

#[test]
fn a_tunnel_keeps_one_status_entry() {
    let mut statuses: Vec<(String, String)> = vec![];
    record_status(&mut statuses, "a".to_string(), "connecting".to_string());
    record_status(&mut statuses, "b".to_string(), "connected".to_string());
    record_status(&mut statuses, "a".to_string(), "connected".to_string());
    record_status(&mut statuses, "a".to_string(), "disconnected".to_string());
    assert_eq!(statuses.len(), 2);
    assert_eq!(statuses[0], ("a".to_string(), "disconnected".to_string()));
    assert_eq!(tunnel_status(&statuses, "a"), "disconnected");
    assert_eq!(tunnel_status(&statuses, "b"), "connected");
    assert_eq!(tunnel_status(&statuses, "c"), "stopped");
}
