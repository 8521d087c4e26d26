use locagate::config::{AppConfig, TunnelConfig, TunnelType, DEFAULT_MAX_LOGS};
use locagate::manager::{
    delete_tunnel, get_active_tunnels, get_config, mark_started, remove_tunnel, save_tunnel,
    start_tunnel, stop_tunnel, update_settings, upsert_tunnel, ManagerError, TunnelManager,
};

fn tunnel(id: &str, name: &str) -> TunnelConfig {
    TunnelConfig {
        id: id.to_string(),
        name: name.to_string(),
        local_addr: "127.0.0.1:3000".to_string(),
        host_header: None,
        tunnel_type: TunnelType::Port,
    }
}

fn config() -> AppConfig {
    AppConfig {
        worker_url: "https://relay.example".to_string(),
        auth_token: "tok".to_string(),
        tunnels: vec![tunnel("a", "A"), tunnel("b", "B")],
        max_logs: 50,
    }
}

#[test]
fn default_config_is_empty() {
    let c = AppConfig::default();
    assert!(c.worker_url.is_empty() && c.auth_token.is_empty() && c.tunnels.is_empty());
    assert_eq!(c.max_logs, DEFAULT_MAX_LOGS);
}

#[test]
fn save_replaces_or_appends() {
    let mut m: TunnelManager<u32> = TunnelManager::new(config());
    save_tunnel(&mut m, tunnel("b", "B2"));
    save_tunnel(&mut m, tunnel("c", "C"));
    let c = get_config(&m);
    let names: Vec<_> = c.tunnels.iter().map(|t| t.name.as_str()).collect();
    assert_eq!(names, vec!["A", "B2", "C"]);
    assert_eq!(c.max_logs, 50);
}

#[test]
fn delete_removes_config_and_running_state() {
    let mut m: TunnelManager<u32> = TunnelManager::new(config());
    assert!(start_tunnel(&m, "a").is_ok());
    mark_started(&mut m, "a".to_string(), 7);
    assert_eq!(delete_tunnel(&mut m, "a"), Some(7));
    assert!(get_active_tunnels(&m).is_empty());
    assert_eq!(get_config(&m).tunnels.len(), 1);
    assert_eq!(delete_tunnel(&mut m, "zzz"), None);
    assert_eq!(get_config(&m).tunnels.len(), 1);
}

#[test]
fn delete_undoes_save() {
    let mut m: TunnelManager<u32> = TunnelManager::new(config());
    save_tunnel(&mut m, tunnel("new", "N"));
    delete_tunnel(&mut m, "new");
    let ids: Vec<_> = get_config(&m).tunnels.iter().map(|t| t.id.clone()).collect();
    assert_eq!(ids, vec!["a", "b"]);
}

#[test]
fn start_refusals() {
    let mut m: TunnelManager<u32> = TunnelManager::new(config());
    match start_tunnel(&m, "missing") {
        Err(e) => {
            assert_eq!(e, ManagerError::ConfigNotFound);
            assert_eq!(e.message(), "Tunnel config not found");
        }
        Ok(_) => panic!("a missing tunnel cannot start"),
    }
    let launch = start_tunnel(&m, "b").ok().unwrap();
    assert_eq!(launch.config.name, "B");
    assert_eq!(launch.worker_url, "https://relay.example");
    assert_eq!(launch.auth_token, "tok");
    assert_eq!(launch.max_logs, 50);
    mark_started(&mut m, "b".to_string(), 1);
    match start_tunnel(&m, "b") {
        Err(e) => {
            assert_eq!(e, ManagerError::AlreadyRunning);
            assert_eq!(e.message(), "Tunnel is already running");
        }
        Ok(_) => panic!("a running tunnel cannot start again"),
    }
}

#[test]
fn stop_undoes_start() {
    let mut m: TunnelManager<u32> = TunnelManager::new(config());
    mark_started(&mut m, "a".to_string(), 1);
    mark_started(&mut m, "b".to_string(), 2);
    assert_eq!(get_active_tunnels(&m), vec!["a", "b"]);
    assert_eq!(stop_tunnel(&mut m, "b"), Ok(2));
    assert_eq!(get_active_tunnels(&m), vec!["a"]);
    let e = stop_tunnel(&mut m, "b").err().unwrap();
    assert_eq!(e, ManagerError::NotRunning);
    assert_eq!(e.message(), "Tunnel is not running");
}

#[test]
fn mark_started_twice_replaces_handle() {
    let mut m: TunnelManager<u32> = TunnelManager::new(config());
    assert_eq!(mark_started(&mut m, "a".to_string(), 1), None);
    assert_eq!(mark_started(&mut m, "a".to_string(), 5), Some(1));
    assert_eq!(get_active_tunnels(&m), vec!["a"]);
    assert_eq!(stop_tunnel(&mut m, "a"), Ok(5));
}

#[test]
fn stop_all_hands_back_every_handle() {
    let mut m: TunnelManager<u32> = TunnelManager::new(config());
    mark_started(&mut m, "a".to_string(), 1);
    mark_started(&mut m, "b".to_string(), 2);
    assert_eq!(m.stop_all(), vec![1, 2]);
    assert!(get_active_tunnels(&m).is_empty());
}

#[test]
fn update_settings_sets_both() {
    let mut m: TunnelManager<u32> = TunnelManager::new(config());
    update_settings(&mut m, "http://localhost:8787".to_string(), "s3".to_string());
    let c = get_config(&m);
    assert_eq!(c.worker_url, "http://localhost:8787");
    assert_eq!(c.auth_token, "s3");
    assert_eq!(c.tunnels.len(), 2);
}

#[test]
fn list_helpers() {
    let mut ts = vec![tunnel("a", "A"), tunnel("b", "B"), tunnel("a", "A2")];
    upsert_tunnel(&mut ts, tunnel("a", "X"));
    assert_eq!(ts[0].name, "X");
    assert_eq!(ts[2].name, "A2");
    remove_tunnel(&mut ts, "a");
    assert_eq!(ts.len(), 1);
    assert_eq!(ts[0].id, "b");
}

#[test]
fn delete_twice_is_delete_once() {
    let mut ts = vec![tunnel("a", "A"), tunnel("b", "B"), tunnel("a", "A2")];
    remove_tunnel(&mut ts, "a");
    let once: Vec<_> = ts.iter().map(|t| t.name.clone()).collect();
    remove_tunnel(&mut ts, "a");
    let twice: Vec<_> = ts.iter().map(|t| t.name.clone()).collect();
    assert_eq!(once, twice);
    assert_eq!(twice, vec!["B"]);
}
