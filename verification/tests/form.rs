use locagate::config::{TunnelConfig, TunnelType};
use locagate::form::{computed_name, initial_form, make_id, parse_port, random_suffix, submit_form, FormError, TunnelForm};

fn form(t: TunnelType, port: &str, addr: &str, host: &str, name: &str, id: &str) -> TunnelForm {
    TunnelForm {
        tunnel_type: t,
        local_port: port.to_string(),
        vdomain_addr: addr.to_string(),
        host_header: host.to_string(),
        custom_name: name.to_string(),
        custom_id: id.to_string(),
    }
}

#[test]
fn ports() {
    assert_eq!(parse_port("8000"), Some(8000));
    assert_eq!(parse_port("+80"), Some(80));
    assert_eq!(parse_port("0"), Some(0));
    assert_eq!(parse_port("65535"), Some(65535));
    assert_eq!(parse_port("65536"), None);
    assert_eq!(parse_port("99999999999"), None);
    assert_eq!(parse_port(""), None);
    assert_eq!(parse_port("+"), None);
    assert_eq!(parse_port("-1"), None);
    assert_eq!(parse_port("8o"), None);
    for s in ["1", "443", "+7", "x", "70000", "12a"] {
        assert_eq!(parse_port(s), s.parse::<u16>().ok());
    }
}

#[test]
fn initial_values() {
    let f = initial_form(&None);
    assert_eq!(f.tunnel_type, TunnelType::Port);
    assert_eq!(f.local_port, "8000");
    assert_eq!(f.vdomain_addr, "127.0.0.1:80");
    assert_eq!(f.host_header, "mysite.local");
    assert_eq!(f.custom_name, "");
    assert_eq!(f.custom_id, "");
    let t = TunnelConfig {
        id: "web-tunnel-00ff".to_string(),
        name: "Web".to_string(),
        local_addr: "127.0.0.1:3000".to_string(),
        host_header: None,
        tunnel_type: TunnelType::Port,
    };
    let f = initial_form(&Some(t));
    assert_eq!(f.local_port, "3000");
    assert_eq!(f.vdomain_addr, "127.0.0.1:80");
    assert_eq!(f.custom_id, "web-tunnel-00ff");
    let v = TunnelConfig {
        id: "v".to_string(),
        name: "V".to_string(),
        local_addr: "10.0.0.2:8080".to_string(),
        host_header: Some("shop.local".to_string()),
        tunnel_type: TunnelType::VirtualDomain,
    };
    let f = initial_form(&Some(v));
    assert_eq!(f.local_port, "8000");
    assert_eq!(f.vdomain_addr, "10.0.0.2:8080");
    assert_eq!(f.host_header, "shop.local");
}

#[test]
fn proposed_names_and_ids() {
    assert_eq!(computed_name(&form(TunnelType::Port, "3000", "", "", "", "")), "port-3000");
    assert_eq!(computed_name(&form(TunnelType::VirtualDomain, "", "", "my.shop.local", "", "")), "vdom-my-shop-local");
    assert_eq!(make_id("My Site_2!"), "mysite2");
    assert_eq!(random_suffix(255), "00ff");
    assert_eq!(random_suffix(0xabcd), "abcd");
}

#[test]
fn submit_new_port_tunnel() {
    let t = submit_form(&form(TunnelType::Port, " 3000 ", "", "", "", ""), false, 0x1a2b).ok().unwrap();
    assert_eq!(t.id, "port-3000-tunnel-1a2b");
    assert_eq!(t.name, "port- 3000 ");
    assert_eq!(t.local_addr, "127.0.0.1:3000");
    assert_eq!(t.host_header, None);
    let t = submit_form(&form(TunnelType::Port, "80", "", "", "Api", "my-tunnel-x"), false, 1).ok().unwrap();
    assert_eq!(t.id, "my-tunnel-x");
    assert_eq!(t.name, "Api");
}

#[test]
fn submit_virtual_domain() {
    let t = submit_form(&form(TunnelType::VirtualDomain, "", " 127.0.0.1:80 ", " shop.local ", "", ""), false, 16).ok().unwrap();
    assert_eq!(t.id, "vdom-shop-local-tunnel-0010");
    assert_eq!(t.local_addr, "127.0.0.1:80");
    assert_eq!(t.host_header, Some("shop.local".to_string()));
    assert_eq!(t.tunnel_type, TunnelType::VirtualDomain);
}

#[test]
fn submit_refusals() {
    let e = submit_form(&form(TunnelType::Port, "  ", "", "", "", "x"), false, 0).err().unwrap();
    assert_eq!(e, FormError::EmptyPort);
    assert_eq!(e.message(), "Port cannot be empty");
    let e = submit_form(&form(TunnelType::Port, "70000", "", "", "", "x"), false, 0).err().unwrap();
    assert_eq!(e, FormError::InvalidPort);
    assert_eq!(e.message(), "Invalid port number");
    let e = submit_form(&form(TunnelType::VirtualDomain, "", "", "h", "", "x"), false, 0).err().unwrap();
    assert_eq!(e.message(), "Address and Host Header cannot be empty");
    let e = submit_form(&form(TunnelType::Port, "80", "", "", "", "!!!"), false, 0).err().unwrap();
    assert_eq!(e, FormError::EmptyId);
    assert_eq!(e.message(), "Tunnel ID cannot be empty");
    let e = submit_form(&form(TunnelType::Port, "80", "", "", "", ""), true, 0).err().unwrap();
    assert_eq!(e, FormError::EmptyId);
}

#[test]
fn submit_edit_keeps_id() {
    let t = submit_form(&form(TunnelType::Port, "81", "", "", "N", "Keep_Me"), true, 0).ok().unwrap();
    assert_eq!(t.id, "Keep_Me");
    assert_eq!(t.local_addr, "127.0.0.1:81");
}
