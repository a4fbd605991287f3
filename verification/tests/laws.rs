use wgcore::client_tab::ClientTabState;
use wgcore::dict::HostDict;
use wgcore::error::WgError;
use wgcore::form::{parse_int, parse_u32, resolve_listen_port};
use wgcore::host::{HostOptions, WireGuardHost};
use wgcore::keys::{generate_private_key, public_key_from_private, validate_cidr_list, validate_key};
use wgcore::peer::Peer;
use wgcore::pool::IpAddressPool;
use wgcore::project::{ClientProjectDict, HostProjectDict, ProjectFile};
use wgcore::studio::WgStudioApp;

#[test]
fn field_messages_quote_the_trimmed_text() {
    let expected = Err("MTU must be a whole number, got \"12x\"".to_string());
    assert_eq!(parse_int(" 12x ", "MTU"), expected);
    assert_eq!(parse_u32(" 12x ", "MTU"), Err("MTU must be a whole number, got \"12x\"".to_string()));
    assert_eq!(parse_u32(" -5 ", "Keepalive"), Ok(Some(0)));
    assert_eq!(
        resolve_listen_port(" port ").unwrap_err(),
        "Listen Port must be a number or 'random', got \"port\""
    );
}

#[test]
fn bad_list_entry_message_names_field_and_first_bad_entry() {
    let values = vec!["10.0.0.1".to_string(), "10.0.0.0/33".to_string(), "x".to_string()];
    match validate_cidr_list(&values, "address") {
        Err(WgError::InvalidCidr(m)) => {
            assert_eq!(m, "Invalid entry in address (\"10.0.0.0/33\"): invalid IP address syntax")
        },
        other => panic!("expected an invalid CIDR, got {other:?}"),
    }
}

#[test]
fn new_accepts_a_key_exactly_when_it_decodes() {
    let k = generate_private_key();
    let mut o = HostOptions::default();
    o.private_key = Some(k.clone());
    let h = WireGuardHost::new("h", o).unwrap();
    assert_eq!(h.private_key, k);
    let mut o = HostOptions::default();
    o.private_key = Some(format!(" {k}"));
    assert!(matches!(WireGuardHost::new("h", o), Err(WgError::InvalidKey(_))));
}

#[test]
fn second_sync_changes_nothing() {
    let host = WireGuardHost::simple("hq").unwrap();
    let mut c = ClientTabState::new(1, "laptop", 1);
    c.private_key = String::new();
    c.psk = String::new();
    c.use_psk = true;
    c.address = "10.0.0.2/32".to_string();
    let first = c.sync(&host.public_key, "hq").unwrap();
    let (key, public, psk) = (c.private_key.clone(), c.public_key.clone(), c.psk.clone());
    assert_eq!(key.len(), 44);
    assert_eq!(psk.len(), 44);
    let second = c.sync(&host.public_key, "hq").unwrap();
    assert_eq!((c.private_key.clone(), c.public_key.clone(), c.psk.clone()), (key, public, psk));
    assert_eq!(first.host_peer, second.host_peer);
    assert_eq!(first.client_model.peers, second.client_model.peers);
    assert_eq!(first.client_model.private_key, second.client_model.private_key);
    assert_eq!(first.client_model.address, second.client_model.address);
}

#[test]
fn key_line_is_the_only_difference_and_full_text_layout() {
    let mut o = HostOptions::default();
    o.address = vec!["10.0.0.1/24".to_string()];
    o.listen_port = Some(51820);
    let mut h = WireGuardHost::new("hq", o).unwrap();
    let with_key = h.interface_config(true);
    let without_key = h.interface_config(false);
    let tail = without_key.strip_prefix("[Interface]").unwrap();
    assert_eq!(with_key, format!("[Interface]\nPrivateKey = {}{}", h.private_key, tail));
    assert!(!without_key.lines().any(|l| l.starts_with("PrivateKey")));
    let p = Peer::build(&generate_private_key(), vec!["10.0.0.2/32".to_string()], None, None, None, None).unwrap();
    h.add_peer(p.clone());
    assert_eq!(h.full_config(), format!("# hq\n{}\n\n{}\n", with_key, p.to_config()));
}

#[test]
fn release_after_allocate_restores_the_pool() {
    let mut pool = IpAddressPool::new("fd00::/120", Some(128), &[]).unwrap();
    let a = pool.allocate().unwrap();
    pool.release(&a);
    assert_eq!(pool.allocate().unwrap(), a);
    let before = pool.describe();
    pool.release("10.0.0.9/32");
    pool.release("fd00::77/128");
    assert_eq!(pool.describe(), before);
}

#[test]
fn closing_the_only_host_opens_a_fresh_one() {
    let mut app = WgStudioApp::default();
    app.close_host_tab(0);
    assert_eq!(app.hosts.len(), 1);
    assert_eq!(app.hosts[0].name, "host-2");
    assert_eq!(app.selected_host, 0);
}

#[test]
fn defaults_are_empty_records() {
    let d = HostDict::default();
    assert!(d.name.is_empty() && d.private_key.is_none() && d.address.is_empty() && d.save_config.is_none());
    let p = Peer::default();
    assert!(p.public_key.is_empty() && p.allowed_ips.is_empty() && p.comment.is_none());
    let f = ProjectFile::default();
    assert_eq!(f.version, 0);
    assert!(f.hosts.is_empty());
    let h = HostProjectDict::default();
    assert!(h.clients.is_empty() && !h.manual_key && h.public_ip.is_none());
    let c = ClientProjectDict::default();
    assert!(c.allowed_ips.is_empty() && !c.use_preshared_key && c.tunnel_id.is_none());
}

#[test]
fn fields_read_back_whatever_other_values_hold() {
    let mut o = HostOptions::default();
    o.address = vec!["10.0.0.1/24".to_string(), "fd00::1/64".to_string()];
    o.listen_port = Some(51820);
    o.mtu = Some(1380);
    o.dns = vec!["1.1.1.1, 8.8.8.8".to_string(), " ".to_string()];
    o.table = Some("  off  ".to_string());
    o.pre_up = vec![" echo a = b ".to_string(), String::new()];
    o.fw_mark = Some("   ".to_string());
    let mut h = WireGuardHost::new("hq", o).unwrap();
    let p = Peer::build(
        &generate_private_key(),
        vec!["10.0.0.2/32".to_string()],
        Some("  vpn.example:51820 ".to_string()),
        Some(25),
        None,
        Some("[not a section]".to_string()),
    )
    .unwrap();
    h.add_peer(p.clone());
    let r = wgcore::parse::load_host_from_config(&h.full_config(), "other").unwrap();
    assert_eq!(r.name, "other");
    assert_eq!(r.private_key, h.private_key);
    assert_eq!(r.public_key, h.public_key);
    assert_eq!(r.address, h.address);
    assert_eq!(r.listen_port, Some(51820));
    assert_eq!(r.mtu, Some(1380));
    assert_eq!(r.peers.len(), 1);
    assert_eq!(r.peers[0].public_key, p.public_key);
    assert_eq!(r.peers[0].allowed_ips, p.allowed_ips);
    assert_eq!(r.peers[0].persistent_keepalive, Some(25));
    assert_eq!(r.peers[0].preshared_key, None);
    assert_eq!(r.peers[0].endpoint, Some("vpn.example:51820".to_string()));
    assert_eq!(r.peers[0].comment, None);
}

#[test]
fn key_messages_give_the_decoded_length() {
    match validate_key("AAAA", "private_key") {
        Err(WgError::InvalidKey(m)) => assert_eq!(m, "private_key must decode to 32 bytes, got 3"),
        other => panic!("expected an invalid key, got {other:?}"),
    }
    match public_key_from_private(" AAAA ") {
        Err(WgError::InvalidKey(m)) => assert_eq!(m, "Invalid private key: expected 32 bytes, got 3"),
        other => panic!("expected an invalid key, got {other:?}"),
    }
    match validate_key("A", "public_key") {
        Err(WgError::InvalidKey(m)) => assert!(m.starts_with("public_key is not valid base64: ")),
        other => panic!("expected an invalid key, got {other:?}"),
    }
}

#[test]
fn pool_messages() {
    let msg = |r: Result<IpAddressPool, WgError>| match r {
        Err(e) => e.message(),
        Ok(_) => panic!("expected an error"),
    };
    assert_eq!(msg(IpAddressPool::new("10.0.0.0/33", None, &[])), "10.0.0.0/33: invalid IP address syntax");
    assert_eq!(msg(IpAddressPool::new("10.0.0.0/24", Some(33), &[])), "host_prefix must be between 1 and 32");
    assert_eq!(
        msg(IpAddressPool::new("10.0.0.0/24", None, &["10.0.0.1".to_string(), "10.1.0.1/32".to_string()])),
        "10.1.0.1/32 is not inside 10.0.0.0/24"
    );
    assert_eq!(
        msg(IpAddressPool::new("10.0.0.0/24", None, &["gateway".to_string()])),
        "gateway: invalid IP address syntax"
    );
    let mut pool = IpAddressPool::new("10.0.0.0/30", None, &[]).unwrap();
    pool.allocate().unwrap();
    pool.allocate().unwrap();
    assert_eq!(pool.allocate().unwrap_err().message(), "IP pool for 10.0.0.0/30 is exhausted");
}

#[test]
fn closing_one_of_two_hosts_needs_no_counter_room() {
    let mut app = WgStudioApp::default();
    app.new_host_tab();
    app.host_counter = u64::MAX;
    app.close_host_tab(0);
    assert_eq!(app.hosts.len(), 1);
    assert_eq!(app.hosts[0].name, "host-2");
    assert_eq!(app.selected_host, 0);
}
