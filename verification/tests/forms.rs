use wgcore::client_tab::ClientTabState;
use wgcore::form::{
    generate_random_listen_port, parse_int, parse_u32, random_tunnel_id, resolve_listen_port, split_csv, split_lines,
    RANDOM_LISTEN_PORT_HIGH, RANDOM_LISTEN_PORT_LOW,
};
use wgcore::host::{HostOptions, WireGuardHost};
use wgcore::host_tab::{HostSubTab, HostTabState};
use wgcore::keys::{generate_private_key, public_key_from_private};
use wgcore::project::{ClientProjectDict, HostProjectDict};
use wgcore::studio::{PendingConfirm, WgStudioApp};
use wgcore::ui_state::{HostUiOutcome, Modal};

// ---------------------------------------------------------------------
// Field helpers
// ---------------------------------------------------------------------

#[test]
fn split_csv_trims_and_drops_blanks() {
    assert_eq!(split_csv(" a, b,,c , "), vec!["a".to_string(), "b".to_string(), "c".to_string()]);
    assert!(split_csv("  ").is_empty());
}

#[test]
fn split_lines_trims_and_drops_blanks() {
    assert_eq!(split_lines("one\r\n\n  two  \nthree"), vec!["one".to_string(), "two".to_string(), "three".to_string()]);
}

#[test]
fn parse_int_reads_whole_numbers() {
    assert_eq!(parse_int("  ", "MTU"), Ok(None));
    assert_eq!(parse_int(" -12 ", "MTU"), Ok(Some(-12)));
    assert_eq!(parse_int("1.5", "MTU"), Err("MTU must be a whole number, got \"1.5\"".to_string()));
}

#[test]
fn parse_u32_clamps_negatives_and_wraps() {
    assert_eq!(parse_u32("-5", "x"), Ok(Some(0)));
    assert_eq!(parse_u32("1420", "x"), Ok(Some(1420)));
    assert_eq!(parse_u32("4294967297", "x"), Ok(Some(1)));
    assert!(parse_u32("abc", "x").is_err());
}

#[test]
fn listen_port_field_forms() {
    assert_eq!(resolve_listen_port(""), Ok(None));
    assert_eq!(resolve_listen_port(" 51820 "), Ok(Some(51820)));
    let r = resolve_listen_port("RaNdOm").unwrap().unwrap();
    assert!(r >= RANDOM_LISTEN_PORT_LOW && r <= RANDOM_LISTEN_PORT_HIGH);
    assert_eq!(
        resolve_listen_port("70000"),
        Err("Listen Port must be a number or 'random', got \"70000\"".to_string())
    );
}

#[test]
fn random_values_stay_in_range() {
    for _ in 0..50 {
        let p = generate_random_listen_port();
        assert!(p >= 49152);
        let t = random_tunnel_id();
        assert!(t >= 1 && t <= 65000);
    }
}

// ---------------------------------------------------------------------
// Client forms
// ---------------------------------------------------------------------

#[test]
fn fresh_client_form_defaults() {
    let c = ClientTabState::new(7, "hq-client-1", 3);
    assert_eq!(c.id, 7);
    assert_eq!(c.name, "hq-client-1");
    assert_eq!(public_key_from_private(&c.private_key).unwrap(), c.public_key);
    assert_eq!(c.allowed_ips, "0.0.0.0/0");
    assert_eq!(c.keepalive, "25");
    assert_eq!(c.tunnel_id, "3");
    assert!(c.use_psk);
    assert!(!c.advanced);
}

#[test]
fn client_endpoint_follows_the_host_unless_manual() {
    let mut c = ClientTabState::new(1, "c", 1);
    c.refresh_endpoint(" 203.0.113.5 ", "51820");
    assert_eq!(c.endpoint, "203.0.113.5:51820");
    c.refresh_endpoint("203.0.113.5", "");
    assert_eq!(c.endpoint, "203.0.113.5");
    c.endpoint_manual = true;
    c.refresh_endpoint("198.51.100.1", "1");
    assert_eq!(c.endpoint, "203.0.113.5");
}

#[test]
fn client_sync_builds_both_peer_entries() {
    let host = WireGuardHost::simple("hq").unwrap();
    let mut c = ClientTabState::new(1, " laptop ", 1);
    c.address = "10.0.0.2/32".to_string();
    c.endpoint = "vpn.example:51820".to_string();
    let synced = c.sync(&host.public_key, "hq").unwrap();
    assert_eq!(synced.client_model.name, "laptop");
    assert_eq!(synced.client_model.peers.len(), 1);
    assert_eq!(synced.client_model.peers[0].public_key, host.public_key);
    assert_eq!(synced.client_model.peers[0].allowed_ips, vec!["0.0.0.0/0".to_string()]);
    assert_eq!(synced.client_model.peers[0].persistent_keepalive, Some(25));
    assert_eq!(synced.host_peer.public_key, c.public_key);
    assert_eq!(synced.host_peer.allowed_ips, vec!["10.0.0.2/32".to_string()]);
    assert_eq!(synced.host_peer.comment, Some("laptop".to_string()));
    assert_eq!(synced.host_peer.preshared_key, synced.client_model.peers[0].preshared_key);
    assert_eq!(Some(c.psk.clone()), synced.host_peer.preshared_key);
}

#[test]
fn client_sync_reports_bad_numbers() {
    let mut c = ClientTabState::new(1, "c", 1);
    c.mtu = "big".to_string();
    let before = c.private_key.clone();
    assert!(c.sync("x", "h").is_err());
    assert_eq!(c.private_key, before);
}

#[test]
fn client_record_survives_save_and_open() {
    let mut c = ClientTabState::new(1, "phone", 9);
    c.address = "10.0.0.5/32, fd00::5/128".to_string();
    c.dns = "10.0.0.1".to_string();
    c.mtu = "1380".to_string();
    c.endpoint = "  vpn.example:1 ".to_string();
    c.psk = "".to_string();
    let d = c.to_project_dict();
    let c2 = ClientTabState::from_project_dict(2, &d);
    let d2 = c2.to_project_dict();
    assert_eq!(format!("{:?}", d), format!("{:?}", d2));
    assert_eq!(d.endpoint, Some("vpn.example:1".to_string()));
    assert_eq!(d.tunnel_id, Some(9));
}

#[test]
fn client_from_record_without_key_generates_one() {
    let d = ClientProjectDict {
        name: "x".to_string(),
        private_key: None,
        address: vec![],
        dns: vec![],
        mtu: None,
        manual_key: false,
        allowed_ips: vec![],
        endpoint: None,
        endpoint_manual: false,
        persistent_keepalive: None,
        use_preshared_key: false,
        preshared_key: None,
        tunnel_id: None,
        tunnel_id_manual: false,
    };
    let c = ClientTabState::from_project_dict(5, &d);
    assert_eq!(public_key_from_private(&c.private_key).unwrap(), c.public_key);
    assert_eq!(c.allowed_ips, "0.0.0.0/0");
    assert_eq!(c.keepalive, "25");
    assert_eq!(c.tunnel_id, "1");
}

// ---------------------------------------------------------------------
// Host forms
// ---------------------------------------------------------------------

#[test]
fn fresh_host_form_defaults() {
    let h = HostTabState::new(3, "host-3");
    assert_eq!(h.name, "host-3");
    assert_eq!(h.mtu, "1420");
    let port: u32 = h.listen_port.parse().unwrap();
    assert!(port >= 49152 && port <= 65535);
    assert_eq!(public_key_from_private(&h.private_key).unwrap(), h.public_key);
    assert!(h.clients.is_empty());
    assert!(h.selected == HostSubTab::Settings);
}

#[test]
fn new_client_tabs_draw_pool_addresses() {
    let mut h = HostTabState::new(1, "hq");
    h.address = "10.10.0.1/24".to_string();
    h.dns = "10.10.0.1".to_string();
    h.mtu = "".to_string();
    h.public_ip = "203.0.113.7".to_string();
    h.listen_port = "51820".to_string();
    let a = h.new_client_tab(None);
    let b = h.new_client_tab(None);
    assert_eq!((a, b), (0, 1));
    assert_eq!(h.clients[0].address, "10.10.0.2/32");
    assert_eq!(h.clients[1].address, "10.10.0.3/32");
    assert_eq!(h.clients[0].name, "hq-client-1");
    assert_eq!(h.clients[1].name, "hq-client-2");
    assert_eq!(h.clients[0].id, 100000);
    assert_eq!(h.clients[1].id, 100001);
    assert_eq!(h.clients[0].dns, "10.10.0.1");
    assert_eq!(h.clients[0].mtu, "1420");
    assert_eq!(h.clients[0].endpoint, "203.0.113.7:51820");
    assert!(h.selected == HostSubTab::Client(1));
}

#[test]
fn host_mtu_is_inherited_by_new_clients() {
    let mut h = HostTabState::new(1, "hq");
    h.mtu = "1380".to_string();
    h.new_client_tab(None);
    assert_eq!(h.clients[0].mtu, "1380");
    assert_eq!(h.clients[0].address, "");
}

#[test]
fn subtab_shortcuts_and_closing() {
    let mut h = HostTabState::new(1, "hq");
    h.new_client_tab(None);
    h.new_client_tab(None);
    h.new_client_tab(None);
    h.select_subtab_by_shortcut_index(0);
    assert!(h.selected == HostSubTab::Settings);
    h.select_subtab_by_shortcut_index(8);
    assert!(h.selected == HostSubTab::Client(2));
    h.select_subtab_by_shortcut_index(2);
    assert!(h.selected == HostSubTab::Client(1));
    h.select_subtab_by_shortcut_index(6);
    assert!(h.selected == HostSubTab::Client(1));
    h.close_client_tab(0);
    assert!(h.selected == HostSubTab::Client(0));
    assert_eq!(h.clients.len(), 2);
    h.close_client_tab(0);
    assert!(h.selected == HostSubTab::Settings);
}

#[test]
fn interface_model_from_the_form() {
    let mut h = HostTabState::new(1, "  hq  ");
    h.private_key = format!("  {}  ", "dwdtCnMYpX08FsFyUbJmRd9ML4frwJkqsXf7pR25LCo=");
    h.address = "10.0.0.1/24".to_string();
    h.listen_port = " 51820".to_string();
    h.table = "  auto ".to_string();
    h.pre_up = "a\n\n b ".to_string();
    let m = h.build_interface_model().unwrap();
    assert_eq!(m.name, "hq");
    assert_eq!(m.public_key, "hSDwCYkwp1R0i33ctD73Wg2/Og0mOBr066SpjqqbTmo=");
    assert_eq!(m.listen_port, Some(51820));
    assert_eq!(m.mtu, Some(1420));
    assert_eq!(m.table, Some("auto".to_string()));
    assert_eq!(m.pre_up, vec!["a".to_string(), "b".to_string()]);
    assert_eq!(m.save_config, Some(false));
    assert_eq!(h.name, "hq");
    assert_eq!(h.private_key, "dwdtCnMYpX08FsFyUbJmRd9ML4frwJkqsXf7pR25LCo=");
    assert_eq!(h.listen_port, "51820");
}

#[test]
fn interface_model_refuses_bad_fields() {
    let mut h = HostTabState::new(1, "hq");
    h.listen_port = "port".to_string();
    assert!(h.build_interface_model().is_err());
    h.listen_port = "0".to_string();
    assert!(h.build_interface_model().is_err());
    h.listen_port = "random".to_string();
    h.mtu = "x".to_string();
    assert!(h.build_interface_model().is_err());
    assert_eq!(h.listen_port, "random");
}

#[test]
fn full_model_folds_in_clients_and_loaded_peers() {
    let mut h = HostTabState::new(1, "hq");
    h.address = "10.0.0.1/24".to_string();
    h.public_ip = "198.51.100.2".to_string();
    h.listen_port = "51820".to_string();
    h.new_client_tab(None);
    let m = h.build_full_model().unwrap();
    assert_eq!(m.peers.len(), 1);
    assert_eq!(m.peers[0].public_key, h.clients[0].public_key);
    assert_eq!(m.peers[0].allowed_ips, vec!["10.0.0.2/32".to_string()]);
    assert_eq!(h.clients[0].endpoint, "198.51.100.2:51820");

    let other = WireGuardHost::simple("remote").unwrap();
    let mut src = WireGuardHost::simple("src").unwrap();
    src.add_peer_host(&other, vec!["10.9.0.0/24".to_string()], None, None, None).unwrap();
    let mut h2 = HostTabState::new(2, "x");
    assert_eq!(h2.load_from_config(&src.full_config(), "loaded").unwrap(), 1);
    assert_eq!(h2.name, "loaded");
    assert!(h2.manual_key);
    let m2 = h2.build_full_model().unwrap();
    assert_eq!(m2.peers.len(), 1);
    assert_eq!(m2.peers[0].public_key, other.public_key);
    assert_eq!(m2.private_key, src.private_key);
}

#[test]
fn load_from_config_fills_the_form() {
    let mut o = HostOptions::default();
    o.private_key = Some(generate_private_key());
    o.address = vec!["10.0.0.1/24".to_string(), "10.0.1.1/24".to_string()];
    o.listen_port = Some(51000);
    o.dns = vec!["1.1.1.1".to_string()];
    o.post_up = vec!["x".to_string(), "y".to_string()];
    let src = WireGuardHost::new("src", o).unwrap();
    let mut h = HostTabState::new(1, "hq");
    h.load_from_config(&src.full_config(), "gw").unwrap();
    assert_eq!(h.address, "10.0.0.1/24, 10.0.1.1/24");
    assert_eq!(h.listen_port, "51000");
    assert_eq!(h.dns, "1.1.1.1");
    assert_eq!(h.mtu, "");
    assert_eq!(h.post_up, "x\ny");
    assert!(h.advanced);
    let before = h.name.clone();
    assert!(h.load_from_config("[Interface]\nAddress = 10.0.0.1/24\n", "z").is_err());
    assert_eq!(h.name, before);
}

#[test]
fn host_record_survives_save_and_open() {
    let mut h = HostTabState::new(4, "hq");
    h.address = "10.0.0.1/24".to_string();
    h.listen_port = "51820".to_string();
    h.table = " auto ".to_string();
    h.fwmark = "".to_string();
    h.post_up = "iptables -A x\n\niptables -A y".to_string();
    h.public_ip = "198.51.100.9".to_string();
    h.new_client_tab(None);
    let d = h.to_project_dict();
    assert_eq!(d.table, Some(" auto ".to_string()));
    assert_eq!(d.fw_mark, None);
    let h2 = HostTabState::from_project_dict(9, &d);
    let d2 = h2.to_project_dict();
    assert_eq!(format!("{:?}", d), format!("{:?}", d2));
    assert_eq!(h2.clients.len(), 1);
    assert_eq!(h2.clients[0].id, 900000);
}

#[test]
fn legacy_endpoint_gives_the_public_address() {
    let d = HostProjectDict {
        name: "old".to_string(),
        private_key: None,
        address: vec![],
        listen_port: None,
        dns: vec![],
        mtu: None,
        table: None,
        fw_mark: None,
        pre_up: vec![],
        post_up: vec![],
        pre_down: vec![],
        post_down: vec![],
        save_config: None,
        public_ip: None,
        public_endpoint: Some("203.0.113.1:51820".to_string()),
        manual_key: false,
        clients: vec![],
    };
    let h = HostTabState::from_project_dict(1, &d);
    assert_eq!(h.public_ip, "203.0.113.1");
    assert_eq!(public_key_from_private(&h.private_key).unwrap(), h.public_key);
    let mut d2 = d.clone();
    d2.public_endpoint = Some("no-port".to_string());
    assert_eq!(HostTabState::from_project_dict(1, &d2).public_ip, "no-port");
}

// ---------------------------------------------------------------------
// The application state
// ---------------------------------------------------------------------

#[test]
fn studio_starts_with_one_host() {
    let app = WgStudioApp::default();
    assert_eq!(app.hosts.len(), 1);
    assert_eq!(app.hosts[0].name, "host-1");
    assert_eq!(app.selected_host, 0);
    assert!(app.confirm_close);
}

#[test]
fn studio_shortcuts_add_select_and_close() {
    let mut app = WgStudioApp::default();
    app.apply_shortcuts(false, true, None);
    assert_eq!(app.hosts[0].clients.len(), 1);
    app.apply_shortcuts(true, false, None);
    match &app.confirm {
        Some((title, body, PendingConfirm::CloseClient { host_idx: 0, client_idx: 0 })) => {
            assert_eq!(title, "Remove client");
            assert_eq!(body, "Remove client 'host-1-client-1'?");
        },
        _ => panic!("expected a confirmation"),
    }
    // shortcuts wait while a confirmation is up
    app.apply_shortcuts(false, true, None);
    assert_eq!(app.hosts[0].clients.len(), 1);
    app.resolve_confirm(true);
    assert!(app.confirm.is_none());
    assert_eq!(app.hosts[0].clients.len(), 0);
    app.confirm_close = false;
    app.apply_shortcuts(true, false, None);
    assert_eq!(app.hosts.len(), 1);
    assert_eq!(app.hosts[0].name, "host-2");
}

#[test]
fn studio_host_outcomes_and_reset() {
    let mut app = WgStudioApp::default();
    app.new_host_tab();
    assert_eq!(app.selected_host, 1);
    let mut out = HostUiOutcome::default();
    out.modal = Some(Modal::Info { title: "t".to_string(), body: "b".to_string() });
    out.close_requested = true;
    app.handle_host_outcome(1, out);
    assert!(matches!(app.modal, Some(Modal::Info { .. })));
    assert!(matches!(app.confirm, Some((_, _, PendingConfirm::CloseHost { host_idx: 1 }))));
    app.resolve_confirm(false);
    assert_eq!(app.hosts.len(), 2);
    app.confirm = Some(("Reset".to_string(), "?".to_string(), PendingConfirm::ResetProject));
    app.resolve_confirm(true);
    assert_eq!(app.hosts.len(), 1);
    assert_eq!(app.host_counter, 1);
    assert_eq!(app.hosts[0].name, "host-1");
}

#[test]
fn studio_project_save_and_open() {
    let mut app = WgStudioApp::default();
    app.hosts[0].address = "10.0.0.1/24".to_string();
    app.apply_shortcuts(false, true, None);
    let project = app.collect_project().unwrap();
    assert_eq!(project.version, 1);
    assert_eq!(project.hosts.len(), 1);
    assert_eq!(project.hosts[0].clients.len(), 1);
    assert_eq!(project.hosts[0].clients[0].address, vec!["10.0.0.2/32".to_string()]);
    let mut other = WgStudioApp::default();
    other.load_project(project.clone());
    assert_eq!(other.hosts.len(), 1);
    assert_eq!(other.host_counter, 2);
    let again = other.collect_project().unwrap();
    assert_eq!(format!("{:?}", project.hosts), format!("{:?}", again.hosts));
}

#[test]
fn studio_save_reports_a_failing_host() {
    let mut app = WgStudioApp::default();
    app.hosts[0].mtu = "lots".to_string();
    assert!(app.collect_project().is_err());
}
