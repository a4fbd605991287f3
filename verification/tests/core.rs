use wgcore::error::WgError;
use wgcore::host::{HostOptions, WireGuardHost};
use wgcore::ip::parse_ip_or_network;
use wgcore::keys::{generate_preshared_key, generate_private_key, public_key_from_private, validate_cidr_list, validate_key};
use wgcore::network::WireGuardNetwork;
use wgcore::parse::load_host_from_config;
use wgcore::peer::Peer;
use wgcore::pool::IpAddressPool;
use wgcore::{host_from_dict, host_to_dict};

fn opts_with_address(address: &str) -> HostOptions {
    let mut o = HostOptions::default();
    o.address = vec![address.to_string()];
    o
}

#[test]
fn generate_and_derive_keypair() {
    let priv_key = generate_private_key();
    let pub_key = public_key_from_private(&priv_key).unwrap();
    assert_eq!(pub_key.len(), 44); // 32 bytes base64-encoded
}

#[test]
fn host_roundtrips_through_conf_text() {
    let mut opts = HostOptions::default();
    opts.address = vec!["10.10.0.1/24".into()];
    opts.listen_port = Some(51820);
    let mut host = WireGuardHost::new("office-hq", opts).unwrap();
    let other = WireGuardHost::simple("client-alice").unwrap();
    host.add_peer_host(&other, vec!["10.10.0.2/32".into()], None, None, None).unwrap();

    let text = host.full_config();
    let parsed = load_host_from_config(&text, "office-hq").unwrap();
    assert_eq!(parsed.private_key, host.private_key);
    assert_eq!(parsed.peers.len(), 1);
    assert_eq!(parsed.peers[0].public_key, other.public_key);
}

#[test]
fn pool_allocates_and_skips_reserved() {
    let mut pool = IpAddressPool::new("10.10.0.0/24", None, &["10.10.0.1".to_string()]).unwrap();
    let first = pool.allocate().unwrap();
    assert_ne!(first, "10.10.0.1/32");
    assert!(first.starts_with("10.10.0."));
}

#[test]
fn dict_roundtrip() {
    let mut opts = HostOptions::default();
    opts.address = vec!["10.10.1.1/24".into()];
    opts.mtu = Some(1420);
    let host = WireGuardHost::new("branch", opts).unwrap();
    let d = host_to_dict(&host);
    let d2 = d.clone();
    let host2 = host_from_dict(&d2).unwrap();
    assert_eq!(host2.private_key, host.private_key);
    assert_eq!(host2.mtu, Some(1420));
}

// ---------------------------------------------------------------------
// Keys
// ---------------------------------------------------------------------

#[test]
fn public_key_matches_known_x25519_vector() {
    // RFC 7748, section 6.1: Alice's key pair.
    let public = public_key_from_private("dwdtCnMYpX08FsFyUbJmRd9ML4frwJkqsXf7pR25LCo=").unwrap();
    assert_eq!(public, "hSDwCYkwp1R0i33ctD73Wg2/Og0mOBr066SpjqqbTmo=");
}

#[test]
fn public_key_trims_the_private_key() {
    let public = public_key_from_private("  dwdtCnMYpX08FsFyUbJmRd9ML4frwJkqsXf7pR25LCo=\n").unwrap();
    assert_eq!(public, "hSDwCYkwp1R0i33ctD73Wg2/Og0mOBr066SpjqqbTmo=");
}

#[test]
fn invalid_private_key_is_refused() {
    assert!(matches!(public_key_from_private("not a key"), Err(WgError::InvalidKey(_))));
    // valid base64, but 3 bytes
    assert!(matches!(public_key_from_private("AAAA"), Err(WgError::InvalidKey(_))));
}

#[test]
fn generated_keys_differ_and_validate() {
    let a = generate_private_key();
    let b = generate_private_key();
    assert_ne!(a, b);
    assert_eq!(validate_key(&a, "k").unwrap(), a);
    let psk = generate_preshared_key();
    assert_eq!(psk.len(), 44);
    assert_eq!(validate_key(&psk, "psk").unwrap(), psk);
}

#[test]
fn validate_key_refuses_short_keys() {
    assert!(matches!(validate_key("AAAA", "field"), Err(WgError::InvalidKey(_))));
    assert_eq!(validate_key("AAAAAAAAAAAAAAAAAAAAAAAAAAAAAAAAAAAAAAAAAAA=", "f").unwrap(), "AAAAAAAAAAAAAAAAAAAAAAAAAAAAAAAAAAAAAAAAAAA=");
}

#[test]
fn cidr_list_accepts_addresses_and_networks() {
    let ok = validate_cidr_list(&["10.0.0.1".to_string(), "10.0.0.0/24".to_string(), "fd00::/64".to_string()], "a");
    assert_eq!(ok.unwrap().len(), 3);
    assert!(matches!(validate_cidr_list(&["10.0.0.300".to_string()], "a"), Err(WgError::InvalidCidr(_))));
}

#[test]
fn parse_ip_or_network_reads_both_forms() {
    let n = parse_ip_or_network("10.1.2.3").unwrap();
    assert_eq!(n.prefix_len, 32);
    assert!(!n.is_v6);
    assert_eq!(n.addr, 0x0a010203);
    let m = parse_ip_or_network("10.1.2.0/24").unwrap();
    assert_eq!(m.prefix_len, 24);
    assert!(parse_ip_or_network("nonsense").is_err());
}

// ---------------------------------------------------------------------
// Hosts and peers
// ---------------------------------------------------------------------

#[test]
fn host_refuses_port_zero_and_bad_address() {
    let mut o = HostOptions::default();
    o.listen_port = Some(0);
    assert!(matches!(WireGuardHost::new("h", o), Err(WgError::Value(_))));
    assert!(matches!(WireGuardHost::new("h", opts_with_address("10.0.0.1/99")), Err(WgError::InvalidCidr(_))));
    let mut k = HostOptions::default();
    k.private_key = Some("short".to_string());
    assert!(matches!(WireGuardHost::new("h", k), Err(WgError::InvalidKey(_))));
}

#[test]
fn interface_config_renders_fields_in_order() {
    let mut o = HostOptions::default();
    o.private_key = Some("dwdtCnMYpX08FsFyUbJmRd9ML4frwJkqsXf7pR25LCo=".to_string());
    o.address = vec!["10.0.0.1/24".to_string(), "fd00::1/64".to_string()];
    o.listen_port = Some(51820);
    o.dns = vec!["1.1.1.1".to_string()];
    o.mtu = Some(1420);
    o.table = Some("auto".to_string());
    o.post_up = vec!["echo up".to_string()];
    o.save_config = Some(false);
    o.fw_mark = Some("0x10".to_string());
    let h = WireGuardHost::new("gw", o).unwrap();
    assert_eq!(h.public_key, "hSDwCYkwp1R0i33ctD73Wg2/Og0mOBr066SpjqqbTmo=");
    let text = h.interface_config(true);
    assert_eq!(
        text,
        "[Interface]\nPrivateKey = dwdtCnMYpX08FsFyUbJmRd9ML4frwJkqsXf7pR25LCo=\nAddress = 10.0.0.1/24, fd00::1/64\nListenPort = 51820\nDNS = 1.1.1.1\nMTU = 1420\nTable = auto\nPostUp = echo up\nSaveConfig = false\nFwMark = 0x10"
    );
    let redacted = h.interface_config(false);
    assert!(!redacted.contains("PrivateKey"));
}

#[test]
fn peer_block_renders_comment_and_fields() {
    let p = Peer::build(
        "hSDwCYkwp1R0i33ctD73Wg2/Og0mOBr066SpjqqbTmo=",
        vec!["10.0.0.2/32".to_string()],
        Some("vpn.example.com:51820".to_string()),
        Some(25),
        None,
        Some("alice".to_string()),
    )
    .unwrap();
    assert_eq!(
        p.to_config(),
        "# alice\n[Peer]\nPublicKey = hSDwCYkwp1R0i33ctD73Wg2/Og0mOBr066SpjqqbTmo=\nAllowedIPs = 10.0.0.2/32\nEndpoint = vpn.example.com:51820\nPersistentKeepalive = 25"
    );
}

#[test]
fn peer_builders_match_build() {
    let key = "hSDwCYkwp1R0i33ctD73Wg2/Og0mOBr066SpjqqbTmo=";
    let psk = generate_preshared_key();
    let built = Peer::build(key, vec!["10.0.0.0/24".to_string()], None, Some(10), Some(psk.clone()), None).unwrap();
    let chained = Peer::new(key)
        .unwrap()
        .with_allowed_ips(vec!["10.0.0.0/24".to_string()])
        .unwrap()
        .with_persistent_keepalive(Some(10))
        .with_preshared_key(Some(psk))
        .unwrap();
    assert_eq!(built.to_config(), chained.to_config());
    assert!(matches!(Peer::new("bad"), Err(WgError::InvalidKey(_))));
}

#[test]
fn full_config_reads_back_every_field() {
    let mut o = HostOptions::default();
    o.address = vec!["10.10.0.1/24".to_string()];
    o.listen_port = Some(51820);
    o.dns = vec!["10.10.0.1".to_string(), "1.1.1.1".to_string()];
    o.mtu = Some(1380);
    o.table = Some("off".to_string());
    o.pre_up = vec!["echo a".to_string()];
    o.post_down = vec!["echo b".to_string(), "echo c".to_string()];
    o.save_config = Some(true);
    o.fw_mark = Some("51820".to_string());
    let mut host = WireGuardHost::new("hq", o).unwrap();
    let other = WireGuardHost::simple("bob").unwrap();
    let psk = generate_preshared_key();
    host.add_peer_host(&other, vec!["10.10.0.2/32".to_string()], Some("bob.example:1".to_string()), Some(25), Some(psk.clone()))
        .unwrap();
    let parsed = load_host_from_config(&host.full_config(), "again").unwrap();
    assert_eq!(parsed.name, "again");
    assert_eq!(parsed.public_key, host.public_key);
    assert_eq!(parsed.address, host.address);
    assert_eq!(parsed.listen_port, Some(51820));
    assert_eq!(parsed.dns, host.dns);
    assert_eq!(parsed.mtu, Some(1380));
    assert_eq!(parsed.table, Some("off".to_string()));
    assert_eq!(parsed.pre_up, host.pre_up);
    assert_eq!(parsed.post_down, host.post_down);
    assert_eq!(parsed.save_config, Some(true));
    assert_eq!(parsed.fw_mark, Some("51820".to_string()));
    assert_eq!(parsed.peers[0].preshared_key, Some(psk));
    assert_eq!(parsed.peers[0].endpoint, Some("bob.example:1".to_string()));
    assert_eq!(parsed.peers[0].persistent_keepalive, Some(25));
    assert_eq!(parsed.peers[0].comment, None);
}

#[test]
fn redacted_config_cannot_be_loaded() {
    let host = WireGuardHost::new("hq", opts_with_address("10.0.0.1/24")).unwrap();
    let text = host.interface_config(false);
    assert!(matches!(load_host_from_config(&text, "hq"), Err(WgError::InvalidKey(_))));
}

#[test]
fn config_with_bad_number_is_a_parse_error() {
    let text = "[Interface]\nPrivateKey = dwdtCnMYpX08FsFyUbJmRd9ML4frwJkqsXf7pR25LCo=\nListenPort = abc\n";
    assert!(matches!(load_host_from_config(text, "x"), Err(WgError::Parse(_))));
}

#[test]
fn config_keys_are_case_insensitive_and_comments_ignored() {
    let text = "; header\n[interface]\n# note\nprivatekey = dwdtCnMYpX08FsFyUbJmRd9ML4frwJkqsXf7pR25LCo=\r\nADDRESS = 10.0.0.1/24 , 10.0.1.1/24\n\n[PEER]\npublickey = hSDwCYkwp1R0i33ctD73Wg2/Og0mOBr066SpjqqbTmo=\nallowedips = 10.0.0.0/24\n[Peer]\nEndpoint = no-key:1\n";
    let h = load_host_from_config(text, "n").unwrap();
    assert_eq!(h.address, vec!["10.0.0.1/24".to_string(), "10.0.1.1/24".to_string()]);
    assert_eq!(h.public_key, "hSDwCYkwp1R0i33ctD73Wg2/Og0mOBr066SpjqqbTmo=");
    // the second [Peer] has no PublicKey and is skipped
    assert_eq!(h.peers.len(), 1);
}

// ---------------------------------------------------------------------
// Pools
// ---------------------------------------------------------------------

#[test]
fn pool_allocations_are_distinct_and_increasing() {
    let mut pool = IpAddressPool::new("10.10.0.0/24", None, &["10.10.0.1".to_string()]).unwrap();
    let a = pool.allocate().unwrap();
    let b = pool.allocate().unwrap();
    assert_eq!(a, "10.10.0.2/32");
    assert_eq!(b, "10.10.0.3/32");
}

#[test]
fn pool_release_gives_the_address_back() {
    let mut pool = IpAddressPool::new("10.10.0.0/24", None, &[]).unwrap();
    let a = pool.allocate().unwrap();
    assert_eq!(a, "10.10.0.1/32");
    pool.release(&a);
    assert_eq!(pool.allocate().unwrap(), "10.10.0.1/32");
}

#[test]
fn pool_is_exhausted_after_its_hosts() {
    let mut pool = IpAddressPool::new("10.0.0.0/30", None, &[]).unwrap();
    assert_eq!(pool.allocate().unwrap(), "10.0.0.1/32");
    assert_eq!(pool.allocate().unwrap(), "10.0.0.2/32");
    assert!(matches!(pool.allocate(), Err(WgError::PoolExhausted(_))));
}

#[test]
fn pool_host_prefix_and_errors() {
    let mut p = IpAddressPool::new("192.168.5.0/24", Some(24), &[]).unwrap();
    assert_eq!(p.allocate().unwrap(), "192.168.5.1/24");
    assert!(matches!(IpAddressPool::new("192.168.5.0/24", Some(0), &[]), Err(WgError::Value(_))));
    assert!(matches!(IpAddressPool::new("not a net", None, &[]), Err(WgError::InvalidCidr(_))));
    assert!(matches!(IpAddressPool::new("10.0.0.0/24", None, &["10.9.9.9".to_string()]), Err(WgError::Value(_))));
    assert!(matches!(p.reserve("10.0.0.1"), Err(WgError::Value(_))));
}

#[test]
fn pool_describe_counts_used_addresses() {
    let mut p = IpAddressPool::new("10.0.0.0/24", None, &["10.0.0.1/24".to_string()]).unwrap();
    p.allocate().unwrap();
    assert_eq!(p.describe(), "IpAddressPool(10.0.0.0/24, 2/256 used)");
    assert_eq!(p.network_str(), "10.0.0.0/24");
}

#[test]
fn ipv6_pool_hands_out_128s() {
    let mut p = IpAddressPool::new("fd00::/120", Some(128), &[]).unwrap();
    assert_eq!(p.allocate().unwrap(), "fd00::/128");
    assert_eq!(p.allocate().unwrap(), "fd00::1/128");
}

// ---------------------------------------------------------------------
// Networks
// ---------------------------------------------------------------------

#[test]
fn network_builds_a_topology() {
    let mut net = WireGuardNetwork::new();
    net.create_pool("hq-clients", "10.10.0.0/24", None, &["10.10.0.1".to_string()]).unwrap();
    let mut hq = HostOptions::default();
    hq.address = vec!["10.10.0.1/24".into()];
    hq.listen_port = Some(51820);
    net.create_host("office-hq", hq, None).unwrap();
    net.create_host("client-alice", HostOptions::default(), Some("hq-clients")).unwrap();
    net.create_host("client-bob", HostOptions::default(), Some("hq-clients")).unwrap();
    assert_eq!(net.hosts.len(), 3);
    assert_eq!(net.hosts[1].address, vec!["10.10.0.2/32".to_string()]);
    assert_eq!(net.hosts[2].address, vec!["10.10.0.3/32".to_string()]);

    net.mesh(
        "office-hq",
        "client-alice",
        vec!["10.10.0.2/32".into()],
        vec!["10.10.0.0/24".into()],
        Some("vpn.example.com:51820".into()),
        None,
        Some(25),
        true,
    )
    .unwrap();
    let hq = &net.hosts[0];
    let alice = &net.hosts[1];
    assert_eq!(hq.peers.len(), 1);
    assert_eq!(alice.peers.len(), 1);
    assert_eq!(hq.peers[0].public_key, alice.public_key);
    assert_eq!(alice.peers[0].public_key, hq.public_key);
    assert_eq!(hq.peers[0].comment, Some("client-alice".to_string()));
    assert_eq!(alice.peers[0].endpoint, Some("vpn.example.com:51820".to_string()));
    assert_eq!(hq.peers[0].preshared_key, alice.peers[0].preshared_key);
    assert!(hq.peers[0].preshared_key.is_some());
}

#[test]
fn network_refuses_duplicates_and_unknown_names() {
    let mut net = WireGuardNetwork::new();
    net.create_host("a", HostOptions::default(), None).unwrap();
    assert!(matches!(net.create_host("a", HostOptions::default(), None), Err(WgError::Value(_))));
    net.create_pool("p", "10.0.0.0/24", None, &[]).unwrap();
    assert!(matches!(net.create_pool("p", "10.0.1.0/24", None, &[]), Err(WgError::Value(_))));
    assert!(matches!(net.create_host("b", HostOptions::default(), Some("nope")), Err(WgError::Value(_))));
    assert!(matches!(net.create_host("b", opts_with_address("10.0.0.9/32"), Some("p")), Err(WgError::Value(_))));
    assert!(matches!(
        net.mesh("a", "zzz", vec![], vec![], None, None, None, false),
        Err(WgError::Value(_))
    ));
    assert_eq!(net.hosts.len(), 1);
    assert_eq!(net.hosts[0].peers.len(), 0);
}
