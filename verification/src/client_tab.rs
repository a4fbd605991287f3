//! The form state of one client of a host: every field as the user typed
//! it, the manual-override toggles, and the rules that turn the form into a
//! client model plus the `[Peer]` entry the host needs for it.
use vstd::prelude::*;

use crate::form::{clamp_u32, parse_u32, random_tunnel_id};
use crate::host::{host_from_options, options_ok, peer_views, HostOptions, HostView, OptionsView, WireGuardHost};
use crate::keys::{
    all_base64_symbols, decodes_to_key, generate_preshared_key, generate_private_key,
    lemma_base64_text_is_trimmed, public_key_from_private, spec_public_key,
};
use crate::peer::{peer_fields_ok, Peer, PeerView};
use crate::pool::{allocation_text, IpAddressPool, PoolView};
use crate::project::ClientProjectDict;
use crate::text::{
    clone_opt_string, dec, dec_string, join, join_strs, opt_view, parse_i64, parse_unsigned,
    parse_unsigned_str, split_csv, split_csv_str, str_eq, string_clone, string_of, string_views,
    lemma_trim_idem, trim, trim_str,
};

verus! {

/// One client of a host: its own `[Interface]` fields and the `[Peer]`
/// entry that links it back to the host, as form text.
#[derive(Clone)]
pub struct ClientTabState {
    pub id: u64,
    pub name: String,
    pub private_key: String,
    pub public_key: String,
    pub manual_key: bool,
    pub address: String,
    pub address_manual: bool,
    pub dns: String,
    pub mtu: String,
    pub allowed_ips: String,
    pub endpoint: String,
    pub endpoint_manual: bool,
    pub keepalive: String,
    pub use_psk: bool,
    pub psk_manual: bool,
    pub psk: String,
    pub tunnel_id: String,
    pub tunnel_id_manual: bool,
    pub advanced: bool,
}

/// Output of `ClientTabState::sync`: the client's own full config, plus
/// the `[Peer]` entry that represents it in the host's peer list. Both use
/// the same pre-shared key.
pub struct ClientSync {
    pub client_model: WireGuardHost,
    pub host_peer: Peer,
}

#[verifier::ext_equal]
pub struct ClientView {
    pub id: u64,
    pub name: Seq<char>,
    pub private_key: Seq<char>,
    pub public_key: Seq<char>,
    pub manual_key: bool,
    pub address: Seq<char>,
    pub address_manual: bool,
    pub dns: Seq<char>,
    pub mtu: Seq<char>,
    pub allowed_ips: Seq<char>,
    pub endpoint: Seq<char>,
    pub endpoint_manual: bool,
    pub keepalive: Seq<char>,
    pub use_psk: bool,
    pub psk_manual: bool,
    pub psk: Seq<char>,
    pub tunnel_id: Seq<char>,
    pub tunnel_id_manual: bool,
    pub advanced: bool,
}

impl View for ClientTabState {
    type V = ClientView;

    open spec fn view(&self) -> ClientView {
        ClientView {
            id: self.id,
            name: self.name@,
            private_key: self.private_key@,
            public_key: self.public_key@,
            manual_key: self.manual_key,
            address: self.address@,
            address_manual: self.address_manual,
            dns: self.dns@,
            mtu: self.mtu@,
            allowed_ips: self.allowed_ips@,
            endpoint: self.endpoint@,
            endpoint_manual: self.endpoint_manual,
            keepalive: self.keepalive@,
            use_psk: self.use_psk,
            psk_manual: self.psk_manual,
            psk: self.psk@,
            tunnel_id: self.tunnel_id@,
            tunnel_id_manual: self.tunnel_id_manual,
            advanced: self.advanced,
        }
    }
}

// ---------------------------------------------------------------------
// Field rules
// ---------------------------------------------------------------------

pub open spec fn any_route() -> Seq<char> {
    "0.0.0.0/0"@
}

/// The comma-separated entries of a field, or the catch-all route when
/// there are none.
pub open spec fn csv_or_any(s: Seq<char>) -> Seq<Seq<char>> {
    if split_csv(s).len() == 0 {
        seq![any_route()]
    } else {
        split_csv(s)
    }
}

/// A field's trimmed text, or `None` when it is blank.
pub open spec fn opt_trimmed(s: Seq<char>) -> Option<Seq<char>> {
    if trim(s).len() == 0 {
        None
    } else {
        Some(trim(s))
    }
}

/// Whether `parse_u32` accepts a field.
pub open spec fn u32_field_ok(s: Seq<char>) -> bool {
    trim(s).len() == 0 || parse_i64(trim(s)) is Some
}

/// What `parse_u32` reads a field it accepts as.
pub open spec fn u32_field(s: Seq<char>) -> Option<u32> {
    if trim(s).len() == 0 {
        None
    } else {
        Some(clamp_u32(parse_i64(trim(s)).unwrap()))
    }
}

/// What `str::parse::<u32>().ok()` gives for a trimmed field.
pub open spec fn u32_parse_ok(s: Seq<char>) -> Option<u32> {
    match parse_unsigned(trim(s), 0xffff_ffff) {
        Some(v) => Some(v as u32),
        None => None,
    }
}

/// Whether a field holds something other than blank or one of two
/// default values (after trimming).
pub open spec fn differs_from(s: Seq<char>, default: Seq<char>) -> bool {
    trim(s).len() != 0 && trim(s) != default
}

/// Advanced fields are shown when any of them holds non-default data.
pub open spec fn client_has_advanced_data(c: ClientView) -> bool {
    ||| trim(c.dns).len() != 0
    ||| differs_from(c.mtu, "1420"@)
    ||| differs_from(c.keepalive, "25"@)
}

/// The public key field for a private key field: blank for a blank key,
/// the derived key, or a marker for a key that is none.
pub open spec fn public_key_text(private_key: Seq<char>) -> Seq<char> {
    let t = trim(private_key);
    if t.len() == 0 {
        Seq::empty()
    } else {
        match spec_public_key(t) {
            Some(p) => p,
            None => "(invalid private key)"@,
        }
    }
}

/// The endpoint auto-filled from the host's public address and port.
pub open spec fn auto_endpoint(public_ip: Seq<char>, listen_port: Seq<char>) -> Seq<char> {
    let ip = trim(public_ip);
    let port = trim(listen_port);
    if ip.len() != 0 && port.len() != 0 {
        ip + ":"@ + port
    } else if ip.len() != 0 {
        ip
    } else {
        Seq::empty()
    }
}

pub open spec fn opt_dec(v: Option<u32>) -> Seq<char> {
    match v {
        Some(n) => dec(n as nat),
        None => Seq::empty(),
    }
}

pub open spec fn nonempty_opt(s: Seq<char>) -> Option<Seq<char>> {
    if s.len() == 0 {
        None
    } else {
        Some(s)
    }
}

fn or_any_route(v: Vec<String>) -> (res: Vec<String>)
    ensures
        string_views(res@) == (if string_views(v@).len() == 0 {
            seq![any_route()]
        } else {
            string_views(v@)
        }),
{
    if v.len() == 0 {
        let mut r: Vec<String> = Vec::new();
        r.push(string_of("0.0.0.0/0"));
        assert(string_views(r@) =~= seq![any_route()]);
        r
    } else {
        v
    }
}

fn trimmed_or_none(s: &str) -> (res: Option<String>)
    ensures
        opt_view(res) == opt_trimmed(s@),
{
    let t = trim_str(s);
    if t.as_str().is_empty() {
        None
    } else {
        Some(t)
    }
}

fn is_blank(s: &str) -> (res: bool)
    ensures
        res == (trim(s@).len() == 0),
{
    let t = trim_str(s);
    t.as_str().is_empty()
}

fn field_differs(s: &str, default: &str) -> (res: bool)
    ensures
        res == differs_from(s@, default@),
{
    let t = trim_str(s);
    !t.as_str().is_empty() && !str_eq(t.as_str(), default)
}

fn u32_text_or_blank(v: Option<u32>) -> (res: String)
    ensures
        res@ == opt_dec(v),
{
    match v {
        Some(n) => dec_string(n as u64),
        None => String::new(),
    }
}

/// The fields of a fresh client form.
pub open spec fn fresh_client(c: ClientView, id: u64, name: Seq<char>, tunnel_id: u32) -> bool {
    &&& c.id == id
    &&& c.name == name
    &&& decodes_to_key(c.private_key)
    &&& all_base64_symbols(c.private_key)
    &&& spec_public_key(c.private_key) == Some(c.public_key)
    &&& !c.manual_key
    &&& c.address.len() == 0
    &&& !c.address_manual
    &&& c.dns.len() == 0
    &&& c.mtu.len() == 0
    &&& c.allowed_ips == any_route()
    &&& c.endpoint.len() == 0
    &&& !c.endpoint_manual
    &&& c.keepalive == "25"@
    &&& c.use_psk
    &&& !c.psk_manual
    &&& c.psk.len() == 0
    &&& c.tunnel_id == dec(tunnel_id as nat)
    &&& !c.tunnel_id_manual
    &&& !c.advanced
}

/// The client form of a loaded client config: every field taken from the
/// host model (address, DNS and MTU from its interface; allowed IPs,
/// endpoint, keepalive and pre-shared key from its first peer), every
/// manual toggle on except the pre-shared key's, which is on when a key was
/// loaded.
pub open spec fn loaded_client(id: u64, h: HostView) -> ClientView {
    let base = ClientView {
        id,
        name: h.name,
        private_key: h.private_key,
        public_key: h.public_key,
        manual_key: true,
        address: join(h.address, ", "@),
        address_manual: true,
        dns: join(h.dns, ", "@),
        mtu: opt_dec(h.mtu),
        allowed_ips: any_route(),
        endpoint: Seq::empty(),
        endpoint_manual: true,
        keepalive: "25"@,
        use_psk: true,
        psk_manual: false,
        psk: Seq::empty(),
        tunnel_id: "1"@,
        tunnel_id_manual: true,
        advanced: false,
    };
    let filled = if h.peers.len() > 0 {
        let p = h.peers[0];
        let psk = match p.preshared_key {
            Some(k) => k,
            None => Seq::empty(),
        };
        ClientView {
            allowed_ips: if p.allowed_ips.len() == 0 {
                any_route()
            } else {
                join(p.allowed_ips, ", "@)
            },
            endpoint: match p.endpoint {
                Some(e) => e,
                None => base.endpoint,
            },
            keepalive: match p.persistent_keepalive {
                Some(k) => dec(k as nat),
                None => base.keepalive,
            },
            use_psk: p.preshared_key is Some,
            psk,
            psk_manual: psk.len() != 0,
            ..base
        }
    } else {
        base
    };
    ClientView { advanced: client_has_advanced_data(filled), ..filled }
}

/// The options of the client model `sync` builds with a given private key.
pub open spec fn sync_options(c: ClientView, private_key: Seq<char>) -> OptionsView {
    OptionsView {
        private_key: Some(private_key),
        address: split_csv(c.address),
        listen_port: None,
        dns: split_csv(c.dns),
        mtu: u32_field(c.mtu),
        table: None,
        pre_up: Seq::empty(),
        post_up: Seq::empty(),
        pre_down: Seq::empty(),
        post_down: Seq::empty(),
        save_config: None,
        fw_mark: None,
    }
}

/// The client's name as `sync` uses it: trimmed, unless that leaves
/// nothing.
pub open spec fn sync_name(c: ClientView) -> Seq<char> {
    if trim(c.name).len() == 0 {
        c.name
    } else {
        trim(c.name)
    }
}

/// The pre-shared key field after `sync` resolved it, given a freshly
/// generated key: cleared when unused; the trimmed manual key; the fresh
/// key when blank; otherwise left as it is.
pub open spec fn resolved_psk_field(c: ClientView, fresh: Seq<char>) -> Seq<char> {
    if !c.use_psk {
        Seq::empty()
    } else if c.psk_manual && trim(c.psk).len() != 0 {
        trim(c.psk)
    } else if trim(c.psk).len() == 0 {
        fresh
    } else {
        c.psk
    }
}

/// Whether resolving the pre-shared key generates a fresh one.
pub open spec fn psk_needs_fresh(c: ClientView) -> bool {
    c.use_psk && !(c.psk_manual && trim(c.psk).len() != 0) && trim(c.psk).len() == 0
}

pub open spec fn psk_in_use(c: ClientView) -> Option<Seq<char>> {
    if c.use_psk {
        Some(c.psk)
    } else {
        None
    }
}

/// The client's `[Peer]` entry pointing at the host.
pub open spec fn client_peer_view(
    c: ClientView,
    host_pubkey: Seq<char>,
    host_name: Seq<char>,
    psk: Option<Seq<char>>,
) -> PeerView {
    PeerView {
        public_key: host_pubkey,
        allowed_ips: csv_or_any(c.allowed_ips),
        endpoint: opt_trimmed(c.endpoint),
        persistent_keepalive: u32_field(c.keepalive),
        preshared_key: psk,
        comment: Some(host_name),
    }
}

/// The `[Peer]` entry for the client on the host's side.
pub open spec fn host_peer_view(c: ClientView, public_key: Seq<char>, name: Seq<char>, psk: Option<Seq<char>>) -> PeerView {
    PeerView {
        public_key,
        allowed_ips: csv_or_any(c.address),
        endpoint: None,
        persistent_keepalive: None,
        preshared_key: psk,
        comment: Some(name),
    }
}

/// A project record's client form: the record's fields, with blank text
/// where the record has none, the catch-all route for no allowed IPs, and
/// the address marked manual.
pub open spec fn project_client(id: u64, d: ClientProjectDict, private_key: Seq<char>) -> ClientView {
    let base = ClientView {
        id,
        name: d.name@,
        private_key,
        public_key: public_key_text(private_key),
        manual_key: d.manual_key,
        address: join(string_views(d.address@), ", "@),
        address_manual: true,
        dns: join(string_views(d.dns@), ", "@),
        mtu: opt_dec(d.mtu),
        allowed_ips: if d.allowed_ips@.len() == 0 {
            any_route()
        } else {
            join(string_views(d.allowed_ips@), ", "@)
        },
        endpoint: match d.endpoint {
            Some(e) => e@,
            None => Seq::empty(),
        },
        endpoint_manual: d.endpoint_manual,
        keepalive: match d.persistent_keepalive {
            Some(k) => dec(k as nat),
            None => "25"@,
        },
        use_psk: d.use_preshared_key,
        psk_manual: d.preshared_key is Some,
        psk: match d.preshared_key {
            Some(k) => k@,
            None => Seq::empty(),
        },
        tunnel_id: match d.tunnel_id {
            Some(t) => dec(t as nat),
            None => dec(1),
        },
        tunnel_id_manual: d.tunnel_id_manual,
        advanced: false,
    };
    ClientView { advanced: client_has_advanced_data(base), ..base }
}

/// When `sync` builds the client model: readable MTU and keepalive, a
/// usable private key (when one is given) and valid addresses.
pub open spec fn sync_model_ok(o: ClientView) -> bool {
    let k = trim(o.private_key);
    &&& u32_field_ok(o.mtu)
    &&& u32_field_ok(o.keepalive)
    &&& (k.len() != 0 ==> decodes_to_key(k) && spec_public_key(k) is Some)
    &&& crate::keys::cidr_list_ok(split_csv(o.address))
}

/// A key as the library generates it: 44 standard base64 symbols.
pub open spec fn fresh_key_text(k: Seq<char>) -> bool {
    all_base64_symbols(k) && k.len() == 44
}

/// `sync` on form `o` leaves form `f`, and succeeds (`ok`) or not: when
/// the model cannot be built nothing changes; otherwise the form takes the
/// key used (the trimmed key, or a fresh one for a blank field), its public
/// key and the resolved pre-shared key, and `sync` succeeds exactly when
/// both `[Peer]` entries are valid.
pub open spec fn sync_step(o: ClientView, host_pubkey: Seq<char>, f: ClientView, ok: bool) -> bool {
    let k = trim(o.private_key);
    &&& !sync_model_ok(o) ==> !ok && f == o
    &&& sync_model_ok(o) ==> {
        &&& k.len() != 0 ==> f.private_key == k
        &&& k.len() == 0 ==> fresh_key_text(f.private_key)
        &&& decodes_to_key(f.private_key)
        &&& f.public_key == spec_public_key(f.private_key).unwrap()
        &&& (psk_needs_fresh(o) ==> decodes_to_key(f.psk) && fresh_key_text(f.psk))
        &&& f.psk == resolved_psk_field(o, f.psk)
        &&& f == ClientView { private_key: f.private_key, public_key: f.public_key, psk: f.psk, ..o }
        &&& ok <==> peer_fields_ok(host_pubkey, csv_or_any(o.allowed_ips), psk_in_use(f)) && peer_fields_ok(
            f.public_key,
            csv_or_any(o.address),
            psk_in_use(f),
        )
    }
}

/// The `[Peer]` entry a synced client form `f` (from form `o`) puts on the
/// host's side.
pub open spec fn synced_peer(o: ClientView, f: ClientView) -> PeerView {
    host_peer_view(o, f.public_key, sync_name(o), psk_in_use(f))
}

/// Syncing a form again right after a successful sync changes nothing:
/// the second sync succeeds, leaves the form as it is and builds the same
/// client model and host-side `[Peer]` entry.
pub proof fn lemma_sync_repeat(o: ClientView, host_pubkey: Seq<char>, f: ClientView, f2: ClientView, ok2: bool)
    requires
        sync_step(o, host_pubkey, f, true),
        sync_step(f, host_pubkey, f2, ok2),
    ensures
        ok2,
        f2 == f,
        synced_peer(f, f2) == synced_peer(o, f),
        sync_name(f) == sync_name(o),
        sync_options(f, f2.private_key) == sync_options(o, f.private_key),
        forall|host_name: Seq<char>| #[trigger] client_peer_view(f, host_pubkey, host_name, psk_in_use(f2))
            == client_peer_view(o, host_pubkey, host_name, psk_in_use(f)),
{
    let k = trim(o.private_key);
    assert(sync_model_ok(o));
    if k.len() != 0 {
        lemma_trim_idem(o.private_key);
    } else {
        lemma_base64_text_is_trimmed(f.private_key);
    }
    assert(trim(f.private_key) == f.private_key);
    assert(sync_model_ok(f));
    if o.use_psk && o.psk_manual && trim(o.psk).len() != 0 {
        lemma_trim_idem(o.psk);
    } else if psk_needs_fresh(o) {
        lemma_base64_text_is_trimmed(f.psk);
    }
    assert(!psk_needs_fresh(f));
    assert(f2.psk == f.psk);
    assert(f2 == f);
}

/// The project record of a client form: its fields read as the record
/// types them (blank numbers and unreadable ones are `None`, no allowed IPs
/// is the catch-all route, a blank endpoint or pre-shared key is `None`).
pub open spec fn client_record(c: ClientView, d: ClientProjectDict) -> bool {
    &&& d.name@ == c.name
    &&& opt_view(d.private_key) == Some(c.private_key)
    &&& string_views(d.address@) == split_csv(c.address)
    &&& string_views(d.dns@) == split_csv(c.dns)
    &&& d.mtu == u32_parse_ok(c.mtu)
    &&& d.manual_key == c.manual_key
    &&& string_views(d.allowed_ips@) == csv_or_any(c.allowed_ips)
    &&& opt_view(d.endpoint) == opt_trimmed(c.endpoint)
    &&& d.endpoint_manual == c.endpoint_manual
    &&& d.persistent_keepalive == u32_parse_ok(c.keepalive)
    &&& d.use_preshared_key == c.use_psk
    &&& opt_view(d.preshared_key) == nonempty_opt(c.psk)
    &&& d.tunnel_id == u32_parse_ok(c.tunnel_id)
    &&& d.tunnel_id_manual == c.tunnel_id_manual
}

impl ClientTabState {
    /// A fresh client form with a generated key pair.
    pub fn new(id: u64, default_name: &str, default_tunnel_id: u32) -> (res: ClientTabState)
        ensures
            fresh_client(res@, id, default_name@, default_tunnel_id),
    {
        let private_key = generate_private_key();
        let public_key = match public_key_from_private(private_key.as_str()) {
            Ok(p) => p,
            Err(_) => String::new(),
        };
        ClientTabState {
            id,
            name: string_of(default_name),
            private_key,
            public_key,
            manual_key: false,
            address: String::new(),
            address_manual: false,
            dns: String::new(),
            mtu: String::new(),
            allowed_ips: string_of("0.0.0.0/0"),
            endpoint: String::new(),
            endpoint_manual: false,
            keepalive: string_of("25"),
            use_psk: true,
            psk_manual: false,
            psk: String::new(),
            tunnel_id: dec_string(default_tunnel_id as u64),
            tunnel_id_manual: false,
            advanced: false,
        }
    }

    /// Fill the form from a loaded client config.
    pub fn from_loaded_host(id: u64, host: &WireGuardHost) -> (res: ClientTabState)
        ensures
            res@ == loaded_client(id, host@),
            host@.peers.len() > 0 && host@.peers[0].allowed_ips.len() > 0 && crate::keys::cidr_list_ok(
                host@.peers[0].allowed_ips,
            ) ==> split_csv(res@.allowed_ips) == host@.peers[0].allowed_ips,
            host@.peers.len() > 0 && host@.peers[0].endpoint is Some ==> res@.endpoint
                == host@.peers[0].endpoint->Some_0,
    {
        proof {
            crate::form_law::lemma_loaded_client_fields(id, host@);
        }
        let mut s = ClientTabState::new(id, host.name.as_str(), 1);
        s.manual_key = true;
        s.address_manual = true;
        s.endpoint_manual = true;
        s.tunnel_id_manual = true;
        s.name = string_clone(&host.name);
        s.private_key = string_clone(&host.private_key);
        s.public_key = string_clone(&host.public_key);
        s.address = join_strs(&host.address, ", ");
        s.dns = join_strs(&host.dns, ", ");
        s.mtu = u32_text_or_blank(host.mtu);
        proof {
            reveal_strlit("1");
            assert(dec(1) == "1"@);
        }
        if host.peers.len() > 0 {
            let p = &host.peers[0];
            assert(host@.peers[0] == p@);
            s.allowed_ips = if p.allowed_ips.len() == 0 {
                string_of("0.0.0.0/0")
            } else {
                join_strs(&p.allowed_ips, ", ")
            };
            if let Some(ep) = &p.endpoint {
                s.endpoint = string_clone(ep);
            }
            if let Some(ka) = p.persistent_keepalive {
                s.keepalive = dec_string(ka as u64);
            }
            s.use_psk = p.preshared_key.is_some();
            s.psk = match &p.preshared_key {
                Some(k) => string_clone(k),
                None => String::new(),
            };
            s.psk_manual = !s.psk.as_str().is_empty();
        }
        s.refresh_advanced_lock();
        s
    }

    /// Replace the form with a loaded client config; the tunnel id field
    /// belongs to this tab, not to the file, so it stays as it is.
    pub fn replace_with_loaded(&mut self, host: &WireGuardHost)
        ensures
            final(self)@ == (ClientView {
                tunnel_id: old(self)@.tunnel_id,
                tunnel_id_manual: old(self)@.tunnel_id_manual,
                ..loaded_client(old(self)@.id, host@)
            }),
    {
        let tunnel_id = string_clone(&self.tunnel_id);
        let tunnel_id_manual = self.tunnel_id_manual;
        let mut loaded = ClientTabState::from_loaded_host(self.id, host);
        loaded.tunnel_id = tunnel_id;
        loaded.tunnel_id_manual = tunnel_id_manual;
        *self = loaded;
    }

    /// Generate a new private key and derive its public key.
    pub fn regenerate_key(&mut self)
        ensures
            decodes_to_key(final(self)@.private_key),
            all_base64_symbols(final(self)@.private_key),
            final(self)@ == (ClientView {
                private_key: final(self)@.private_key,
                public_key: public_key_text(final(self)@.private_key),
                ..old(self)@
            }),
    {
        self.private_key = generate_private_key();
        self.refresh_public_key();
    }

    /// Recompute the public key field from the private key field.
    pub fn refresh_public_key(&mut self)
        ensures
            final(self)@ == (ClientView { public_key: public_key_text(old(self)@.private_key), ..old(self)@ }),
    {
        let trimmed = trim_str(self.private_key.as_str());
        if trimmed.as_str().is_empty() {
            self.public_key = String::new();
            return;
        }
        self.public_key = match public_key_from_private(trimmed.as_str()) {
            Ok(p) => p,
            Err(_) => string_of("(invalid private key)"),
        };
    }

    /// Generate a fresh pre-shared key and turn its use on.
    pub fn generate_psk(&mut self)
        ensures
            decodes_to_key(final(self)@.psk),
            final(self)@ == (ClientView { psk: final(self)@.psk, use_psk: true, ..old(self)@ }),
    {
        self.psk = generate_preshared_key();
        self.use_psk = true;
    }

    /// Pick a random tunnel id (1 to 65000).
    pub fn generate_tunnel_id(&mut self)
        ensures
            exists|t: u32| 1 <= t <= 65000 && #[trigger] dec(t as nat) == final(self)@.tunnel_id,
            final(self)@ == (ClientView { tunnel_id: final(self)@.tunnel_id, ..old(self)@ }),
    {
        let t = random_tunnel_id();
        self.tunnel_id = dec_string(t as u64);
        assert(dec(t as nat) == self@.tunnel_id);
    }

    /// The tunnel id field as a number, when it is one.
    pub fn get_tunnel_id(&self) -> (res: Option<u32>)
        ensures
            res == u32_parse_ok(self@.tunnel_id),
    {
        let t = trim_str(self.tunnel_id.as_str());
        match parse_unsigned_str(t.as_str(), 0xffff_ffff) {
            Some(v) => Some(v as u32),
            None => None,
        }
    }

    /// Auto-fill the endpoint from the host's public address and listen
    /// port; nothing changes while the endpoint is manual.
    pub fn refresh_endpoint(&mut self, host_public_ip: &str, host_listen_port: &str)
        ensures
            old(self)@.endpoint_manual ==> final(self)@ == old(self)@,
            !old(self)@.endpoint_manual ==> final(self)@ == (ClientView {
                endpoint: auto_endpoint(host_public_ip@, host_listen_port@),
                ..old(self)@
            }),
    {
        if self.endpoint_manual {
            return;
        }
        let public_ip = trim_str(host_public_ip);
        let port = trim_str(host_listen_port);
        self.endpoint = if !public_ip.as_str().is_empty() && !port.as_str().is_empty() {
            let mut e = string_clone(&public_ip);
            e.append(":");
            e.append(port.as_str());
            e
        } else if !public_ip.as_str().is_empty() {
            public_ip
        } else {
            String::new()
        };
    }

    /// Fill convenience defaults from the parent host: an address from the
    /// pool when the address is blank, DNS and MTU from the host (blank
    /// fields only, unless `force`), and the endpoint. The address is never
    /// overwritten when set, since that would burn another pool address.
    pub fn apply_host_defaults(
        &mut self,
        host_dns: &Vec<String>,
        host_mtu: Option<u32>,
        host_public_ip: &str,
        host_listen_port: &str,
        force: bool,
        pool: &mut Option<IpAddressPool>,
    )
        requires
            *old(pool) matches Some(p) ==> p.wf(),
        ensures
            *final(pool) matches Some(p) ==> p.wf(),
            ({
                let o = old(self)@;
                let f = final(self)@;
                let dns = if (force || trim(o.dns).len() == 0) && string_views(host_dns@).len() > 0 {
                    join(string_views(host_dns@), ", "@)
                } else {
                    o.dns
                };
                let mtu = if (force || trim(o.mtu).len() == 0) && host_mtu is Some {
                    dec(host_mtu.unwrap() as nat)
                } else {
                    o.mtu
                };
                let endpoint = if o.endpoint_manual {
                    o.endpoint
                } else {
                    auto_endpoint(host_public_ip@, host_listen_port@)
                };
                f == ClientView { address: f.address, dns, mtu, endpoint, ..o }
            }),
            trim(old(self)@.address).len() != 0 ==> final(self)@.address == old(self)@.address
                && *final(pool) == *old(pool),
            trim(old(self)@.address).len() == 0 ==> match *old(pool) {
                None => final(pool).is_none() && final(self)@.address == old(self)@.address,
                Some(p) => match *final(pool) {
                    Some(q) => if p@.exhausted() {
                        q@ == p@ && final(self)@.address == old(self)@.address
                    } else {
                        exists|a: u128| p@.is_first_free(a) && #[trigger] allocation_text(p@, a)
                            == final(self)@.address && q@ == (PoolView {
                            allocated: p@.allocated.insert(a),
                            ..p@
                        })
                    },
                    None => false,
                },
            },
    {
        if is_blank(self.address.as_str()) {
            match pool {
                Some(p) => {
                    match p.allocate() {
                        Ok(addr) => {
                            self.address = addr;
                        },
                        Err(_) => {},
                    }
                },
                None => {},
            }
        }
        if force || is_blank(self.dns.as_str()) {
            if host_dns.len() != 0 {
                self.dns = join_strs(host_dns, ", ");
            }
        }
        if force || is_blank(self.mtu.as_str()) {
            if let Some(m) = host_mtu {
                self.mtu = dec_string(m as u64);
            }
        }
        self.refresh_endpoint(host_public_ip, host_listen_port);
    }

    /// Show the advanced fields when any of them holds non-default data,
    /// so nothing already set hides behind a collapsed section.
    pub fn refresh_advanced_lock(&mut self)
        ensures
            final(self)@ == (ClientView { advanced: client_has_advanced_data(old(self)@), ..old(self)@ }),
    {
        let has_advanced_data = !is_blank(self.dns.as_str()) || field_differs(
            self.mtu.as_str(),
            "1420",
        ) || field_differs(self.keepalive.as_str(), "25");
        self.advanced = has_advanced_data;
    }

    /// The pre-shared key `sync` uses: none when unused; the trimmed manual
    /// key; a freshly generated key (stored in the field) when the field is
    /// blank; otherwise the field as it is.
    pub fn resolve_psk(&mut self) -> (res: Option<String>)
        ensures
            psk_needs_fresh(old(self)@) ==> decodes_to_key(final(self)@.psk) && fresh_key_text(
                final(self)@.psk,
            ),
            !psk_needs_fresh(old(self)@) ==> final(self)@.psk == old(self)@.psk,
            final(self)@ == (ClientView { psk: final(self)@.psk, ..old(self)@ }),
            opt_view(res) == (if !old(self)@.use_psk {
                None
            } else {
                Some(resolved_psk_field(old(self)@, final(self)@.psk))
            }),
    {
        if !self.use_psk {
            return None;
        }
        let t = trim_str(self.psk.as_str());
        if self.psk_manual && !t.as_str().is_empty() {
            return Some(t);
        }
        if t.as_str().is_empty() {
            self.psk = generate_preshared_key();
        }
        Some(string_clone(&self.psk))
    }

    /// Rebuild the client's model from the form: its own `[Interface]` plus
    /// a `[Peer]` entry pointing at the host, and the `[Peer]` entry that
    /// belongs on the host's side. The form's key, public key and
    /// pre-shared key fields take the values used.
    pub fn sync(&mut self, host_pubkey: &str, host_name: &str) -> (res: Result<ClientSync, String>)
        ensures
            sync_step(old(self)@, host_pubkey@, final(self)@, res is Ok),
            res matches Ok(cs) ==> cs.client_model@ == (HostView {
                peers: seq![client_peer_view(old(self)@, host_pubkey@, host_name@, psk_in_use(final(self)@))],
                ..host_from_options(sync_name(old(self)@), sync_options(old(self)@, final(self)@.private_key), final(self)@.private_key)
            }) && cs.host_peer@ == synced_peer(old(self)@, final(self)@),
            res matches Ok(cs) ==> cs.client_model@.peers[0].preshared_key == cs.host_peer@.preshared_key,
            res matches Ok(cs) ==> cs.client_model@.peers.len() == 1
                && cs.client_model@.peers[0].public_key == host_pubkey@
                && (trim(old(self)@.endpoint).len() == 0 ==> cs.client_model@.peers[0].endpoint is None)
                && (trim(old(self)@.endpoint).len() > 0 ==> cs.client_model@.peers[0].endpoint
                    == Some(trim(old(self)@.endpoint))),
    {
        let ghost o = self@;
        let name = {
            let n = trim_str(self.name.as_str());
            if n.as_str().is_empty() {
                string_clone(&self.name)
            } else {
                n
            }
        };
        let private_key = {
            let t = trim_str(self.private_key.as_str());
            if t.as_str().is_empty() {
                generate_private_key()
            } else {
                t
            }
        };
        let mtu = parse_u32(self.mtu.as_str(), "MTU")?;
        let keepalive = parse_u32(self.keepalive.as_str(), "Keepalive")?;
        let opts = HostOptions {
            private_key: Some(private_key),
            address: split_csv_str(self.address.as_str()),
            listen_port: None,
            dns: split_csv_str(self.dns.as_str()),
            mtu,
            table: None,
            pre_up: Vec::new(),
            post_up: Vec::new(),
            pre_down: Vec::new(),
            post_down: Vec::new(),
            save_config: None,
            fw_mark: None,
        };
        assert(opts@ =~= sync_options(o, private_key@));
        let mut client = match WireGuardHost::new(name.as_str(), opts) {
            Ok(c) => c,
            Err(e) => {
                return Err(e.message());
            },
        };
        self.private_key = string_clone(&client.private_key);
        self.public_key = string_clone(&client.public_key);
        let psk = self.resolve_psk();
        self.psk = match &psk {
            Some(k) => string_clone(k),
            None => String::new(),
        };
        let allowed = or_any_route(split_csv_str(self.allowed_ips.as_str()));
        let endpoint = trimmed_or_none(self.endpoint.as_str());
        let client_peer = match Peer::build(
            host_pubkey,
            allowed,
            endpoint,
            keepalive,
            clone_opt_string(&psk),
            Some(string_of(host_name)),
        ) {
            Ok(p) => p,
            Err(e) => {
                return Err(e.message());
            },
        };
        client.add_peer(client_peer);
        assert(client@.peers =~= seq![client_peer_view(o, host_pubkey@, host_name@, psk_in_use(self@))]);
        let host_peer_ips = or_any_route(split_csv_str(self.address.as_str()));
        let host_peer = match Peer::build(
            self.public_key.as_str(),
            host_peer_ips,
            None,
            None,
            psk,
            Some(name),
        ) {
            Ok(p) => p,
            Err(e) => {
                return Err(e.message());
            },
        };
        proof {
            crate::form_law::lemma_client_peer_fields(o, host_pubkey@, host_name@, psk_in_use(self@));
        }
        Ok(ClientSync { client_model: client, host_peer })
    }

    /// The project record of this client form.
    pub fn to_project_dict(&self) -> (res: ClientProjectDict)
        ensures
            client_record(self@, res),
            string_views(res.dns@) == split_csv(self@.dns),
            string_views(res.address@) == split_csv(self@.address),
            res.name@ == self@.name,
    {
        let mtu_t = trim_str(self.mtu.as_str());
        let ka_t = trim_str(self.keepalive.as_str());
        ClientProjectDict {
            name: string_clone(&self.name),
            private_key: Some(string_clone(&self.private_key)),
            address: split_csv_str(self.address.as_str()),
            dns: split_csv_str(self.dns.as_str()),
            mtu: match parse_unsigned_str(mtu_t.as_str(), 0xffff_ffff) {
                Some(v) => Some(v as u32),
                None => None,
            },
            manual_key: self.manual_key,
            allowed_ips: or_any_route(split_csv_str(self.allowed_ips.as_str())),
            endpoint: trimmed_or_none(self.endpoint.as_str()),
            endpoint_manual: self.endpoint_manual,
            persistent_keepalive: match parse_unsigned_str(ka_t.as_str(), 0xffff_ffff) {
                Some(v) => Some(v as u32),
                None => None,
            },
            use_preshared_key: self.use_psk,
            preshared_key: if self.psk.as_str().is_empty() {
                None
            } else {
                Some(string_clone(&self.psk))
            },
            tunnel_id: self.get_tunnel_id(),
            tunnel_id_manual: self.tunnel_id_manual,
        }
    }

    /// The client form of a project record (a missing private key is
    /// generated).
    pub fn from_project_dict(id: u64, d: &ClientProjectDict) -> (res: ClientTabState)
        ensures
            (d.private_key matches Some(k) ==> res@.private_key == k@),
            (d.private_key is None ==> decodes_to_key(res@.private_key)),
            res@ == project_client(id, *d, res@.private_key),
    {
        let tid = match d.tunnel_id {
            Some(t) => t,
            None => 1,
        };
        let mut s = ClientTabState::new(id, d.name.as_str(), tid);
        s.private_key = match &d.private_key {
            Some(k) => string_clone(k),
            None => generate_private_key(),
        };
        s.refresh_public_key();
        s.address = join_strs(&d.address, ", ");
        s.dns = join_strs(&d.dns, ", ");
        s.mtu = u32_text_or_blank(d.mtu);
        s.manual_key = d.manual_key;
        s.address_manual = true;
        s.allowed_ips = if d.allowed_ips.len() == 0 {
            string_of("0.0.0.0/0")
        } else {
            join_strs(&d.allowed_ips, ", ")
        };
        s.endpoint = match &d.endpoint {
            Some(e) => string_clone(e),
            None => String::new(),
        };
        s.endpoint_manual = d.endpoint_manual;
        if let Some(ka) = d.persistent_keepalive {
            s.keepalive = dec_string(ka as u64);
        }
        s.use_psk = d.use_preshared_key;
        s.psk = match &d.preshared_key {
            Some(k) => string_clone(k),
            None => String::new(),
        };
        s.psk_manual = d.preshared_key.is_some();
        if let Some(t) = d.tunnel_id {
            s.tunnel_id = dec_string(t as u64);
        }
        s.tunnel_id_manual = d.tunnel_id_manual;
        s.refresh_advanced_lock();
        s
    }
}

} // verus!
