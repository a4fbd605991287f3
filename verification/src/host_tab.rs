//! The form state of one host: its `[Interface]` fields as text, its
//! clients, the address pool its clients draw from, and the rules that turn
//! the form into a host model and back.
use vstd::prelude::*;

use crate::client_tab::{
    any_route, auto_endpoint, client_has_advanced_data, differs_from, loaded_client,
    public_key_text, u32_parse_ok, ClientTabState, ClientView,
};
use crate::form::{listen_port_text, parse_u32, resolve_listen_port, ListenPortText};
use crate::host::{host_from_options, host_keys_ok, HostOptions, HostView, OptionsView, WireGuardHost};
use crate::client_tab::{
    client_record, opt_dec, opt_trimmed, project_client, sync_step, synced_peer, u32_field,
    u32_field_ok,
};
use crate::parse::{load_host_from_config, spec_load_host};
use crate::project::{ClientProjectDict, HostProjectDict};
use crate::form::{spec_split_lines, split_lines, RANDOM_LISTEN_PORT_HIGH, RANDOM_LISTEN_PORT_LOW};
use crate::ip::{addr_bits, cidr_parse, IpNetwork};
use crate::keys::{all_base64_symbols, decodes_to_key, generate_private_key, public_key_from_private, spec_public_key};
use crate::peer::{Peer, PeerView};
use crate::pool::{allocation_text, reserve_target, reserved_set, IpAddressPool, PoolView};
use crate::text::{
    clone_opt_string, dec, dec_string, join, join_strs, opt_view, parse_unsigned, parse_unsigned_str,
    rsplit_once, rsplit_once_str, split_csv, split_csv_str, string_clone, string_of, string_views,
    lines, trim, trim_str, trimmed_nonempty,
};

verus! {

/// Which sub-tab of a host is visible: its own settings form, or one of
/// its clients by index into `HostTabState::clients`.
#[derive(Clone, Copy, PartialEq, Eq, Structural)]
pub enum HostSubTab {
    Settings,
    Client(usize),
}

/// One WireGuard interface as form text, with its clients.
pub struct HostTabState {
    pub id: u64,
    pub name: String,
    pub private_key: String,
    pub public_key: String,
    pub manual_key: bool,
    pub address: String,
    pub listen_port: String,
    pub dns: String,
    pub mtu: String,
    pub table: String,
    pub fwmark: String,
    pub save_config: bool,
    pub pre_up: String,
    pub post_up: String,
    pub pre_down: String,
    pub post_down: String,
    pub public_ip: String,
    pub advanced: bool,
    pub clients: Vec<ClientTabState>,
    pub selected: HostSubTab,
    client_counter: u32,
    /// Peers read by `load_from_config` that have no client form of their
    /// own; they ride along through every rebuild of the host, for this
    /// session only (they are not part of a project record).
    loaded_peers: Vec<Peer>,
    pool_cidr: Option<String>,
    pool: Option<IpAddressPool>,
}

#[verifier::ext_equal]
pub struct HostTabView {
    pub id: u64,
    pub name: Seq<char>,
    pub private_key: Seq<char>,
    pub public_key: Seq<char>,
    pub manual_key: bool,
    pub address: Seq<char>,
    pub listen_port: Seq<char>,
    pub dns: Seq<char>,
    pub mtu: Seq<char>,
    pub table: Seq<char>,
    pub fwmark: Seq<char>,
    pub save_config: bool,
    pub pre_up: Seq<char>,
    pub post_up: Seq<char>,
    pub pre_down: Seq<char>,
    pub post_down: Seq<char>,
    pub public_ip: Seq<char>,
    pub advanced: bool,
    pub clients: Seq<ClientView>,
    pub selected: HostSubTab,
    pub client_counter: u32,
    pub loaded_peers: Seq<PeerView>,
    pub pool_cidr: Option<Seq<char>>,
    pub pool: Option<PoolView>,
}

pub open spec fn client_views(cs: Seq<ClientTabState>) -> Seq<ClientView> {
    Seq::new(cs.len(), |i: int| cs[i]@)
}

pub open spec fn pool_view(p: Option<IpAddressPool>) -> Option<PoolView> {
    match p {
        Some(q) => Some(q@),
        None => None,
    }
}

impl View for HostTabState {
    type V = HostTabView;

    closed spec fn view(&self) -> HostTabView {
        HostTabView {
            id: self.id,
            name: self.name@,
            private_key: self.private_key@,
            public_key: self.public_key@,
            manual_key: self.manual_key,
            address: self.address@,
            listen_port: self.listen_port@,
            dns: self.dns@,
            mtu: self.mtu@,
            table: self.table@,
            fwmark: self.fwmark@,
            save_config: self.save_config,
            pre_up: self.pre_up@,
            post_up: self.post_up@,
            pre_down: self.pre_down@,
            post_down: self.post_down@,
            public_ip: self.public_ip@,
            advanced: self.advanced,
            clients: client_views(self.clients@),
            selected: self.selected,
            client_counter: self.client_counter,
            loaded_peers: crate::host::peer_views(self.loaded_peers@),
            pool_cidr: crate::text::opt_view(self.pool_cidr),
            pool: pool_view(self.pool),
        }
    }
}

// ---------------------------------------------------------------------
// Field rules
// ---------------------------------------------------------------------

/// A listen-port field holding a port of the random range.
pub open spec fn random_port_text(s: Seq<char>) -> bool {
    exists|p: u16| RANDOM_LISTEN_PORT_LOW <= p <= RANDOM_LISTEN_PORT_HIGH && #[trigger] dec(p as nat) == s
}

/// The fields of a fresh host form.
pub open spec fn fresh_host_tab(t: HostTabView, id: u64, name: Seq<char>) -> bool {
    &&& t.id == id
    &&& t.name == name
    &&& decodes_to_key(t.private_key)
    &&& all_base64_symbols(t.private_key)
    &&& spec_public_key(t.private_key) == Some(t.public_key)
    &&& !t.manual_key
    &&& t.address.len() == 0
    &&& random_port_text(t.listen_port)
    &&& t.dns.len() == 0
    &&& t.mtu == "1420"@
    &&& t.table.len() == 0
    &&& t.fwmark.len() == 0
    &&& !t.save_config
    &&& t.pre_up.len() == 0
    &&& t.post_up.len() == 0
    &&& t.pre_down.len() == 0
    &&& t.post_down.len() == 0
    &&& t.public_ip.len() == 0
    &&& !t.advanced
    &&& t.clients.len() == 0
    &&& t.selected == HostSubTab::Settings
    &&& t.client_counter == 0
    &&& t.loaded_peers.len() == 0
    &&& t.pool_cidr is None
    &&& t.pool is None
}

/// Advanced fields are shown when any of them holds non-default data.
pub open spec fn host_has_advanced_data(t: HostTabView) -> bool {
    ||| trim(t.dns).len() != 0
    ||| differs_from(t.mtu, "1420"@)
    ||| trim(t.table).len() != 0
    ||| trim(t.fwmark).len() != 0
    ||| t.save_config
    ||| spec_split_lines(t.pre_up).len() != 0
    ||| spec_split_lines(t.post_up).len() != 0
    ||| spec_split_lines(t.pre_down).len() != 0
    ||| spec_split_lines(t.post_down).len() != 0
}

/// The pool a host's first address builds: the network of that address,
/// handing out `/32` addresses, with the address itself reserved; `None`
/// when the text is no network or its address cannot be reserved.
pub open spec fn pool_for(cidr: Seq<char>) -> Option<PoolView> {
    match cidr_parse(cidr) {
        None => None,
        Some((v6, addr, pl)) => {
            let n = IpNetwork { is_v6: v6, addr, prefix_len: pl };
            match reserve_target(n, cidr) {
                Some(a) => Some(
                    PoolView {
                        network: n,
                        host_prefix: 32u8,
                        allocated: Set::empty(),
                        reserved: Set::empty().insert(a),
                    },
                ),
                None => None,
            }
        },
    }
}

/// The state after `ensure_pool`, and whether a pool is at hand: nothing
/// changes without an address, when the pool already follows the first
/// address, or when that address builds no pool; otherwise the pool is
/// rebuilt for it.
pub open spec fn ensured_pool(t: HostTabView) -> (HostTabView, bool) {
    let entries = split_csv(t.address);
    if entries.len() == 0 {
        (t, false)
    } else if t.pool_cidr == Some(entries[0]) {
        (t, t.pool is Some)
    } else {
        match pool_for(entries[0]) {
            None => (t, false),
            Some(v) => (HostTabView { pool_cidr: Some(entries[0]), pool: Some(v), ..t }, true),
        }
    }
}

/// The form of a client a host adds, apart from its address: a fresh form
/// named after the host and its counter, with the host's DNS, the host's
/// MTU (or the usual 1420) and the endpoint of the host's public address.
pub open spec fn new_client_form(c: ClientView, t: HostTabView, cid: u64, counter: u32) -> bool {
    let dns = split_csv(t.dns);
    &&& c.id == cid
    &&& c.name == t.name + "-client-"@ + dec(counter as nat)
    &&& decodes_to_key(c.private_key)
    &&& all_base64_symbols(c.private_key)
    &&& spec_public_key(c.private_key) == Some(c.public_key)
    &&& !c.manual_key
    &&& !c.address_manual
    &&& c.dns == (if dns.len() > 0 {
        join(dns, ", "@)
    } else {
        Seq::<char>::empty()
    })
    &&& c.mtu == match u32_parse_ok(t.mtu) {
        Some(m) => dec(m as nat),
        None => "1420"@,
    }
    &&& c.allowed_ips == any_route()
    &&& c.endpoint == auto_endpoint(t.public_ip, t.listen_port)
    &&& !c.endpoint_manual
    &&& c.keepalive == "25"@
    &&& c.use_psk
    &&& !c.psk_manual
    &&& c.psk.len() == 0
    &&& c.tunnel_id == dec(counter as nat)
    &&& !c.tunnel_id_manual
    &&& c.advanced == client_has_advanced_data(c)
}

/// The address a new client draws and the pool after it: from the pool
/// `ensure_pool` left at hand, its lowest free address (nothing when it is
/// exhausted); no address when no pool is at hand.
pub open spec fn drew_address(t1: HostTabView, ok: bool, address: Seq<char>, pool: Option<PoolView>) -> bool {
    if ok {
        match t1.pool {
            Some(p) => if p.exhausted() {
                address.len() == 0 && pool == t1.pool
            } else {
                exists|a: u128| p.is_first_free(a) && #[trigger] allocation_text(p, a) == address
                    && pool == Some(PoolView { allocated: p.allocated.insert(a), ..p })
            },
            None => false,
        }
    } else {
        address.len() == 0 && pool == t1.pool
    }
}

/// Which sub-tab a shortcut index selects among `total` sub-tabs: the last
/// for index 8, the one at the index when there is one, else none.
pub open spec fn shortcut_target(index: int, total: int) -> Option<int> {
    if index == 8 {
        Some(total - 1)
    } else if index < total {
        Some(index)
    } else {
        None
    }
}

pub open spec fn subtab_at(target: int) -> HostSubTab {
    if target == 0 {
        HostSubTab::Settings
    } else {
        HostSubTab::Client((target - 1) as usize)
    }
}

/// The selection after the client at `idx` is closed: its own tab falls
/// back to the settings, later clients move down by one.
pub open spec fn selected_after_close(sel: HostSubTab, idx: usize) -> HostSubTab {
    match sel {
        HostSubTab::Client(i) => if i == idx {
            HostSubTab::Settings
        } else if i > idx {
            HostSubTab::Client((i - 1) as usize)
        } else {
            sel
        },
        HostSubTab::Settings => HostSubTab::Settings,
    }
}

/// A name field as the models use it: trimmed, unless that leaves nothing.
pub open spec fn form_name(s: Seq<char>) -> Seq<char> {
    if trim(s).len() == 0 {
        s
    } else {
        trim(s)
    }
}

/// The options of the host model built from the form with a given key,
/// listen port and MTU.
pub open spec fn interface_options(t: HostTabView, private_key: Seq<char>, listen_port: Option<u16>, mtu: Option<u32>) -> OptionsView {
    OptionsView {
        private_key: Some(private_key),
        address: split_csv(t.address),
        listen_port,
        dns: split_csv(t.dns),
        mtu,
        table: opt_trimmed(t.table),
        pre_up: spec_split_lines(t.pre_up),
        post_up: spec_split_lines(t.post_up),
        pre_down: spec_split_lines(t.pre_down),
        post_down: spec_split_lines(t.post_down),
        save_config: Some(t.save_config),
        fw_mark: opt_trimmed(t.fwmark),
    }
}

/// Whether a listen port fits what the listen-port field says: none for
/// a blank field, a port of the random range for `random`, the number
/// itself otherwise.
pub open spec fn port_fits(lp: ListenPortText, port: Option<u16>) -> bool {
    match lp {
        ListenPortText::Blank => port is None,
        ListenPortText::Random => port matches Some(p) && RANDOM_LISTEN_PORT_LOW <= p <= RANDOM_LISTEN_PORT_HIGH,
        ListenPortText::Number(n) => port == Some(n),
        ListenPortText::Invalid => false,
    }
}

/// When the form builds a host model: a readable listen port and MTU, a
/// usable private key (when one is given), valid addresses, and no port 0.
pub open spec fn interface_ok(t: HostTabView) -> bool {
    let lp = listen_port_text(t.listen_port);
    let k = trim(t.private_key);
    &&& !(lp is Invalid)
    &&& u32_field_ok(t.mtu)
    &&& (k.len() != 0 ==> decodes_to_key(k) && spec_public_key(k) is Some)
    &&& crate::keys::cidr_list_ok(split_csv(t.address))
    &&& lp != ListenPortText::Number(0u16)
}

/// `build_interface_model` on form `o` leaves form `f` and the host model
/// `h` (`None` on failure): on failure nothing changes; on success the
/// model holds the form's fields with the trimmed key (or a fresh one for
/// a blank field) and the port the field says, and the form takes the
/// model's name, keys and port.
pub open spec fn interface_built(o: HostTabView, f: HostTabView, h: Option<HostView>) -> bool {
    let k = trim(o.private_key);
    &&& h is Some <==> interface_ok(o)
    &&& match h {
        None => f == o,
        Some(hv) => {
            &&& port_fits(listen_port_text(o.listen_port), hv.listen_port)
            &&& (k.len() != 0 ==> hv.private_key == k)
            &&& hv == host_from_options(
                form_name(o.name),
                interface_options(o, hv.private_key, hv.listen_port, u32_field(o.mtu)),
                hv.private_key,
            )
            &&& host_keys_ok(hv)
            &&& f == HostTabView {
                name: form_name(o.name),
                private_key: hv.private_key,
                public_key: hv.public_key,
                listen_port: match hv.listen_port {
                    Some(p) => dec(p as nat),
                    None => o.listen_port,
                },
                ..o
            }
        },
    }
}

/// A client form after the host refreshed its endpoint (unless manual).
pub open spec fn refreshed_client(c: ClientView, t: HostTabView) -> ClientView {
    if c.endpoint_manual {
        c
    } else {
        ClientView { endpoint: auto_endpoint(t.public_ip, t.listen_port), ..c }
    }
}

/// The first `n` clients (forms `os` before, `fs` after) were refreshed
/// against host form `t` and synced with its public key.
pub open spec fn clients_synced(t: HostTabView, os: Seq<ClientView>, fs: Seq<ClientView>, n: int) -> bool {
    forall|i: int| 0 <= i < n ==> sync_step(#[trigger] refreshed_client(os[i], t), t.public_key, fs[i], true)
}

/// The host-side entries of the first `n` synced clients.
pub open spec fn synced_peers(t: HostTabView, os: Seq<ClientView>, fs: Seq<ClientView>, n: int) -> Seq<PeerView> {
    Seq::new(n as nat, |i: int| synced_peer(refreshed_client(os[i], t), fs[i]))
}

pub open spec fn opt_dec16(v: Option<u16>) -> Seq<char> {
    match v {
        Some(n) => dec(n as nat),
        None => Seq::empty(),
    }
}

pub open spec fn text_or_blank(v: Option<Seq<char>>) -> Seq<char> {
    match v {
        Some(t) => t,
        None => Seq::empty(),
    }
}

/// The form of a loaded host model: its fields as text (lists joined by
/// `, ` or by lines), its peers kept aside, the key marked manual, and the
/// advanced fields shown when they hold data.
pub open spec fn loaded_host_tab(o: HostTabView, h: HostView) -> HostTabView {
    let x = HostTabView {
        name: h.name,
        private_key: h.private_key,
        public_key: h.public_key,
        address: join(h.address, ", "@),
        listen_port: opt_dec16(h.listen_port),
        dns: join(h.dns, ", "@),
        mtu: opt_dec(h.mtu),
        table: text_or_blank(h.table),
        fwmark: text_or_blank(h.fw_mark),
        save_config: match h.save_config {
            Some(b) => b,
            None => false,
        },
        pre_up: join(h.pre_up, "\n"@),
        post_up: join(h.post_up, "\n"@),
        pre_down: join(h.pre_down, "\n"@),
        post_down: join(h.post_down, "\n"@),
        manual_key: true,
        loaded_peers: h.peers,
        ..o
    };
    HostTabView { advanced: host_has_advanced_data(x), ..x }
}

/// What a public-address field is when a project record has none: the
/// address part of the older `host:port` endpoint (all of it without a
/// colon), or blank.
pub open spec fn project_public_ip(d: HostProjectDict) -> Seq<char> {
    let p = text_or_blank(opt_view(d.public_ip));
    if p.len() == 0 {
        match d.public_endpoint {
            Some(legacy) => match rsplit_once(legacy@, ':') {
                Some((h, _)) => h,
                None => legacy@,
            },
            None => p,
        }
    } else {
        p
    }
}

/// The host form of a project record, apart from its clients: the
/// record's fields as text with the given private key.
pub open spec fn project_host_tab(id: u64, d: HostProjectDict, private_key: Seq<char>, clients: Seq<ClientView>) -> HostTabView {
    let x = HostTabView {
        id,
        name: d.name@,
        private_key,
        public_key: public_key_text(private_key),
        manual_key: d.manual_key,
        address: join(string_views(d.address@), ", "@),
        listen_port: opt_dec16(d.listen_port),
        dns: join(string_views(d.dns@), ", "@),
        mtu: opt_dec(d.mtu),
        table: text_or_blank(opt_view(d.table)),
        fwmark: text_or_blank(opt_view(d.fw_mark)),
        save_config: match d.save_config {
            Some(b) => b,
            None => false,
        },
        pre_up: join(string_views(d.pre_up@), "\n"@),
        post_up: join(string_views(d.post_up@), "\n"@),
        pre_down: join(string_views(d.pre_down@), "\n"@),
        post_down: join(string_views(d.post_down@), "\n"@),
        public_ip: project_public_ip(d),
        advanced: false,
        clients,
        selected: HostSubTab::Settings,
        client_counter: d.clients@.len() as u32,
        loaded_peers: Seq::empty(),
        pool_cidr: None,
        pool: None,
    };
    HostTabView { advanced: host_has_advanced_data(x), ..x }
}

/// The project record of a host form: its fields read as the record
/// types them, with each client's record.
pub open spec fn host_record(t: HostTabView, d: HostProjectDict) -> bool {
    &&& d.name@ == t.name
    &&& opt_view(d.private_key) == Some(t.private_key)
    &&& string_views(d.address@) == split_csv(t.address)
    &&& d.listen_port == match parse_unsigned(trim(t.listen_port), 65535) {
        Some(p) => Some(p as u16),
        None => None::<u16>,
    }
    &&& string_views(d.dns@) == split_csv(t.dns)
    &&& d.mtu == u32_parse_ok(t.mtu)
    &&& opt_view(d.table) == (if trim(t.table).len() == 0 {
        None
    } else {
        Some(t.table)
    })
    &&& opt_view(d.fw_mark) == (if trim(t.fwmark).len() == 0 {
        None
    } else {
        Some(t.fwmark)
    })
    &&& string_views(d.pre_up@) == spec_split_lines(t.pre_up)
    &&& string_views(d.post_up@) == spec_split_lines(t.post_up)
    &&& string_views(d.pre_down@) == spec_split_lines(t.pre_down)
    &&& string_views(d.post_down@) == spec_split_lines(t.post_down)
    &&& d.save_config == Some(t.save_config)
    &&& opt_view(d.public_ip) == Some(t.public_ip)
    &&& d.public_endpoint is None
    &&& d.manual_key == t.manual_key
    &&& d.clients@.len() == t.clients.len()
    &&& forall|i: int| 0 <= i < d.clients@.len() ==> client_record(t.clients[i], #[trigger] d.clients@[i])
}

fn opt_u32_text(v: Option<u32>) -> (res: String)
    ensures
        res@ == opt_dec(v),
{
    match v {
        Some(n) => dec_string(n as u64),
        None => String::new(),
    }
}

fn opt_u16_text(v: Option<u16>) -> (res: String)
    ensures
        res@ == opt_dec16(v),
{
    match v {
        Some(n) => dec_string(n as u64),
        None => String::new(),
    }
}

fn opt_text(v: &Option<String>) -> (res: String)
    ensures
        res@ == text_or_blank(opt_view(*v)),
{
    match v {
        Some(t) => string_clone(t),
        None => String::new(),
    }
}

/// `build_full_model` on form `o` leaves form `f` and the host model `h`
/// (`None` on failure): the interface is built first; then each client,
/// its endpoint refreshed, is synced in turn, and adds its entry; the
/// loaded peers follow. The first failure stops it: the interface's (which
/// changes nothing) or a client's (the clients before it are synced, the
/// ones after it untouched).
pub open spec fn full_built(o: HostTabView, f: HostTabView, h: Option<HostView>) -> bool {
    let f1 = HostTabView { clients: o.clients, ..f };
    let n = o.clients.len() as int;
    &&& f.clients.len() == n
    &&& match h {
        Some(hv) => {
            &&& interface_built(o, f1, Some(HostView { peers: Seq::empty(), ..hv }))
            &&& clients_synced(f1, o.clients, f.clients, n)
            &&& hv.peers == synced_peers(f1, o.clients, f.clients, n) + o.loaded_peers
        },
        None => {
            ||| !interface_ok(o) && f == o
            ||| exists|hv: HostView, k: int|
                #![trigger interface_built(o, f1, Some(hv)), f.clients[k]]
                interface_built(o, f1, Some(hv)) && 0 <= k < n && clients_synced(f1, o.clients, f.clients, k)
                    && sync_step(refreshed_client(o.clients[k], f1), f1.public_key, f.clients[k], false)
                    && forall|i: int| k < i < n ==> f.clients[i] == o.clients[i]
        },
    }
}

/// Whether a host form can number one more client (its counter and the
/// client id fit their integer types).
pub open spec fn can_add_client(t: HostTabView) -> bool {
    &&& t.client_counter < u32::MAX
    &&& t.id * 100000 + t.clients.len() <= u64::MAX
}

/// `new_client_tab` on form `o` (with a loaded client config or none)
/// leaves form `f`: the new client is appended and selected and the
/// counter counts it; a loaded config fills the client's form, otherwise
/// it is a fresh form with the host's defaults and an address drawn from
/// the pool `ensure_pool` leaves.
pub open spec fn client_tab_added(o: HostTabView, loaded: Option<HostView>, f: HostTabView) -> bool {
    let counter = (o.client_counter + 1) as u32;
    let cid = (o.id * 100000 + o.clients.len()) as u64;
    let idx = o.clients.len() as usize;
    &&& f.clients.len() == o.clients.len() + 1
    &&& match loaded {
        Some(h) => f == HostTabView {
            clients: o.clients.push(loaded_client(cid, h)),
            selected: HostSubTab::Client(idx),
            client_counter: counter,
            ..o
        },
        None => {
            let t1 = ensured_pool(o).0;
            let ok = ensured_pool(o).1;
            let c = f.clients.last();
            &&& new_client_form(c, o, cid, counter)
            &&& drew_address(t1, ok, c.address, f.pool)
            &&& f == HostTabView {
                clients: o.clients.push(c),
                selected: HostSubTab::Client(idx),
                client_counter: counter,
                pool_cidr: t1.pool_cidr,
                pool: f.pool,
                ..o
            }
        },
    }
}

/// The host form `from_project_dict` builds with id `id` from record `d`:
/// the record's fields, the record's key (or a fresh one), and a client
/// form for each client record, numbered from `id * 100000`.
pub open spec fn host_tab_from_record(id: u64, d: HostProjectDict, t: HostTabView) -> bool {
    &&& d.private_key matches Some(k) ==> t.private_key == k@
    &&& d.private_key is None ==> decodes_to_key(t.private_key)
    &&& t == project_host_tab(id, d, t.private_key, t.clients)
    &&& t.clients.len() == d.clients@.len()
    &&& forall|i: int| 0 <= i < d.clients@.len() ==> {
        let c = #[trigger] t.clients[i];
        &&& c == project_client((id * 100000 + i) as u64, d.clients@[i], c.private_key)
        &&& (d.clients@[i].private_key matches Some(k) ==> c.private_key == k@)
        &&& (d.clients@[i].private_key is None ==> decodes_to_key(c.private_key))
    }
}

/// The pool built for a host's address never hands out that address: it is
/// reserved, so it is never free.
pub proof fn lemma_host_address_kept(cidr: Seq<char>)
    requires
        pool_for(cidr) is Some,
    ensures
        ({
            let p = pool_for(cidr).unwrap();
            &&& reserve_target(p.network, cidr) is Some
            &&& forall|a: u128| #[trigger] p.is_free(a) ==> Some(a) != reserve_target(p.network, cidr)
        }),
{
}

fn trimmed_or_none(s: &str) -> (res: Option<String>)
    ensures
        crate::text::opt_view(res) == opt_trimmed(s@),
{
    let t = trim_str(s);
    if t.as_str().is_empty() {
        None
    } else {
        Some(t)
    }
}

fn is_blank(s: &str) -> (res: bool)
    ensures
        res == (trim(s@).len() == 0),
{
    let t = trim_str(s);
    t.as_str().is_empty()
}

fn field_differs(s: &str, default: &str) -> (res: bool)
    ensures
        res == differs_from(s@, default@),
{
    let t = trim_str(s);
    !t.as_str().is_empty() && !crate::text::str_eq(t.as_str(), default)
}

fn opt_str_eq(a: &Option<String>, b: &String) -> (res: bool)
    ensures
        res == (crate::text::opt_view(*a) == Some(b@)),
{
    match a {
        Some(x) => crate::text::str_eq(x.as_str(), b.as_str()),
        None => false,
    }
}

impl HostTabState {
    /// The pool, when there is one, is well formed.
    pub closed spec fn wf(&self) -> bool {
        &&& self.pool matches Some(p) ==> p.wf()
        &&& self.selected matches HostSubTab::Client(i) ==> i < self.clients@.len()
    }

    /// The host name field.
    pub fn name_text(&self) -> (res: &str)
        ensures
            res@ == self@.name,
    {
        self.name.as_str()
    }

    /// The name field of the client at `i`.
    pub fn client_name_text(&self, i: usize) -> (res: &str)
        requires
            i < self@.clients.len(),
        ensures
            res@ == self@.clients[i as int].name,
    {
        self.clients[i].name.as_str()
    }

    /// Whether this form can number one more client.
    pub fn can_add_client_now(&self) -> (res: bool)
        ensures
            res == can_add_client(self@),
    {
        let n = self.clients.len() as u64;
        assert(self@.clients.len() == n);
        if self.client_counter >= 0xffff_ffffu32 || self.id > 0xffff_ffff_ffff_ffffu64 / 100_000 {
            if self.id > 0xffff_ffff_ffff_ffffu64 / 100_000 {
                assert(self.id * 100000 > 0xffff_ffff_ffff_ffffu64) by (nonlinear_arith)
                    requires
                        self.id > 0xffff_ffff_ffff_ffffu64 / 100_000,
                ;
            }
            return false;
        }
        assert(self.id * 100000 <= 0xffff_ffff_ffff_ffffu64) by (nonlinear_arith)
            requires
                self.id <= 0xffff_ffff_ffff_ffffu64 / 100_000,
        ;
        let base = self.id * 100_000;
        n <= 0xffff_ffff_ffff_ffffu64 - base
    }

    /// The MTU field as a number, when it reads as one.
    pub fn mtu_value(&self) -> (res: Option<u32>)
        ensures
            res == u32_parse_ok(self@.mtu),
    {
        let t = trim_str(self.mtu.as_str());
        match parse_unsigned_str(t.as_str(), 0xffff_ffff) {
            Some(v) => Some(v as u32),
            None => None,
        }
    }

    /// The selected sub-tab.
    pub fn selected_subtab(&self) -> (res: HostSubTab)
        ensures
            res == self@.selected,
    {
        self.selected
    }

    /// A selected client tab is one of the clients.
    pub proof fn lemma_selected_client(&self)
        requires
            self.wf(),
        ensures
            self@.selected matches HostSubTab::Client(i) ==> i < self@.clients.len(),
    {
    }

    /// A fresh host form with a generated key pair and a random port.
    pub fn new(id: u64, default_name: &str) -> (res: HostTabState)
        ensures
            res.wf(),
            fresh_host_tab(res@, id, default_name@),
    {
        let private_key = generate_private_key();
        let public_key = match public_key_from_private(private_key.as_str()) {
            Ok(p) => p,
            Err(_) => String::new(),
        };
        let port = crate::form::generate_random_listen_port();
        let s = HostTabState {
            id,
            name: string_of(default_name),
            private_key,
            public_key,
            manual_key: false,
            address: String::new(),
            listen_port: dec_string(port as u64),
            dns: String::new(),
            mtu: string_of("1420"),
            table: String::new(),
            fwmark: String::new(),
            save_config: false,
            pre_up: String::new(),
            post_up: String::new(),
            pre_down: String::new(),
            post_down: String::new(),
            public_ip: String::new(),
            advanced: false,
            clients: Vec::new(),
            selected: HostSubTab::Settings,
            client_counter: 0,
            loaded_peers: Vec::new(),
            pool_cidr: None,
            pool: None,
        };
        assert(dec(port as nat) == s@.listen_port);
        assert(s@.clients =~= Seq::<ClientView>::empty());
        assert(s@.loaded_peers =~= Seq::<PeerView>::empty());
        s
    }

    /// Generate a new private key and derive its public key.
    pub fn regenerate_key(&mut self)
        requires
            old(self).wf(),
        ensures
            final(self).wf(),
            decodes_to_key(final(self)@.private_key),
            all_base64_symbols(final(self)@.private_key),
            final(self)@ == (HostTabView {
                private_key: final(self)@.private_key,
                public_key: public_key_text(final(self)@.private_key),
                ..old(self)@
            }),
    {
        self.private_key = generate_private_key();
        self.refresh_public_key();
    }

    /// Recompute the public key field from the private key field.
    pub fn refresh_public_key(&mut self)
        requires
            old(self).wf(),
        ensures
            final(self).wf(),
            final(self)@ == (HostTabView { public_key: public_key_text(old(self)@.private_key), ..old(self)@ }),
    {
        let trimmed = trim_str(self.private_key.as_str());
        if trimmed.as_str().is_empty() {
            self.public_key = String::new();
            return;
        }
        self.public_key = match public_key_from_private(trimmed.as_str()) {
            Ok(p) => p,
            Err(_) => string_of("(invalid private key)"),
        };
    }

    /// Put a fresh random port in the listen-port field.
    pub fn randomize_listen_port(&mut self)
        requires
            old(self).wf(),
        ensures
            final(self).wf(),
            random_port_text(final(self)@.listen_port),
            final(self)@ == (HostTabView { listen_port: final(self)@.listen_port, ..old(self)@ }),
    {
        let port = crate::form::generate_random_listen_port();
        self.listen_port = dec_string(port as u64);
        assert(dec(port as nat) == self@.listen_port);
    }

    /// Show the advanced fields when any of them holds non-default data.
    pub fn refresh_advanced_lock(&mut self)
        requires
            old(self).wf(),
        ensures
            final(self).wf(),
            final(self)@ == (HostTabView { advanced: host_has_advanced_data(old(self)@), ..old(self)@ }),
    {
        let has_advanced_data = !is_blank(self.dns.as_str()) || field_differs(self.mtu.as_str(), "1420")
            || !is_blank(self.table.as_str()) || !is_blank(self.fwmark.as_str()) || self.save_config
            || split_lines(self.pre_up.as_str()).len() != 0
            || split_lines(self.post_up.as_str()).len() != 0
            || split_lines(self.pre_down.as_str()).len() != 0
            || split_lines(self.post_down.as_str()).len() != 0;
        self.advanced = has_advanced_data;
    }

    /// Build (or rebuild, when the first address changed) the pool clients
    /// draw addresses from, keyed off this host's first address, which is
    /// reserved so it is never handed to a client. Tells whether a pool is
    /// at hand.
    fn ensure_pool(&mut self) -> (res: bool)
        requires
            old(self).wf(),
        ensures
            final(self).wf(),
            (final(self)@, res) == ensured_pool(old(self)@),
            res ==> final(self).pool is Some,
    {
        let entries = split_csv_str(self.address.as_str());
        if entries.len() == 0 {
            return false;
        }
        assert(string_views(entries@)[0] == entries@[0]@);
        if opt_str_eq(&self.pool_cidr, &entries[0]) {
            return self.pool.is_some();
        }
        let empty: Vec<String> = Vec::new();
        let mut pool = match IpAddressPool::new(entries[0].as_str(), None, empty.as_slice()) {
            Ok(p) => p,
            Err(_) => {
                return false;
            },
        };
        proof {
            let n = pool@.network;
            assert(reserved_set(n, string_views(empty@)) =~= Set::<u128>::empty());
        }
        match pool.reserve(entries[0].as_str()) {
            Ok(()) => {},
            Err(_) => {
                return false;
            },
        }
        self.pool = Some(pool);
        self.pool_cidr = Some(string_clone(&entries[0]));
        true
    }

    /// Make sure the pool follows the current address field.
    pub fn ensure_pool_fresh(&mut self)
        requires
            old(self).wf(),
        ensures
            final(self).wf(),
            final(self)@ == ensured_pool(old(self)@).0,
    {
        let _ = self.ensure_pool();
    }

    /// Take the pool out of the form (to lend it to a client).
    pub fn pool_take(&mut self) -> (res: Option<IpAddressPool>)
        requires
            old(self).wf(),
        ensures
            final(self).wf(),
            pool_view(res) == old(self)@.pool,
            res matches Some(p) ==> p.wf(),
            final(self)@ == (HostTabView { pool: None, ..old(self)@ }),
    {
        self.pool.take()
    }

    /// Put a pool (back) into the form.
    pub fn pool_put(&mut self, pool: Option<IpAddressPool>)
        requires
            old(self).wf(),
            pool matches Some(p) ==> p.wf(),
        ensures
            final(self).wf(),
            final(self)@ == (HostTabView { pool: pool_view(pool), ..old(self)@ }),
    {
        self.pool = pool;
    }

    /// Add a client tab, filled from a loaded client config or as a fresh
    /// form with the host's defaults and an address from the pool, and
    /// select it. Returns its index.
    pub fn new_client_tab(&mut self, loaded: Option<WireGuardHost>) -> (res: usize)
        requires
            old(self).wf(),
            can_add_client(old(self)@),
        ensures
            final(self).wf(),
            res == old(self)@.clients.len(),
            client_tab_added(
                old(self)@,
                match loaded {
                    Some(h) => Some(h@),
                    None => None,
                },
                final(self)@,
            ),
    {
        let ghost o = self@;
        self.client_counter = self.client_counter + 1;
        let idx = self.clients.len();
        let cid = self.id * 100_000 + idx as u64;
        let mut client = match loaded {
            Some(host) => ClientTabState::from_loaded_host(cid, &host),
            None => {
                let mut default_name = string_clone(&self.name);
                default_name.append("-client-");
                default_name.append(dec_string(self.client_counter as u64).as_str());
                let mut c = ClientTabState::new(cid, default_name.as_str(), self.client_counter);
                let mtu_t = trim_str(self.mtu.as_str());
                let host_mtu: Option<u32> = match parse_unsigned_str(mtu_t.as_str(), 0xffff_ffff) {
                    Some(v) => Some(v as u32),
                    None => None,
                };
                let host_dns = split_csv_str(self.dns.as_str());
                let public_ip = string_clone(&self.public_ip);
                let listen_port = string_clone(&self.listen_port);
                let ghost before_pool = self@;
                let ok = self.ensure_pool();
                let mut pool = if ok {
                    self.pool.take()
                } else {
                    None
                };
                assert(c@.dns =~= Seq::<char>::empty());
                assert(c@.mtu =~= Seq::<char>::empty());
                assert(c@.address =~= Seq::<char>::empty());
                c.apply_host_defaults(
                    &host_dns,
                    host_mtu,
                    public_ip.as_str(),
                    listen_port.as_str(),
                    false,
                    &mut pool,
                );
                if ok {
                    self.pool = pool;
                }
                proof {
                    if host_mtu is Some {
                        let m = host_mtu.unwrap();
                        crate::roundtrip::lemma_parse_dec(m as nat, 0xffff_ffff);
                        crate::roundtrip::lemma_dec_digits(m as nat);
                        crate::roundtrip::lemma_trim_clean(dec(m as nat));
                    }
                    assert(host_mtu == u32_parse_ok(o.mtu));
                }
                if is_blank(c.mtu.as_str()) {
                    c.mtu = string_of("1420");
                }
                c
            },
        };
        client.refresh_advanced_lock();
        let ghost cv = client@;
        self.clients.push(client);
        self.selected = HostSubTab::Client(idx);
        assert(self@.clients =~= o.clients.push(cv));
        idx
    }

    /// Browser-style Ctrl+1..Ctrl+9 switching among this host's sub-tabs
    /// (the settings count as tab 0); index 8 always selects the last one.
    pub fn select_subtab_by_shortcut_index(&mut self, index: usize)
        requires
            old(self).wf(),
            old(self)@.clients.len() < usize::MAX,
        ensures
            final(self).wf(),
            match shortcut_target(index as int, 1 + old(self)@.clients.len() as int) {
                None => final(self)@ == old(self)@,
                Some(t) => final(self)@ == (HostTabView { selected: subtab_at(t), ..old(self)@ }),
            },
    {
        let total = 1 + self.clients.len();
        let target = if index == 8 {
            total - 1
        } else if index < total {
            index
        } else {
            return ;
        };
        self.selected = if target == 0 {
            HostSubTab::Settings
        } else {
            HostSubTab::Client(target - 1)
        };
    }

    /// Remove the client at `idx` (when there is one) and keep the
    /// selection on the same tab.
    pub fn close_client_tab(&mut self, idx: usize)
        requires
            old(self).wf(),
        ensures
            final(self).wf(),
            final(self)@ == (HostTabView {
                clients: if idx < old(self)@.clients.len() {
                    old(self)@.clients.remove(idx as int)
                } else {
                    old(self)@.clients
                },
                selected: selected_after_close(old(self)@.selected, idx),
                ..old(self)@
            }),
    {
        let ghost o = self@;
        if idx < self.clients.len() {
            self.clients.remove(idx);
            assert(self@.clients =~= o.clients.remove(idx as int));
        }
        self.selected = match self.selected {
            HostSubTab::Client(i) => if i == idx {
                HostSubTab::Settings
            } else if i > idx {
                HostSubTab::Client(i - 1)
            } else {
                HostSubTab::Client(i)
            },
            HostSubTab::Settings => HostSubTab::Settings,
        };
    }

    /// Rebuild this host's own `[Interface]` model from the form (peers are
    /// not attached here; see `build_full_model`). On success the form
    /// takes the model's name, keys and listen port.
    pub fn build_interface_model(&mut self) -> (res: Result<WireGuardHost, String>)
        requires
            old(self).wf(),
        ensures
            final(self).wf(),
            interface_built(
                old(self)@,
                final(self)@,
                match res {
                    Ok(h) => Some(h@),
                    Err(_) => None,
                },
            ),
            res matches Ok(h) ==> h@.peers.len() == 0,
            res matches Ok(h) ==> h@.address == split_csv(old(self)@.address) && h@.dns == split_csv(
                old(self)@.dns,
            ) && h@.pre_up == trimmed_nonempty(lines(old(self)@.pre_up)) && h@.post_up
                == trimmed_nonempty(lines(old(self)@.post_up)) && h@.pre_down == trimmed_nonempty(
                lines(old(self)@.pre_down),
            ) && h@.post_down == trimmed_nonempty(lines(old(self)@.post_down)),
    {
        let ghost o = self@;
        let name = {
            let n = trim_str(self.name.as_str());
            if n.as_str().is_empty() {
                string_clone(&self.name)
            } else {
                n
            }
        };
        let private_key = {
            let t = trim_str(self.private_key.as_str());
            if t.as_str().is_empty() {
                generate_private_key()
            } else {
                t
            }
        };
        let listen_port = resolve_listen_port(self.listen_port.as_str())?;
        let mtu = parse_u32(self.mtu.as_str(), "MTU")?;
        proof {
            assert(mtu == u32_field(o.mtu));
        }
        let opts = HostOptions {
            private_key: Some(private_key),
            address: split_csv_str(self.address.as_str()),
            listen_port,
            dns: split_csv_str(self.dns.as_str()),
            mtu,
            table: trimmed_or_none(self.table.as_str()),
            pre_up: split_lines(self.pre_up.as_str()),
            post_up: split_lines(self.post_up.as_str()),
            pre_down: split_lines(self.pre_down.as_str()),
            post_down: split_lines(self.post_down.as_str()),
            save_config: Some(self.save_config),
            fw_mark: trimmed_or_none(self.fwmark.as_str()),
        };
        assert(opts@ =~= interface_options(o, private_key@, listen_port, mtu));
        let host = match WireGuardHost::new(name.as_str(), opts) {
            Ok(h) => h,
            Err(e) => {
                return Err(e.message());
            },
        };
        self.name = name;
        self.private_key = string_clone(&host.private_key);
        self.public_key = string_clone(&host.public_key);
        if let Some(p) = host.listen_port {
            self.listen_port = dec_string(p as u64);
        }
        Ok(host)
    }

    /// Build the host model with every client folded in: the interface
    /// first, then each client (its endpoint refreshed, then synced) adds
    /// its `[Peer]` entry, then the loaded peers follow. Stops at the first
    /// failure.
    pub fn build_full_model(&mut self) -> (res: Result<WireGuardHost, String>)
        requires
            old(self).wf(),
        ensures
            final(self).wf(),
            full_built(
                old(self)@,
                final(self)@,
                match res {
                    Ok(h) => Some(h@),
                    Err(_) => None,
                },
            ),
    {
        let ghost o = self@;
        let mut host = match self.build_interface_model() {
            Ok(h) => h,
            Err(e) => {
                return Err(e);
            },
        };
        let ghost f1 = self@;
        let ghost hv0 = host@;
        assert(hv0 == (HostView { peers: Seq::empty(), ..hv0 }));
        let host_pubkey = string_clone(&host.public_key);
        let host_name = string_clone(&host.name);
        let n = self.clients.len();
        let mut i: usize = 0;
        let mut failure: Option<String> = None;
        assert(synced_peers(f1, o.clients, self@.clients, 0) =~= Seq::<PeerView>::empty());
        while i < n
            invariant_except_break
                failure is None,
                clients_synced(f1, o.clients, self@.clients, i as int),
                host@ == (HostView { peers: synced_peers(f1, o.clients, self@.clients, i as int), ..hv0 }),
                forall|j: int| i <= j < n ==> self@.clients[j] == o.clients[j],
            invariant
                self.wf(),
                i <= n,
                n == o.clients.len(),
                self@.clients.len() == n,
                f1.clients == o.clients,
                interface_built(o, f1, Some(hv0)),
                self@ == (HostTabView { clients: self@.clients, ..f1 }),
                host_pubkey@ == f1.public_key,
            ensures
                self.wf(),
                self@.clients.len() == n,
                self@ == (HostTabView { clients: self@.clients, ..f1 }),
                failure is None ==> i == n && clients_synced(f1, o.clients, self@.clients, n as int)
                    && host@ == (HostView { peers: synced_peers(f1, o.clients, self@.clients, n as int), ..hv0 }),
                failure is Some ==> i < n && clients_synced(f1, o.clients, self@.clients, i as int)
                    && sync_step(refreshed_client(o.clients[i as int], f1), f1.public_key, self@.clients[i as int], false)
                    && forall|j: int| i < j < n ==> self@.clients[j] == o.clients[j],
            decreases n - i,
        {
            let ghost before = self@.clients;
            let mut c = self.clients.remove(i);
            assert(c@ == o.clients[i as int]);
            c.refresh_endpoint(self.public_ip.as_str(), self.listen_port.as_str());
            assert(c@ == refreshed_client(o.clients[i as int], f1));
            let r = c.sync(host_pubkey.as_str(), host_name.as_str());
            let ghost cv = c@;
            self.clients.insert(i, c);
            assert(self@.clients =~= before.update(i as int, cv));
            assert forall|k: int| 0 <= k < i implies sync_step(
                #[trigger] refreshed_client(o.clients[k], f1),
                f1.public_key,
                self@.clients[k],
                true,
            ) by {
                assert(self@.clients[k] == before[k]);
            }
            match r {
                Ok(synced) => {
                    host.add_peer(synced.host_peer);
                    assert(synced_peers(f1, o.clients, self@.clients, i + 1) =~= synced_peers(
                        f1,
                        o.clients,
                        before,
                        i as int,
                    ).push(synced_peer(refreshed_client(o.clients[i as int], f1), cv)));
                },
                Err(e) => {
                    failure = Some(e);
                    break;
                },
            }
            i = i + 1;
        }
        if let Some(e) = failure {
            proof {
                let f = self@;
                let ff1 = HostTabView { clients: o.clients, ..f };
                assert(ff1 == f1);
                let kk = i as int;
                assert(interface_built(o, ff1, Some(hv0)) && 0 <= kk < n && clients_synced(
                    ff1,
                    o.clients,
                    f.clients,
                    kk,
                ) && sync_step(refreshed_client(o.clients[kk], ff1), ff1.public_key, f.clients[kk], false)
                    && forall|i: int| kk < i < n ==> f.clients[i] == o.clients[i]);
            }
            return Err(e);
        }
        let ghost synced = synced_peers(f1, o.clients, self@.clients, n as int);
        let mut j: usize = 0;
        assert(o.loaded_peers.take(0) =~= Seq::<PeerView>::empty());
        assert(synced + o.loaded_peers.take(0) =~= synced);
        while j < self.loaded_peers.len()
            invariant
                j <= self.loaded_peers.len(),
                self@.loaded_peers == o.loaded_peers,
                host@ == (HostView { peers: synced + o.loaded_peers.take(j as int), ..hv0 }),
            decreases self.loaded_peers.len() - j,
        {
            assert(o.loaded_peers[j as int] == self.loaded_peers@[j as int]@);
            host.add_peer(self.loaded_peers[j].duplicate());
            assert(synced + o.loaded_peers.take(j + 1) =~= (synced + o.loaded_peers.take(j as int)).push(
                o.loaded_peers[j as int],
            ));
            j = j + 1;
        }
        assert(o.loaded_peers.take(self.loaded_peers.len() as int) =~= o.loaded_peers);
        Ok(host)
    }

    /// Replace this host's own `[Interface]` fields with those of a `.conf`
    /// text; its peers are kept aside (they have no client tab) and ride
    /// along through every later rebuild. Returns how many peers it had.
    pub fn load_from_config(&mut self, text: &str, name: &str) -> (res: Result<usize, String>)
        requires
            old(self).wf(),
        ensures
            final(self).wf(),
            match res {
                Ok(n) => spec_load_host(text@, name@) matches Ok(h) && n == h.peers.len()
                    && final(self)@ == loaded_host_tab(old(self)@, h)
                    && final(self)@.loaded_peers == h.peers
                    && ((forall|i: int| 0 <= i < h.post_down.len() ==> crate::record_law::kept_entry(#[trigger] h.post_down[i], '\n'))
                        ==> spec_split_lines(final(self)@.post_down) == h.post_down)
                    && ((forall|i: int| 0 <= i < h.post_up.len() ==> crate::record_law::kept_entry(#[trigger] h.post_up[i], '\n'))
                        ==> spec_split_lines(final(self)@.post_up) == h.post_up)
                    && ((forall|i: int| 0 <= i < h.pre_up.len() ==> crate::record_law::kept_entry(#[trigger] h.pre_up[i], '\n'))
                        ==> spec_split_lines(final(self)@.pre_up) == h.pre_up)
                    && ((forall|i: int| 0 <= i < h.pre_down.len() ==> crate::record_law::kept_entry(#[trigger] h.pre_down[i], '\n'))
                        ==> spec_split_lines(final(self)@.pre_down) == h.pre_down),
                Err(_) => spec_load_host(text@, name@) is Err && final(self)@ == old(self)@,
            },
    {
        let host = match load_host_from_config(text, name) {
            Ok(h) => h,
            Err(e) => {
                return Err(e.message());
            },
        };
        let peer_count = host.peers.len();
        let mut kept: Vec<Peer> = Vec::new();
        let mut k: usize = 0;
        while k < host.peers.len()
            invariant
                k <= host.peers.len(),
                crate::host::peer_views(kept@) == host@.peers.take(k as int),
            decreases host.peers.len() - k,
        {
            let ghost before = crate::host::peer_views(kept@);
            let p = host.peers[k].duplicate();
            assert(host@.peers[k as int] == p@);
            kept.push(p);
            assert(crate::host::peer_views(kept@) =~= before.push(p@));
            assert(host@.peers.take(k + 1) =~= host@.peers.take(k as int).push(p@));
            k = k + 1;
        }
        assert(host@.peers.take(host.peers.len() as int) =~= host@.peers);
        self.loaded_peers = kept;
        self.name = string_clone(&host.name);
        self.private_key = string_clone(&host.private_key);
        self.public_key = string_clone(&host.public_key);
        self.address = join_strs(&host.address, ", ");
        self.listen_port = opt_u16_text(host.listen_port);
        self.dns = join_strs(&host.dns, ", ");
        self.mtu = opt_u32_text(host.mtu);
        self.table = opt_text(&host.table);
        self.fwmark = opt_text(&host.fw_mark);
        self.save_config = match host.save_config {
            Some(b) => b,
            None => false,
        };
        self.pre_up = join_strs(&host.pre_up, "\n");
        self.post_up = join_strs(&host.post_up, "\n");
        self.pre_down = join_strs(&host.pre_down, "\n");
        self.post_down = join_strs(&host.post_down, "\n");
        self.refresh_advanced_lock();
        self.manual_key = true;
        proof {
            crate::form_law::lemma_loaded_host_fields(old(self)@, host@);
        }
        Ok(peer_count)
    }

    /// The project record of this host form, with its clients' records.
    pub fn to_project_dict(&self) -> (res: HostProjectDict)
        ensures
            host_record(self@, res),
    {
        let mut clients: Vec<ClientProjectDict> = Vec::new();
        let mut i: usize = 0;
        while i < self.clients.len()
            invariant
                i <= self.clients.len(),
                clients@.len() == i,
                forall|j: int| 0 <= j < i ==> client_record(self@.clients[j], #[trigger] clients@[j]),
            decreases self.clients.len() - i,
        {
            clients.push(self.clients[i].to_project_dict());
            i = i + 1;
        }
        let lp_t = trim_str(self.listen_port.as_str());
        let mtu_t = trim_str(self.mtu.as_str());
        HostProjectDict {
            name: string_clone(&self.name),
            private_key: Some(string_clone(&self.private_key)),
            address: split_csv_str(self.address.as_str()),
            listen_port: match parse_unsigned_str(lp_t.as_str(), 65535) {
                Some(p) => Some(p as u16),
                None => None,
            },
            dns: split_csv_str(self.dns.as_str()),
            mtu: match parse_unsigned_str(mtu_t.as_str(), 0xffff_ffff) {
                Some(v) => Some(v as u32),
                None => None,
            },
            table: if is_blank(self.table.as_str()) {
                None
            } else {
                Some(string_clone(&self.table))
            },
            fw_mark: if is_blank(self.fwmark.as_str()) {
                None
            } else {
                Some(string_clone(&self.fwmark))
            },
            pre_up: split_lines(self.pre_up.as_str()),
            post_up: split_lines(self.post_up.as_str()),
            pre_down: split_lines(self.pre_down.as_str()),
            post_down: split_lines(self.post_down.as_str()),
            save_config: Some(self.save_config),
            public_ip: Some(string_clone(&self.public_ip)),
            public_endpoint: None,
            manual_key: self.manual_key,
            clients,
        }
    }

    /// The host form of a project record (a missing private key is
    /// generated), with a client form for each client record.
    pub fn from_project_dict(id: u64, d: &HostProjectDict) -> (res: HostTabState)
        requires
            id * 100000 + d.clients@.len() <= u64::MAX,
        ensures
            res.wf(),
            host_tab_from_record(id, *d, res@),
    {
        let mut s = HostTabState::new(id, d.name.as_str());
        s.private_key = match &d.private_key {
            Some(k) => string_clone(k),
            None => generate_private_key(),
        };
        s.refresh_public_key();
        s.address = join_strs(&d.address, ", ");
        s.listen_port = opt_u16_text(d.listen_port);
        s.dns = join_strs(&d.dns, ", ");
        s.mtu = opt_u32_text(d.mtu);
        s.table = opt_text(&d.table);
        s.fwmark = opt_text(&d.fw_mark);
        s.save_config = match d.save_config {
            Some(b) => b,
            None => false,
        };
        s.pre_up = join_strs(&d.pre_up, "\n");
        s.post_up = join_strs(&d.post_up, "\n");
        s.pre_down = join_strs(&d.pre_down, "\n");
        s.post_down = join_strs(&d.post_down, "\n");
        s.public_ip = opt_text(&d.public_ip);
        if s.public_ip.as_str().is_empty() {
            if let Some(legacy) = &d.public_endpoint {
                s.public_ip = match rsplit_once_str(legacy.as_str(), ':') {
                    Some((h, _)) => h,
                    None => string_clone(legacy),
                };
            }
        }
        s.manual_key = d.manual_key;
        s.refresh_advanced_lock();
        let ghost base = s@;
        let mut i: usize = 0;
        while i < d.clients.len()
            invariant
                i <= d.clients.len(),
                s.wf(),
                id * 100000 + d.clients@.len() <= u64::MAX,
                s@ == (HostTabView { clients: s@.clients, ..base }),
                s@.clients.len() == i,
                forall|j: int| 0 <= j < i ==> {
                    let c = #[trigger] s@.clients[j];
                    &&& c == project_client((id * 100000 + j) as u64, d.clients@[j], c.private_key)
                    &&& (d.clients@[j].private_key matches Some(k) ==> c.private_key == k@)
                    &&& (d.clients@[j].private_key is None ==> decodes_to_key(c.private_key))
                },
            decreases d.clients.len() - i,
        {
            let c = ClientTabState::from_project_dict(id * 100_000 + i as u64, &d.clients[i]);
            let ghost before = s@.clients;
            s.clients.push(c);
            assert(s@.clients =~= before.push(c@));
            i = i + 1;
        }
        s.client_counter = d.clients.len() as u32;
        assert(s@.loaded_peers =~= Seq::<PeerView>::empty());
        assert(s@ =~= project_host_tab(id, *d, s@.private_key, s@.clients));
        s
    }
}

} // verus!
