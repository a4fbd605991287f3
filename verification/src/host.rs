//! One WireGuard interface (`[Interface]` plus its peers) and its
//! rendering to wg-quick `.conf` text.
use vstd::prelude::*;

use crate::error::WgError;
use crate::keys::{
    all_base64_symbols, cidr_list_ok, decodes_to_key, generate_private_key,
    public_key_from_private, spec_public_key, validate_cidr_list, validate_key,
};
use crate::peer::{peer_config, peer_fields_ok, Peer, PeerView};
use crate::text::{
    clone_opt_string, clone_strings, dec, dec_string, join, join_strs, opt_view, string_clone,
    string_of, string_views,
};

verus! {

/// One WireGuard interface: an office gateway, a roadwarrior client, a
/// server -- anything that gets its own `[Interface]` section and keypair.
#[derive(Debug, Clone)]
pub struct WireGuardHost {
    pub name: String,
    pub private_key: String,
    pub public_key: String,
    pub address: Vec<String>,
    pub listen_port: Option<u16>,
    pub dns: Vec<String>,
    pub mtu: Option<u32>,
    pub table: Option<String>,
    pub pre_up: Vec<String>,
    pub post_up: Vec<String>,
    pub pre_down: Vec<String>,
    pub post_down: Vec<String>,
    pub save_config: Option<bool>,
    pub fw_mark: Option<String>,
    pub peers: Vec<Peer>,
}

/// Every field of `[Interface]` other than the name. The default is
/// "generate the key, no address, nothing else set".
#[derive(Debug, Clone)]
pub struct HostOptions {
    /// `None`: generate a fresh key.
    pub private_key: Option<String>,
    pub address: Vec<String>,
    pub listen_port: Option<u16>,
    pub dns: Vec<String>,
    pub mtu: Option<u32>,
    /// `auto`, `off` or a number, as text.
    pub table: Option<String>,
    pub pre_up: Vec<String>,
    pub post_up: Vec<String>,
    pub pre_down: Vec<String>,
    pub post_down: Vec<String>,
    pub save_config: Option<bool>,
    pub fw_mark: Option<String>,
}

/// A host's fields as text.
#[verifier::ext_equal]
pub struct HostView {
    pub name: Seq<char>,
    pub private_key: Seq<char>,
    pub public_key: Seq<char>,
    pub address: Seq<Seq<char>>,
    pub listen_port: Option<u16>,
    pub dns: Seq<Seq<char>>,
    pub mtu: Option<u32>,
    pub table: Option<Seq<char>>,
    pub pre_up: Seq<Seq<char>>,
    pub post_up: Seq<Seq<char>>,
    pub pre_down: Seq<Seq<char>>,
    pub post_down: Seq<Seq<char>>,
    pub save_config: Option<bool>,
    pub fw_mark: Option<Seq<char>>,
    pub peers: Seq<PeerView>,
}

/// Options as text.
#[verifier::ext_equal]
pub struct OptionsView {
    pub private_key: Option<Seq<char>>,
    pub address: Seq<Seq<char>>,
    pub listen_port: Option<u16>,
    pub dns: Seq<Seq<char>>,
    pub mtu: Option<u32>,
    pub table: Option<Seq<char>>,
    pub pre_up: Seq<Seq<char>>,
    pub post_up: Seq<Seq<char>>,
    pub pre_down: Seq<Seq<char>>,
    pub post_down: Seq<Seq<char>>,
    pub save_config: Option<bool>,
    pub fw_mark: Option<Seq<char>>,
}

pub open spec fn peer_views(ps: Seq<Peer>) -> Seq<PeerView> {
    Seq::new(ps.len(), |i: int| ps[i]@)
}

impl View for WireGuardHost {
    type V = HostView;

    open spec fn view(&self) -> HostView {
        HostView {
            name: self.name@,
            private_key: self.private_key@,
            public_key: self.public_key@,
            address: string_views(self.address@),
            listen_port: self.listen_port,
            dns: string_views(self.dns@),
            mtu: self.mtu,
            table: opt_view(self.table),
            pre_up: string_views(self.pre_up@),
            post_up: string_views(self.post_up@),
            pre_down: string_views(self.pre_down@),
            post_down: string_views(self.post_down@),
            save_config: self.save_config,
            fw_mark: opt_view(self.fw_mark),
            peers: peer_views(self.peers@),
        }
    }
}

impl View for HostOptions {
    type V = OptionsView;

    open spec fn view(&self) -> OptionsView {
        OptionsView {
            private_key: opt_view(self.private_key),
            address: string_views(self.address@),
            listen_port: self.listen_port,
            dns: string_views(self.dns@),
            mtu: self.mtu,
            table: opt_view(self.table),
            pre_up: string_views(self.pre_up@),
            post_up: string_views(self.post_up@),
            pre_down: string_views(self.pre_down@),
            post_down: string_views(self.post_down@),
            save_config: self.save_config,
            fw_mark: opt_view(self.fw_mark),
        }
    }
}

impl Default for HostOptions {
    fn default() -> (res: HostOptions)
        ensures
            res@.private_key.is_none(),
            res@.address.len() == 0,
            res@.listen_port.is_none(),
            res@.dns.len() == 0,
            res@.mtu.is_none(),
            res@.table.is_none(),
            res@.pre_up.len() == 0,
            res@.post_up.len() == 0,
            res@.pre_down.len() == 0,
            res@.post_down.len() == 0,
            res@.save_config.is_none(),
            res@.fw_mark.is_none(),
    {
        HostOptions {
            private_key: None,
            address: Vec::new(),
            listen_port: None,
            dns: Vec::new(),
            mtu: None,
            table: None,
            pre_up: Vec::new(),
            post_up: Vec::new(),
            pre_down: Vec::new(),
            post_down: Vec::new(),
            save_config: None,
            fw_mark: None,
        }
    }
}

/// What every host `WireGuardHost::new` builds satisfies: a valid private
/// key (plain base64 symbols), the public key derived from it, valid
/// addresses and a non-zero listen port.
pub open spec fn host_keys_ok(h: HostView) -> bool {
    &&& decodes_to_key(h.private_key)
    &&& all_base64_symbols(h.private_key)
    &&& spec_public_key(h.private_key) == Some(h.public_key)
    &&& cidr_list_ok(h.address)
    &&& h.listen_port != Some(0u16)
}

/// The host `new` builds from a name, options and the private key it ends
/// up with, before its peers.
pub open spec fn host_from_options(name: Seq<char>, o: OptionsView, private_key: Seq<char>) -> HostView {
    HostView {
        name,
        private_key,
        public_key: spec_public_key(private_key).unwrap(),
        address: o.address,
        listen_port: o.listen_port,
        dns: o.dns,
        mtu: o.mtu,
        table: o.table,
        pre_up: o.pre_up,
        post_up: o.post_up,
        pre_down: o.pre_down,
        post_down: o.post_down,
        save_config: o.save_config,
        fw_mark: o.fw_mark,
        peers: Seq::empty(),
    }
}

/// When `new` succeeds on options: a given key must be a key, the
/// addresses valid and the listen port non-zero.
pub open spec fn options_ok(o: OptionsView) -> bool {
    &&& (o.private_key matches Some(k) ==> decodes_to_key(k))
    &&& cidr_list_ok(o.address)
    &&& o.listen_port != Some(0u16)
}

// ---------------------------------------------------------------------
// Rendering
// ---------------------------------------------------------------------

pub open spec fn prefixed_all(prefix: Seq<char>, items: Seq<Seq<char>>) -> Seq<Seq<char>> {
    Seq::new(items.len(), |i: int| prefix + items[i])
}

pub open spec fn opt_line(prefix: Seq<char>, v: Option<Seq<char>>) -> Seq<Seq<char>> {
    match v {
        Some(t) => seq![prefix + t],
        None => Seq::empty(),
    }
}

pub open spec fn list_line(prefix: Seq<char>, v: Seq<Seq<char>>) -> Seq<Seq<char>> {
    if v.len() > 0 {
        seq![prefix + join(v, ", "@)]
    } else {
        Seq::empty()
    }
}

pub open spec fn num_line(prefix: Seq<char>, v: Option<nat>) -> Seq<Seq<char>> {
    match v {
        Some(n) => seq![prefix + dec(n)],
        None => Seq::empty(),
    }
}

pub open spec fn opt_nat16(v: Option<u16>) -> Option<nat> {
    match v {
        Some(n) => Some(n as nat),
        None => None,
    }
}

pub open spec fn opt_nat32(v: Option<u32>) -> Option<nat> {
    match v {
        Some(n) => Some(n as nat),
        None => None,
    }
}

pub open spec fn bool_text(b: bool) -> Seq<char> {
    if b {
        "true"@
    } else {
        "false"@
    }
}

/// The lines of a rendered `[Interface]` section.
pub open spec fn interface_lines(h: HostView, include_private_key: bool) -> Seq<Seq<char>> {
    let pk = if include_private_key {
        seq!["PrivateKey = "@ + h.private_key]
    } else {
        Seq::empty()
    };
    let sc = match h.save_config {
        Some(b) => seq!["SaveConfig = "@ + bool_text(b)],
        None => Seq::empty(),
    };
    let fw = match h.fw_mark {
        Some(f) => if f.len() > 0 {
            seq!["FwMark = "@ + f]
        } else {
            Seq::empty()
        },
        None => Seq::empty(),
    };
    seq!["[Interface]"@] + pk + list_line("Address = "@, h.address) + num_line(
        "ListenPort = "@,
        opt_nat16(h.listen_port),
    ) + list_line("DNS = "@, h.dns) + num_line("MTU = "@, opt_nat32(h.mtu)) + opt_line(
        "Table = "@,
        h.table,
    ) + prefixed_all("PreUp = "@, h.pre_up) + prefixed_all("PostUp = "@, h.post_up)
        + prefixed_all("PreDown = "@, h.pre_down) + prefixed_all("PostDown = "@, h.post_down) + sc
        + fw
}

pub open spec fn interface_config(h: HostView, include_private_key: bool) -> Seq<char> {
    join(interface_lines(h, include_private_key), "\n"@)
}

/// An empty part and the peer's block, for each peer.
pub open spec fn peer_parts(ps: Seq<PeerView>) -> Seq<Seq<char>>
    decreases ps.len(),
{
    if ps.len() == 0 {
        Seq::empty()
    } else {
        peer_parts(ps.drop_last()) + seq![Seq::<char>::empty(), peer_config(ps.last())]
    }
}

/// The whole `.conf` text: a `# name` comment, the `[Interface]` section
/// with its private key, then each peer's block after an empty line.
pub open spec fn full_config(h: HostView) -> Seq<char> {
    join(seq!["# "@ + h.name, interface_config(h, true)] + peer_parts(h.peers), "\n"@) + "\n"@
}

fn prefixed(prefix: &str, value: &str) -> (res: String)
    ensures
        res@ == prefix@ + value@,
{
    let mut s = string_of(prefix);
    s.append(value);
    s
}

fn push_line(lines: &mut Vec<String>, line: String)
    ensures
        string_views(final(lines)@) == string_views(old(lines)@).push(line@),
{
    lines.push(line);
    assert(string_views(lines@) =~= string_views(old(lines)@).push(line@));
}

fn push_prefixed_all(lines: &mut Vec<String>, prefix: &str, items: &Vec<String>)
    ensures
        string_views(final(lines)@) == string_views(old(lines)@) + prefixed_all(
            prefix@,
            string_views(items@),
        ),
{
    let ghost start = string_views(lines@);
    let mut i: usize = 0;
    while i < items.len()
        invariant
            i <= items.len(),
            string_views(lines@) =~= start + prefixed_all(prefix@, string_views(items@)).take(
                i as int,
            ),
        decreases items.len() - i,
    {
        push_line(lines, prefixed(prefix, items[i].as_str()));
        assert(prefixed_all(prefix@, string_views(items@)).take(i + 1) =~= prefixed_all(
            prefix@,
            string_views(items@),
        ).take(i as int).push(prefix@ + items@[i as int]@));
        i = i + 1;
    }
    assert(prefixed_all(prefix@, string_views(items@)).take(items.len() as int)
        =~= prefixed_all(prefix@, string_views(items@)));
}

pub open spec fn peers_valid(ps: Seq<PeerView>) -> bool {
    forall|i: int| 0 <= i < ps.len() ==> (#[trigger] ps[i]).valid()
}

impl WireGuardHost {
    /// Build a host: generate or validate the private key, derive its public
    /// key, validate the addresses and the listen port. The key is checked
    /// first, then the addresses, then the port.
    pub fn new(name: &str, opts: HostOptions) -> (res: Result<WireGuardHost, WgError>)
        ensures
            res is Ok <==> options_ok(opts@),
            match res {
                Ok(h) => h@ == host_from_options(name@, opts@, h@.private_key) && host_keys_ok(h@)
                    && (opts@.private_key matches Some(k) ==> h@.private_key == k),
                Err(e) => if opts@.private_key matches Some(k) && !decodes_to_key(k) {
                    e is InvalidKey
                } else if !cidr_list_ok(opts@.address) {
                    e is InvalidCidr
                } else {
                    e is Value && e.spec_message() == "listen_port must be between 1 and 65535"@
                },
            },
    {
        let ghost o = opts@;
        let private_key = match opts.private_key {
            None => generate_private_key(),
            Some(k) => validate_key(k.as_str(), "private_key")?,
        };
        let public_key = public_key_from_private(private_key.as_str())?;
        let address = validate_cidr_list(opts.address.as_slice(), "address")?;
        if let Some(port) = opts.listen_port {
            if port == 0 {
                return Err(WgError::Value(string_of("listen_port must be between 1 and 65535")));
            }
        }
        let h = WireGuardHost {
            name: string_of(name),
            private_key,
            public_key,
            address,
            listen_port: opts.listen_port,
            dns: opts.dns,
            mtu: opts.mtu,
            table: opts.table,
            pre_up: opts.pre_up,
            post_up: opts.post_up,
            pre_down: opts.pre_down,
            post_down: opts.post_down,
            save_config: opts.save_config,
            fw_mark: opts.fw_mark,
            peers: Vec::new(),
        };
        assert(h@.peers =~= Seq::<PeerView>::empty());
        Ok(h)
    }

    /// Just a name: generated key, everything else unset.
    pub fn simple(name: &str) -> (res: Result<WireGuardHost, WgError>)
        ensures
            res is Ok,
            match res {
                Ok(h) => host_keys_ok(h@) && h@.name == name@ && h@.address.len() == 0
                    && h@.listen_port.is_none() && h@.dns.len() == 0 && h@.mtu.is_none()
                    && h@.table.is_none() && h@.pre_up.len() == 0 && h@.post_up.len() == 0
                    && h@.pre_down.len() == 0 && h@.post_down.len() == 0
                    && h@.save_config.is_none() && h@.fw_mark.is_none() && h@.peers.len() == 0,
                Err(_) => false,
            },
    {
        let opts = HostOptions::default();
        assert(cidr_list_ok(opts@.address));
        Self::new(name, opts)
    }

    /// Append a peer; returns the stored peer.
    pub fn add_peer(&mut self, peer: Peer) -> (res: &Peer)
        ensures
            final(self)@ == (HostView { peers: old(self)@.peers.push(peer@), ..old(self)@ }),
            res@ == peer@,
    {
        self.peers.push(peer);
        assert(peer_views(self.peers@) =~= peer_views(old(self).peers@).push(peer@));
        let n = self.peers.len();
        &self.peers[n - 1]
    }

    /// Add `other` as a peer of this host, with its public key and its
    /// name as the comment.
    pub fn add_peer_host(
        &mut self,
        other: &WireGuardHost,
        allowed_ips: Vec<String>,
        endpoint: Option<String>,
        persistent_keepalive: Option<u32>,
        preshared_key: Option<String>,
    ) -> (res: Result<(), WgError>)
        ensures
            res is Ok <==> peer_fields_ok(other@.public_key, string_views(allowed_ips@), opt_view(preshared_key)),
            res is Ok ==> final(self)@ == (HostView {
                peers: old(self)@.peers.push(
                    PeerView {
                        public_key: other@.public_key,
                        allowed_ips: string_views(allowed_ips@),
                        endpoint: opt_view(endpoint),
                        persistent_keepalive,
                        preshared_key: opt_view(preshared_key),
                        comment: Some(other@.name),
                    },
                ),
                ..old(self)@
            }),
            res is Err ==> final(self)@ == old(self)@,
    {
        let peer = Peer::build(
            other.public_key.as_str(),
            allowed_ips,
            endpoint,
            persistent_keepalive,
            preshared_key,
            Some(string_clone(&other.name)),
        )?;
        self.add_peer(peer);
        Ok(())
    }

    /// The lines of the `[Interface]` section.
    pub fn interface_lines(&self, include_private_key: bool) -> (res: Vec<String>)
        ensures
            string_views(res@) == interface_lines(self@, include_private_key),
    {
        let mut lines: Vec<String> = Vec::new();
        push_line(&mut lines, string_of("[Interface]"));
        if include_private_key {
            push_line(&mut lines, prefixed("PrivateKey = ", self.private_key.as_str()));
        }
        if self.address.len() != 0 {
            push_line(&mut lines, prefixed("Address = ", join_strs(&self.address, ", ").as_str()));
        }
        if let Some(p) = self.listen_port {
            push_line(&mut lines, prefixed("ListenPort = ", dec_string(p as u64).as_str()));
        }
        if self.dns.len() != 0 {
            push_line(&mut lines, prefixed("DNS = ", join_strs(&self.dns, ", ").as_str()));
        }
        if let Some(m) = self.mtu {
            push_line(&mut lines, prefixed("MTU = ", dec_string(m as u64).as_str()));
        }
        if let Some(t) = &self.table {
            push_line(&mut lines, prefixed("Table = ", t.as_str()));
        }
        let ghost h = self@;
        let ghost pk = if include_private_key {
            seq!["PrivateKey = "@ + h.private_key]
        } else {
            Seq::<Seq<char>>::empty()
        };
        assert(string_views(lines@) =~= seq!["[Interface]"@] + pk + list_line("Address = "@, h.address)
            + num_line("ListenPort = "@, opt_nat16(h.listen_port)) + list_line("DNS = "@, h.dns)
            + num_line("MTU = "@, opt_nat32(h.mtu)) + opt_line("Table = "@, h.table));
        push_prefixed_all(&mut lines, "PreUp = ", &self.pre_up);
        push_prefixed_all(&mut lines, "PostUp = ", &self.post_up);
        push_prefixed_all(&mut lines, "PreDown = ", &self.pre_down);
        push_prefixed_all(&mut lines, "PostDown = ", &self.post_down);
        let ghost mid = string_views(lines@);
        if let Some(sc) = self.save_config {
            let t: &str = if sc {
                "true"
            } else {
                "false"
            };
            assert(t@ == bool_text(sc));
            push_line(&mut lines, prefixed("SaveConfig = ", t));
        }
        let ghost sc_lines = match h.save_config {
            Some(b) => seq!["SaveConfig = "@ + bool_text(b)],
            None => Seq::<Seq<char>>::empty(),
        };
        assert(string_views(lines@) =~= mid + sc_lines);
        if let Some(fw) = &self.fw_mark {
            if !fw.as_str().is_empty() {
                push_line(&mut lines, prefixed("FwMark = ", fw.as_str()));
            }
        }
        assert(string_views(lines@) =~= interface_lines(self@, include_private_key));
        lines
    }

    /// The `[Interface]` section as text.
    pub fn interface_config(&self, include_private_key: bool) -> (res: String)
        ensures
            res@ == interface_config(self@, include_private_key),
    {
        let lines = self.interface_lines(include_private_key);
        join_strs(&lines, "\n")
    }

    /// The whole `.conf` text of this host, peers included.
    pub fn full_config(&self) -> (res: String)
        ensures
            res@ == full_config(self@),
    {
        let mut parts: Vec<String> = Vec::new();
        push_line(&mut parts, prefixed("# ", self.name.as_str()));
        push_line(&mut parts, self.interface_config(true));
        let ghost head = string_views(parts@);
        assert(head =~= seq!["# "@ + self@.name, interface_config(self@, true)]);
        let mut i: usize = 0;
        while i < self.peers.len()
            invariant
                i <= self.peers.len(),
                string_views(parts@) == head + peer_parts(peer_views(self.peers@).take(i as int)),
            decreases self.peers.len() - i,
        {
            proof {
                assert(peer_views(self.peers@).take(i + 1).drop_last() =~= peer_views(
                    self.peers@,
                ).take(i as int));
            }
            push_line(&mut parts, String::new());
            push_line(&mut parts, self.peers[i].to_config());
            proof {
                assert(string_views(parts@) =~= head + peer_parts(
                    peer_views(self.peers@).take(i + 1),
                ));
            }
            i = i + 1;
        }
        assert(peer_views(self.peers@).take(self.peers.len() as int) =~= self@.peers);
        assert(string_views(parts@) == seq!["# "@ + self@.name, interface_config(self@, true)]
            + peer_parts(self@.peers));
        let mut text = join_strs(&parts, "\n");
        text.append("\n");
        text
    }
}

} // verus!
