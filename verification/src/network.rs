//! A set of hosts (offices and clients) with named address pools: create
//! hosts, draw their addresses from a pool, and link hosts as peers of
//! each other.
use vstd::prelude::*;

use crate::error::{FailKind, WgError};
use crate::host::{host_from_options, host_keys_ok, options_ok, HostOptions, HostView, OptionsView, WireGuardHost};
use crate::keys::{decodes_to_key, generate_preshared_key};
use crate::parse::{build_fail_kind, new_fail_kind};
use crate::peer::{peer_fields_ok, Peer, PeerView};
use crate::pool::{allocation_text, spec_new_pool, IpAddressPool, PoolView};
use crate::text::{clone_opt_string, debug_quoted, opt_view, str_eq, string_clone, string_of, string_views};

verus! {

/// A pool and the name it was created under.
pub struct NamedPool {
    pub name: String,
    pub pool: IpAddressPool,
}

/// Hosts in the order they were added (no two with one name), and named
/// pools (no two with one name).
pub struct WireGuardNetwork {
    pub hosts: Vec<WireGuardHost>,
    pub pools: Vec<NamedPool>,
}

#[verifier::ext_equal]
pub struct NetworkView {
    pub hosts: Seq<HostView>,
    pub pools: Seq<(Seq<char>, PoolView)>,
}

impl View for WireGuardNetwork {
    type V = NetworkView;

    open spec fn view(&self) -> NetworkView {
        NetworkView {
            hosts: Seq::new(self.hosts@.len(), |i: int| self.hosts@[i]@),
            pools: Seq::new(self.pools@.len(), |i: int| (self.pools@[i].name@, self.pools@[i].pool@)),
        }
    }
}

pub open spec fn has_host(hs: Seq<HostView>, name: Seq<char>) -> bool {
    exists|i: int| 0 <= i < hs.len() && (#[trigger] hs[i]).name == name
}

pub open spec fn has_pool(ps: Seq<(Seq<char>, PoolView)>, name: Seq<char>) -> bool {
    exists|i: int| 0 <= i < ps.len() && (#[trigger] ps[i]).0 == name
}

/// The hosts with `p` added to the peers of the host at `i`.
pub open spec fn with_peer_at(hs: Seq<HostView>, i: int, p: PeerView) -> Seq<HostView> {
    hs.update(i, HostView { peers: hs[i].peers.push(p), ..hs[i] })
}

/// Creating a host named `name` from options `o` on hosts `hs` gives hosts
/// `fhs` and outcome `r`: refused as `new` refuses the options, refused
/// when the name is taken, else the new host is appended.
pub open spec fn host_created(
    hs: Seq<HostView>,
    name: Seq<char>,
    o: OptionsView,
    fhs: Seq<HostView>,
    r: Result<(), FailKind>,
) -> bool {
    if !options_ok(o) {
        r == Err::<(), FailKind>(new_fail_kind(o)) && fhs == hs
    } else if has_host(hs, name) {
        r == Err::<(), FailKind>(FailKind::Value) && fhs == hs
    } else {
        &&& r is Ok
        &&& fhs.len() == hs.len() + 1
        &&& fhs.drop_last() == hs
        &&& fhs.last() == host_from_options(name, o, fhs.last().private_key)
        &&& host_keys_ok(fhs.last())
        &&& (o.private_key matches Some(k) ==> fhs.last().private_key == k)
    }
}

/// The peer entry `mesh` builds for one side.
pub open spec fn mesh_peer(
    other: HostView,
    allowed_ips: Seq<Seq<char>>,
    endpoint: Option<Seq<char>>,
    keepalive: Option<u32>,
    psk: Option<Seq<char>>,
) -> PeerView {
    PeerView {
        public_key: other.public_key,
        allowed_ips,
        endpoint,
        persistent_keepalive: keepalive,
        preshared_key: psk,
        comment: Some(other.name),
    }
}

pub open spec fn fail_kind_of(r: Result<(), WgError>) -> Result<(), FailKind> {
    match r {
        Ok(_) => Ok(()),
        Err(e) => Err(e.kind()),
    }
}

impl WireGuardNetwork {
    /// Host names are distinct, pool names are distinct, and every pool is
    /// well formed.
    pub open spec fn wf(&self) -> bool {
        &&& forall|i: int, j: int|
            0 <= i < self.hosts@.len() && 0 <= j < self.hosts@.len() && i != j ==> (#[trigger] self.hosts@[i]).name@
                != (#[trigger] self.hosts@[j]).name@
        &&& forall|i: int, j: int|
            0 <= i < self.pools@.len() && 0 <= j < self.pools@.len() && i != j ==> (#[trigger] self.pools@[i]).name@
                != (#[trigger] self.pools@[j]).name@
        &&& forall|i: int| 0 <= i < self.pools@.len() ==> (#[trigger] self.pools@[i]).pool.wf()
    }

    /// An empty network.
    pub fn new() -> (res: WireGuardNetwork)
        ensures
            res.wf(),
            res@.hosts.len() == 0,
            res@.pools.len() == 0,
    {
        WireGuardNetwork { hosts: Vec::new(), pools: Vec::new() }
    }

    /// The position of the host named `name`, if there is one.
    pub fn host_index(&self, name: &str) -> (res: Option<usize>)
        ensures
            match res {
                Some(i) => i < self@.hosts.len() && self@.hosts[i as int].name == name@,
                None => !has_host(self@.hosts, name@),
            },
    {
        let mut i: usize = 0;
        while i < self.hosts.len()
            invariant
                i <= self.hosts.len(),
                forall|j: int| 0 <= j < i ==> self@.hosts[j].name != name@,
            decreases self.hosts.len() - i,
        {
            assert(self@.hosts[i as int] == self.hosts@[i as int]@);
            if str_eq(self.hosts[i].name.as_str(), name) {
                return Some(i);
            }
            i = i + 1;
        }
        None
    }

    fn pool_index(&self, name: &str) -> (res: Option<usize>)
        ensures
            match res {
                Some(i) => i < self@.pools.len() && self@.pools[i as int].0 == name@,
                None => !has_pool(self@.pools, name@),
            },
    {
        let mut i: usize = 0;
        while i < self.pools.len()
            invariant
                i <= self.pools.len(),
                forall|j: int| 0 <= j < i ==> self@.pools[j].0 != name@,
            decreases self.pools.len() - i,
        {
            if str_eq(self.pools[i].name.as_str(), name) {
                return Some(i);
            }
            i = i + 1;
        }
        None
    }

    /// Add a host; refused when a host of that name exists. Returns the
    /// stored host.
    pub fn add_host(&mut self, host: WireGuardHost) -> (res: Result<&WireGuardHost, WgError>)
        requires
            old(self).wf(),
        ensures
            final(self).wf(),
            match res {
                Ok(h) => !has_host(old(self)@.hosts, host@.name) && h@ == host@ && final(self)@ == (NetworkView {
                    hosts: old(self)@.hosts.push(host@),
                    ..old(self)@
                }),
                Err(e) => has_host(old(self)@.hosts, host@.name) && e is Value && final(self)@ == old(self)@,
            },
    {
        if let Some(_) = self.host_index(host.name.as_str()) {
            let mut msg = string_of("Host name ");
            msg.append(debug_quoted(host.name.as_str()).as_str());
            msg.append(" already exists");
            return Err(WgError::Value(msg));
        }
        let ghost before = self@;
        let ghost hv = host@;
        let ghost old_hosts = self.hosts@;
        self.hosts.push(host);
        assert(self@.hosts =~= before.hosts.push(hv));
        proof {
            assert forall|i: int, j: int|
                0 <= i < self.hosts@.len() && 0 <= j < self.hosts@.len() && i != j implies (#[trigger] self.hosts@[i]).name@
                    != (#[trigger] self.hosts@[j]).name@ by {
                if i < old_hosts.len() && j < old_hosts.len() {
                    assert(old_hosts[i] == self.hosts@[i] && old_hosts[j] == self.hosts@[j]);
                } else if i < old_hosts.len() {
                    assert(before.hosts[i] == old_hosts[i]@);
                    assert(!(0 <= i < before.hosts.len() && before.hosts[i].name == hv.name));
                } else {
                    assert(before.hosts[j] == old_hosts[j]@);
                    assert(!(0 <= j < before.hosts.len() && before.hosts[j].name == hv.name));
                }
            }
        }
        assert(self@.pools =~= before.pools);
        let n = self.hosts.len();
        Ok(&self.hosts[n - 1])
    }

    /// Create a named pool over `cidr` (see `IpAddressPool::new`); refused
    /// when a pool of that name exists.
    pub fn create_pool(&mut self, name: &str, cidr: &str, host_prefix: Option<u8>, reserve: &[String]) -> (res: Result<(), WgError>)
        requires
            old(self).wf(),
        ensures
            final(self).wf(),
            has_pool(old(self)@.pools, name@) ==> (res matches Err(e) && e is Value && final(self)@ == old(self)@),
            !has_pool(old(self)@.pools, name@) ==> match spec_new_pool(cidr@, host_prefix, string_views(reserve@)) {
                Ok(p) => res is Ok && final(self)@ == (NetworkView {
                    pools: old(self)@.pools.push((name@, p)),
                    ..old(self)@
                }),
                Err(k) => (res matches Err(e) && e.kind() == k && final(self)@ == old(self)@),
            },
    {
        if let Some(_) = self.pool_index(name) {
            let mut msg = string_of("Pool name ");
            msg.append(debug_quoted(name).as_str());
            msg.append(" already exists");
            return Err(WgError::Value(msg));
        }
        let pool = IpAddressPool::new(cidr, host_prefix, reserve)?;
        let ghost before = self@;
        let ghost pv = pool@;
        let ghost old_pools = self.pools@;
        self.pools.push(NamedPool { name: string_of(name), pool });
        assert(self@.pools =~= before.pools.push((name@, pv)));
        proof {
            assert forall|i: int, j: int|
                0 <= i < self.pools@.len() && 0 <= j < self.pools@.len() && i != j implies (#[trigger] self.pools@[i]).name@
                    != (#[trigger] self.pools@[j]).name@ by {
                if i < old_pools.len() && j < old_pools.len() {
                    assert(old_pools[i] == self.pools@[i] && old_pools[j] == self.pools@[j]);
                } else if i < old_pools.len() {
                    assert(before.pools[i].0 == old_pools[i].name@);
                    assert(!(0 <= i < before.pools.len() && before.pools[i].0 == name@));
                } else {
                    assert(before.pools[j].0 == old_pools[j].name@);
                    assert(!(0 <= j < before.pools.len() && before.pools[j].0 == name@));
                }
            }
            assert forall|i: int| 0 <= i < self.pools@.len() implies (#[trigger] self.pools@[i]).pool.wf() by {
                if i < old_pools.len() {
                    assert(old_pools[i] == self.pools@[i]);
                }
            }
        }
        assert(self@.hosts =~= before.hosts);
        Ok(())
    }

    /// Create a host and add it. With a pool name, the host's address is
    /// the next free address of that pool (the options must then give no
    /// address). The address stays allocated even when the host is then
    /// refused.
    pub fn create_host(&mut self, name: &str, opts: HostOptions, pool: Option<&str>) -> (res: Result<(), WgError>)
        requires
            old(self).wf(),
        ensures
            final(self).wf(),
            ({
                let o = old(self)@;
                let f = final(self)@;
                match pool {
                    None => f.pools == o.pools && host_created(o.hosts, name@, opts@, f.hosts, fail_kind_of(res)),
                    Some(pn) => if opts@.address.len() > 0 || !has_pool(o.pools, pn@) {
                        res matches Err(e) && e is Value && f == o
                    } else {
                        forall|i: int| 0 <= i < o.pools.len() && (#[trigger] o.pools[i]).0 == pn@ ==> {
                            let p = o.pools[i].1;
                            if p.exhausted() {
                                res matches Err(e) && e is PoolExhausted && f == o
                            } else {
                                exists|a: u128| #![trigger allocation_text(p, a)] {
                                    &&& p.is_first_free(a)
                                    &&& f.pools == o.pools.update(i, (pn@, PoolView { allocated: p.allocated.insert(a), ..p }))
                                    &&& host_created(
                                        o.hosts,
                                        name@,
                                        OptionsView { address: seq![allocation_text(p, a)], ..opts@ },
                                        f.hosts,
                                        fail_kind_of(res),
                                    )
                                }
                            }
                        }
                    },
                }
            }),
    {
        let ghost o = self@;
        let mut opts = opts;
        if let Some(pool_name) = pool {
            if opts.address.len() != 0 {
                return Err(WgError::Value(string_of("Pass either `address` or `pool`, not both")));
            }
            let idx = match self.pool_index(pool_name) {
                Some(i) => i,
                None => {
                    let mut msg = string_of("No such pool: ");
                    msg.append(debug_quoted(pool_name).as_str());
                    return Err(WgError::Value(msg));
                },
            };
            let ghost before = self@;
            let mut np = self.pools.remove(idx);
            let r = np.pool.allocate();
            let ghost npv = np.pool@;
            self.pools.insert(idx, np);
            assert(self@.pools =~= before.pools.update(idx as int, (pool_name@, npv)));
            assert(self@.hosts =~= before.hosts);
            let address = match r {
                Ok(a) => a,
                Err(e) => {
                    assert(self@.pools =~= o.pools);
                    return Err(e);
                },
            };
            let mut v: Vec<String> = Vec::new();
            v.push(address);
            opts.address = v;
            proof {
                let p = o.pools[idx as int].1;
                let a = choose|a: u128| p.is_first_free(a) && #[trigger] allocation_text(p, a) == address@
                    && npv == (PoolView { allocated: p.allocated.insert(a), ..p });
                assert(string_views(opts.address@) =~= seq![allocation_text(p, a)]);
            }
        }
        let ghost mid = self@;
        let ghost ov = opts@;
        let host = match WireGuardHost::new(name, opts) {
            Ok(h) => h,
            Err(e) => {
                return Err(e);
            },
        };
        match self.add_host(host) {
            Ok(_) => {},
            Err(e) => {
                return Err(e);
            },
        }
        proof {
            assert(self@.hosts.drop_last() =~= mid.hosts);
        }
        Ok(())
    }

    /// Link two hosts as peers of each other in both directions: `a` gets
    /// a peer for `b` (with `b`'s key, the addresses routed to `b`, `b`'s
    /// endpoint and `b`'s name as comment) and `b` one for `a`; both share
    /// the keepalive and, when asked for, one fresh pre-shared key.
    pub fn mesh(
        &mut self,
        a: &str,
        b: &str,
        allowed_ips_a_to_b: Vec<String>,
        allowed_ips_b_to_a: Vec<String>,
        endpoint_a: Option<String>,
        endpoint_b: Option<String>,
        keepalive: Option<u32>,
        use_preshared_key: bool,
    ) -> (res: Result<(), WgError>)
        requires
            old(self).wf(),
        ensures
            final(self).wf(),
            ({
                let o = old(self)@;
                let f = final(self)@;
                &&& !has_host(o.hosts, a@) ==> (res matches Err(e) && e is Value && f == o)
                &&& has_host(o.hosts, a@) && !has_host(o.hosts, b@) ==> (res matches Err(e) && e is Value && f
                    == o)
                &&& forall|ia: int, ib: int|
                    #![trigger o.hosts[ia], o.hosts[ib]]
                    0 <= ia < o.hosts.len() && 0 <= ib < o.hosts.len() && o.hosts[ia].name == a@
                        && o.hosts[ib].name == b@ ==> exists|psk: Option<Seq<char>>|
                        #![trigger mesh_peer(o.hosts[ib], string_views(allowed_ips_a_to_b@), opt_view(endpoint_b), keepalive, psk)]
                        {
                            let pba = mesh_peer(
                                o.hosts[ib],
                                string_views(allowed_ips_a_to_b@),
                                opt_view(endpoint_b),
                                keepalive,
                                psk,
                            );
                            let pab = mesh_peer(
                                o.hosts[ia],
                                string_views(allowed_ips_b_to_a@),
                                opt_view(endpoint_a),
                                keepalive,
                                psk,
                            );
                            &&& (use_preshared_key ==> (psk matches Some(k) && decodes_to_key(k)))
                            &&& (!use_preshared_key ==> psk is None)
                            &&& if !pba.valid() {
                                res matches Err(e) && e.kind() == build_fail_kind(pba.public_key, psk) && f == o
                            } else if !pab.valid() {
                                res matches Err(e) && e.kind() == build_fail_kind(pab.public_key, psk) && f == o
                            } else {
                                res is Ok && f == NetworkView {
                                    hosts: with_peer_at(with_peer_at(o.hosts, ia, pba), ib, pab),
                                    ..o
                                }
                            }
                        }
            }),
    {
        let ghost o = self@;
        let psk = if use_preshared_key {
            Some(generate_preshared_key())
        } else {
            None
        };
        let ghost pskv = opt_view(psk);
        let ia = match self.host_index(a) {
            Some(i) => i,
            None => {
                let mut msg = string_of("No such host: ");
                msg.append(debug_quoted(a).as_str());
                return Err(WgError::Value(msg));
            },
        };
        let ib = match self.host_index(b) {
            Some(i) => i,
            None => {
                let mut msg = string_of("No such host: ");
                msg.append(debug_quoted(b).as_str());
                return Err(WgError::Value(msg));
            },
        };
        proof {
            assert forall|i: int| 0 <= i < o.hosts.len() && o.hosts[i].name == a@ implies i == ia by {
                if i != ia {
                    assert(self.hosts@[i].name@ != self.hosts@[ia as int].name@);
                }
            }
            assert forall|i: int| 0 <= i < o.hosts.len() && o.hosts[i].name == b@ implies i == ib by {
                if i != ib {
                    assert(self.hosts@[i].name@ != self.hosts@[ib as int].name@);
                }
            }
        }
        let ghost ha = o.hosts[ia as int];
        let ghost hb = o.hosts[ib as int];
        let ghost pba = mesh_peer(hb, string_views(allowed_ips_a_to_b@), opt_view(endpoint_b), keepalive, pskv);
        let ghost pab = mesh_peer(ha, string_views(allowed_ips_b_to_a@), opt_view(endpoint_a), keepalive, pskv);
        let host_a_pub = string_clone(&self.hosts[ia].public_key);
        let host_a_name = string_clone(&self.hosts[ia].name);
        let host_b_pub = string_clone(&self.hosts[ib].public_key);
        let host_b_name = string_clone(&self.hosts[ib].name);
        let peer_b_for_a = match Peer::build(
            host_b_pub.as_str(),
            allowed_ips_a_to_b,
            endpoint_b,
            keepalive,
            clone_opt_string(&psk),
            Some(host_b_name),
        ) {
            Ok(p) => p,
            Err(e) => {
                assert(!pba.valid());
                return Err(e);
            },
        };
        assert(peer_b_for_a@ == pba);
        let peer_a_for_b = match Peer::build(
            host_a_pub.as_str(),
            allowed_ips_b_to_a,
            endpoint_a,
            keepalive,
            psk,
            Some(host_a_name),
        ) {
            Ok(p) => p,
            Err(e) => {
                assert(!pab.valid());
                return Err(e);
            },
        };
        assert(peer_a_for_b@ == pab);
        let ghost old_hosts = self.hosts@;
        let mut host_a = self.hosts.remove(ia);
        host_a.add_peer(peer_b_for_a);
        self.hosts.insert(ia, host_a);
        let ghost mid = self@.hosts;
        assert(mid =~= with_peer_at(o.hosts, ia as int, pba));
        let mut host_b = self.hosts.remove(ib);
        host_b.add_peer(peer_a_for_b);
        self.hosts.insert(ib, host_b);
        assert(self@.hosts =~= with_peer_at(mid, ib as int, pab));
        assert(self@.pools =~= o.pools);
        proof {
            assert forall|i: int, j: int|
                0 <= i < self.hosts@.len() && 0 <= j < self.hosts@.len() && i != j implies (#[trigger] self.hosts@[i]).name@
                    != (#[trigger] self.hosts@[j]).name@ by {
                assert(self@.hosts[i].name == o.hosts[i].name);
                assert(self@.hosts[j].name == o.hosts[j].name);
                assert(old_hosts[i].name@ != old_hosts[j].name@);
            }
        }
        Ok(())
    }
}

} // verus!
