//! Hands out unique addresses from a subnet, so that "which address is
//! free in 10.10.0.0/24" need not be tracked by hand for every client.
use vstd::prelude::*;
use std::collections::HashSet;

use crate::error::{FailKind, WgError};
use crate::ip::{
    addr_bits, addr_wf, cidr_parse, dotted_quad, ip_display,
    ip_parse, ip_text, lemma_network_bounds, lemma_two_pow_128, lemma_two_pow_32, network_bounds,
    network_display, network_text, parse_cidr, parse_ip, two_pow, IpNetwork,
};
use crate::text::{dec, dec_string, dec_string_u128, split_char, split_char_str, string_of, lemma_split_char_nonempty};

verus! {

broadcast use vstd::std_specs::hash::group_hash_axioms;

/// A pool of addresses inside one network: addresses already handed out,
/// and addresses reserved (never handed out).
pub struct IpAddressPool {
    network: IpNetwork,
    host_prefix: u8,
    allocated: HashSet<u128>,
    reserved: HashSet<u128>,
}

pub struct PoolView {
    pub network: IpNetwork,
    pub host_prefix: u8,
    pub allocated: Set<u128>,
    pub reserved: Set<u128>,
}

impl View for IpAddressPool {
    type V = PoolView;

    closed spec fn view(&self) -> PoolView {
        PoolView {
            network: self.network,
            host_prefix: self.host_prefix,
            allocated: self.allocated@,
            reserved: self.reserved@,
        }
    }
}

impl PoolView {
    /// An address `hosts()` walks that is neither reserved nor allocated.
    pub open spec fn is_free(self, a: u128) -> bool {
        &&& self.network.host_lo() <= a <= self.network.host_hi()
        &&& !self.reserved.contains(a)
        &&& !self.allocated.contains(a)
    }

    /// The address `allocate` hands out: the lowest free one.
    pub open spec fn is_first_free(self, a: u128) -> bool {
        &&& self.is_free(a)
        &&& forall|b: u128| self.network.host_lo() <= b < a ==> !(#[trigger] self.is_free(b))
    }

    pub open spec fn exhausted(self) -> bool {
        forall|b: u128| !(#[trigger] self.is_free(b))
    }
}

/// The host prefix a pool hands out: 32 unless given.
pub open spec fn chosen_host_prefix(host_prefix: Option<u8>) -> u8 {
    match host_prefix {
        Some(h) => h,
        None => 32u8,
    }
}

/// The address `reserve` marks for an address text, if it accepts it:
/// the text's address part, parsed, inside the network.
pub open spec fn reserve_target(n: IpNetwork, address: Seq<char>) -> Option<u128> {
    match ip_parse(address_part(address)) {
        Some((v6, a)) => if n.contains(v6, a as int) {
            Some(a)
        } else {
            None
        },
        None => None,
    }
}

/// The message `reserve` gives for an address text it refuses: the address
/// parser's words, or that the address lies outside the network.
pub open spec fn reserve_error(n: IpNetwork, address: Seq<char>) -> Seq<char> {
    match ip_parse(address_part(address)) {
        None => address + ": "@ + crate::ip::ip_parse_error(address_part(address)),
        Some(_) => address + " is not inside "@ + network_display(n),
    }
}

/// Entry `i` is the first address text of the list that cannot be
/// reserved.
pub open spec fn first_bad_reserve(n: IpNetwork, reserve: Seq<Seq<char>>, i: int) -> bool {
    &&& 0 <= i < reserve.len()
    &&& reserve_target(n, reserve[i]) is None
    &&& forall|j: int| 0 <= j < i ==> (#[trigger] reserve_target(n, reserve[j])) is Some
}

/// The message of a pool that cannot be built: the network text refused,
/// a host prefix out of range, or the first reserved address refused.
pub open spec fn new_pool_error(cidr: Seq<char>, host_prefix: Option<u8>, reserve: Seq<Seq<char>>, msg: Seq<char>) -> bool {
    match cidr_parse(cidr) {
        None => msg == cidr + ": "@ + "invalid IP address syntax"@,
        Some((v6, addr, pl)) => {
            let n = IpNetwork { is_v6: v6, addr, prefix_len: pl };
            let hp = chosen_host_prefix(host_prefix);
            if !(1 <= hp <= addr_bits(v6)) {
                msg == "host_prefix must be between 1 and "@ + dec(addr_bits(v6))
            } else {
                exists|i: int| #[trigger] first_bad_reserve(n, reserve, i) && msg == reserve_error(n, reserve[i])
            }
        },
    }
}

/// The addresses reserved for a list of address texts.
pub open spec fn reserved_set(n: IpNetwork, addresses: Seq<Seq<char>>) -> Set<u128> {
    Set::new(|a: u128| exists|i: int| 0 <= i < addresses.len() && #[trigger] reserve_target(n, addresses[i]) == Some(a))
}

/// What `IpAddressPool::new` builds: the pool of the network with nothing
/// allocated and the given addresses reserved, or the kind of its failure
/// (a text that is no network; a host prefix that does not fit the
/// address family; an address to reserve outside the network).
pub open spec fn spec_new_pool(cidr: Seq<char>, host_prefix: Option<u8>, reserve: Seq<Seq<char>>) -> Result<PoolView, FailKind> {
    match cidr_parse(cidr) {
        None => Err(FailKind::InvalidCidr),
        Some((v6, addr, pl)) => {
            let n = IpNetwork { is_v6: v6, addr, prefix_len: pl };
            let hp = chosen_host_prefix(host_prefix);
            if !(1 <= hp <= addr_bits(v6)) {
                Err(FailKind::Value)
            } else if forall|i: int| 0 <= i < reserve.len() ==> (#[trigger] reserve_target(n, reserve[i])) is Some {
                Ok(PoolView { network: n, host_prefix: hp, allocated: Set::empty(), reserved: reserved_set(n, reserve) })
            } else {
                Err(FailKind::Value)
            }
        },
    }
}

/// The text of an allocated address: the address and the host prefix.
pub open spec fn allocation_text(p: PoolView, a: u128) -> Seq<char> {
    ip_display(p.network.is_v6, a) + "/"@ + dec(p.host_prefix as nat)
}

/// The pool after `release` of an address text: the address it names is
/// handed back when it is of the pool's family; anything else changes
/// nothing.
pub open spec fn released(p: PoolView, address: Seq<char>) -> PoolView {
    match ip_parse(address_part(address)) {
        Some((v6, a)) => if v6 == p.network.is_v6 {
            PoolView { allocated: p.allocated.remove(a), ..p }
        } else {
            p
        },
        None => p,
    }
}

/// The address part of an address text: what comes before the first `/`.
pub open spec fn address_part(address: Seq<char>) -> Seq<char> {
    split_char(address, '/')[0]
}

/// A text without `/` followed by `/` and anything: its address part is
/// that text.
pub proof fn lemma_address_part(x: Seq<char>, y: Seq<char>)
    requires
        !x.contains('/'),
    ensures
        address_part(x + "/"@ + y) == x,
{
    reveal_strlit("/");
    lemma_split_no_sep(x);
    let t = x + "/"@;
    assert(t.drop_last() =~= x);
    assert(t.last() == '/');
    assert(split_char(t, '/') == seq![x].push(Seq::<char>::empty()));
    lemma_split_keeps_first(t, y);
}

proof fn lemma_split_no_sep(x: Seq<char>)
    requires
        !x.contains('/'),
    ensures
        split_char(x, '/') == seq![x],
    decreases x.len(),
{
    if x.len() > 0 {
        let d = x.drop_last();
        assert(!d.contains('/')) by {
            if d.contains('/') {
                let i = choose|i: int| 0 <= i < d.len() && d[i] == '/';
                assert(x[i] == '/');
            }
        }
        lemma_split_no_sep(d);
        assert(x.last() != '/') by {
            assert(x[x.len() - 1] == x.last());
        }
        assert(d.push(x.last()) =~= x);
    } else {
        assert(x =~= Seq::<char>::empty());
    }
}

proof fn lemma_split_keeps_first(t: Seq<char>, y: Seq<char>)
    requires
        split_char(t, '/').len() >= 2,
    ensures
        split_char(t + y, '/').len() >= 2,
        split_char(t + y, '/')[0] == split_char(t, '/')[0],
    decreases y.len(),
{
    if y.len() == 0 {
        assert(t + y =~= t);
    } else {
        lemma_split_keeps_first(t, y.drop_last());
        assert((t + y).drop_last() =~= t + y.drop_last());
    }
}

fn address_part_of(address: &str) -> (res: String)
    ensures
        res@ == address_part(address@),
{
    let parts = split_char_str(address, '/');
    proof {
        lemma_split_char_nonempty(address@, '/');
    }
    let r = crate::text::string_clone(&parts[0]);
    assert(crate::text::string_views(parts@)[0] == parts@[0]@);
    r
}

impl IpAddressPool {
    pub closed spec fn wf(&self) -> bool {
        &&& self.network.wf()
        &&& 1 <= self.host_prefix <= addr_bits(self.network.is_v6)
    }

    /// Build a pool over `cidr`, handing out `/host_prefix` addresses (32
    /// when not given), with `reserve` reserved.
    pub fn new(cidr: &str, host_prefix: Option<u8>, reserve: &[String]) -> (res: Result<IpAddressPool, WgError>)
        ensures
            match cidr_parse(cidr@) {
                None => res matches Err(e) && e is InvalidCidr,
                Some((v6, addr, pl)) => {
                    let n = IpNetwork { is_v6: v6, addr, prefix_len: pl };
                    let hp = chosen_host_prefix(host_prefix);
                    if !(1 <= hp <= addr_bits(v6)) {
                        res matches Err(e) && e is Value
                    } else {
                        &&& res is Ok <==> forall|i: int| 0 <= i < reserve@.len() ==> (#[trigger] reserve_target(n, reserve@[i]@)) is Some
                        &&& match res {
                            Ok(p) => p.wf() && p@.network == n && p@.host_prefix == hp && p@.allocated.is_empty()
                                && p@.reserved == reserved_set(n, crate::text::string_views(reserve@)),
                            Err(e) => e is Value,
                        }
                    }
                },
            },
            match res {
                Ok(p) => p.wf() && spec_new_pool(cidr@, host_prefix, crate::text::string_views(reserve@))
                    == Ok::<PoolView, FailKind>(p@),
                Err(e) => spec_new_pool(cidr@, host_prefix, crate::text::string_views(reserve@))
                    == Err::<PoolView, FailKind>(e.kind()) && new_pool_error(
                    cidr@,
                    host_prefix,
                    crate::text::string_views(reserve@),
                    e.spec_message(),
                ),
            },
    {
        let network = match parse_cidr(cidr) {
            Ok(n) => n,
            Err(e) => {
                let mut msg = string_of(cidr);
                msg.append(": ");
                msg.append(e.as_str());
                return Err(WgError::InvalidCidr(msg));
            },
        };
        let max_prefix: u8 = if network.is_v6 {
            128
        } else {
            32
        };
        let hp: u8 = match host_prefix {
            Some(h) => h,
            None => 32,
        };
        if hp < 1 || hp > max_prefix {
            let mut msg = string_of("host_prefix must be between 1 and ");
            msg.append(dec_string(max_prefix as u64).as_str());
            return Err(WgError::Value(msg));
        }
        let mut pool = IpAddressPool {
            network,
            host_prefix: hp,
            allocated: HashSet::new(),
            reserved: HashSet::new(),
        };
        assert(pool@.allocated =~= Set::<u128>::empty());
        let mut i: usize = 0;
        let ghost rv = crate::text::string_views(reserve@);
        assert(pool@.reserved =~= reserved_set(network, rv.take(0)));
        while i < reserve.len()
            invariant
                i <= reserve.len(),
                rv == crate::text::string_views(reserve@),
                pool.wf(),
                pool@.network == network,
                network.wf(),
                cidr_parse(cidr@) == Some((network.is_v6, network.addr, network.prefix_len)),
                hp == chosen_host_prefix(host_prefix),
                1 <= hp <= addr_bits(network.is_v6),
                pool@.host_prefix == hp,
                pool@.allocated.is_empty(),
                pool@.reserved == reserved_set(network, rv.take(i as int)),
                forall|j: int| 0 <= j < i ==> (#[trigger] reserve_target(network, reserve@[j]@)) is Some,
            decreases reserve.len() - i,
        {
            assert(rv[i as int] == reserve@[i as int]@);
            let ghost before = pool@.reserved;
            match pool.reserve(reserve[i].as_str()) {
                Ok(_) => {},
                Err(e) => {
                    assert(reserve_target(network, reserve@[i as int]@) is None);
                    assert(cidr_parse(cidr@) == Some((network.is_v6, network.addr, network.prefix_len)));
                    assert(IpNetwork { is_v6: network.is_v6, addr: network.addr, prefix_len: network.prefix_len } == network);
                    assert(!(forall|j: int| 0 <= j < reserve@.len() ==> (#[trigger] reserve_target(network, reserve@[j]@)) is Some));
                    assert(first_bad_reserve(network, rv, i as int)) by {
                        assert forall|j: int| 0 <= j < i implies (#[trigger] reserve_target(network, rv[j])) is Some by {
                            assert(rv[j] == reserve@[j]@);
                        }
                    }
                    assert(e.spec_message() == reserve_error(network, rv[i as int]));
                    return Err(e);
                },
            }
            proof {
                let t = rv.take(i + 1);
                assert(t =~= rv.take(i as int).push(rv[i as int]));
                let a = reserve_target(network, rv[i as int]).unwrap();
                assert(pool@.reserved == before.insert(a));
                assert forall|b: u128| pool@.reserved.contains(b) <==> reserved_set(network, t).contains(b) by {
                    if b == a {
                        assert(t[i as int] == rv[i as int]);
                    } else if pool@.reserved.contains(b) {
                        assert(before.contains(b));
                        let j = choose|j: int| 0 <= j < rv.take(i as int).len() && #[trigger] reserve_target(network, rv.take(i as int)[j]) == Some(b);
                        assert(t[j] == rv.take(i as int)[j]);
                    } else if reserved_set(network, t).contains(b) {
                        let j = choose|j: int| 0 <= j < t.len() && #[trigger] reserve_target(network, t[j]) == Some(b);
                        assert(j != i);
                        assert(rv.take(i as int)[j] == t[j]);
                        assert(before.contains(b));
                    }
                }
                assert(pool@.reserved =~= reserved_set(network, t));
            }
            i = i + 1;
        }
        assert(rv.take(reserve.len() as int) =~= rv);
        Ok(pool)
    }

    /// Mark an address (its part before any `/`) as unavailable, e.g. a
    /// gateway with a static address. It must lie inside the network.
    pub fn reserve(&mut self, address: &str) -> (res: Result<(), WgError>)
        requires
            old(self).wf(),
        ensures
            final(self).wf(),
            final(self)@.network == old(self)@.network,
            final(self)@.host_prefix == old(self)@.host_prefix,
            final(self)@.allocated == old(self)@.allocated,
            match reserve_target(old(self)@.network, address@) {
                None => res matches Err(e) && e is Value && e.spec_message() == reserve_error(
                    old(self)@.network,
                    address@,
                ) && final(self)@.reserved == old(self)@.reserved,
                Some(a) => res is Ok && final(self)@.reserved == old(self)@.reserved.insert(a),
            },
    {
        let ip_str = address_part_of(address);
        let (v6, a) = match parse_ip(ip_str.as_str()) {
            Ok(x) => x,
            Err(e) => {
                let mut msg = string_of(address);
                msg.append(": ");
                msg.append(e.as_str());
                return Err(WgError::Value(msg));
            },
        };
        let (first, last) = network_bounds(&self.network);
        if !(v6 == self.network.is_v6 && first <= a && a <= last) {
            let mut msg = string_of(address);
            msg.append(" is not inside ");
            msg.append(network_text(&self.network).as_str());
            return Err(WgError::Value(msg));
        }
        self.reserved.insert(a);
        Ok(())
    }

    /// The lowest free address, now marked allocated; `None` when the
    /// network has no free address left.
    pub fn allocate_address(&mut self) -> (res: Option<u128>)
        requires
            old(self).wf(),
        ensures
            final(self).wf(),
            match res {
                Some(a) => old(self)@.is_first_free(a) && final(self)@ == (PoolView {
                    allocated: old(self)@.allocated.insert(a),
                    ..old(self)@
                }) && addr_wf(old(self)@.network.is_v6, a),
                None => old(self)@.exhausted() && final(self)@ == old(self)@,
            },
    {
        proof {
            lemma_network_bounds(self.network);
        }
        let (first, last) = network_bounds(&self.network);
        let small_v4 = !self.network.is_v6 && self.network.prefix_len < 31;
        let lo: u128 = if small_v4 {
            first + 1
        } else {
            first
        };
        let hi: u128 = if small_v4 {
            last - 1
        } else {
            last
        };
        assert(lo == self@.network.host_lo() && hi == self@.network.host_hi());
        let mut ip: u128 = lo;
        loop
            invariant
                self.wf(),
                self@ == old(self)@,
                lo == self@.network.host_lo(),
                hi == self@.network.host_hi(),
                lo <= hi,
                lo <= ip <= hi,
                hi < two_pow(addr_bits(self@.network.is_v6)),
                forall|b: u128| lo <= b < ip ==> !(#[trigger] self@.is_free(b)),
            decreases hi - ip,
        {
            let taken = self.reserved.contains(&ip) || self.allocated.contains(&ip);
            if !taken {
                self.allocated.insert(ip);
                return Some(ip);
            }
            if ip == hi {
                return None;
            }
            ip = ip + 1;
        }
    }

    /// Return the next free address as text, e.g. `10.10.0.5/32`.
    pub fn allocate(&mut self) -> (res: Result<String, WgError>)
        requires
            old(self).wf(),
        ensures
            final(self).wf(),
            match res {
                Ok(s) => exists|a: u128| old(self)@.is_first_free(a) && #[trigger] allocation_text(old(self)@, a) == s@
                    && final(self)@ == (PoolView { allocated: old(self)@.allocated.insert(a), ..old(self)@ })
                    && ip_parse(address_part(s@)) == Some((old(self)@.network.is_v6, a))
                    && (!old(self)@.network.is_v6 ==> s@ == dotted_quad(a) + "/"@ + dec(
                    old(self)@.host_prefix as nat,
                )),
                Err(e) => old(self)@.exhausted() && final(self)@ == old(self)@ && e is PoolExhausted
                    && e.spec_message() == "IP pool for "@ + network_display(old(self)@.network)
                    + " is exhausted"@,
            },
    {
        match self.allocate_address() {
            Some(a) => {
                let mut s = ip_text(self.network.is_v6, a);
                s.append("/");
                s.append(dec_string(self.host_prefix as u64).as_str());
                assert(allocation_text(old(self)@, a) == s@);
                proof {
                    lemma_address_part(
                        ip_display(self.network.is_v6, a),
                        dec(self.host_prefix as nat),
                    );
                }
                Ok(s)
            },
            None => {
                let mut msg = string_of("IP pool for ");
                msg.append(network_text(&self.network).as_str());
                msg.append(" is exhausted");
                Err(WgError::PoolExhausted(msg))
            },
        }
    }

    /// Free up a previously allocated address so it can be handed out again.
    pub fn release(&mut self, address: &str)
        requires
            old(self).wf(),
        ensures
            final(self).wf(),
            final(self)@ == released(old(self)@, address@),
    {
        let ip_str = address_part_of(address);
        if let Ok((v6, a)) = parse_ip(ip_str.as_str()) {
            if v6 == self.network.is_v6 {
                self.allocated.remove(&a);
            }
        }
    }

    /// A one-line summary: the network, and used / total addresses (the
    /// total counts the network and broadcast addresses too).
    pub fn describe(&self) -> (res: String)
        requires
            self.wf(),
            !(self@.network.is_v6 && self@.network.prefix_len == 0),
        ensures
            res@ == "IpAddressPool("@ + network_display(self@.network) + ", "@ + dec(
                (self@.allocated.len() + self@.reserved.len()) as nat,
            ) + "/"@ + dec(self@.network.size()) + " used)"@,
    {
        proof {
            lemma_network_bounds(self.network);
            lemma_two_pow_128();
            lemma_two_pow_32();
        }
        let used: u128 = self.allocated.len() as u128 + self.reserved.len() as u128;
        proof {
            if self.network.prefix_len >= 1 {
                crate::ip::lemma_network_size_half(self.network);
            }
        }
        let (first, last) = network_bounds(&self.network);
        let total: u128 = last - first + 1;
        let mut s = string_of("IpAddressPool(");
        s.append(network_text(&self.network).as_str());
        s.append(", ");
        s.append(dec_string_u128(used).as_str());
        s.append("/");
        s.append(dec_string_u128(total).as_str());
        s.append(" used)");
        s
    }

    /// The network as text.
    pub fn network_str(&self) -> (res: String)
        requires
            self.wf(),
        ensures
            res@ == network_display(self@.network),
    {
        network_text(&self.network)
    }
}

// ---------------------------------------------------------------------
// Laws
// ---------------------------------------------------------------------

/// The pool after `allocate` handed out `a`.
pub open spec fn after_allocate(p: PoolView, a: u128) -> PoolView {
    PoolView { allocated: p.allocated.insert(a), ..p }
}

/// The pool after `release` took `a` back.
pub open spec fn after_release(p: PoolView, a: u128) -> PoolView {
    PoolView { allocated: p.allocated.remove(a), ..p }
}

/// An address `allocate` hands out lies in the network's host range and
/// is neither reserved nor handed out already; the next one handed out is
/// a different, higher address.
pub proof fn lemma_allocations_distinct(p: PoolView, a: u128, b: u128)
    requires
        p.is_first_free(a),
        after_allocate(p, a).is_first_free(b),
    ensures
        p.network.host_lo() <= a <= p.network.host_hi(),
        !p.reserved.contains(a),
        !p.allocated.contains(a),
        a < b,
        !p.reserved.contains(b),
{
    assert(p.is_free(b));
    if b < a {
        assert(!p.is_free(b));
    }
}

/// Releasing the address just handed out gives back the pool as it was,
/// so the next allocation hands out that address again.
pub proof fn lemma_release_undoes_allocate(p: PoolView, a: u128)
    requires
        p.is_first_free(a),
    ensures
        after_release(after_allocate(p, a), a) == p,
        after_release(after_allocate(p, a), a).is_first_free(a),
{
    assert(p.allocated.insert(a).remove(a) =~= p.allocated);
}

/// Releasing the text that `allocate` handed out gives back the pool as it
/// was, so the next allocation hands out the same address again.
pub proof fn lemma_release_text_undoes_allocate(p: PoolView, a: u128, text: Seq<char>)
    requires
        p.is_first_free(a),
        ip_parse(address_part(text)) == Some((p.network.is_v6, a)),
    ensures
        released(after_allocate(p, a), text) == p,
        released(after_allocate(p, a), text).is_first_free(a),
{
    lemma_release_undoes_allocate(p, a);
}

/// `release` only ever hands addresses back: the network, the host prefix
/// and the reserved addresses stay, nothing is added, and releasing an
/// address that is not handed out (or a text that names none) changes
/// nothing.
pub proof fn lemma_release_only_frees(p: PoolView, text: Seq<char>)
    ensures
        released(p, text).network == p.network,
        released(p, text).host_prefix == p.host_prefix,
        released(p, text).reserved == p.reserved,
        released(p, text).allocated.subset_of(p.allocated),
        (match ip_parse(address_part(text)) {
            Some((v6, a)) => !p.allocated.contains(a),
            None => true,
        }) ==> released(p, text) == p,
{
    if let Some((v6, a)) = ip_parse(address_part(text)) {
        if !p.allocated.contains(a) {
            assert(p.allocated.remove(a) =~= p.allocated);
        }
    }
}

/// A released address inside the host range that is not reserved is free
/// again.
pub proof fn lemma_release_frees(p: PoolView, a: u128)
    requires
        p.network.host_lo() <= a <= p.network.host_hi(),
        !p.reserved.contains(a),
    ensures
        after_release(p, a).is_free(a),
{
}

} // verus!
