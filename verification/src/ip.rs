//! IP addresses and networks as plain values: a family flag, the address as
//! an integer, and a prefix length. Parsing and display go through `ipnet`
//! and the standard library; the arithmetic of a network's bounds is
//! stated and computed here.
use vstd::prelude::*;

use crate::text::{dec, dec_string, string_of};

verus! {

/// An IPv4 or IPv6 network in CIDR form: the address exactly as written
/// (host bits included) and the prefix length.
#[derive(Debug, Clone, Copy, PartialEq, Eq)]
pub struct IpNetwork {
    pub is_v6: bool,
    pub addr: u128,
    pub prefix_len: u8,
}

/// Number of bits of an address of the family.
pub open spec fn addr_bits(is_v6: bool) -> nat {
    if is_v6 {
        128
    } else {
        32
    }
}

pub open spec fn two_pow(n: nat) -> nat
    decreases n,
{
    if n == 0 {
        1
    } else {
        2 * two_pow((n - 1) as nat)
    }
}

/// A well-formed address of the family.
pub open spec fn addr_wf(is_v6: bool, addr: u128) -> bool {
    addr < two_pow(addr_bits(is_v6))
}

impl IpNetwork {
    pub open spec fn wf(self) -> bool {
        &&& addr_wf(self.is_v6, self.addr)
        &&& self.prefix_len <= addr_bits(self.is_v6)
    }

    /// Number of addresses the network spans.
    pub open spec fn size(self) -> nat {
        two_pow((addr_bits(self.is_v6) - self.prefix_len) as nat)
    }

    /// The network address: the address with its host bits cleared.
    pub open spec fn first(self) -> int {
        (self.addr as int / self.size() as int) * self.size()
    }

    /// The broadcast address: the address with its host bits set.
    pub open spec fn last(self) -> int {
        self.first() + self.size() - 1
    }

    /// `contains` for an address: same family and between the network and
    /// the broadcast address.
    pub open spec fn contains(self, is_v6: bool, a: int) -> bool {
        is_v6 == self.is_v6 && self.first() <= a <= self.last()
    }

    /// Bounds of the addresses `hosts()` walks: an IPv4 network shorter
    /// than /31 leaves out its network and broadcast address.
    pub open spec fn host_lo(self) -> int {
        if !self.is_v6 && self.prefix_len < 31 {
            self.first() + 1
        } else {
            self.first()
        }
    }

    pub open spec fn host_hi(self) -> int {
        if !self.is_v6 && self.prefix_len < 31 {
            self.last() - 1
        } else {
            self.last()
        }
    }
}

pub proof fn lemma_two_pow_pos(n: nat)
    ensures
        two_pow(n) >= 1,
    decreases n,
{
    if n > 0 {
        lemma_two_pow_pos((n - 1) as nat);
    }
}

pub proof fn lemma_two_pow_add(a: nat, b: nat)
    ensures
        two_pow(a + b) == two_pow(a) * two_pow(b),
    decreases a,
{
    if a > 0 {
        lemma_two_pow_add((a - 1) as nat, b);
        assert(two_pow(a + b) == 2 * two_pow((a - 1 + b) as nat));
        assert(2 * (two_pow((a - 1) as nat) * two_pow(b)) == (2 * two_pow((a - 1) as nat))
            * two_pow(b)) by (nonlinear_arith);
        assert(two_pow(a) == 2 * two_pow((a - 1) as nat));
    } else {
        assert(two_pow(0) == 1);
        assert(a + b == b);
    }
}

pub proof fn lemma_two_pow_128()
    ensures
        two_pow(128) == 0x1_0000_0000_0000_0000_0000_0000_0000_0000,
{
    reveal_with_fuel(two_pow, 9);
    assert(two_pow(8) == 256);
    lemma_two_pow_add(8, 8);
    assert(two_pow(16) == 65536);
    lemma_two_pow_add(16, 16);
    assert(two_pow(32) == 0x1_0000_0000);
    lemma_two_pow_add(32, 32);
    assert(two_pow(64) == 0x1_0000_0000_0000_0000);
    lemma_two_pow_add(64, 64);
    assert(0x1_0000_0000_0000_0000 * 0x1_0000_0000_0000_0000 == 0x1_0000_0000_0000_0000_0000_0000_0000_0000int);
}

pub proof fn lemma_two_pow_32()
    ensures
        two_pow(32) == 0x1_0000_0000,
{
    reveal_with_fuel(two_pow, 9);
    assert(two_pow(8) == 256);
    lemma_two_pow_add(8, 8);
    assert(two_pow(16) == 65536);
    lemma_two_pow_add(16, 16);
}

proof fn lemma_block_bounds(a: int, b: int, m: int)
    requires
        b >= 1,
        m >= 1,
        0 <= a < b * m,
    ensures
        (a / b) * b <= a < (a / b) * b + b,
        (a / b) * b + b <= b * m,
        0 <= (a / b) * b,
{
    assert((a / b) * b <= a < (a / b) * b + b && 0 <= (a / b) * b) by (nonlinear_arith)
        requires
            b >= 1,
            0 <= a,
    ;
    assert((a / b) < m) by (nonlinear_arith)
        requires
            b >= 1,
            (a / b) * b <= a,
            a < b * m,
    ;
    assert((a / b) * b + b <= b * m) by (nonlinear_arith)
        requires
            b >= 1,
            (a / b) < m,
    ;
}

/// The bounds of a well-formed network lie inside the address space and
/// around its address.
pub proof fn lemma_network_bounds(n: IpNetwork)
    requires
        n.wf(),
    ensures
        n.size() >= 1,
        0 <= n.first() <= n.addr <= n.last() < two_pow(addr_bits(n.is_v6)),
        n.last() - n.first() + 1 == n.size(),
        !n.is_v6 && n.prefix_len < 31 ==> n.size() >= 4,
{
    let h = (addr_bits(n.is_v6) - n.prefix_len) as nat;
    lemma_two_pow_add(h, n.prefix_len as nat);
    lemma_two_pow_pos(h);
    lemma_two_pow_pos(n.prefix_len as nat);
    lemma_block_bounds(n.addr as int, n.size() as int, two_pow(n.prefix_len as nat) as int);
    if !n.is_v6 && n.prefix_len < 31 {
        lemma_two_pow_add(2, (h - 2) as nat);
        lemma_two_pow_pos((h - 2) as nat);
        assert(two_pow(2) == 4) by {
            reveal_with_fuel(two_pow, 3);
        }
        assert(4 * two_pow((h - 2) as nat) >= 4) by (nonlinear_arith)
            requires
                two_pow((h - 2) as nat) >= 1,
        ;
    }
}

/// A network with a prefix spans at most half of its address space.
pub proof fn lemma_network_size_half(n: IpNetwork)
    requires
        n.wf(),
        n.prefix_len >= 1,
    ensures
        n.size() * 2 <= two_pow(addr_bits(n.is_v6)),
{
    let h = (addr_bits(n.is_v6) - n.prefix_len) as nat;
    lemma_two_pow_add(h, n.prefix_len as nat);
    lemma_two_pow_add(1, (n.prefix_len - 1) as nat);
    lemma_two_pow_pos((n.prefix_len - 1) as nat);
    lemma_two_pow_pos(h);
    reveal_with_fuel(two_pow, 2);
    assert(two_pow(h) * two_pow(n.prefix_len as nat) >= two_pow(h) * 2) by (nonlinear_arith)
        requires
            two_pow(n.prefix_len as nat) == 2 * two_pow((n.prefix_len - 1) as nat),
            two_pow((n.prefix_len - 1) as nat) >= 1,
            two_pow(h) >= 1,
    ;
}

/// `(first, last)` of a well-formed network.
pub fn network_bounds(n: &IpNetwork) -> (res: (u128, u128))
    requires
        n.wf(),
    ensures
        res.0 == n.first(),
        res.1 == n.last(),
{
    proof {
        lemma_network_bounds(*n);
    }
    let bits: u8 = if n.is_v6 {
        128
    } else {
        32
    };
    let h: u8 = bits - n.prefix_len;
    proof {
        lemma_two_pow_128();
        lemma_two_pow_32();
    }
    if h == 128 {
        assert(n.size() == two_pow(128));
        assert(n.addr as int / n.size() as int == 0) by (nonlinear_arith)
            requires
                0 <= n.addr < n.size(),
        ;
        return (0, u128::MAX);
    }
    let mut block: u128 = 1;
    let mut k: u8 = 0;
    while k < h
        invariant
            k <= h < 128,
            block == two_pow(k as nat),
        decreases h - k,
    {
        proof {
            lemma_two_pow_add(k as nat, (h - k) as nat);
            lemma_two_pow_add(1, (h - k - 1) as nat);
            lemma_two_pow_pos((h - k - 1) as nat);
            lemma_two_pow_add(h as nat, (128 - h) as nat);
            lemma_two_pow_pos((128 - h) as nat);
            reveal_with_fuel(two_pow, 2);
            lemma_two_pow_128();
            assert(two_pow(k as nat) * two_pow((h - k) as nat) == two_pow(h as nat));
            assert(two_pow((h - k) as nat) >= 2) by (nonlinear_arith)
                requires
                    two_pow((h - k) as nat) == 2 * two_pow((h - k - 1) as nat),
                    two_pow((h - k - 1) as nat) >= 1,
            ;
            assert(two_pow(h as nat) < two_pow(128)) by (nonlinear_arith)
                requires
                    two_pow(128) == two_pow(h as nat) * two_pow((128 - h) as nat),
                    two_pow((128 - h) as nat) >= 2,
                    two_pow(h as nat) >= 1,
            ;
            assert(block * 2 <= two_pow(h as nat)) by (nonlinear_arith)
                requires
                    block * two_pow((h - k) as nat) == two_pow(h as nat),
                    two_pow((h - k) as nat) >= 2,
                    block >= 0,
            ;
        }
        block = block * 2;
        k = k + 1;
    }
    let first = (n.addr / block) * block;
    let last = first + (block - 1);
    (first, last)
}

/// Name for what `ipnet::IpNet::from_str` reads a text as: family,
/// address and prefix length.
pub uninterp spec fn cidr_parse(text: Seq<char>) -> Option<(bool, u128, u8)>;

/// Name for what `core::net::IpAddr::from_str` reads a text as: family and
/// address.
pub uninterp spec fn ip_parse(text: Seq<char>) -> Option<(bool, u128)>;

/// Name for the text `Display` of `core::net::IpAddr` writes for an address.
pub uninterp spec fn ip_display(is_v6: bool, addr: u128) -> Seq<char>;

/// Dotted-quad text of an IPv4 address.
pub open spec fn dotted_quad(addr: u128) -> Seq<char> {
    let a = addr as nat;
    dec((a / 0x100_0000) % 256) + "."@ + dec((a / 0x1_0000) % 256) + "."@ + dec((a / 0x100)
        % 256) + "."@ + dec(a % 256)
}

/// A character of an address or network text: a hexadecimal digit, `.`,
/// `:` or `/`.
pub open spec fn is_address_char(c: char) -> bool {
    ||| ('0' <= c && c <= '9')
    ||| ('a' <= c && c <= 'f')
    ||| ('A' <= c && c <= 'F')
    ||| c == '.'
    ||| c == ':'
    ||| c == '/'
}

/// A non-empty text made of address characters only.
pub open spec fn address_text(s: Seq<char>) -> bool {
    s.len() > 0 && forall|i: int| 0 <= i < s.len() ==> is_address_char(#[trigger] s[i])
}

/// Calls `str::parse::<ipnet::IpNet>`. Trusted: the result is the named
/// reading of `text`, converted to plain values; `ipnet` only accepts
/// prefix lengths up to 32 (IPv4) or 128 (IPv6), and its parser consumes
/// the whole text with readers of decimal and hexadecimal digits, `.`, `:`
/// and `/`, so an accepted text is made of those; its `AddrParseError`
/// always reads `invalid IP address syntax`.
#[verifier::external_body]
pub fn parse_cidr(text: &str) -> (res: Result<IpNetwork, String>)
    ensures
        match res {
            Ok(n) => cidr_parse(text@) == Some((n.is_v6, n.addr, n.prefix_len)) && n.wf(),
            Err(m) => cidr_parse(text@).is_none() && m@ == "invalid IP address syntax"@,
        },
        res is Ok ==> address_text(text@),
{
    match text.parse::<ipnet::IpNet>() {
        Ok(ipnet::IpNet::V4(n)) => Ok(
            IpNetwork { is_v6: false, addr: u32::from(n.addr()) as u128, prefix_len: n.prefix_len() },
        ),
        Ok(ipnet::IpNet::V6(n)) => Ok(
            IpNetwork { is_v6: true, addr: u128::from(n.addr()), prefix_len: n.prefix_len() },
        ),
        Err(e) => Err(e.to_string()),
    }
}

/// Name for the text of the error `core::net::IpAddr::from_str` gives for
/// a text it refuses.
pub uninterp spec fn ip_parse_error(text: Seq<char>) -> Seq<char>;

/// Calls `str::parse::<std::net::IpAddr>`. Trusted: the result is the named
/// reading of `text`, converted to plain values, and a refusal is the
/// named text of std's `AddrParseError` (which depends on `text` alone);
/// an IPv4 address fits in 32 bits; an accepted text is an address in
/// dot-decimal or hexadecimal colon notation, so it is made of digits, `.`
/// and `:`.
#[verifier::external_body]
pub fn parse_ip(text: &str) -> (res: Result<(bool, u128), String>)
    ensures
        match res {
            Ok(a) => ip_parse(text@) == Some(a) && addr_wf(a.0, a.1),
            Err(m) => ip_parse(text@).is_none() && m@ == ip_parse_error(text@),
        },
        res is Ok ==> address_text(text@),
{
    match text.parse::<core::net::IpAddr>() {
        Ok(core::net::IpAddr::V4(a)) => Ok((false, u32::from(a) as u128)),
        Ok(core::net::IpAddr::V6(a)) => Ok((true, u128::from(a))),
        Err(e) => Err(e.to_string()),
    }
}

/// Calls `Display` of `core::net::IpAddr`. Trusted: the result is the named
/// text of the address; an IPv4 address is written as a dotted quad, an
/// IPv6 address in the RFC 5952 form, so the text holds no `/` and std's
/// address parser reads it back as the same address.
#[verifier::external_body]
pub fn ip_text(is_v6: bool, addr: u128) -> (res: String)
    requires
        addr_wf(is_v6, addr),
    ensures
        res@ == ip_display(is_v6, addr),
        !is_v6 ==> res@ == dotted_quad(addr),
        ip_parse(res@) == Some((is_v6, addr)),
        !res@.contains('/'),
{
    if is_v6 {
        core::net::Ipv6Addr::from(addr).to_string()
    } else {
        core::net::Ipv4Addr::from(addr as u32).to_string()
    }
}

/// Text of a network as `ipnet` writes it: address, `/`, prefix length.
pub open spec fn network_display(n: IpNetwork) -> Seq<char> {
    ip_display(n.is_v6, n.addr) + "/"@ + dec(n.prefix_len as nat)
}

pub fn network_text(n: &IpNetwork) -> (res: String)
    requires
        n.wf(),
    ensures
        res@ == network_display(*n),
{
    let mut s = ip_text(n.is_v6, n.addr);
    s.append("/");
    s.append(dec_string(n.prefix_len as u64).as_str());
    s
}

/// What `parse_ip_or_network` reads a text as: a CIDR network, or else a
/// bare address taken as a single-address network.
pub open spec fn spec_ip_or_network(text: Seq<char>) -> Option<IpNetwork> {
    match cidr_parse(text) {
        Some((v6, a, p)) => Some(IpNetwork { is_v6: v6, addr: a, prefix_len: p }),
        None => match ip_parse(text) {
            Some((v6, a)) => Some(
                IpNetwork { is_v6: v6, addr: a, prefix_len: if v6 {
                    128u8
                } else {
                    32u8
                } },
            ),
            None => None,
        },
    }
}

/// Parse either a bare IP address or a full CIDR network string; the error
/// is the text of the address parser's error.
pub fn parse_ip_or_network(v: &str) -> (res: Result<IpNetwork, String>)
    ensures
        match res {
            Ok(n) => spec_ip_or_network(v@) == Some(n) && n.wf() && address_text(v@),
            Err(m) => spec_ip_or_network(v@).is_none() && m@ == ip_parse_error(v@),
        },
{
    match parse_cidr(v) {
        Ok(n) => Ok(n),
        Err(_) => match parse_ip(v) {
            Ok((v6, a)) => {
                let n = IpNetwork {
                    is_v6: v6,
                    addr: a,
                    prefix_len: if v6 {
                        128
                    } else {
                        32
                    },
                };
                Ok(n)
            },
            Err(m) => Err(m),
        },
    }
}

} // verus!
