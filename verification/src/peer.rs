//! One `[Peer]` entry of a WireGuard configuration.
use vstd::prelude::*;

use crate::error::WgError;
use crate::keys::{cidr_list_ok, decodes_to_key, validate_cidr_list, validate_key};
use crate::text::{
    clone_opt_string, clone_strings, dec, dec_string, join, join_strs, opt_view, string_clone,
    string_of, string_views,
};

verus! {

/// One `[Peer]` block, as it will appear inside *someone else's* config.
#[derive(Debug, Clone, PartialEq, Eq)]
pub struct Peer {
    pub public_key: String,
    pub allowed_ips: Vec<String>,
    /// `host:port`
    pub endpoint: Option<String>,
    pub persistent_keepalive: Option<u32>,
    pub preshared_key: Option<String>,
    /// e.g. `Office - Berlin`
    pub comment: Option<String>,
}

impl Default for Peer {
    /// A peer with every field empty or unset.
    fn default() -> (res: Peer)
        ensures
            res@ == (PeerView {
                public_key: Seq::empty(),
                allowed_ips: Seq::empty(),
                endpoint: None,
                persistent_keepalive: None,
                preshared_key: None,
                comment: None,
            }),
    {
        let res = Peer {
            public_key: String::new(),
            allowed_ips: Vec::new(),
            endpoint: None,
            persistent_keepalive: None,
            preshared_key: None,
            comment: None,
        };
        assert(res@ =~= (PeerView {
            public_key: Seq::empty(),
            allowed_ips: Seq::empty(),
            endpoint: None,
            persistent_keepalive: None,
            preshared_key: None,
            comment: None,
        }));
        res
    }
}

/// A peer's fields as text.
#[verifier::ext_equal]
pub struct PeerView {
    pub public_key: Seq<char>,
    pub allowed_ips: Seq<Seq<char>>,
    pub endpoint: Option<Seq<char>>,
    pub persistent_keepalive: Option<u32>,
    pub preshared_key: Option<Seq<char>>,
    pub comment: Option<Seq<char>>,
}

impl View for Peer {
    type V = PeerView;

    open spec fn view(&self) -> PeerView {
        PeerView {
            public_key: self.public_key@,
            allowed_ips: string_views(self.allowed_ips@),
            endpoint: opt_view(self.endpoint),
            persistent_keepalive: self.persistent_keepalive,
            preshared_key: opt_view(self.preshared_key),
            comment: opt_view(self.comment),
        }
    }
}

/// What `Peer::build` checks: the public key (and the pre-shared key, when
/// there is one) is a 32-byte base64 key, and every allowed IP is an
/// address or a network.
pub open spec fn peer_fields_ok(
    public_key: Seq<char>,
    allowed_ips: Seq<Seq<char>>,
    preshared_key: Option<Seq<char>>,
) -> bool {
    &&& decodes_to_key(public_key)
    &&& (preshared_key matches Some(k) ==> decodes_to_key(k))
    &&& cidr_list_ok(allowed_ips)
}

impl PeerView {
    pub open spec fn valid(self) -> bool {
        peer_fields_ok(self.public_key, self.allowed_ips, self.preshared_key)
    }
}

/// The lines of a rendered `[Peer]` block.
pub open spec fn peer_lines(p: PeerView) -> Seq<Seq<char>> {
    let comment = match p.comment {
        Some(c) => seq!["# "@ + c],
        None => Seq::empty(),
    };
    let psk = match p.preshared_key {
        Some(k) => seq!["PresharedKey = "@ + k],
        None => Seq::empty(),
    };
    let ips = if p.allowed_ips.len() > 0 {
        seq!["AllowedIPs = "@ + join(p.allowed_ips, ", "@)]
    } else {
        Seq::empty()
    };
    let ep = match p.endpoint {
        Some(e) => seq!["Endpoint = "@ + e],
        None => Seq::empty(),
    };
    let ka = match p.persistent_keepalive {
        Some(k) => seq!["PersistentKeepalive = "@ + dec(k as nat)],
        None => Seq::empty(),
    };
    comment + seq!["[Peer]"@, "PublicKey = "@ + p.public_key] + psk + ips + ep + ka
}

/// The text of a rendered `[Peer]` block.
pub open spec fn peer_config(p: PeerView) -> Seq<char> {
    join(peer_lines(p), "\n"@)
}

fn prefixed(prefix: &str, value: &str) -> (res: String)
    ensures
        res@ == prefix@ + value@,
{
    let mut s = string_of(prefix);
    s.append(value);
    s
}

fn push_line(lines: &mut Vec<String>, line: String)
    ensures
        string_views(final(lines)@) == string_views(old(lines)@).push(line@),
{
    lines.push(line);
    assert(string_views(lines@) =~= string_views(old(lines)@).push(line@));
}

impl Peer {
    /// A copy with the same fields.
    pub fn duplicate(&self) -> (res: Peer)
        ensures
            res@ == self@,
    {
        Peer {
            public_key: string_clone(&self.public_key),
            allowed_ips: clone_strings(self.allowed_ips.as_slice()),
            endpoint: clone_opt_string(&self.endpoint),
            persistent_keepalive: self.persistent_keepalive,
            preshared_key: clone_opt_string(&self.preshared_key),
            comment: clone_opt_string(&self.comment),
        }
    }

    /// A peer with just a (validated) public key.
    pub fn new(public_key: &str) -> (res: Result<Peer, WgError>)
        ensures
            res is Ok <==> decodes_to_key(public_key@),
            match res {
                Ok(p) => p@ == (PeerView {
                    public_key: public_key@,
                    allowed_ips: Seq::empty(),
                    endpoint: None,
                    persistent_keepalive: None,
                    preshared_key: None,
                    comment: None,
                }),
                Err(e) => e is InvalidKey,
            },
    {
        let public_key = validate_key(public_key, "Peer.public_key")?;
        let p = Peer {
            public_key,
            allowed_ips: Vec::new(),
            endpoint: None,
            persistent_keepalive: None,
            preshared_key: None,
            comment: None,
        };
        assert(p@.allowed_ips =~= Seq::<Seq<char>>::empty());
        Ok(p)
    }

    pub fn with_allowed_ips(self, allowed_ips: Vec<String>) -> (res: Result<Peer, WgError>)
        ensures
            res is Ok <==> cidr_list_ok(string_views(allowed_ips@)),
            match res {
                Ok(p) => p@ == (PeerView { allowed_ips: string_views(allowed_ips@), ..self@ }),
                Err(e) => e is InvalidCidr,
            },
    {
        validate_cidr_list(allowed_ips.as_slice(), "Peer.allowed_ips")?;
        let mut s = self;
        s.allowed_ips = allowed_ips;
        Ok(s)
    }

    pub fn with_endpoint(self, endpoint: Option<String>) -> (res: Peer)
        ensures
            res@ == (PeerView { endpoint: opt_view(endpoint), ..self@ }),
    {
        let mut s = self;
        s.endpoint = endpoint;
        s
    }

    pub fn with_persistent_keepalive(self, keepalive: Option<u32>) -> (res: Peer)
        ensures
            res@ == (PeerView { persistent_keepalive: keepalive, ..self@ }),
    {
        let mut s = self;
        s.persistent_keepalive = keepalive;
        s
    }

    pub fn with_preshared_key(self, psk: Option<String>) -> (res: Result<Peer, WgError>)
        ensures
            res is Ok <==> (opt_view(psk) matches Some(k) ==> decodes_to_key(k)),
            match res {
                Ok(p) => p@ == (PeerView { preshared_key: opt_view(psk), ..self@ }),
                Err(e) => e is InvalidKey,
            },
    {
        if let Some(k) = &psk {
            validate_key(k.as_str(), "Peer.preshared_key")?;
        }
        let mut s = self;
        s.preshared_key = psk;
        Ok(s)
    }

    pub fn with_comment(self, comment: Option<String>) -> (res: Peer)
        ensures
            res@ == (PeerView { comment: opt_view(comment), ..self@ }),
    {
        let mut s = self;
        s.comment = comment;
        s
    }

    /// Full constructor: all fields validated together. The public key is
    /// checked first, then the pre-shared key, then the allowed IPs.
    pub fn build(
        public_key: &str,
        allowed_ips: Vec<String>,
        endpoint: Option<String>,
        persistent_keepalive: Option<u32>,
        preshared_key: Option<String>,
        comment: Option<String>,
    ) -> (res: Result<Peer, WgError>)
        ensures
            res is Ok <==> peer_fields_ok(
                public_key@,
                string_views(allowed_ips@),
                opt_view(preshared_key),
            ),
            match res {
                Ok(p) => p@ == PeerView {
                    public_key: public_key@,
                    allowed_ips: string_views(allowed_ips@),
                    endpoint: opt_view(endpoint),
                    persistent_keepalive,
                    preshared_key: opt_view(preshared_key),
                    comment: opt_view(comment),
                },
                Err(e) => if !decodes_to_key(public_key@) {
                    e is InvalidKey
                } else if opt_view(preshared_key) matches Some(k) && !decodes_to_key(k) {
                    e is InvalidKey
                } else {
                    e is InvalidCidr
                },
            },
    {
        let public_key = validate_key(public_key, "Peer.public_key")?;
        if let Some(k) = &preshared_key {
            validate_key(k.as_str(), "Peer.preshared_key")?;
        }
        if allowed_ips.len() != 0 {
            validate_cidr_list(allowed_ips.as_slice(), "Peer.allowed_ips")?;
        }
        Ok(
            Peer {
                public_key,
                allowed_ips,
                endpoint,
                persistent_keepalive,
                preshared_key,
                comment,
            },
        )
    }

    /// The lines of this peer's `[Peer]` block.
    pub fn config_lines(&self) -> (res: Vec<String>)
        ensures
            string_views(res@) == peer_lines(self@),
    {
        let mut lines: Vec<String> = Vec::new();
        if let Some(c) = &self.comment {
            push_line(&mut lines, prefixed("# ", c.as_str()));
        }
        push_line(&mut lines, string_of("[Peer]"));
        push_line(&mut lines, prefixed("PublicKey = ", self.public_key.as_str()));
        if let Some(k) = &self.preshared_key {
            push_line(&mut lines, prefixed("PresharedKey = ", k.as_str()));
        }
        if self.allowed_ips.len() != 0 {
            let joined = join_strs(&self.allowed_ips, ", ");
            push_line(&mut lines, prefixed("AllowedIPs = ", joined.as_str()));
        }
        if let Some(e) = &self.endpoint {
            push_line(&mut lines, prefixed("Endpoint = ", e.as_str()));
        }
        if let Some(k) = self.persistent_keepalive {
            push_line(&mut lines, prefixed("PersistentKeepalive = ", dec_string(k as u64).as_str()));
        }
        assert(string_views(lines@) =~= peer_lines(self@));
        lines
    }

    /// This peer's `[Peer]` block, lines joined by line feeds.
    pub fn to_config(&self) -> (res: String)
        ensures
            res@ == peer_config(self@),
    {
        let lines = self.config_lines();
        join_strs(&lines, "\n")
    }
}

} // verus!
