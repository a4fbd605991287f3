//! The whole `.conf` text of a host reads back as that host: the lines of
//! the text, how they fall into sections, and the law that ties
//! `WireGuardHost::to_config` to `load_host_from_config`.
use vstd::prelude::*;

use crate::dict::host_options_of;
use crate::error::FailKind;
use crate::host::{
    OptionsView, bool_text, full_config, host_keys_ok, interface_config, interface_lines, list_line, num_line,
    opt_line, opt_nat16, opt_nat32, peer_parts, peers_valid, prefixed_all, HostView,
};
use crate::parse::{
    doc_fold, doc_step, is_section_header, kv_pairs, no_options, scan_lines, scan_step,
    section_name, sections, spec_load_host, DocAcc, ScanState,
};
use crate::peer::{peer_config, peer_lines, PeerView};
use crate::roundtrip::{
    iface_rest, lemma_iface_rest_options, clean_interface, clean_peer, clean_value, clean_values, fw_mark_lines, iface_body,
    lemma_comment_line, lemma_iface_options, lemma_interface_keys, lemma_interface_lines_split,
    lemma_join_append, lemma_kv_line, lemma_kv_pairs_append, lemma_lines_of_text,
    lemma_list_value_clean, lemma_lower, lemma_parse_dec, lemma_peer_fields, lemma_peer_keys,
    lemma_peer_lines_split, lemma_trim_clean, line_key, no_line_break, peer_body,
    save_config_lines,
};
use crate::text::{dec, join, lines};

verus! {

// ---------------------------------------------------------------------
// Plain lines
// ---------------------------------------------------------------------

/// A line that opens no section and holds no line break.
pub open spec fn plain_line(l: Seq<char>) -> bool {
    !is_section_header(l) && no_line_break(l)
}

pub open spec fn plain_lines(ls: Seq<Seq<char>>) -> bool {
    forall|i: int| 0 <= i < ls.len() ==> plain_line(#[trigger] ls[i])
}

pub proof fn lemma_plain_append(a: Seq<Seq<char>>, b: Seq<Seq<char>>)
    requires
        plain_lines(a),
        plain_lines(b),
    ensures
        plain_lines(a + b),
{
    assert forall|i: int| 0 <= i < (a + b).len() implies plain_line(#[trigger] (a + b)[i]) by {
        if i < a.len() {
            assert((a + b)[i] == a[i]);
        } else {
            assert((a + b)[i] == b[i - a.len()]);
        }
    }
}

proof fn lemma_plain_pair(k: Seq<char>, v: Seq<char>)
    requires
        line_key(k),
        clean_value(v),
    ensures
        plain_lines(seq![k + " = "@ + v]),
{
    lemma_kv_line(k, v);
    assert(seq![k + " = "@ + v][0] == k + " = "@ + v);
}

proof fn lemma_plain_each(k: Seq<char>, items: Seq<Seq<char>>)
    requires
        line_key(k),
        clean_values(items),
    ensures
        plain_lines(prefixed_all(k + " = "@, items)),
{
    assert forall|i: int| 0 <= i < items.len() implies plain_line(
        #[trigger] prefixed_all(k + " = "@, items)[i],
    ) by {
        assert(clean_value(items[i]));
        lemma_kv_line(k, items[i]);
    }
}

/// Every line of a rendered `[Interface]` body is plain.
#[verifier::spinoff_prover]
#[verifier::rlimit(60)]
pub proof fn lemma_iface_body_plain(h: HostView)
    requires
        clean_interface(h),
    ensures
        plain_lines(iface_body(h)),
{
    lemma_interface_keys();
    let b1 = seq!["PrivateKey = "@ + h.private_key];
    let b2 = list_line("Address = "@, h.address);
    let b3 = num_line("ListenPort = "@, opt_nat16(h.listen_port));
    let b4 = list_line("DNS = "@, h.dns);
    let b5 = num_line("MTU = "@, opt_nat32(h.mtu));
    let b6 = opt_line("Table = "@, h.table);
    let b7 = prefixed_all("PreUp = "@, h.pre_up);
    let b8 = prefixed_all("PostUp = "@, h.post_up);
    let b9 = prefixed_all("PreDown = "@, h.pre_down);
    let b10 = prefixed_all("PostDown = "@, h.post_down);
    let b11 = save_config_lines(h);
    let b12 = fw_mark_lines(h);
    lemma_plain_pair("PrivateKey"@, h.private_key);
    if h.address.len() > 0 {
        lemma_list_value_clean(h.address);
        lemma_plain_pair("Address"@, join(h.address, ", "@));
    }
    match h.listen_port {
        Some(x) => {
            lemma_parse_dec(x as nat, 65535);
            lemma_plain_pair("ListenPort"@, dec(x as nat));
        },
        None => {},
    }
    if h.dns.len() > 0 {
        lemma_list_value_clean(h.dns);
        lemma_plain_pair("DNS"@, join(h.dns, ", "@));
    }
    match h.mtu {
        Some(x) => {
            lemma_parse_dec(x as nat, 0xffff_ffff);
            lemma_plain_pair("MTU"@, dec(x as nat));
        },
        None => {},
    }
    match h.table {
        Some(t) => {
            lemma_plain_pair("Table"@, t);
        },
        None => {},
    }
    lemma_plain_each("PreUp"@, h.pre_up);
    lemma_plain_each("PostUp"@, h.post_up);
    lemma_plain_each("PreDown"@, h.pre_down);
    lemma_plain_each("PostDown"@, h.post_down);
    match h.save_config {
        Some(b) => {
            reveal_strlit("true");
            reveal_strlit("false");
            assert(clean_value(bool_text(b)));
            lemma_plain_pair("SaveConfig"@, bool_text(b));
        },
        None => {},
    }
    match h.fw_mark {
        Some(f) => {
            lemma_plain_pair("FwMark"@, f);
        },
        None => {},
    }
    lemma_plain_append(b1, b2);
    lemma_plain_append(b1 + b2, b3);
    lemma_plain_append(b1 + b2 + b3, b4);
    lemma_plain_append(b1 + b2 + b3 + b4, b5);
    lemma_plain_append(b1 + b2 + b3 + b4 + b5, b6);
    lemma_plain_append(b1 + b2 + b3 + b4 + b5 + b6, b7);
    lemma_plain_append(b1 + b2 + b3 + b4 + b5 + b6 + b7, b8);
    lemma_plain_append(b1 + b2 + b3 + b4 + b5 + b6 + b7 + b8, b9);
    lemma_plain_append(b1 + b2 + b3 + b4 + b5 + b6 + b7 + b8 + b9, b10);
    lemma_plain_append(b1 + b2 + b3 + b4 + b5 + b6 + b7 + b8 + b9 + b10, b11);
    lemma_plain_append(b1 + b2 + b3 + b4 + b5 + b6 + b7 + b8 + b9 + b10 + b11, b12);
    assert(iface_body(h) =~= b1 + b2 + b3 + b4 + b5 + b6 + b7 + b8 + b9 + b10 + b11 + b12);
}

/// Every line of a rendered `[Peer]` body is plain.
pub proof fn lemma_peer_body_plain(p: PeerView)
    requires
        clean_peer(p),
    ensures
        plain_lines(peer_body(p)),
{
    lemma_peer_keys();
    let b1 = seq!["PublicKey = "@ + p.public_key];
    let b2 = opt_line("PresharedKey = "@, p.preshared_key);
    let b3 = list_line("AllowedIPs = "@, p.allowed_ips);
    let b4 = opt_line("Endpoint = "@, p.endpoint);
    let b5 = num_line("PersistentKeepalive = "@, opt_nat32(p.persistent_keepalive));
    lemma_plain_pair("PublicKey"@, p.public_key);
    match p.preshared_key {
        Some(k) => {
            lemma_plain_pair("PresharedKey"@, k);
        },
        None => {},
    }
    if p.allowed_ips.len() > 0 {
        lemma_list_value_clean(p.allowed_ips);
        lemma_plain_pair("AllowedIPs"@, join(p.allowed_ips, ", "@));
    }
    match p.endpoint {
        Some(e) => {
            lemma_plain_pair("Endpoint"@, e);
        },
        None => {},
    }
    match p.persistent_keepalive {
        Some(k) => {
            lemma_parse_dec(k as nat, 0xffff_ffff);
            lemma_plain_pair("PersistentKeepalive"@, dec(k as nat));
        },
        None => {},
    }
    lemma_plain_append(b1, b2);
    lemma_plain_append(b1 + b2, b3);
    lemma_plain_append(b1 + b2 + b3, b4);
    lemma_plain_append(b1 + b2 + b3 + b4, b5);
    assert(peer_body(p) =~= b1 + b2 + b3 + b4 + b5);
}

/// The blank line before a peer block and the peer's comment line.
pub open spec fn gap_lines(p: PeerView) -> Seq<Seq<char>> {
    seq![Seq::<char>::empty()] + crate::roundtrip::comment_lines(p)
}

/// The gap before a peer block is plain and adds no pair.
pub proof fn lemma_gap_lines(p: PeerView)
    requires
        p.comment matches Some(c) ==> no_line_break(c),
    ensures
        plain_lines(gap_lines(p)),
        kv_pairs(gap_lines(p)) == Seq::<(Seq<char>, Seq<char>)>::empty(),
{
    let g = gap_lines(p);
    crate::roundtrip::lemma_blank_line();
    match p.comment {
        Some(c) => {
            lemma_comment_line(c);
            assert(g =~= seq![Seq::<char>::empty(), "# "@ + c]);
            assert(g.drop_last() =~= seq![Seq::<char>::empty()]);
            assert(g.drop_last().drop_last() =~= Seq::<Seq<char>>::empty());
            assert(g.last() == "# "@ + c);
            assert(kv_pairs(g.drop_last()) == kv_pairs(g.drop_last().drop_last()));
            assert(kv_pairs(g) == kv_pairs(g.drop_last()));
            assert(kv_pairs(Seq::<Seq<char>>::empty()) =~= Seq::<(Seq<char>, Seq<char>)>::empty());
            assert(kv_pairs(g.drop_last().drop_last()) =~= Seq::<(Seq<char>, Seq<char>)>::empty());
            assert(kv_pairs(g) =~= Seq::<(Seq<char>, Seq<char>)>::empty());
        },
        None => {
            assert(g =~= seq![Seq::<char>::empty()]);
            assert(g.drop_last() =~= Seq::<Seq<char>>::empty());
            assert(g.last() == Seq::<char>::empty());
            assert(kv_pairs(g) == kv_pairs(g.drop_last()));
            assert(kv_pairs(Seq::<Seq<char>>::empty()) =~= Seq::<(Seq<char>, Seq<char>)>::empty());
        },
    }
}

// ---------------------------------------------------------------------
// Section headers
// ---------------------------------------------------------------------

/// `[Interface]` and `[Peer]` open the sections the reader knows.
pub proof fn lemma_headers()
    ensures
        is_section_header("[Interface]"@),
        section_name("[Interface]"@) == "interface"@,
        no_line_break("[Interface]"@),
        is_section_header("[Peer]"@),
        section_name("[Peer]"@) == "peer"@,
        no_line_break("[Peer]"@),
        "interface"@ != "peer"@,
{
    reveal_strlit("[Interface]");
    reveal_strlit("Interface");
    reveal_strlit("interface");
    reveal_strlit("[Peer]");
    reveal_strlit("Peer");
    reveal_strlit("peer");
    let a = "[Interface]"@;
    lemma_trim_clean(a);
    assert(a.subrange(1, a.len() - 1) =~= "Interface"@);
    lemma_trim_clean("Interface"@);
    lemma_lower("Interface"@, "interface"@);
    let b = "[Peer]"@;
    lemma_trim_clean(b);
    assert(b.subrange(1, b.len() - 1) =~= "Peer"@);
    lemma_trim_clean("Peer"@);
    lemma_lower("Peer"@, "peer"@);
    assert("interface"@.len() != "peer"@.len());
}

// ---------------------------------------------------------------------
// Scanning
// ---------------------------------------------------------------------

pub proof fn lemma_scan_push(a: Seq<Seq<char>>, l: Seq<char>)
    ensures
        scan_lines(a.push(l)) == scan_step(scan_lines(a), l),
{
    assert(a.push(l).drop_last() =~= a);
}

/// Plain lines join the body of the section that is open.
pub proof fn lemma_scan_plain(a: Seq<Seq<char>>, b: Seq<Seq<char>>)
    requires
        plain_lines(b),
    ensures
        scan_lines(a + b) == (ScanState { body: scan_lines(a).body + b, ..scan_lines(a) }),
    decreases b.len(),
{
    if b.len() == 0 {
        assert(a + b =~= a);
        assert(scan_lines(a).body + b =~= scan_lines(a).body);
    } else {
        let b0 = b.drop_last();
        assert(plain_lines(b0)) by {
            assert forall|i: int| 0 <= i < b0.len() implies plain_line(#[trigger] b0[i]) by {
                assert(b0[i] == b[i]);
            }
        }
        lemma_scan_plain(a, b0);
        assert(a + b =~= (a + b0).push(b.last()));
        lemma_scan_push(a + b0, b.last());
        assert(plain_line(b[b.len() - 1]));
        assert(scan_lines(a).body + b =~= (scan_lines(a).body + b0).push(b.last()));
    }
}

// ---------------------------------------------------------------------
// The lines of the whole text
// ---------------------------------------------------------------------

/// A blank line and the block of each peer, in order.
pub open spec fn peer_blocks(ps: Seq<PeerView>) -> Seq<Seq<char>>
    decreases ps.len(),
{
    if ps.len() == 0 {
        Seq::empty()
    } else {
        peer_blocks(ps.drop_last()) + seq![Seq::<char>::empty()] + peer_lines(ps.last())
    }
}

/// The lines of `full_config(h)`.
pub open spec fn config_lines(h: HostView) -> Seq<Seq<char>> {
    seq!["# "@ + h.name] + interface_lines(h, true) + peer_blocks(h.peers)
}

pub proof fn lemma_config_join(h: HostView, ps: Seq<PeerView>)
    ensures
        join(seq!["# "@ + h.name] + interface_lines(h, true) + peer_blocks(ps), "\n"@) == join(
            seq!["# "@ + h.name, interface_config(h, true)] + peer_parts(ps),
            "\n"@,
        ),
    decreases ps.len(),
{
    let nl = "\n"@;
    let head = seq!["# "@ + h.name];
    let il = interface_lines(h, true);
    lemma_interface_lines_split(h);
    assert(il.len() > 0);
    if ps.len() == 0 {
        assert(head + il + peer_blocks(ps) =~= head + il);
        let s = seq!["# "@ + h.name, interface_config(h, true)];
        assert(s + peer_parts(ps) =~= head + seq![interface_config(h, true)]);
        lemma_join_append(head, il, nl);
        lemma_join_append(head, seq![interface_config(h, true)], nl);
    } else {
        let init = ps.drop_last();
        let p = ps.last();
        lemma_config_join(h, init);
        let l0 = head + il + peer_blocks(init);
        let s0 = seq!["# "@ + h.name, interface_config(h, true)] + peer_parts(init);
        let pl = peer_lines(p);
        lemma_peer_lines_split(p);
        assert(pl.len() > 0);
        let tl = seq![Seq::<char>::empty()] + pl;
        let ts = seq![Seq::<char>::empty(), peer_config(p)];
        assert(head + il + peer_blocks(ps) =~= l0 + tl);
        assert(seq!["# "@ + h.name, interface_config(h, true)] + peer_parts(ps) =~= s0 + ts);
        lemma_join_append(l0, tl, nl);
        lemma_join_append(s0, ts, nl);
        lemma_join_append(seq![Seq::<char>::empty()], pl, nl);
        assert(ts.drop_last() =~= seq![Seq::<char>::empty()]);
        assert(join(ts, nl) == join(ts.drop_last(), nl) + nl + ts.last());
    }
}

/// No line of the list holds a line break.
pub open spec fn unbroken(ls: Seq<Seq<char>>) -> bool {
    forall|i: int| 0 <= i < ls.len() ==> no_line_break(#[trigger] ls[i])
}

pub proof fn lemma_unbroken_append(a: Seq<Seq<char>>, b: Seq<Seq<char>>)
    requires
        unbroken(a),
        unbroken(b),
    ensures
        unbroken(a + b),
{
    assert forall|i: int| 0 <= i < (a + b).len() implies no_line_break(#[trigger] (a + b)[i]) by {
        if i < a.len() {
            assert((a + b)[i] == a[i]);
        } else {
            assert((a + b)[i] == b[i - a.len()]);
        }
    }
}

pub proof fn lemma_plain_unbroken(ls: Seq<Seq<char>>)
    requires
        plain_lines(ls),
    ensures
        unbroken(ls),
{
    assert forall|i: int| 0 <= i < ls.len() implies no_line_break(#[trigger] ls[i]) by {
        assert(plain_line(ls[i]));
    }
}

/// Every peer's fields can be written and read back unchanged.
pub open spec fn clean_peers(ps: Seq<PeerView>) -> bool {
    forall|i: int| 0 <= i < ps.len() ==> clean_peer(#[trigger] ps[i])
}

proof fn lemma_peer_blocks_unbroken(ps: Seq<PeerView>)
    requires
        clean_peers(ps),
    ensures
        unbroken(peer_blocks(ps)),
    decreases ps.len(),
{
    if ps.len() > 0 {
        let init = ps.drop_last();
        let p = ps.last();
        assert(clean_peers(init)) by {
            assert forall|i: int| 0 <= i < init.len() implies clean_peer(#[trigger] init[i]) by {
                assert(init[i] == ps[i]);
            }
        }
        lemma_peer_blocks_unbroken(init);
        assert(clean_peer(ps[ps.len() - 1]));
        lemma_gap_lines(p);
        lemma_plain_unbroken(gap_lines(p));
        lemma_headers();
        lemma_peer_body_plain(p);
        lemma_plain_unbroken(peer_body(p));
        lemma_peer_lines_split(p);
        let hdr = seq!["[Peer]"@];
        assert(unbroken(hdr)) by {
            assert(hdr[0] == "[Peer]"@);
        }
        assert(seq![Seq::<char>::empty()] + peer_lines(p) =~= gap_lines(p) + hdr + peer_body(p));
        lemma_unbroken_append(gap_lines(p), hdr);
        lemma_unbroken_append(gap_lines(p) + hdr, peer_body(p));
        lemma_unbroken_append(peer_blocks(init), seq![Seq::<char>::empty()] + peer_lines(p));
        assert(peer_blocks(ps) =~= peer_blocks(init) + (seq![Seq::<char>::empty()] + peer_lines(p)));
    }
}

/// The text of a clean host is its lines, each ended by a line feed.
pub proof fn lemma_config_text(h: HostView)
    requires
        clean_interface(h),
        no_line_break(h.name),
        clean_peers(h.peers),
    ensures
        full_config(h) == join(config_lines(h), "\n"@) + "\n"@,
        lines(full_config(h)) == config_lines(h),
{
    lemma_config_join(h, h.peers);
    let head = seq!["# "@ + h.name];
    lemma_comment_line(h.name);
    assert(unbroken(head)) by {
        assert(head[0] == "# "@ + h.name);
    }
    lemma_headers();
    let hdr = seq!["[Interface]"@];
    assert(unbroken(hdr)) by {
        assert(hdr[0] == "[Interface]"@);
    }
    lemma_iface_body_plain(h);
    lemma_plain_unbroken(iface_body(h));
    lemma_interface_lines_split(h);
    lemma_unbroken_append(hdr, iface_body(h));
    lemma_unbroken_append(head, interface_lines(h, true));
    lemma_peer_blocks_unbroken(h.peers);
    lemma_unbroken_append(head + interface_lines(h, true), peer_blocks(h.peers));
    lemma_lines_of_text(config_lines(h));
}

// ---------------------------------------------------------------------
// Reading the sections back
// ---------------------------------------------------------------------

/// The peers as the reader builds them: comments are not read back.
pub open spec fn uncommented(ps: Seq<PeerView>) -> Seq<PeerView> {
    Seq::new(ps.len(), |i: int| PeerView { comment: None, ..ps[i] })
}

/// The scan state reads as `acc` once its open section is closed.
pub open spec fn reads_as(st: ScanState, acc: DocAcc) -> bool {
    match st.header {
        Some(hd) => match doc_fold(st.done) {
            Ok(prev) => doc_step(prev, (hd, st.body)) == Ok::<DocAcc, FailKind>(acc),
            Err(_) => false,
        },
        None => false,
    }
}

/// The lines of the text up to the end of the first `n` peer blocks.
pub open spec fn prefix_lines(h: HostView, n: int) -> Seq<Seq<char>> {
    seq!["# "@ + h.name] + interface_lines(h, true) + peer_blocks(h.peers.take(n))
}

/// What the reader has after the first `n` peer blocks.
pub open spec fn acc_after(h: HostView, n: int) -> DocAcc {
    DocAcc { opts: host_options_of(h), peers: uncommented(h.peers.take(n)) }
}

#[verifier::spinoff_prover]
#[verifier::rlimit(80)]
proof fn lemma_scan_start(h: HostView)
    requires
        clean_interface(h),
        no_line_break(h.name),
    ensures
        reads_as(scan_lines(prefix_lines(h, 0)), acc_after(h, 0)),
{
    lemma_headers();
    let head = seq!["# "@ + h.name];
    let empty = Seq::<Seq<char>>::empty();
    assert(h.peers.take(0) =~= Seq::<PeerView>::empty());
    assert(peer_blocks(h.peers.take(0)) =~= empty);
    lemma_interface_lines_split(h);
    assert(prefix_lines(h, 0) =~= head.push("[Interface]"@) + iface_body(h));
    lemma_comment_line(h.name);
    assert(empty.push("# "@ + h.name) =~= head);
    lemma_scan_push(empty, "# "@ + h.name);
    let st0 = scan_lines(head);
    assert(scan_lines(empty).body.push("# "@ + h.name) =~= head);
    assert(st0.header is None && st0.done =~= Seq::<(Seq<char>, Seq<Seq<char>>)>::empty()
        && st0.body =~= head);
    lemma_scan_push(head, "[Interface]"@);
    let st1 = scan_lines(head.push("[Interface]"@));
    assert(st1.header == Some("interface"@) && st1.done == st0.done && st1.body == head);
    lemma_iface_body_plain(h);
    lemma_scan_plain(head.push("[Interface]"@), iface_body(h));
    let st2 = scan_lines(prefix_lines(h, 0));
    assert(st2.header == Some("interface"@) && st2.done == st0.done && st2.body == head + iface_body(h));
    assert(doc_fold(st2.done) == Ok::<DocAcc, FailKind>(DocAcc { opts: no_options(), peers: Seq::empty() }));
    lemma_kv_pairs_append(head, iface_body(h));
    assert(head.drop_last() =~= empty);
    assert(kv_pairs(head) == kv_pairs(head.drop_last()));
    assert(kv_pairs(empty) =~= Seq::<(Seq<char>, Seq<char>)>::empty());
    assert(kv_pairs(head + iface_body(h)) =~= kv_pairs(iface_body(h)));
    lemma_iface_options(h);
    assert(uncommented(h.peers.take(0)) =~= Seq::<PeerView>::empty());
}

#[verifier::spinoff_prover]
#[verifier::rlimit(80)]
proof fn lemma_scan_peer(h: HostView, n: int)
    requires
        1 <= n <= h.peers.len(),
        clean_peers(h.peers),
        peers_valid(h.peers),
        reads_as(scan_lines(prefix_lines(h, n - 1)), acc_after(h, n - 1)),
    ensures
        reads_as(scan_lines(prefix_lines(h, n)), acc_after(h, n)),
{
    lemma_headers();
    let p = h.peers[n - 1];
    assert(clean_peer(h.peers[n - 1]));
    assert(h.peers[n - 1].valid());
    let a = prefix_lines(h, n - 1);
    let st = scan_lines(a);
    let hd = st.header->Some_0;
    let prev = doc_fold(st.done)->Ok_0;
    let gap = gap_lines(p);
    assert(h.peers.take(n).drop_last() =~= h.peers.take(n - 1));
    assert(h.peers.take(n).last() == p);
    lemma_peer_lines_split(p);
    assert(prefix_lines(h, n) =~= (a + gap).push("[Peer]"@) + peer_body(p));
    lemma_gap_lines(p);
    lemma_scan_plain(a, gap);
    lemma_scan_push(a + gap, "[Peer]"@);
    lemma_peer_body_plain(p);
    lemma_scan_plain((a + gap).push("[Peer]"@), peer_body(p));
    let st3 = scan_lines(prefix_lines(h, n));
    assert(st3.done == st.done.push((hd, st.body + gap)));
    assert(st3.header == Some("peer"@));
    assert(st3.body =~= peer_body(p));
    lemma_kv_pairs_append(st.body, gap);
    assert(kv_pairs(st.body + gap) =~= kv_pairs(st.body));
    assert(st3.done.drop_last() =~= st.done);
    assert(doc_fold(st3.done) == doc_step(prev, (hd, st.body + gap)));
    assert(doc_fold(st3.done) == Ok::<DocAcc, FailKind>(acc_after(h, n - 1)));
    lemma_peer_fields(p);
    let q = PeerView { comment: None, ..p };
    assert(uncommented(h.peers.take(n)) =~= uncommented(h.peers.take(n - 1)).push(q));
}

proof fn lemma_scan_prefix(h: HostView, n: int)
    requires
        0 <= n <= h.peers.len(),
        clean_interface(h),
        no_line_break(h.name),
        clean_peers(h.peers),
        peers_valid(h.peers),
    ensures
        reads_as(scan_lines(prefix_lines(h, n)), acc_after(h, n)),
    decreases n,
{
    if n == 0 {
        lemma_scan_start(h);
    } else {
        lemma_scan_prefix(h, n - 1);
        lemma_scan_peer(h, n);
    }
}

/// Writing a host to `.conf` text and loading that text under any name
/// gives the host back under that name, with the peers' comments left
/// out. This holds of every host `WireGuardHost::new` builds and whose
/// peers are valid, when no value holds a line break or white space at
/// either end, no list entry is empty or holds a comma, and a firewall
/// mark, when set, is not empty.
pub proof fn lemma_config_roundtrip(h: HostView, name: Seq<char>)
    requires
        host_keys_ok(h),
        peers_valid(h.peers),
        clean_interface(h),
        no_line_break(h.name),
        clean_peers(h.peers),
    ensures
        spec_load_host(full_config(h), name) == Ok::<HostView, FailKind>(
            HostView { name, peers: uncommented(h.peers), ..h },
        ),
{
    lemma_config_text(h);
    let n = h.peers.len() as int;
    lemma_scan_prefix(h, n);
    assert(h.peers.take(n) =~= h.peers);
    assert(prefix_lines(h, n) =~= config_lines(h));
    let st = scan_lines(config_lines(h));
    let hd = st.header->Some_0;
    assert(sections(full_config(h)) == st.done.push((hd, st.body)));
    assert(st.done.push((hd, st.body)).drop_last() =~= st.done);
    let acc = acc_after(h, n);
    assert(doc_fold(sections(full_config(h))) == Ok::<DocAcc, FailKind>(acc));
    assert(acc.opts.private_key == Some(h.private_key));
}

// ---------------------------------------------------------------------
// A section written without its key
// ---------------------------------------------------------------------

/// No line of the list is empty.
pub open spec fn filled(ls: Seq<Seq<char>>) -> bool {
    forall|i: int| 0 <= i < ls.len() ==> (#[trigger] ls[i]).len() > 0
}

proof fn lemma_filled_append(a: Seq<Seq<char>>, b: Seq<Seq<char>>)
    requires
        filled(a),
        filled(b),
    ensures
        filled(a + b),
{
    assert forall|i: int| 0 <= i < (a + b).len() implies (#[trigger] (a + b)[i]).len() > 0 by {
        if i < a.len() {
            assert((a + b)[i] == a[i]);
        } else {
            assert((a + b)[i] == b[i - a.len()]);
        }
    }
}

proof fn lemma_filled_each(k: Seq<char>, items: Seq<Seq<char>>)
    requires
        k.len() > 0,
    ensures
        filled(prefixed_all(k + " = "@, items)),
{
    assert forall|i: int| 0 <= i < items.len() implies (#[trigger] prefixed_all(k + " = "@, items)[i]).len() > 0 by {
        assert(prefixed_all(k + " = "@, items)[i] == k + " = "@ + items[i]);
    }
}

/// Every line of the `[Interface]` body after its key line has text.
pub proof fn lemma_iface_rest_filled(h: HostView)
    ensures
        filled(iface_rest(h)),
{
    lemma_interface_keys();
    let b2 = list_line("Address = "@, h.address);
    let b3 = num_line("ListenPort = "@, opt_nat16(h.listen_port));
    let b4 = list_line("DNS = "@, h.dns);
    let b5 = num_line("MTU = "@, opt_nat32(h.mtu));
    let b6 = opt_line("Table = "@, h.table);
    let b7 = prefixed_all("PreUp = "@, h.pre_up);
    let b8 = prefixed_all("PostUp = "@, h.post_up);
    let b9 = prefixed_all("PreDown = "@, h.pre_down);
    let b10 = prefixed_all("PostDown = "@, h.post_down);
    let b11 = save_config_lines(h);
    let b12 = fw_mark_lines(h);
    assert(filled(b2) && filled(b3) && filled(b4) && filled(b5) && filled(b6));
    lemma_filled_each("PreUp"@, h.pre_up);
    lemma_filled_each("PostUp"@, h.post_up);
    lemma_filled_each("PreDown"@, h.pre_down);
    lemma_filled_each("PostDown"@, h.post_down);
    assert(filled(b11) && filled(b12));
    lemma_filled_append(b2, b3);
    lemma_filled_append(b2 + b3, b4);
    lemma_filled_append(b2 + b3 + b4, b5);
    lemma_filled_append(b2 + b3 + b4 + b5, b6);
    lemma_filled_append(b2 + b3 + b4 + b5 + b6, b7);
    lemma_filled_append(b2 + b3 + b4 + b5 + b6 + b7, b8);
    lemma_filled_append(b2 + b3 + b4 + b5 + b6 + b7 + b8, b9);
    lemma_filled_append(b2 + b3 + b4 + b5 + b6 + b7 + b8 + b9, b10);
    lemma_filled_append(b2 + b3 + b4 + b5 + b6 + b7 + b8 + b9 + b10, b11);
    lemma_filled_append(b2 + b3 + b4 + b5 + b6 + b7 + b8 + b9 + b10 + b11, b12);
    assert(iface_rest(h) =~= b2 + b3 + b4 + b5 + b6 + b7 + b8 + b9 + b10 + b11 + b12);
}

/// Lines without line breaks, the last one with text, joined by line
/// feeds are the lines of the text.
pub proof fn lemma_lines_of_joined(v: Seq<Seq<char>>)
    requires
        v.len() > 0,
        unbroken(v),
        v.last().len() > 0,
    ensures
        lines(join(v, "\n"@)) == v,
{
    reveal_strlit("\n");
    assert("\n"@ =~= seq!['\n']);
    assert forall|i: int| 0 <= i < v.len() implies crate::roundtrip::no_char(#[trigger] v[i], '\n') by {
        assert(no_line_break(v[i]));
    }
    crate::roundtrip::lemma_split_join(v, '\n');
    assert forall|i: int| 0 <= i < v.len() - 1 implies crate::text::strip_cr(#[trigger] v[i]) == v[i] by {
        assert(no_line_break(v[i]));
        if v[i].len() > 0 {
            assert(v[i][v[i].len() - 1] != '\r');
        }
    }
    assert(lines(join(v, "\n"@)) =~= v);
}

/// The text of a section written without its key is its header and the
/// remaining lines.
proof fn lemma_redacted_lines(h: HostView)
    requires
        clean_interface(h),
    ensures
        lines(crate::host::interface_config(h, false)) == seq!["[Interface]"@] + iface_rest(h),
        interface_lines(h, false) == seq!["[Interface]"@] + iface_rest(h),
{
    lemma_headers();
    let hdr = seq!["[Interface]"@];
    let rest = iface_rest(h);
    lemma_iface_rest_options(h);
    let v = interface_lines(h, false);
    assert(v =~= hdr + rest);
    lemma_iface_body_plain(h);
    let body = iface_body(h);
    assert(plain_lines(rest)) by {
        assert forall|i: int| 0 <= i < rest.len() implies plain_line(#[trigger] rest[i]) by {
            assert(rest[i] == body[i + 1]);
        }
    }
    lemma_plain_unbroken(rest);
    assert(unbroken(hdr)) by {
        assert(hdr[0] == "[Interface]"@);
    }
    lemma_unbroken_append(hdr, rest);
    lemma_iface_rest_filled(h);
    reveal_strlit("[Interface]");
    assert(filled(hdr)) by {
        assert(hdr[0] == "[Interface]"@);
    }
    lemma_filled_append(hdr, rest);
    assert(v.last() == (hdr + rest)[(hdr + rest).len() - 1]);
    lemma_lines_of_joined(v);
}

/// Such a text is one `interface` section holding the remaining lines.
proof fn lemma_redacted_sections(h: HostView)
    requires
        clean_interface(h),
    ensures
        sections(crate::host::interface_config(h, false)) == seq![("interface"@, iface_rest(h))],
{
    lemma_redacted_lines(h);
    lemma_headers();
    let hdr = seq!["[Interface]"@];
    let rest = iface_rest(h);
    lemma_iface_rest_options(h);
    lemma_iface_body_plain(h);
    let body = iface_body(h);
    assert(plain_lines(rest)) by {
        assert forall|i: int| 0 <= i < rest.len() implies plain_line(#[trigger] rest[i]) by {
            assert(rest[i] == body[i + 1]);
        }
    }
    let empty = Seq::<Seq<char>>::empty();
    assert(empty.push("[Interface]"@) =~= hdr);
    lemma_scan_push(empty, "[Interface]"@);
    lemma_scan_plain(hdr, rest);
    let st = scan_lines(hdr + rest);
    assert(scan_lines(empty).body + rest =~= rest);
    assert(st.header == Some("interface"@));
    assert(st.done =~= Seq::<(Seq<char>, Seq<Seq<char>>)>::empty());
    assert(st.body =~= rest);
    assert(Seq::<(Seq<char>, Seq<Seq<char>>)>::empty().push(("interface"@, rest)) =~= seq![("interface"@, rest)]);
}

/// A host's `[Interface]` section written without its private key (as
/// when a config is redacted for sharing) is refused, under any name, as
/// having no key: a host cannot be rebuilt without it. This holds when no
/// value holds a line break or white space at either end, no list entry is
/// empty or holds a comma, and a firewall mark, when set, is not empty.
pub proof fn lemma_redacted_config_refused(h: HostView, name: Seq<char>)
    requires
        clean_interface(h),
    ensures
        spec_load_host(crate::host::interface_config(h, false), name) == Err::<HostView, FailKind>(
            FailKind::InvalidKey,
        ),
{
    lemma_headers();
    lemma_redacted_sections(h);
    lemma_iface_rest_options(h);
    let rest = iface_rest(h);
    let secs = seq![("interface"@, rest)];
    assert(secs.drop_last() =~= Seq::<(Seq<char>, Seq<Seq<char>>)>::empty());
    assert(secs.last() == ("interface"@, rest));
    let acc0 = DocAcc { opts: no_options(), peers: Seq::empty() };
    assert(doc_fold(secs.drop_last()) == Ok::<DocAcc, FailKind>(acc0));
    assert(doc_step(acc0, ("interface"@, rest)) == Ok::<DocAcc, FailKind>(
        DocAcc { opts: OptionsView { private_key: None, ..host_options_of(h) }, peers: Seq::empty() },
    ));
    assert(doc_fold(secs) == Ok::<DocAcc, FailKind>(
        DocAcc { opts: OptionsView { private_key: None, ..host_options_of(h) }, peers: Seq::empty() },
    ));
}

} // verus!
