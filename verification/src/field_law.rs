//! The fields of a host that read back from its `.conf` text whatever its
//! other values hold: name, keys, addresses, listen port, MTU, and each
//! peer's keys, allowed IPs and keepalive, for every host whose values
//! hold no line break.
use vstd::prelude::*;

use crate::error::FailKind;
use crate::host::{
    full_config, host_keys_ok, interface_lines, list_line, num_line, opt_line, opt_nat16, opt_nat32,
    peers_valid, prefixed_all, HostView, OptionsView,
};
use crate::ip::address_text;
use crate::keys::{all_base64_symbols, is_base64_symbol};
use crate::parse::{
    is_section_header, iface_apply, iface_fold, kv_of_line, kv_pairs, no_options, peer_fold,
    PeerAcc,
};
use crate::peer::PeerView;
use crate::roundtrip::{
    clean_entry, clean_list, clean_value, fw_mark_lines, iface_body, lemma_find_char_concat,
    lemma_iface_fold_append, lemma_interface_keys, lemma_join_no_line_break, lemma_kv_pairs_append,
    lemma_trim_end_clean, lemma_trim_start_clean, line_key, no_char, no_line_break, save_config_lines,
};
use crate::text::{find_char, is_ws, join, lowercase, split_once, trim, trim_end, trim_start};

verus! {

// ---------------------------------------------------------------------
// Trimming
// ---------------------------------------------------------------------

proof fn lemma_trim_start_push(d: Seq<char>, c: char)
    ensures
        trim_start(d.push(c)) == (if trim_start(d).len() > 0 {
            trim_start(d).push(c)
        } else {
            trim_start(seq![c])
        }),
    decreases d.len(),
{
    if d.len() == 0 {
        assert(d.push(c) =~= seq![c]);
    } else if is_ws(d[0]) {
        assert(d.push(c)[0] == d[0]);
        assert(d.push(c).drop_first() =~= d.drop_first().push(c));
        lemma_trim_start_push(d.drop_first(), c);
    } else {
        assert(d.push(c)[0] == d[0]);
    }
}

proof fn lemma_trim_start_keeps_last(s: Seq<char>)
    requires
        s.len() > 0,
        !is_ws(s.last()),
    ensures
        trim_start(s).len() > 0,
        trim_start(s).last() == s.last(),
    decreases s.len(),
{
    if is_ws(s[0]) {
        assert(s.len() > 1);
        assert(s.drop_first().last() == s.last());
        lemma_trim_start_keeps_last(s.drop_first());
    }
}

proof fn lemma_trim_commute(s: Seq<char>)
    ensures
        trim_start(trim_end(s)) == trim_end(trim_start(s)),
    decreases s.len(),
{
    if s.len() > 0 {
        if is_ws(s.last()) {
            let d = s.drop_last();
            lemma_trim_commute(d);
            assert(d.push(s.last()) =~= s);
            lemma_trim_start_push(d, s.last());
            assert(trim_end(s) == trim_end(d));
            if trim_start(d).len() > 0 {
                let x = trim_start(d).push(s.last());
                assert(x.drop_last() =~= trim_start(d));
                assert(x.last() == s.last());
                assert(trim_start(s) == x);
                assert(trim_end(x) == trim_end(trim_start(d)));
            } else {
                assert(seq![s.last()].drop_first() =~= Seq::<char>::empty());
                assert(trim_start(seq![s.last()]) == trim_start(Seq::<char>::empty()));
                assert(trim_start(s) =~= Seq::<char>::empty());
            }
        } else {
            assert(trim_end(s) == s);
            lemma_trim_start_keeps_last(s);
            let x = trim_start(s);
            assert(!is_ws(x.last()));
            assert(trim_end(x) == x);
        }
    }
}

/// Trimming the end first changes nothing of the trimmed text.
proof fn lemma_trim_of_trim_end(s: Seq<char>)
    ensures
        trim(trim_end(s)) == trim(s),
{
    lemma_trim_commute(s);
    crate::text::lemma_trim_end_idem(trim_start(s));
}

/// Trimming the end of `p + q` where `p` ends in a non-space keeps `p`.
proof fn lemma_trim_end_append(p: Seq<char>, q: Seq<char>)
    requires
        p.len() > 0,
        !is_ws(p.last()),
    ensures
        trim_end(p + q) == p + trim_end(q),
    decreases q.len(),
{
    if q.len() == 0 {
        assert(p + q =~= p);
        assert(p + trim_end(q) =~= p);
    } else if is_ws(q.last()) {
        assert((p + q).drop_last() =~= p + q.drop_last());
        assert((p + q).last() == q.last());
        lemma_trim_end_append(p, q.drop_last());
    } else {
        assert((p + q).last() == q.last());
    }
}

/// A trimmed text with no line break is a clean value.
pub proof fn lemma_trimmed_clean(v: Seq<char>)
    requires
        no_line_break(v),
    ensures
        clean_value(trim(v)),
        trim(trim(v)) == trim(v),
{
    crate::text::lemma_trim_idem(v);
    crate::text::lemma_trim_start_idem(v);
    let a = trim_start(v);
    crate::text::lemma_trim_end_keeps_start(a);
    crate::text::lemma_trim_end_idem(a);
    lemma_trim_start_unbroken(v);
    lemma_trim_end_unbroken(a);
    let t = trim(v);
    if t.len() > 0 {
        assert(trim_start(t) == t);
        assert(!is_ws(t[0])) by {
            crate::text::lemma_trim_start_idem(t);
        }
    }
}

proof fn lemma_trim_start_unbroken(v: Seq<char>)
    requires
        no_line_break(v),
    ensures
        no_line_break(trim_start(v)),
    decreases v.len(),
{
    if v.len() > 0 && is_ws(v[0]) {
        assert(no_line_break(v.drop_first())) by {
            assert forall|i: int| 0 <= i < v.drop_first().len() implies #[trigger] v.drop_first()[i]
                != '\n' && v.drop_first()[i] != '\r' by {
                assert(v.drop_first()[i] == v[i + 1]);
            }
        }
        lemma_trim_start_unbroken(v.drop_first());
    }
}

proof fn lemma_trim_end_unbroken(v: Seq<char>)
    requires
        no_line_break(v),
    ensures
        no_line_break(trim_end(v)),
    decreases v.len(),
{
    if v.len() > 0 && is_ws(v.last()) {
        assert(no_line_break(v.drop_last())) by {
            assert forall|i: int| 0 <= i < v.drop_last().len() implies #[trigger] v.drop_last()[i]
                != '\n' && v.drop_last()[i] != '\r' by {
                assert(v.drop_last()[i] == v[i]);
            }
        }
        lemma_trim_end_unbroken(v.drop_last());
    }
}

// ---------------------------------------------------------------------
// One `Key = Value` line with any value
// ---------------------------------------------------------------------

/// A rendered `Key = Value` line whose value holds no line break reads
/// back as its key and its trimmed value, and is no section header.
pub proof fn lemma_kv_line_any(k: Seq<char>, v: Seq<char>)
    requires
        line_key(k),
        no_line_break(v),
    ensures
        kv_of_line(k + " = "@ + v) == Some((k, trim(v))),
        !is_section_header(k + " = "@ + v),
        no_line_break(k + " = "@ + v),
{
    reveal_strlit(" = ");
    let eq = seq![' ', '=', ' '];
    assert(" = "@ =~= eq);
    let line = k + eq + v;
    let p = k + seq![' ', '='];
    let q = seq![' '] + v;
    assert(line =~= p + q);
    assert(line[0] == k[0]);
    lemma_trim_start_clean(line);
    assert(p.last() == '=');
    lemma_trim_end_append(p, q);
    let t = trim(line);
    assert(t == p + trim_end(q));
    let kp = k.push(' ');
    assert(no_char(kp, '=')) by {
        assert forall|i: int| 0 <= i < kp.len() implies #[trigger] kp[i] != '=' by {
            if i < k.len() {
                assert(kp[i] == k[i]);
            }
        }
    }
    let rest = seq!['='] + trim_end(q);
    assert(t =~= kp + rest);
    lemma_find_char_concat(kp, rest, '=');
    assert(find_char(t, '=') == k.len() + 1);
    assert(t.len() > 0 && t[0] == k[0]);
    assert(split_once(t, '=') == Some((t.take(k.len() as int + 1), t.skip(k.len() as int + 2))));
    assert(t.take(k.len() as int + 1) =~= kp);
    assert(t.skip(k.len() as int + 2) =~= trim_end(q));
    assert(trim(kp) == k) by {
        assert(kp[0] == k[0]);
        lemma_trim_start_clean(kp);
        assert(kp.last() == ' ');
        assert(kp.drop_last() =~= k);
        lemma_trim_end_clean(k);
    }
    lemma_trim_of_trim_end(q);
    assert(q[0] == ' ');
    assert(q.drop_first() =~= v);
    assert(trim_start(q) == trim_start(v));
    assert(no_line_break(line)) by {
        assert forall|i: int| 0 <= i < line.len() implies #[trigger] line[i] != '\n' && line[i]
            != '\r' by {
            if i < k.len() {
                assert(line[i] == k[i]);
            } else if i < k.len() + 3 {
                assert(line[i] == eq[i - k.len()]);
            } else {
                assert(line[i] == v[i - k.len() - 3]);
            }
        }
    }
}

// ---------------------------------------------------------------------
// Values that are clean by construction
// ---------------------------------------------------------------------

/// A text of base64 symbols is a clean value.
pub proof fn lemma_symbols_clean(s: Seq<char>)
    requires
        all_base64_symbols(s),
    ensures
        clean_value(s),
{
    assert forall|i: int| 0 <= i < s.len() implies #[trigger] s[i] != '\n' && s[i] != '\r' by {
        assert(is_base64_symbol(s[i]));
    }
    if s.len() > 0 {
        assert(is_base64_symbol(s[0]));
        assert(is_base64_symbol(s[s.len() - 1]));
    }
}

/// An address text is an entry of a list that joins and splits back.
pub proof fn lemma_address_entry_clean(s: Seq<char>)
    requires
        address_text(s),
    ensures
        clean_entry(s),
{
    assert forall|i: int| 0 <= i < s.len() implies #[trigger] s[i] != '\n' && s[i] != '\r' by {
        assert(crate::ip::is_address_char(s[i]));
    }
    assert forall|i: int| 0 <= i < s.len() implies #[trigger] s[i] != ',' by {
        assert(crate::ip::is_address_char(s[i]));
    }
    assert(crate::ip::is_address_char(s[0]));
    assert(crate::ip::is_address_char(s[s.len() - 1]));
}

/// A list of address texts is a clean list.
pub proof fn lemma_address_list_clean(v: Seq<Seq<char>>)
    requires
        crate::keys::cidr_list_ok(v),
    ensures
        clean_list(v),
{
    assert forall|i: int| 0 <= i < v.len() implies clean_entry(#[trigger] v[i]) by {
        assert(crate::ip::spec_ip_or_network(v[i]) is Some);
        lemma_address_entry_clean(v[i]);
    }
}

// ---------------------------------------------------------------------
// The `[Interface]` lines that do not touch the read-back fields
// ---------------------------------------------------------------------

/// The options agree with the host on the fields that read back.
pub open spec fn core_ok(o: OptionsView, h: HostView) -> bool {
    &&& o.private_key == Some(h.private_key)
    &&& o.address == h.address
    &&& o.listen_port == h.listen_port
    &&& o.mtu == h.mtu
}

pub open spec fn same_core(a: OptionsView, b: OptionsView) -> bool {
    &&& a.private_key == b.private_key
    &&& a.address == b.address
    &&& a.listen_port == b.listen_port
    &&& a.mtu == b.mtu
}

/// A key whose line changes none of the fields that read back.
pub open spec fn other_key(k: Seq<char>) -> bool {
    let l = lowercase(k);
    ||| l == "dns"@
    ||| l == "table"@
    ||| l == "preup"@
    ||| l == "postup"@
    ||| l == "predown"@
    ||| l == "postdown"@
    ||| l == "saveconfig"@
    ||| l == "fwmark"@
}

proof fn lemma_other_apply(o: OptionsView, k: Seq<char>, x: Seq<char>)
    requires
        other_key(k),
    ensures
        iface_apply(o, k, x) matches Ok(o2) && same_core(o, o2),
{
    lemma_interface_keys();
    let l = lowercase(k);
    assert(l != "privatekey"@ && l != "address"@ && l != "listenport"@ && l != "mtu"@) by {
        if l == "privatekey"@ || l == "address"@ || l == "listenport"@ || l == "mtu"@ {
            assert(l.len() == 10 || l.len() == 7 || l.len() == 3);
            assert(l[0] == 'p' || l[0] == 'a' || l[0] == 'l' || l[0] == 'm');
        }
    }
}

pub proof fn lemma_kv_pairs_single(k: Seq<char>, v: Seq<char>)
    requires
        line_key(k),
        no_line_break(v),
    ensures
        kv_pairs(seq![k + " = "@ + v]) == seq![(k, trim(v))],
{
    lemma_kv_line_any(k, v);
    let l = k + " = "@ + v;
    assert(seq![l].drop_last() =~= Seq::<Seq<char>>::empty());
    assert(seq![l].last() == l);
    assert(kv_pairs(Seq::<Seq<char>>::empty()) == Seq::<(Seq<char>, Seq<char>)>::empty());
    assert(kv_pairs(seq![l]) == kv_pairs(seq![l].drop_last()).push((k, trim(v))));
    assert(Seq::<(Seq<char>, Seq<char>)>::empty().push((k, trim(v))) =~= seq![(k, trim(v))]);
}

pub open spec fn unbroken_values(vs: Seq<Seq<char>>) -> bool {
    forall|i: int| 0 <= i < vs.len() ==> no_line_break(#[trigger] vs[i])
}

/// Lines of a key that touches no read-back field, one per value, are
/// plain and leave the read-back fields as they are.
proof fn lemma_other_lines(o: OptionsView, k: Seq<char>, vs: Seq<Seq<char>>)
    requires
        line_key(k),
        other_key(k),
        unbroken_values(vs),
    ensures
        crate::reload::plain_lines(prefixed_all(k + " = "@, vs)),
        iface_fold(o, kv_pairs(prefixed_all(k + " = "@, vs))) matches Ok(o2) && same_core(o, o2),
    decreases vs.len(),
{
    let pre = k + " = "@;
    if vs.len() == 0 {
        assert(prefixed_all(pre, vs) =~= Seq::<Seq<char>>::empty());
        assert(kv_pairs(Seq::<Seq<char>>::empty()) == Seq::<(Seq<char>, Seq<char>)>::empty());
    } else {
        let init = vs.drop_last();
        let v = vs.last();
        assert(unbroken_values(init)) by {
            assert forall|i: int| 0 <= i < init.len() implies no_line_break(#[trigger] init[i]) by {
                assert(init[i] == vs[i]);
            }
        }
        assert(no_line_break(vs[vs.len() - 1]));
        lemma_other_lines(o, k, init);
        let a = prefixed_all(pre, init);
        let one = seq![pre + v];
        assert(prefixed_all(pre, vs) =~= a + one);
        lemma_kv_line_any(k, v);
        assert(crate::reload::plain_lines(one)) by {
            assert(one[0] == pre + v);
        }
        crate::reload::lemma_plain_append(a, one);
        lemma_kv_pairs_append(a, one);
        lemma_kv_pairs_single(k, v);
        lemma_iface_fold_append(o, kv_pairs(a), kv_pairs(one));
        let o1 = iface_fold(o, kv_pairs(a))->Ok_0;
        crate::roundtrip::lemma_iface_fold_one(o1, k, trim(v));
        lemma_other_apply(o1, k, trim(v));
    }
}

/// One more block of such lines after a part already read.
proof fn lemma_step_other(h: HostView, c: Seq<Seq<char>>, k: Seq<char>, vs: Seq<Seq<char>>, b: Seq<Seq<char>>)
    requires
        line_key(k),
        other_key(k),
        unbroken_values(vs),
        b == prefixed_all(k + " = "@, vs),
        crate::reload::plain_lines(c),
        iface_fold(no_options(), kv_pairs(c)) matches Ok(o) && core_ok(o, h),
    ensures
        crate::reload::plain_lines(c + b),
        iface_fold(no_options(), kv_pairs(c + b)) matches Ok(o) && core_ok(o, h),
{
    let o = iface_fold(no_options(), kv_pairs(c))->Ok_0;
    lemma_other_lines(o, k, vs);
    crate::reload::lemma_plain_append(c, b);
    lemma_kv_pairs_append(c, b);
    lemma_iface_fold_append(no_options(), kv_pairs(c), kv_pairs(b));
}

/// Nothing the `[Interface]` section writes besides the read-back fields
/// holds a line break.
pub open spec fn iface_unbroken(h: HostView) -> bool {
    &&& unbroken_values(h.dns)
    &&& (h.table matches Some(t) ==> no_line_break(t))
    &&& unbroken_values(h.pre_up)
    &&& unbroken_values(h.post_up)
    &&& unbroken_values(h.pre_down)
    &&& unbroken_values(h.post_down)
    &&& (h.fw_mark matches Some(f) ==> no_line_break(f))
}

proof fn lemma_one_value(v: Seq<char>)
    requires
        no_line_break(v),
    ensures
        unbroken_values(seq![v]),
{
    assert(seq![v][0] == v);
}

proof fn lemma_plain_one(k: Seq<char>, v: Seq<char>)
    requires
        line_key(k),
        no_line_break(v),
    ensures
        crate::reload::plain_lines(seq![k + " = "@ + v]),
{
    lemma_kv_line_any(k, v);
    assert(seq![k + " = "@ + v][0] == k + " = "@ + v);
}

/// The lines of the `[Interface]` section up to its MTU line.
pub open spec fn iface_head(h: HostView) -> Seq<Seq<char>> {
    seq!["PrivateKey = "@ + h.private_key] + list_line("Address = "@, h.address) + num_line(
        "ListenPort = "@,
        opt_nat16(h.listen_port),
    ) + list_line("DNS = "@, h.dns) + num_line("MTU = "@, opt_nat32(h.mtu))
}

#[verifier::spinoff_prover]
#[verifier::rlimit(60)]
proof fn lemma_iface_head(h: HostView)
    requires
        all_base64_symbols(h.private_key),
        crate::keys::cidr_list_ok(h.address),
        unbroken_values(h.dns),
    ensures
        crate::reload::plain_lines(iface_head(h)),
        iface_fold(no_options(), kv_pairs(iface_head(h))) matches Ok(o) && core_ok(o, h),
{
    lemma_interface_keys();
    reveal_strlit(", ");
    let o0 = no_options();
    let b1 = seq!["PrivateKey = "@ + h.private_key];
    let b2 = list_line("Address = "@, h.address);
    let b3 = num_line("ListenPort = "@, opt_nat16(h.listen_port));
    let b4 = list_line("DNS = "@, h.dns);
    let b5 = num_line("MTU = "@, opt_nat32(h.mtu));
    // the private key
    lemma_symbols_clean(h.private_key);
    crate::roundtrip::lemma_seg_pk(o0, h.private_key);
    lemma_plain_one("PrivateKey"@, h.private_key);
    let o1 = OptionsView { private_key: Some(h.private_key), ..o0 };
    // the addresses
    lemma_address_list_clean(h.address);
    crate::roundtrip::lemma_seg_address(o1, h.address);
    let o2 = OptionsView { address: o1.address + h.address, ..o1 };
    assert(o1.address + h.address =~= h.address);
    if h.address.len() > 0 {
        crate::roundtrip::lemma_list_value_clean(h.address);
        lemma_plain_one("Address"@, join(h.address, ", "@));
    } else {
        assert(b2 =~= Seq::<Seq<char>>::empty());
    }
    crate::reload::lemma_plain_append(b1, b2);
    lemma_kv_pairs_append(b1, b2);
    lemma_iface_fold_append(o0, kv_pairs(b1), kv_pairs(b2));
    assert(iface_fold(o0, kv_pairs(b1 + b2)) == Ok::<OptionsView, FailKind>(o2));
    // the listen port
    crate::roundtrip::lemma_seg_listen_port(o2, h.listen_port);
    let o3 = match h.listen_port {
        Some(x) => OptionsView { listen_port: Some(x), ..o2 },
        None => o2,
    };
    match h.listen_port {
        Some(x) => {
            crate::roundtrip::lemma_parse_dec(x as nat, 65535);
            lemma_plain_one("ListenPort"@, crate::text::dec(x as nat));
        },
        None => {
            assert(b3 =~= Seq::<Seq<char>>::empty());
        },
    }
    crate::reload::lemma_plain_append(b1 + b2, b3);
    lemma_kv_pairs_append(b1 + b2, b3);
    lemma_iface_fold_append(o0, kv_pairs(b1 + b2), kv_pairs(b3));
    assert(iface_fold(o0, kv_pairs(b1 + b2 + b3)) == Ok::<OptionsView, FailKind>(o3));
    // the DNS servers
    let dv = if h.dns.len() > 0 {
        seq![join(h.dns, ", "@)]
    } else {
        Seq::<Seq<char>>::empty()
    };
    if h.dns.len() > 0 {
        assert(no_line_break(", "@));
        crate::roundtrip::lemma_join_no_line_break(h.dns, ", "@);
        lemma_one_value(join(h.dns, ", "@));
    }
    assert(b4 =~= prefixed_all("DNS"@ + " = "@, dv));
    lemma_other_lines(o3, "DNS"@, dv);
    let o4 = iface_fold(o3, kv_pairs(b4))->Ok_0;
    crate::reload::lemma_plain_append(b1 + b2 + b3, b4);
    lemma_kv_pairs_append(b1 + b2 + b3, b4);
    lemma_iface_fold_append(o0, kv_pairs(b1 + b2 + b3), kv_pairs(b4));
    assert(iface_fold(o0, kv_pairs(b1 + b2 + b3 + b4)) == Ok::<OptionsView, FailKind>(o4));
    // the MTU
    crate::roundtrip::lemma_seg_mtu(o4, h.mtu);
    match h.mtu {
        Some(x) => {
            crate::roundtrip::lemma_parse_dec(x as nat, 0xffff_ffff);
            lemma_plain_one("MTU"@, crate::text::dec(x as nat));
        },
        None => {
            assert(b5 =~= Seq::<Seq<char>>::empty());
        },
    }
    crate::reload::lemma_plain_append(b1 + b2 + b3 + b4, b5);
    lemma_kv_pairs_append(b1 + b2 + b3 + b4, b5);
    lemma_iface_fold_append(o0, kv_pairs(b1 + b2 + b3 + b4), kv_pairs(b5));
}

/// The `[Interface]` lines of a host with valid keys and addresses and no
/// line break in any value are plain and read back its key, addresses,
/// listen port and MTU.
#[verifier::spinoff_prover]
#[verifier::rlimit(60)]
pub proof fn lemma_iface_any(h: HostView)
    requires
        all_base64_symbols(h.private_key),
        crate::keys::cidr_list_ok(h.address),
        iface_unbroken(h),
    ensures
        crate::reload::plain_lines(iface_body(h)),
        iface_fold(no_options(), kv_pairs(iface_body(h))) matches Ok(o) && core_ok(o, h),
{
    lemma_interface_keys();
    reveal_strlit("true");
    reveal_strlit("false");
    lemma_iface_head(h);
    let c5 = iface_head(h);
    let b6 = opt_line("Table = "@, h.table);
    let b7 = prefixed_all("PreUp = "@, h.pre_up);
    let b8 = prefixed_all("PostUp = "@, h.post_up);
    let b9 = prefixed_all("PreDown = "@, h.pre_down);
    let b10 = prefixed_all("PostDown = "@, h.post_down);
    let b11 = save_config_lines(h);
    let b12 = fw_mark_lines(h);
    assert(iface_body(h) == c5 + b6 + b7 + b8 + b9 + b10 + b11 + b12);
    let e = Seq::<Seq<char>>::empty();
    let tv = match h.table {
        Some(t) => seq![t],
        None => e,
    };
    if let Some(t) = h.table {
        lemma_one_value(t);
    }
    assert(b6 =~= prefixed_all("Table"@ + " = "@, tv));
    lemma_step_other(h, c5, "Table"@, tv, b6);
    lemma_step_other(h, c5 + b6, "PreUp"@, h.pre_up, b7);
    lemma_step_other(h, c5 + b6 + b7, "PostUp"@, h.post_up, b8);
    lemma_step_other(h, c5 + b6 + b7 + b8, "PreDown"@, h.pre_down, b9);
    lemma_step_other(h, c5 + b6 + b7 + b8 + b9, "PostDown"@, h.post_down, b10);
    let sv = match h.save_config {
        Some(b) => seq![crate::host::bool_text(b)],
        None => e,
    };
    if let Some(b) = h.save_config {
        assert(no_line_break(crate::host::bool_text(b)));
        lemma_one_value(crate::host::bool_text(b));
    }
    assert(b11 =~= prefixed_all("SaveConfig"@ + " = "@, sv));
    lemma_step_other(h, c5 + b6 + b7 + b8 + b9 + b10, "SaveConfig"@, sv, b11);
    let fv = match h.fw_mark {
        Some(f) => if f.len() > 0 {
            seq![f]
        } else {
            e
        },
        None => e,
    };
    if let Some(f) = h.fw_mark {
        lemma_one_value(f);
    }
    assert(b12 =~= prefixed_all("FwMark"@ + " = "@, fv));
    lemma_step_other(h, c5 + b6 + b7 + b8 + b9 + b10 + b11, "FwMark"@, fv, b12);
}

// ---------------------------------------------------------------------
// `[Peer]` blocks
// ---------------------------------------------------------------------

pub open spec fn trimmed_opt(v: Option<Seq<char>>) -> Option<Seq<char>> {
    match v {
        Some(x) => Some(trim(x)),
        None => None,
    }
}

/// The block of a valid peer whose endpoint holds no line break is plain
/// and reads back its keys, allowed IPs and keepalive (and its endpoint
/// trimmed).
#[verifier::spinoff_prover]
#[verifier::rlimit(60)]
pub proof fn lemma_peer_any(p: PeerView)
    requires
        p.valid(),
        p.endpoint matches Some(e) ==> no_line_break(e),
    ensures
        crate::reload::plain_lines(crate::roundtrip::peer_body(p)),
        peer_fold(kv_pairs(crate::roundtrip::peer_body(p))) == Ok::<PeerAcc, FailKind>(
            PeerAcc {
                public_key: Some(p.public_key),
                preshared_key: p.preshared_key,
                allowed_ips: p.allowed_ips,
                endpoint: trimmed_opt(p.endpoint),
                keepalive: p.persistent_keepalive,
            },
        ),
{
    crate::roundtrip::lemma_peer_keys();
    let q = PeerView { endpoint: trimmed_opt(p.endpoint), comment: None, ..p };
    lemma_symbols_clean(p.public_key);
    if let Some(k) = p.preshared_key {
        lemma_symbols_clean(k);
    }
    lemma_address_list_clean(p.allowed_ips);
    if let Some(e) = p.endpoint {
        lemma_trimmed_clean(e);
    }
    assert(crate::roundtrip::clean_peer(q));
    crate::roundtrip::lemma_peer_fields(q);
    let b1 = seq!["PublicKey = "@ + p.public_key];
    let b2 = opt_line("PresharedKey = "@, p.preshared_key);
    let b3 = list_line("AllowedIPs = "@, p.allowed_ips);
    let b4 = opt_line("Endpoint = "@, p.endpoint);
    let b4q = opt_line("Endpoint = "@, q.endpoint);
    let b5 = num_line("PersistentKeepalive = "@, opt_nat32(p.persistent_keepalive));
    assert(crate::roundtrip::peer_body(p) == b1 + b2 + b3 + b4 + b5);
    assert(crate::roundtrip::peer_body(q) == b1 + b2 + b3 + b4q + b5);
    match p.endpoint {
        Some(e) => {
            lemma_kv_pairs_single("Endpoint"@, e);
            lemma_kv_pairs_single("Endpoint"@, trim(e));
            lemma_plain_one("Endpoint"@, e);
        },
        None => {},
    }
    assert(kv_pairs(b4) == kv_pairs(b4q));
    lemma_kv_pairs_append(b1 + b2 + b3, b4);
    lemma_kv_pairs_append(b1 + b2 + b3, b4q);
    lemma_kv_pairs_append(b1 + b2 + b3 + b4, b5);
    lemma_kv_pairs_append(b1 + b2 + b3 + b4q, b5);
    // plain lines
    lemma_plain_one("PublicKey"@, p.public_key);
    if let Some(k) = p.preshared_key {
        lemma_plain_one("PresharedKey"@, k);
    } else {
        assert(b2 =~= Seq::<Seq<char>>::empty());
    }
    if p.allowed_ips.len() > 0 {
        crate::roundtrip::lemma_list_value_clean(p.allowed_ips);
        lemma_plain_one("AllowedIPs"@, join(p.allowed_ips, ", "@));
    } else {
        assert(b3 =~= Seq::<Seq<char>>::empty());
    }
    if p.endpoint is None {
        assert(b4 =~= Seq::<Seq<char>>::empty());
    }
    match p.persistent_keepalive {
        Some(k) => {
            crate::roundtrip::lemma_parse_dec(k as nat, 0xffff_ffff);
            lemma_plain_one("PersistentKeepalive"@, crate::text::dec(k as nat));
        },
        None => {
            assert(b5 =~= Seq::<Seq<char>>::empty());
        },
    }
    crate::reload::lemma_plain_append(b1, b2);
    crate::reload::lemma_plain_append(b1 + b2, b3);
    crate::reload::lemma_plain_append(b1 + b2 + b3, b4);
    crate::reload::lemma_plain_append(b1 + b2 + b3 + b4, b5);
}

// ---------------------------------------------------------------------
// The whole text
// ---------------------------------------------------------------------

/// No value the host writes holds a line break.
pub open spec fn host_unbroken(h: HostView) -> bool {
    &&& no_line_break(h.name)
    &&& iface_unbroken(h)
    &&& forall|i: int| 0 <= i < h.peers.len() ==> #[trigger] peer_unbroken(h.peers[i])
}

pub open spec fn peer_unbroken(p: PeerView) -> bool {
    &&& (p.endpoint matches Some(e) ==> no_line_break(e))
    &&& (p.comment matches Some(c) ==> no_line_break(c))
}

/// A peer as the reader builds it from its block: the endpoint trimmed,
/// no comment.
pub open spec fn read_peer(p: PeerView) -> PeerView {
    PeerView { endpoint: trimmed_opt(p.endpoint), comment: None, ..p }
}

pub open spec fn read_peers(ps: Seq<PeerView>) -> Seq<PeerView> {
    Seq::new(ps.len(), |i: int| read_peer(ps[i]))
}

/// The scan state, once its open section is read, holds the read-back
/// fields of the host and its first `n` peers as the reader builds them.
pub open spec fn reads_fields(st: crate::parse::ScanState, h: HostView, n: int) -> bool {
    &&& st.header is Some
    &&& crate::parse::doc_fold(st.done) is Ok
    &&& crate::parse::doc_step(crate::parse::doc_fold(st.done)->Ok_0, (st.header->Some_0, st.body)) matches Ok(
        acc,
    ) && core_ok(acc.opts, h) && acc.peers == read_peers(h.peers.take(n))
}

#[verifier::spinoff_prover]
#[verifier::rlimit(60)]
proof fn lemma_scan_start_any(h: HostView)
    requires
        all_base64_symbols(h.private_key),
        crate::keys::cidr_list_ok(h.address),
        iface_unbroken(h),
        no_line_break(h.name),
    ensures
        reads_fields(crate::parse::scan_lines(crate::reload::prefix_lines(h, 0)), h, 0),
{
    crate::reload::lemma_headers();
    let head = seq!["# "@ + h.name];
    let empty = Seq::<Seq<char>>::empty();
    assert(h.peers.take(0) =~= Seq::<PeerView>::empty());
    assert(crate::reload::peer_blocks(h.peers.take(0)) =~= empty);
    crate::roundtrip::lemma_interface_lines_split(h);
    assert(crate::reload::prefix_lines(h, 0) =~= head.push("[Interface]"@) + iface_body(h));
    crate::roundtrip::lemma_comment_line(h.name);
    assert(empty.push("# "@ + h.name) =~= head);
    crate::reload::lemma_scan_push(empty, "# "@ + h.name);
    let st0 = crate::parse::scan_lines(head);
    assert(crate::parse::scan_lines(empty).body.push("# "@ + h.name) =~= head);
    assert(st0.header is None && st0.done =~= Seq::<(Seq<char>, Seq<Seq<char>>)>::empty()
        && st0.body =~= head);
    crate::reload::lemma_scan_push(head, "[Interface]"@);
    lemma_iface_any(h);
    crate::reload::lemma_scan_plain(head.push("[Interface]"@), iface_body(h));
    let st2 = crate::parse::scan_lines(crate::reload::prefix_lines(h, 0));
    assert(st2.header == Some("interface"@) && st2.done == st0.done && st2.body == head + iface_body(h));
    lemma_kv_pairs_append(head, iface_body(h));
    assert(head.drop_last() =~= empty);
    assert(kv_pairs(head) == kv_pairs(head.drop_last()));
    assert(kv_pairs(empty) =~= Seq::<(Seq<char>, Seq<char>)>::empty());
    assert(kv_pairs(head + iface_body(h)) =~= kv_pairs(iface_body(h)));
    assert(read_peers(h.peers.take(0)) =~= Seq::<PeerView>::empty());
}

#[verifier::spinoff_prover]
#[verifier::rlimit(60)]
proof fn lemma_scan_peer_any(h: HostView, n: int)
    requires
        1 <= n <= h.peers.len(),
        peers_valid(h.peers),
        peer_unbroken(h.peers[n - 1]),
        reads_fields(crate::parse::scan_lines(crate::reload::prefix_lines(h, n - 1)), h, n - 1),
    ensures
        reads_fields(crate::parse::scan_lines(crate::reload::prefix_lines(h, n)), h, n),
{
    crate::reload::lemma_headers();
    let p = h.peers[n - 1];
    assert(h.peers[n - 1].valid());
    let a = crate::reload::prefix_lines(h, n - 1);
    let st = crate::parse::scan_lines(a);
    let hd = st.header->Some_0;
    let prev = crate::parse::doc_fold(st.done)->Ok_0;
    let gap = crate::reload::gap_lines(p);
    assert(h.peers.take(n).drop_last() =~= h.peers.take(n - 1));
    assert(h.peers.take(n).last() == p);
    crate::roundtrip::lemma_peer_lines_split(p);
    let body = crate::roundtrip::peer_body(p);
    assert(crate::reload::prefix_lines(h, n) =~= (a + gap).push("[Peer]"@) + body);
    crate::reload::lemma_gap_lines(p);
    crate::reload::lemma_scan_plain(a, gap);
    crate::reload::lemma_scan_push(a + gap, "[Peer]"@);
    lemma_peer_any(p);
    crate::reload::lemma_scan_plain((a + gap).push("[Peer]"@), body);
    let st3 = crate::parse::scan_lines(crate::reload::prefix_lines(h, n));
    assert(st3.done == st.done.push((hd, st.body + gap)));
    assert(st3.header == Some("peer"@));
    assert(st3.body =~= body);
    lemma_kv_pairs_append(st.body, gap);
    assert(kv_pairs(st.body + gap) =~= kv_pairs(st.body));
    assert(st3.done.drop_last() =~= st.done);
    let acc = crate::parse::doc_step(prev, (hd, st.body))->Ok_0;
    assert(crate::parse::doc_fold(st3.done) == crate::parse::doc_step(prev, (hd, st.body + gap)));
    assert(crate::parse::doc_fold(st3.done) == Ok::<crate::parse::DocAcc, FailKind>(acc));
    assert(read_peers(h.peers.take(n)) =~= read_peers(h.peers.take(n - 1)).push(read_peer(p)));
}

proof fn lemma_scan_prefix_any(h: HostView, n: int)
    requires
        0 <= n <= h.peers.len(),
        all_base64_symbols(h.private_key),
        crate::keys::cidr_list_ok(h.address),
        host_unbroken(h),
        peers_valid(h.peers),
    ensures
        reads_fields(crate::parse::scan_lines(crate::reload::prefix_lines(h, n)), h, n),
    decreases n,
{
    if n == 0 {
        lemma_scan_start_any(h);
    } else {
        lemma_scan_prefix_any(h, n - 1);
        assert(peer_unbroken(h.peers[n - 1]));
        lemma_scan_peer_any(h, n);
    }
}

proof fn lemma_peer_blocks_unbroken_any(ps: Seq<PeerView>)
    requires
        peers_valid(ps),
        forall|i: int| 0 <= i < ps.len() ==> #[trigger] peer_unbroken(ps[i]),
    ensures
        crate::reload::unbroken(crate::reload::peer_blocks(ps)),
    decreases ps.len(),
{
    if ps.len() > 0 {
        let init = ps.drop_last();
        let p = ps.last();
        assert(peers_valid(init)) by {
            assert forall|i: int| 0 <= i < init.len() implies (#[trigger] init[i]).valid() by {
                assert(init[i] == ps[i]);
            }
        }
        assert forall|i: int| 0 <= i < init.len() implies #[trigger] peer_unbroken(init[i]) by {
            assert(init[i] == ps[i]);
        }
        lemma_peer_blocks_unbroken_any(init);
        assert(peer_unbroken(ps[ps.len() - 1]));
        assert(ps[ps.len() - 1].valid());
        crate::reload::lemma_gap_lines(p);
        crate::reload::lemma_plain_unbroken(crate::reload::gap_lines(p));
        crate::reload::lemma_headers();
        lemma_peer_any(p);
        crate::reload::lemma_plain_unbroken(crate::roundtrip::peer_body(p));
        crate::roundtrip::lemma_peer_lines_split(p);
        let hdr = seq!["[Peer]"@];
        assert(crate::reload::unbroken(hdr)) by {
            assert(hdr[0] == "[Peer]"@);
        }
        assert(seq![Seq::<char>::empty()] + crate::peer::peer_lines(p) =~= crate::reload::gap_lines(p) + hdr
            + crate::roundtrip::peer_body(p));
        crate::reload::lemma_unbroken_append(crate::reload::gap_lines(p), hdr);
        crate::reload::lemma_unbroken_append(
            crate::reload::gap_lines(p) + hdr,
            crate::roundtrip::peer_body(p),
        );
        crate::reload::lemma_unbroken_append(
            crate::reload::peer_blocks(init),
            seq![Seq::<char>::empty()] + crate::peer::peer_lines(p),
        );
        assert(crate::reload::peer_blocks(ps) =~= crate::reload::peer_blocks(init) + (seq![
            Seq::<char>::empty(),
        ] + crate::peer::peer_lines(p)));
    }
}

proof fn lemma_config_text_any(h: HostView)
    requires
        all_base64_symbols(h.private_key),
        crate::keys::cidr_list_ok(h.address),
        host_unbroken(h),
        peers_valid(h.peers),
    ensures
        full_config(h) == join(crate::reload::config_lines(h), "\n"@) + "\n"@,
        crate::text::lines(full_config(h)) == crate::reload::config_lines(h),
{
    crate::reload::lemma_config_join(h, h.peers);
    let head = seq!["# "@ + h.name];
    crate::roundtrip::lemma_comment_line(h.name);
    assert(crate::reload::unbroken(head)) by {
        assert(head[0] == "# "@ + h.name);
    }
    crate::reload::lemma_headers();
    let hdr = seq!["[Interface]"@];
    assert(crate::reload::unbroken(hdr)) by {
        assert(hdr[0] == "[Interface]"@);
    }
    lemma_iface_any(h);
    crate::reload::lemma_plain_unbroken(iface_body(h));
    crate::roundtrip::lemma_interface_lines_split(h);
    crate::reload::lemma_unbroken_append(hdr, iface_body(h));
    crate::reload::lemma_unbroken_append(head, interface_lines(h, true));
    lemma_peer_blocks_unbroken_any(h.peers);
    crate::reload::lemma_unbroken_append(head + interface_lines(h, true), crate::reload::peer_blocks(h.peers));
    crate::roundtrip::lemma_lines_of_text(crate::reload::config_lines(h));
}

/// Writing a host to `.conf` text and loading that text under any name
/// gives a host with that name and the same private and public key,
/// addresses, listen port and MTU, and the same peers in the same order
/// with the same public keys, allowed IPs, pre-shared keys and keepalives
/// (their endpoints trimmed, their comments left out). This holds of
/// every host `WireGuardHost::new` builds with valid peers, whatever its
/// other values hold, as long as no value holds a line break.
pub proof fn lemma_config_fields_roundtrip(h: HostView, name: Seq<char>)
    requires
        host_keys_ok(h),
        peers_valid(h.peers),
        host_unbroken(h),
    ensures
        crate::parse::spec_load_host(full_config(h), name) matches Ok(r) && r.name == name
            && r.private_key == h.private_key && r.public_key == h.public_key && r.address
            == h.address && r.listen_port == h.listen_port && r.mtu == h.mtu && r.peers
            == read_peers(h.peers),
{
    lemma_config_text_any(h);
    let n = h.peers.len() as int;
    lemma_scan_prefix_any(h, n);
    assert(h.peers.take(n) =~= h.peers);
    assert(crate::reload::prefix_lines(h, n) =~= crate::reload::config_lines(h));
    let st = crate::parse::scan_lines(crate::reload::config_lines(h));
    let hd = st.header->Some_0;
    assert(crate::parse::sections(full_config(h)) == st.done.push((hd, st.body)));
    assert(st.done.push((hd, st.body)).drop_last() =~= st.done);
    let acc = crate::parse::doc_step(crate::parse::doc_fold(st.done)->Ok_0, (hd, st.body))->Ok_0;
    assert(crate::parse::doc_fold(crate::parse::sections(full_config(h))) == Ok::<
        crate::parse::DocAcc,
        FailKind,
    >(acc));
    assert(acc.opts.private_key == Some(h.private_key));
    assert(crate::host::options_ok(acc.opts));
}

} // verus!
