//! How a host is laid out as text: the `[Interface]` section with and
//! without its private key, and the whole `.conf` text.
use vstd::prelude::*;

use crate::host::{
    full_config, interface_config, interface_lines, list_line, num_line, opt_line, opt_nat16,
    opt_nat32, peer_parts, prefixed_all, HostView,
};
use crate::peer::{peer_config, PeerView};
use crate::roundtrip::{fw_mark_lines, iface_rest, lemma_join_append, save_config_lines};
use crate::text::{join, lines};

verus! {

/// Each peer's block after an empty line, one after the other.
pub open spec fn peer_blocks(ps: Seq<PeerView>) -> Seq<char>
    decreases ps.len(),
{
    if ps.len() == 0 {
        Seq::empty()
    } else {
        peer_blocks(ps.drop_last()) + "\n"@ + "\n"@ + peer_config(ps.last())
    }
}

/// What follows the `[Interface]` header in a section written without its
/// key: each remaining line after a line break.
pub open spec fn interface_tail(h: HostView) -> Seq<char> {
    if iface_rest(h).len() == 0 {
        Seq::empty()
    } else {
        "\n"@ + join(iface_rest(h), "\n"@)
    }
}

/// No line of the list starts with `PrivateKey`.
pub open spec fn no_key_line(v: Seq<Seq<char>>) -> bool {
    forall|i: int| 0 <= i < v.len() ==> !"PrivateKey"@.is_prefix_of(#[trigger] v[i])
}

proof fn lemma_not_key(p: Seq<char>, x: Seq<char>, j: int)
    requires
        0 <= j < p.len(),
        j < 10,
        p[j] != "PrivateKey"@[j],
    ensures
        !"PrivateKey"@.is_prefix_of(p + x),
{
    reveal_strlit("PrivateKey");
    if "PrivateKey"@.is_prefix_of(p + x) {
        assert((p + x)[j] == p[j]);
        assert("PrivateKey"@[j] == (p + x).subrange(0, 10)[j]);
    }
}

proof fn lemma_no_key_append(a: Seq<Seq<char>>, b: Seq<Seq<char>>)
    requires
        no_key_line(a),
        no_key_line(b),
    ensures
        no_key_line(a + b),
{
    assert forall|i: int| 0 <= i < (a + b).len() implies !"PrivateKey"@.is_prefix_of(
        #[trigger] (a + b)[i],
    ) by {
        if i < a.len() {
            assert((a + b)[i] == a[i]);
        } else {
            assert((a + b)[i] == b[i - a.len()]);
        }
    }
}

proof fn lemma_no_key_prefixed_all(p: Seq<char>, items: Seq<Seq<char>>, j: int)
    requires
        0 <= j < p.len(),
        j < 10,
        p[j] != "PrivateKey"@[j],
    ensures
        no_key_line(prefixed_all(p, items)),
{
    assert forall|i: int| 0 <= i < prefixed_all(p, items).len() implies !"PrivateKey"@.is_prefix_of(
        #[trigger] prefixed_all(p, items)[i],
    ) by {
        lemma_not_key(p, items[i], j);
    }
}

proof fn lemma_no_key_one(v: Seq<Seq<char>>, p: Seq<char>, x: Seq<char>, j: int)
    requires
        v.len() == 0 || v == seq![p + x],
        0 <= j < p.len(),
        j < 10,
        p[j] != "PrivateKey"@[j],
    ensures
        no_key_line(v),
{
    if v.len() != 0 {
        lemma_not_key(p, x, j);
        assert(v[0] == p + x);
    }
}

/// No line of the `[Interface]` section after its header names a key.
proof fn lemma_iface_rest_no_key(h: HostView)
    ensures
        no_key_line(iface_rest(h)),
{
    reveal_strlit("PrivateKey");
    reveal_strlit("Address = ");
    reveal_strlit("ListenPort = ");
    reveal_strlit("DNS = ");
    reveal_strlit("MTU = ");
    reveal_strlit("Table = ");
    reveal_strlit("PreUp = ");
    reveal_strlit("PostUp = ");
    reveal_strlit("PreDown = ");
    reveal_strlit("PostDown = ");
    reveal_strlit("SaveConfig = ");
    reveal_strlit("FwMark = ");
    let b2 = list_line("Address = "@, h.address);
    let b3 = num_line("ListenPort = "@, opt_nat16(h.listen_port));
    let b4 = list_line("DNS = "@, h.dns);
    let b5 = num_line("MTU = "@, opt_nat32(h.mtu));
    let b6 = opt_line("Table = "@, h.table);
    let b7 = prefixed_all("PreUp = "@, h.pre_up);
    let b8 = prefixed_all("PostUp = "@, h.post_up);
    let b9 = prefixed_all("PreDown = "@, h.pre_down);
    let b10 = prefixed_all("PostDown = "@, h.post_down);
    let b11 = save_config_lines(h);
    let b12 = fw_mark_lines(h);
    lemma_no_key_one(b2, "Address = "@, join(h.address, ", "@), 0);
    lemma_no_key_one(b3, "ListenPort = "@, crate::text::dec(opt_nat16(h.listen_port)->0), 0);
    lemma_no_key_one(b4, "DNS = "@, join(h.dns, ", "@), 0);
    lemma_no_key_one(b5, "MTU = "@, crate::text::dec(opt_nat32(h.mtu)->0), 0);
    lemma_no_key_one(b6, "Table = "@, h.table->0, 0);
    lemma_no_key_prefixed_all("PreUp = "@, h.pre_up, 2);
    lemma_no_key_prefixed_all("PostUp = "@, h.post_up, 1);
    lemma_no_key_prefixed_all("PreDown = "@, h.pre_down, 2);
    lemma_no_key_prefixed_all("PostDown = "@, h.post_down, 1);
    lemma_no_key_one(b11, "SaveConfig = "@, crate::host::bool_text(h.save_config->0), 0);
    lemma_no_key_one(b12, "FwMark = "@, h.fw_mark->0, 0);
    lemma_no_key_append(b2, b3);
    lemma_no_key_append(b2 + b3, b4);
    lemma_no_key_append(b2 + b3 + b4, b5);
    lemma_no_key_append(b2 + b3 + b4 + b5, b6);
    lemma_no_key_append(b2 + b3 + b4 + b5 + b6, b7);
    lemma_no_key_append(b2 + b3 + b4 + b5 + b6 + b7, b8);
    lemma_no_key_append(b2 + b3 + b4 + b5 + b6 + b7 + b8, b9);
    lemma_no_key_append(b2 + b3 + b4 + b5 + b6 + b7 + b8 + b9, b10);
    lemma_no_key_append(b2 + b3 + b4 + b5 + b6 + b7 + b8 + b9 + b10, b11);
    lemma_no_key_append(b2 + b3 + b4 + b5 + b6 + b7 + b8 + b9 + b10 + b11, b12);
}

proof fn lemma_regroup(
    x: Seq<Seq<char>>,
    b2: Seq<Seq<char>>,
    b3: Seq<Seq<char>>,
    b4: Seq<Seq<char>>,
    b5: Seq<Seq<char>>,
    b6: Seq<Seq<char>>,
    b7: Seq<Seq<char>>,
    b8: Seq<Seq<char>>,
    b9: Seq<Seq<char>>,
    b10: Seq<Seq<char>>,
    b11: Seq<Seq<char>>,
    b12: Seq<Seq<char>>,
)
    ensures
        x + b2 + b3 + b4 + b5 + b6 + b7 + b8 + b9 + b10 + b11 + b12 == x + (b2 + b3 + b4 + b5 + b6
            + b7 + b8 + b9 + b10 + b11 + b12),
{
    let r3 = b2 + b3;
    let r4 = r3 + b4;
    let r5 = r4 + b5;
    let r6 = r5 + b6;
    let r7 = r6 + b7;
    let r8 = r7 + b8;
    let r9 = r8 + b9;
    let r10 = r9 + b10;
    let r11 = r10 + b11;
    let r12 = r11 + b12;
    assert(x + b2 + b3 =~= x + r3);
    assert(x + r3 + b4 =~= x + r4);
    assert(x + r4 + b5 =~= x + r5);
    assert(x + r5 + b6 =~= x + r6);
    assert(x + r6 + b7 =~= x + r7);
    assert(x + r7 + b8 =~= x + r8);
    assert(x + r8 + b9 =~= x + r9);
    assert(x + r9 + b10 =~= x + r10);
    assert(x + r10 + b11 =~= x + r11);
    assert(x + r11 + b12 =~= x + r12);
}

proof fn lemma_interface_line_lists(h: HostView)
    ensures
        interface_lines(h, false) == seq!["[Interface]"@] + iface_rest(h),
        interface_lines(h, true) == seq!["[Interface]"@] + seq!["PrivateKey = "@ + h.private_key]
            + iface_rest(h),
{
    let hdr = seq!["[Interface]"@];
    let kl = seq!["PrivateKey = "@ + h.private_key];
    let b2 = list_line("Address = "@, h.address);
    let b3 = num_line("ListenPort = "@, opt_nat16(h.listen_port));
    let b4 = list_line("DNS = "@, h.dns);
    let b5 = num_line("MTU = "@, opt_nat32(h.mtu));
    let b6 = opt_line("Table = "@, h.table);
    let b7 = prefixed_all("PreUp = "@, h.pre_up);
    let b8 = prefixed_all("PostUp = "@, h.post_up);
    let b9 = prefixed_all("PreDown = "@, h.pre_down);
    let b10 = prefixed_all("PostDown = "@, h.post_down);
    let b11 = save_config_lines(h);
    let b12 = fw_mark_lines(h);
    let e = Seq::<Seq<char>>::empty();
    assert(interface_lines(h, false) == hdr + e + b2 + b3 + b4 + b5 + b6 + b7 + b8 + b9 + b10 + b11
        + b12);
    assert(interface_lines(h, true) == hdr + kl + b2 + b3 + b4 + b5 + b6 + b7 + b8 + b9 + b10 + b11
        + b12);
    lemma_regroup(hdr + e, b2, b3, b4, b5, b6, b7, b8, b9, b10, b11, b12);
    lemma_regroup(hdr + kl, b2, b3, b4, b5, b6, b7, b8, b9, b10, b11, b12);
    assert(hdr + e =~= hdr);
}

proof fn lemma_join_after_head(head: Seq<Seq<char>>, rest: Seq<Seq<char>>)
    requires
        head.len() > 0,
    ensures
        join(head + rest, "\n"@) == join(head, "\n"@) + (if rest.len() == 0 {
            Seq::empty()
        } else {
            "\n"@ + join(rest, "\n"@)
        }),
{
    if rest.len() == 0 {
        assert(head + rest =~= head);
        assert(join(head, "\n"@) + Seq::<char>::empty() =~= join(head, "\n"@));
    } else {
        lemma_join_append(head, rest, "\n"@);
        assert(join(head, "\n"@) + "\n"@ + join(rest, "\n"@) =~= join(head, "\n"@) + ("\n"@ + join(
            rest,
            "\n"@,
        )));
    }
}

#[verifier::spinoff_prover]
proof fn lemma_interface_texts(h: HostView)
    ensures
        interface_lines(h, false) == seq!["[Interface]"@] + iface_rest(h),
        interface_lines(h, true) == seq!["[Interface]"@] + seq!["PrivateKey = "@ + h.private_key]
            + iface_rest(h),
        interface_config(h, false) == "[Interface]"@ + interface_tail(h),
        interface_config(h, true) == "[Interface]"@ + "\n"@ + "PrivateKey = "@ + h.private_key
            + interface_tail(h),
{
    let hdr = seq!["[Interface]"@];
    let kl = seq!["PrivateKey = "@ + h.private_key];
    let rest = iface_rest(h);
    lemma_interface_line_lists(h);
    assert(join(hdr, "\n"@) == "[Interface]"@);
    assert(join(hdr + kl, "\n"@) == "[Interface]"@ + "\n"@ + ("PrivateKey = "@ + h.private_key)) by {
        assert((hdr + kl).drop_last() =~= hdr);
    }
    lemma_join_after_head(hdr, rest);
    lemma_join_after_head(hdr + kl, rest);
    assert(interface_config(h, true) =~= "[Interface]"@ + "\n"@ + "PrivateKey = "@ + h.private_key
        + interface_tail(h));
}

/// Writing the private key adds exactly one line, `PrivateKey = <key>`,
/// right after the `[Interface]` header and changes nothing else; written
/// without it, no line of the section starts with `PrivateKey`.
pub proof fn lemma_interface_key_line(h: HostView)
    ensures
        interface_lines(h, false) == seq!["[Interface]"@] + iface_rest(h),
        interface_lines(h, true) == interface_lines(h, false).insert(
            1,
            "PrivateKey = "@ + h.private_key,
        ),
        interface_config(h, false) == "[Interface]"@ + interface_tail(h),
        interface_config(h, true) == "[Interface]"@ + "\n"@ + "PrivateKey = "@ + h.private_key
            + interface_tail(h),
        no_key_line(interface_lines(h, false)),
{
    let hdr = seq!["[Interface]"@];
    let rest = iface_rest(h);
    lemma_interface_texts(h);
    assert(interface_lines(h, true) =~= interface_lines(h, false).insert(
        1,
        "PrivateKey = "@ + h.private_key,
    ));
    lemma_iface_rest_no_key(h);
    assert(no_key_line(hdr)) by {
        reveal_strlit("PrivateKey");
        reveal_strlit("[Interface]");
        lemma_not_key("[Interface]"@, Seq::empty(), 0);
        assert("[Interface]"@ + Seq::<char>::empty() =~= "[Interface]"@);
    }
    lemma_no_key_append(hdr, rest);
}

proof fn lemma_parts_blocks(head: Seq<Seq<char>>, ps: Seq<PeerView>)
    requires
        head.len() > 0,
    ensures
        join(head + peer_parts(ps), "\n"@) == join(head, "\n"@) + peer_blocks(ps),
    decreases ps.len(),
{
    if ps.len() == 0 {
        assert(head + peer_parts(ps) =~= head);
    } else {
        let x = head + peer_parts(ps.drop_last());
        let y = seq![Seq::<char>::empty(), peer_config(ps.last())];
        lemma_parts_blocks(head, ps.drop_last());
        assert(head + peer_parts(ps) =~= x + y);
        lemma_join_append(x, y, "\n"@);
        assert(y.drop_last() =~= seq![Seq::<char>::empty()]);
        assert(join(y.drop_last(), "\n"@) == Seq::<char>::empty());
        assert(y.last() == peer_config(ps.last()));
        assert(join(y, "\n"@) == Seq::<char>::empty() + "\n"@ + peer_config(ps.last()));
        assert(join(x, "\n"@) + "\n"@ + join(y, "\n"@) =~= join(head, "\n"@) + peer_blocks(ps));
    }
}

/// The whole `.conf` text is the `# name` comment line, the `[Interface]`
/// section with its key, each peer's block after an empty line, and a
/// final line break.
pub proof fn lemma_full_config_layout(h: HostView)
    ensures
        full_config(h) == "# "@ + h.name + "\n"@ + interface_config(h, true) + peer_blocks(h.peers)
            + "\n"@,
{
    let head = seq!["# "@ + h.name, interface_config(h, true)];
    lemma_parts_blocks(head, h.peers);
    assert(head.drop_last() =~= seq!["# "@ + h.name]);
    assert(join(head.drop_last(), "\n"@) == "# "@ + h.name);
    assert(head.last() == interface_config(h, true));
    assert(join(head, "\n"@) == "# "@ + h.name + "\n"@ + interface_config(h, true));
    assert(full_config(h) =~= "# "@ + h.name + "\n"@ + interface_config(h, true) + peer_blocks(h.peers)
        + "\n"@);
}

/// For a host `WireGuardHost::new` builds whose values hold no line break,
/// the lines of its `[Interface]` text written with the private key are
/// the lines written without it, with `PrivateKey = <key>` inserted right
/// after the first line, `[Interface]`; and no line of the text written
/// without it starts with `PrivateKey`.
pub proof fn lemma_interface_key_line_text(h: HostView)
    requires
        crate::host::host_keys_ok(h),
        crate::field_law::iface_unbroken(h),
    ensures
        lines(interface_config(h, false))[0] == "[Interface]"@,
        lines(interface_config(h, true)) == lines(interface_config(h, false)).insert(
            1,
            "PrivateKey = "@ + h.private_key,
        ),
        no_key_line(lines(interface_config(h, false))),
{
    lemma_interface_key_line(h);
    crate::field_law::lemma_iface_any(h);
    crate::reload::lemma_plain_unbroken(crate::roundtrip::iface_body(h));
    crate::roundtrip::lemma_interface_lines_split(h);
    crate::reload::lemma_headers();
    crate::reload::lemma_iface_rest_filled(h);
    let hdr = seq!["[Interface]"@];
    let lt = interface_lines(h, true);
    let lf = interface_lines(h, false);
    let kl = "PrivateKey = "@ + h.private_key;
    assert(crate::reload::unbroken(hdr)) by {
        assert(hdr[0] == "[Interface]"@);
    }
    crate::reload::lemma_unbroken_append(hdr, crate::roundtrip::iface_body(h));
    assert(crate::reload::unbroken(lt));
    assert(crate::reload::unbroken(lf)) by {
        assert forall|i: int| 0 <= i < lf.len() implies crate::roundtrip::no_line_break(#[trigger] lf[i]) by {
            if i == 0 {
                assert(lt[0] == lf[0]);
            } else {
                assert(lt[i + 1] == lf[i]);
            }
        }
    }
    reveal_strlit("[Interface]");
    reveal_strlit("PrivateKey = ");
    assert(lf.last().len() > 0) by {
        let rest = iface_rest(h);
        if rest.len() > 0 {
            assert(lf.last() == rest.last());
            assert(rest[rest.len() - 1].len() > 0);
        } else {
            assert(lf.last() == "[Interface]"@);
        }
    }
    assert(lt.last().len() > 0) by {
        if lf.len() > 1 {
            assert(lt.last() == lf.last());
        } else {
            assert(lt.last() == kl);
        }
    }
    crate::reload::lemma_lines_of_joined(lf);
    crate::reload::lemma_lines_of_joined(lt);
}

} // verus!
