//! What the studio's forms do with their fields, stated in terms of the
//! fields themselves: the client's exported `[Peer]`, the host model built
//! from the host form, a client config opened into a form, a client form
//! saved to a project record and opened again, and a host config loaded
//! into the host form.
use vstd::prelude::*;

use crate::client_tab::{
    client_peer_view, client_record, host_peer_view, loaded_client, project_client, sync_name, sync_options,
    u32_parse_ok, ClientView,
};
use crate::host::HostView;
use crate::host_tab::{interface_built, loaded_host_tab, HostTabView};
use crate::keys::cidr_list_ok;
use crate::peer::PeerView;
use crate::project::ClientProjectDict;
use crate::record_law::{kept_entry, lemma_lines_of_join, lemma_split_csv_stable, lemma_trimmed_nonempty_of_kept};
use crate::roundtrip::{csv_entry, lemma_split_csv_join_entries};
use crate::text::{join, lines, split_char, split_csv, trim, trimmed_nonempty};

verus! {

/// Entries without commas or white space at their ends, joined by `", "`,
/// split back into the entries.
pub proof fn lemma_csv_of_entries(v: Seq<Seq<char>>)
    requires
        forall|i: int| 0 <= i < v.len() ==> csv_entry(#[trigger] v[i]),
    ensures
        split_csv(join(v, ", "@)) == v,
{
    if v.len() > 0 {
        lemma_split_csv_join_entries(v);
    } else {
        let e = Seq::<char>::empty();
        assert(join(v, ", "@) =~= e);
        assert(split_char(e, ',') =~= seq![e]);
        assert(seq![e].drop_last() =~= Seq::<Seq<char>>::empty());
        assert(trim(e) =~= e);
        assert(trimmed_nonempty(Seq::<Seq<char>>::empty()) =~= Seq::<Seq<char>>::empty());
        assert(trimmed_nonempty(seq![e]) =~= Seq::<Seq<char>>::empty());
        assert(split_csv(join(v, ", "@)) =~= v);
    }
}

/// Valid addresses joined by `", "` split back into the addresses.
pub proof fn lemma_csv_of_addresses(v: Seq<Seq<char>>)
    requires
        cidr_list_ok(v),
    ensures
        split_csv(join(v, ", "@)) == v,
{
    crate::field_law::lemma_address_list_clean(v);
    assert forall|i: int| 0 <= i < v.len() implies csv_entry(#[trigger] v[i]) by {
        assert(crate::roundtrip::clean_entry(v[i]));
    }
    lemma_csv_of_entries(v);
}

/// Lines without line breaks or white space at their ends, joined by line
/// feeds, are the lines a multi-line field reads as.
pub proof fn lemma_lines_field_of(v: Seq<Seq<char>>)
    requires
        forall|i: int| 0 <= i < v.len() ==> kept_entry(#[trigger] v[i], '\n'),
    ensures
        crate::form::spec_split_lines(join(v, "\n"@)) == v,
{
    lemma_lines_of_join(v);
    lemma_trimmed_nonempty_of_kept(v, '\n');
}

/// The `[Peer]` entry a synced client exports points at the host: the
/// host's public key and name, the pre-shared key in use, the endpoint
/// field trimmed (none only when the field is blank), the allowed-IPs
/// field's entries (the catch-all route when there are none), and the
/// keepalive field's number (none when blank).
pub proof fn lemma_client_peer_fields(
    c: ClientView,
    host_pubkey: Seq<char>,
    host_name: Seq<char>,
    psk: Option<Seq<char>>,
)
    ensures
        ({
            let p = client_peer_view(c, host_pubkey, host_name, psk);
            &&& p.public_key == host_pubkey
            &&& p.comment == Some(host_name)
            &&& p.preshared_key == psk
            &&& trim(c.endpoint).len() == 0 ==> p.endpoint is None
            &&& trim(c.endpoint).len() > 0 ==> p.endpoint == Some(trim(c.endpoint))
            &&& split_csv(c.allowed_ips).len() > 0 ==> p.allowed_ips == split_csv(c.allowed_ips)
            &&& split_csv(c.allowed_ips).len() == 0 ==> p.allowed_ips == seq!["0.0.0.0/0"@]
            &&& trim(c.keepalive).len() == 0 ==> p.persistent_keepalive is None
            &&& trim(c.keepalive).len() > 0 ==> p.persistent_keepalive is Some
        }),
{
}

/// The host-side `[Peer]` entry of a synced client: the client's public
/// key and name, its address field's entries as allowed IPs (the
/// catch-all route when there are none), the pre-shared key in use, and no
/// endpoint or keepalive; the client's own interface holds its private key,
/// its address and DNS fields' entries and no listen port.
pub proof fn lemma_synced_fields(
    c: ClientView,
    public_key: Seq<char>,
    private_key: Seq<char>,
    psk: Option<Seq<char>>,
)
    ensures
        ({
            let p = host_peer_view(c, public_key, sync_name(c), psk);
            let o = sync_options(c, private_key);
            &&& p.public_key == public_key
            &&& p.comment == Some(sync_name(c))
            &&& p.preshared_key == psk
            &&& p.endpoint is None
            &&& p.persistent_keepalive is None
            &&& split_csv(c.address).len() > 0 ==> p.allowed_ips == split_csv(c.address)
            &&& split_csv(c.address).len() == 0 ==> p.allowed_ips == seq!["0.0.0.0/0"@]
            &&& o.private_key == Some(private_key)
            &&& o.address == split_csv(c.address)
            &&& o.dns == split_csv(c.dns)
            &&& o.listen_port is None
        }),
        trim(c.name).len() > 0 ==> sync_name(c) == trim(c.name),
{
}

/// The host model built from the host form holds the form's fields: the
/// trimmed name (unless blank), the address and DNS fields' entries, the
/// trimmed non-blank lines of each script field, the trimmed table and
/// firewall mark (none when blank), the save-config box, the MTU field's
/// number (none when blank), and no peers.
pub proof fn lemma_interface_model_fields(o: HostTabView, f: HostTabView, hv: HostView)
    requires
        interface_built(o, f, Some(hv)),
    ensures
        trim(o.name).len() > 0 ==> hv.name == trim(o.name),
        trim(o.name).len() == 0 ==> hv.name == o.name,
        hv.address == split_csv(o.address),
        hv.dns == split_csv(o.dns),
        hv.pre_up == trimmed_nonempty(lines(o.pre_up)),
        hv.post_up == trimmed_nonempty(lines(o.post_up)),
        hv.pre_down == trimmed_nonempty(lines(o.pre_down)),
        hv.post_down == trimmed_nonempty(lines(o.post_down)),
        trim(o.table).len() == 0 ==> hv.table is None,
        trim(o.table).len() > 0 ==> hv.table == Some(trim(o.table)),
        trim(o.fwmark).len() == 0 ==> hv.fw_mark is None,
        trim(o.fwmark).len() > 0 ==> hv.fw_mark == Some(trim(o.fwmark)),
        hv.save_config == Some(o.save_config),
        trim(o.mtu).len() == 0 ==> hv.mtu is None,
        trim(o.mtu).len() > 0 ==> hv.mtu is Some,
        hv.peers.len() == 0,
{
}

/// A client config opened into a form: the form's allowed-IPs field reads
/// back as the first peer's allowed IPs (the catch-all route when it has
/// none), its endpoint and pre-shared key fields hold the peer's, and the
/// address field reads back as the host's addresses.
pub proof fn lemma_loaded_client_fields(id: u64, h: HostView)
    ensures
        ({
            let c = loaded_client(id, h);
            &&& c.name == h.name
            &&& c.private_key == h.private_key
            &&& c.public_key == h.public_key
            &&& cidr_list_ok(h.address) ==> split_csv(c.address) == h.address
            &&& h.peers.len() > 0 ==> {
                let p = h.peers[0];
                &&& p.allowed_ips.len() > 0 && cidr_list_ok(p.allowed_ips) ==> split_csv(c.allowed_ips)
                    == p.allowed_ips
                &&& p.allowed_ips.len() == 0 ==> c.allowed_ips == "0.0.0.0/0"@
                &&& p.endpoint matches Some(e) ==> c.endpoint == e
                &&& c.use_psk == p.preshared_key is Some
                &&& p.preshared_key matches Some(k) ==> c.psk == k
            }
            &&& h.peers.len() == 0 ==> c.allowed_ips == "0.0.0.0/0"@
        }),
{
    reveal_strlit("0.0.0.0/0");
    if cidr_list_ok(h.address) {
        lemma_csv_of_addresses(h.address);
    }
    if h.peers.len() > 0 {
        let p = h.peers[0];
        if p.allowed_ips.len() > 0 && cidr_list_ok(p.allowed_ips) {
            lemma_csv_of_addresses(p.allowed_ips);
        }
    }
}

/// A client form saved to a project record and opened again has the same
/// name, the same address, DNS and allowed-IPs entries, and the same MTU
/// number.
pub proof fn lemma_client_record_reopens(c: ClientView, d: ClientProjectDict, id: u64, private_key: Seq<char>)
    requires
        client_record(c, d),
    ensures
        ({
            let c2 = project_client(id, d, private_key);
            &&& c2.name == c.name
            &&& split_csv(c2.address) == split_csv(c.address)
            &&& split_csv(c2.dns) == split_csv(c.dns)
            &&& crate::client_tab::csv_or_any(c2.allowed_ips) == crate::client_tab::csv_or_any(c.allowed_ips)
            &&& u32_parse_ok(c2.mtu) == u32_parse_ok(c.mtu)
            &&& c2.use_psk == c.use_psk
        }),
{
    reveal_strlit("0.0.0.0/0");
    lemma_split_csv_stable(c.address);
    lemma_split_csv_stable(c.dns);
    lemma_split_csv_stable(c.allowed_ips);
    crate::record_law::lemma_opt_dec_reads_back(d.mtu);
    let c2 = project_client(id, d, private_key);
    let a = split_csv(c.allowed_ips);
    if a.len() == 0 {
        assert(csv_entry("0.0.0.0/0"@)) by {
            assert forall|i: int| 0 <= i < "0.0.0.0/0"@.len() implies #[trigger] "0.0.0.0/0"@[i] != ',' by {
            }
        }
        assert(seq!["0.0.0.0/0"@][0] == "0.0.0.0/0"@);
        lemma_csv_of_entries(seq!["0.0.0.0/0"@]);
        assert(join(seq!["0.0.0.0/0"@], ", "@) == "0.0.0.0/0"@);
    }
}

/// A host config loaded into the host form: each script field's lines are
/// the host's commands and the address and DNS fields' entries are the
/// host's, for commands and entries without line breaks, commas or white
/// space at their ends.
pub proof fn lemma_loaded_host_fields(o: HostTabView, h: HostView)
    ensures
        ({
            let f = loaded_host_tab(o, h);
            &&& f.name == h.name
            &&& f.private_key == h.private_key
            &&& (forall|i: int| 0 <= i < h.pre_up.len() ==> kept_entry(#[trigger] h.pre_up[i], '\n'))
                ==> crate::form::spec_split_lines(f.pre_up) == h.pre_up
            &&& (forall|i: int| 0 <= i < h.post_up.len() ==> kept_entry(#[trigger] h.post_up[i], '\n'))
                ==> crate::form::spec_split_lines(f.post_up) == h.post_up
            &&& (forall|i: int| 0 <= i < h.pre_down.len() ==> kept_entry(#[trigger] h.pre_down[i], '\n'))
                ==> crate::form::spec_split_lines(f.pre_down) == h.pre_down
            &&& (forall|i: int| 0 <= i < h.post_down.len() ==> kept_entry(#[trigger] h.post_down[i], '\n'))
                ==> crate::form::spec_split_lines(f.post_down) == h.post_down
            &&& (forall|i: int| 0 <= i < h.address.len() ==> csv_entry(#[trigger] h.address[i]))
                ==> split_csv(f.address) == h.address
            &&& (forall|i: int| 0 <= i < h.dns.len() ==> csv_entry(#[trigger] h.dns[i]))
                ==> split_csv(f.dns) == h.dns
            &&& f.loaded_peers == h.peers
        }),
{
    if forall|i: int| 0 <= i < h.pre_up.len() ==> kept_entry(#[trigger] h.pre_up[i], '\n') {
        lemma_lines_field_of(h.pre_up);
    }
    if forall|i: int| 0 <= i < h.post_up.len() ==> kept_entry(#[trigger] h.post_up[i], '\n') {
        lemma_lines_field_of(h.post_up);
    }
    if forall|i: int| 0 <= i < h.pre_down.len() ==> kept_entry(#[trigger] h.pre_down[i], '\n') {
        lemma_lines_field_of(h.pre_down);
    }
    if forall|i: int| 0 <= i < h.post_down.len() ==> kept_entry(#[trigger] h.post_down[i], '\n') {
        lemma_lines_field_of(h.post_down);
    }
    if forall|i: int| 0 <= i < h.address.len() ==> csv_entry(#[trigger] h.address[i]) {
        lemma_csv_of_entries(h.address);
    }
    if forall|i: int| 0 <= i < h.dns.len() ==> csv_entry(#[trigger] h.dns[i]) {
        lemma_csv_of_entries(h.dns);
    }
}

} // verus!
