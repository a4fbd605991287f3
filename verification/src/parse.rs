//! Reading wg-quick `.conf` text (one `[Interface]` section plus zero or
//! more `[Peer]` sections) back into a `WireGuardHost`.
use vstd::prelude::*;

use crate::error::{FailKind, WgError};
use crate::host::{host_from_options, options_ok, HostOptions, HostView, OptionsView, WireGuardHost};
use crate::keys::{decodes_to_key, spec_public_key};
use crate::peer::{peer_fields_ok, Peer, PeerView};
use crate::text::{
    append_strings, debug_quoted, ends_with_char, eq_ignore_ascii_case, lines, lines_of,
    parse_unsigned, parse_unsigned_str, split_csv, split_csv_str, split_once, split_once_str,
    starts_with_char, str_ends_with_char, str_eq, str_eq_ignore_ascii_case,
    str_starts_with_char, string_clone, string_of, string_views, strip_ends, to_lowercase_str,
    trim, trim_str, lowercase,
};

verus! {

// ---------------------------------------------------------------------
// Sections
// ---------------------------------------------------------------------

/// A `[header]` line (after trimming).
pub open spec fn is_section_header(line: Seq<char>) -> bool {
    let t = trim(line);
    starts_with_char(t, '[') && ends_with_char(t, ']')
}

/// The lower-cased, trimmed name between the brackets of a header line.
pub open spec fn section_name(line: Seq<char>) -> Seq<char> {
    let t = trim(line);
    lowercase(trim(t.subrange(1, t.len() - 1)))
}

pub struct ScanState {
    pub done: Seq<(Seq<char>, Seq<Seq<char>>)>,
    pub header: Option<Seq<char>>,
    pub body: Seq<Seq<char>>,
}

/// One line of the scan: a header line closes the open section (if any)
/// and opens a new one; any other line joins the body. Lines before the
/// first header stay in the body, so they join the first section.
pub open spec fn scan_step(st: ScanState, line: Seq<char>) -> ScanState {
    if is_section_header(line) {
        match st.header {
            Some(h) => ScanState {
                done: st.done.push((h, st.body)),
                header: Some(section_name(line)),
                body: Seq::empty(),
            },
            None => ScanState { done: st.done, header: Some(section_name(line)), body: st.body },
        }
    } else {
        ScanState { done: st.done, header: st.header, body: st.body.push(line) }
    }
}

pub open spec fn scan_lines(ls: Seq<Seq<char>>) -> ScanState
    decreases ls.len(),
{
    if ls.len() == 0 {
        ScanState { done: Seq::empty(), header: None, body: Seq::empty() }
    } else {
        scan_step(scan_lines(ls.drop_last()), ls.last())
    }
}

/// The sections of a config text: each header's name with the lines that
/// follow it.
pub open spec fn sections(text: Seq<char>) -> Seq<(Seq<char>, Seq<Seq<char>>)> {
    let st = scan_lines(lines(text));
    match st.header {
        Some(h) => st.done.push((h, st.body)),
        None => st.done,
    }
}

/// One section of a config text.
pub struct Section {
    pub header: String,
    pub lines: Vec<String>,
}

pub open spec fn section_views(v: Seq<Section>) -> Seq<(Seq<char>, Seq<Seq<char>>)> {
    Seq::new(v.len(), |i: int| (v[i].header@, string_views(v[i].lines@)))
}

fn header_line_name(line: &str) -> (res: Option<String>)
    ensures
        res is Some <==> is_section_header(line@),
        res matches Some(n) ==> n@ == section_name(line@),
{
    let t = trim_str(line);
    if str_starts_with_char(t.as_str(), '[') && str_ends_with_char(t.as_str(), ']') {
        assert(t@.len() >= 2) by {
            if t@.len() == 1 {
                assert(t@[0] == '[' && t@.last() == ']');
            }
        }
        let inner = strip_ends(t.as_str());
        let inner_t = trim_str(inner.as_str());
        Some(to_lowercase_str(inner_t.as_str()))
    } else {
        None
    }
}

/// Split a config text into its sections.
pub fn scan_sections(text: &str) -> (res: Vec<Section>)
    ensures
        section_views(res@) == sections(text@),
{
    let ls = lines_of(text);
    let mut done: Vec<Section> = Vec::new();
    let mut header: Option<String> = None;
    let mut body: Vec<String> = Vec::new();
    let mut i: usize = 0;
    assert(string_views(ls@).take(0) =~= Seq::<Seq<char>>::empty());
    assert(section_views(done@) =~= Seq::<(Seq<char>, Seq<Seq<char>>)>::empty());
    assert(string_views(body@) =~= Seq::<Seq<char>>::empty());
    while i < ls.len()
        invariant
            i <= ls.len(),
            string_views(ls@) == lines(text@),
            ({
                let st = scan_lines(string_views(ls@).take(i as int));
                &&& st.done == section_views(done@)
                &&& st.header == match header {
                    Some(h) => Some(h@),
                    None => None::<Seq<char>>,
                }
                &&& st.body == string_views(body@)
            }),
        decreases ls.len() - i,
    {
        assert(string_views(ls@).take(i + 1).drop_last() =~= string_views(ls@).take(i as int));
        assert(string_views(ls@)[i as int] == ls@[i as int]@);
        match header_line_name(ls[i].as_str()) {
            Some(name) => {
                match header {
                    Some(h) => {
                        let ghost old_done = done@;
                        let b = body;
                        done.push(Section { header: h, lines: b });
                        assert(section_views(done@) =~= section_views(old_done).push(
                            (h@, string_views(b@)),
                        ));
                        body = Vec::new();
                        assert(string_views(body@) =~= Seq::<Seq<char>>::empty());
                    },
                    None => {},
                }
                header = Some(name);
            },
            None => {
                let ghost old_body = string_views(body@);
                body.push(string_clone(&ls[i]));
                assert(string_views(body@) =~= old_body.push(ls@[i as int]@));
            },
        }
        i = i + 1;
    }
    assert(string_views(ls@).take(ls.len() as int) =~= string_views(ls@));
    match header {
        Some(h) => {
            let ghost old_done = done@;
            let b = body;
            done.push(Section { header: h, lines: b });
            assert(section_views(done@) =~= section_views(old_done).push((h@, string_views(b@))));
        },
        None => {},
    }
    done
}

// ---------------------------------------------------------------------
// Key = Value lines
// ---------------------------------------------------------------------

/// A `Key = Value` line, trimmed on both sides of the first `=`; blank
/// lines, comments (`#` or `;`) and lines without `=` give nothing.
pub open spec fn kv_of_line(line: Seq<char>) -> Option<(Seq<char>, Seq<char>)> {
    let t = trim(line);
    if t.len() == 0 || t[0] == '#' || t[0] == ';' {
        None
    } else {
        match split_once(t, '=') {
            Some((k, v)) => Some((trim(k), trim(v))),
            None => None,
        }
    }
}

pub open spec fn kv_pairs(ls: Seq<Seq<char>>) -> Seq<(Seq<char>, Seq<char>)>
    decreases ls.len(),
{
    if ls.len() == 0 {
        Seq::empty()
    } else {
        let init = kv_pairs(ls.drop_last());
        match kv_of_line(ls.last()) {
            Some(p) => init.push(p),
            None => init,
        }
    }
}

pub open spec fn pair_views(v: Seq<(String, String)>) -> Seq<(Seq<char>, Seq<char>)> {
    Seq::new(v.len(), |i: int| (v[i].0@, v[i].1@))
}

/// Parse `Key = Value` lines within a section, ignoring blanks and comments.
pub fn parse_kv_lines(lines: &[String]) -> (res: Vec<(String, String)>)
    ensures
        pair_views(res@) == kv_pairs(string_views(lines@)),
{
    let mut pairs: Vec<(String, String)> = Vec::new();
    let mut i: usize = 0;
    assert(pair_views(pairs@) =~= Seq::<(Seq<char>, Seq<char>)>::empty());
    while i < lines.len()
        invariant
            i <= lines.len(),
            pair_views(pairs@) == kv_pairs(string_views(lines@).take(i as int)),
        decreases lines.len() - i,
    {
        assert(string_views(lines@).take(i + 1).drop_last() =~= string_views(lines@).take(
            i as int,
        ));
        assert(string_views(lines@)[i as int] == lines@[i as int]@);
        let line = trim_str(lines[i].as_str());
        let skip = line.as_str().is_empty() || str_starts_with_char(line.as_str(), '#')
            || str_starts_with_char(line.as_str(), ';');
        if !skip {
            match split_once_str(line.as_str(), '=') {
                Some((k, v)) => {
                    let ghost old_pairs = pair_views(pairs@);
                    let kt = trim_str(k.as_str());
                    let vt = trim_str(v.as_str());
                    pairs.push((kt, vt));
                    assert(pair_views(pairs@) =~= old_pairs.push((kt@, vt@)));
                },
                None => {},
            }
        }
        i = i + 1;
    }
    assert(string_views(lines@).take(lines.len() as int) =~= string_views(lines@));
    pairs
}

// ---------------------------------------------------------------------
// [Interface]
// ---------------------------------------------------------------------

/// One `Key = Value` of an `[Interface]` section applied to the options
/// read so far (keys compared after lower-casing).
pub open spec fn iface_apply(o: OptionsView, key: Seq<char>, value: Seq<char>) -> Result<
    OptionsView,
    FailKind,
> {
    let k = lowercase(key);
    if k == "privatekey"@ {
        Ok(OptionsView { private_key: Some(value), ..o })
    } else if k == "address"@ {
        Ok(OptionsView { address: o.address + split_csv(value), ..o })
    } else if k == "listenport"@ {
        match parse_unsigned(value, 65535) {
            Some(p) => Ok(OptionsView { listen_port: Some(p as u16), ..o }),
            None => Err(FailKind::Parse),
        }
    } else if k == "dns"@ {
        Ok(OptionsView { dns: o.dns + split_csv(value), ..o })
    } else if k == "mtu"@ {
        match parse_unsigned(value, 0xffff_ffff) {
            Some(m) => Ok(OptionsView { mtu: Some(m as u32), ..o }),
            None => Err(FailKind::Parse),
        }
    } else if k == "table"@ {
        Ok(OptionsView { table: Some(value), ..o })
    } else if k == "preup"@ {
        Ok(OptionsView { pre_up: o.pre_up.push(value), ..o })
    } else if k == "postup"@ {
        Ok(OptionsView { post_up: o.post_up.push(value), ..o })
    } else if k == "predown"@ {
        Ok(OptionsView { pre_down: o.pre_down.push(value), ..o })
    } else if k == "postdown"@ {
        Ok(OptionsView { post_down: o.post_down.push(value), ..o })
    } else if k == "saveconfig"@ {
        Ok(OptionsView { save_config: Some(eq_ignore_ascii_case(value, "true"@)), ..o })
    } else if k == "fwmark"@ {
        Ok(OptionsView { fw_mark: Some(value), ..o })
    } else {
        Ok(o)
    }
}

pub open spec fn iface_fold(start: OptionsView, pairs: Seq<(Seq<char>, Seq<char>)>) -> Result<
    OptionsView,
    FailKind,
>
    decreases pairs.len(),
{
    if pairs.len() == 0 {
        Ok(start)
    } else {
        match iface_fold(start, pairs.drop_last()) {
            Ok(o) => iface_apply(o, pairs.last().0, pairs.last().1),
            Err(k) => Err(k),
        }
    }
}

pub proof fn lemma_iface_fold_err(start: OptionsView, pairs: Seq<(Seq<char>, Seq<char>)>, i: int)
    requires
        0 <= i <= pairs.len(),
        iface_fold(start, pairs.take(i)) is Err,
    ensures
        iface_fold(start, pairs) == iface_fold(start, pairs.take(i)),
    decreases pairs.len(),
{
    if i < pairs.len() {
        assert(pairs.drop_last().take(i) =~= pairs.take(i));
        lemma_iface_fold_err(start, pairs.drop_last(), i);
    } else {
        assert(pairs.take(i) =~= pairs);
    }
}

fn not_a_number(field: &str, value: &str) -> (res: WgError)
    ensures
        res is Parse,
{
    let mut msg = string_of(field);
    msg.append(" is not a valid number: ");
    msg.append(debug_quoted(value).as_str());
    WgError::Parse(msg)
}

fn key_is(k: &String, word: &str) -> (res: bool)
    ensures
        res == (k@ == word@),
{
    str_eq(k.as_str(), word)
}

/// Apply one `Key = Value` of an `[Interface]` section to `opts`.
fn apply_interface_pair(opts: &mut HostOptions, key: &String, value: &String) -> (res: Result<(), WgError>)
    ensures
        match res {
            Ok(_) => iface_apply(old(opts)@, key@, value@) == Ok::<OptionsView, FailKind>(final(opts)@),
            Err(e) => iface_apply(old(opts)@, key@, value@) == Err::<OptionsView, FailKind>(e.kind()),
        },
{
    let k = to_lowercase_str(key.as_str());
    if key_is(&k, "privatekey") {
        opts.private_key = Some(string_clone(value));
    } else if key_is(&k, "address") {
        append_strings(&mut opts.address, split_csv_str(value.as_str()));
    } else if key_is(&k, "listenport") {
        match parse_unsigned_str(value.as_str(), 65535) {
            Some(p) => {
                opts.listen_port = Some(p as u16);
            },
            None => {
                return Err(not_a_number("ListenPort", value.as_str()));
            },
        }
    } else if key_is(&k, "dns") {
        append_strings(&mut opts.dns, split_csv_str(value.as_str()));
    } else if key_is(&k, "mtu") {
        match parse_unsigned_str(value.as_str(), 0xffff_ffff) {
            Some(m) => {
                opts.mtu = Some(m as u32);
            },
            None => {
                return Err(not_a_number("MTU", value.as_str()));
            },
        }
    } else if key_is(&k, "table") {
        opts.table = Some(string_clone(value));
    } else if key_is(&k, "preup") {
        let ghost before = string_views(opts.pre_up@);
        opts.pre_up.push(string_clone(value));
        assert(string_views(opts.pre_up@) =~= before.push(value@));
    } else if key_is(&k, "postup") {
        let ghost before = string_views(opts.post_up@);
        opts.post_up.push(string_clone(value));
        assert(string_views(opts.post_up@) =~= before.push(value@));
    } else if key_is(&k, "predown") {
        let ghost before = string_views(opts.pre_down@);
        opts.pre_down.push(string_clone(value));
        assert(string_views(opts.pre_down@) =~= before.push(value@));
    } else if key_is(&k, "postdown") {
        let ghost before = string_views(opts.post_down@);
        opts.post_down.push(string_clone(value));
        assert(string_views(opts.post_down@) =~= before.push(value@));
    } else if key_is(&k, "saveconfig") {
        opts.save_config = Some(str_eq_ignore_ascii_case(value.as_str(), "true"));
    } else if key_is(&k, "fwmark") {
        opts.fw_mark = Some(string_clone(value));
    }
    Ok(())
}

// ---------------------------------------------------------------------
// [Peer]
// ---------------------------------------------------------------------

pub struct PeerAcc {
    pub public_key: Option<Seq<char>>,
    pub preshared_key: Option<Seq<char>>,
    pub allowed_ips: Seq<Seq<char>>,
    pub endpoint: Option<Seq<char>>,
    pub keepalive: Option<u32>,
}

pub open spec fn empty_peer_acc() -> PeerAcc {
    PeerAcc {
        public_key: None,
        preshared_key: None,
        allowed_ips: Seq::empty(),
        endpoint: None,
        keepalive: None,
    }
}

/// One `Key = Value` of a `[Peer]` section; a later `AllowedIPs` replaces
/// an earlier one.
pub open spec fn peer_apply(a: PeerAcc, key: Seq<char>, value: Seq<char>) -> Result<PeerAcc, FailKind> {
    let k = lowercase(key);
    if k == "publickey"@ {
        Ok(PeerAcc { public_key: Some(value), ..a })
    } else if k == "presharedkey"@ {
        Ok(PeerAcc { preshared_key: Some(value), ..a })
    } else if k == "allowedips"@ {
        Ok(PeerAcc { allowed_ips: split_csv(value), ..a })
    } else if k == "endpoint"@ {
        Ok(PeerAcc { endpoint: Some(value), ..a })
    } else if k == "persistentkeepalive"@ {
        match parse_unsigned(value, 0xffff_ffff) {
            Some(v) => Ok(PeerAcc { keepalive: Some(v as u32), ..a }),
            None => Err(FailKind::Parse),
        }
    } else {
        Ok(a)
    }
}

pub open spec fn peer_fold(pairs: Seq<(Seq<char>, Seq<char>)>) -> Result<PeerAcc, FailKind>
    decreases pairs.len(),
{
    if pairs.len() == 0 {
        Ok(empty_peer_acc())
    } else {
        match peer_fold(pairs.drop_last()) {
            Ok(a) => peer_apply(a, pairs.last().0, pairs.last().1),
            Err(k) => Err(k),
        }
    }
}

/// Which error `Peer::build` gives on fields it refuses.
pub open spec fn build_fail_kind(public_key: Seq<char>, preshared_key: Option<Seq<char>>) -> FailKind {
    if !decodes_to_key(public_key) {
        FailKind::InvalidKey
    } else if preshared_key matches Some(k) && !decodes_to_key(k) {
        FailKind::InvalidKey
    } else {
        FailKind::InvalidCidr
    }
}

/// The peer a `[Peer]` section describes: none without a `PublicKey`.
pub open spec fn peer_section(pairs: Seq<(Seq<char>, Seq<char>)>) -> Result<Option<PeerView>, FailKind> {
    match peer_fold(pairs) {
        Err(k) => Err(k),
        Ok(a) => match a.public_key {
            None => Ok(None),
            Some(pk) => if peer_fields_ok(pk, a.allowed_ips, a.preshared_key) {
                Ok(
                    Some(
                        PeerView {
                            public_key: pk,
                            allowed_ips: a.allowed_ips,
                            endpoint: a.endpoint,
                            persistent_keepalive: a.keepalive,
                            preshared_key: a.preshared_key,
                            comment: None,
                        },
                    ),
                )
            } else {
                Err(build_fail_kind(pk, a.preshared_key))
            },
        },
    }
}

proof fn lemma_peer_fold_err(pairs: Seq<(Seq<char>, Seq<char>)>, i: int)
    requires
        0 <= i <= pairs.len(),
        peer_fold(pairs.take(i)) is Err,
    ensures
        peer_fold(pairs) == peer_fold(pairs.take(i)),
    decreases pairs.len(),
{
    if i < pairs.len() {
        assert(pairs.drop_last().take(i) =~= pairs.take(i));
        lemma_peer_fold_err(pairs.drop_last(), i);
    } else {
        assert(pairs.take(i) =~= pairs);
    }
}

struct PeerFields {
    public_key: Option<String>,
    preshared_key: Option<String>,
    allowed_ips: Vec<String>,
    endpoint: Option<String>,
    keepalive: Option<u32>,
}

impl View for PeerFields {
    type V = PeerAcc;

    closed spec fn view(&self) -> PeerAcc {
        PeerAcc {
            public_key: crate::text::opt_view(self.public_key),
            preshared_key: crate::text::opt_view(self.preshared_key),
            allowed_ips: string_views(self.allowed_ips@),
            endpoint: crate::text::opt_view(self.endpoint),
            keepalive: self.keepalive,
        }
    }
}

fn apply_peer_pair(a: &mut PeerFields, key: &String, value: &String) -> (res: Result<(), WgError>)
    ensures
        match res {
            Ok(_) => peer_apply(old(a)@, key@, value@) == Ok::<PeerAcc, FailKind>(final(a)@),
            Err(e) => peer_apply(old(a)@, key@, value@) == Err::<PeerAcc, FailKind>(e.kind()),
        },
{
    let k = to_lowercase_str(key.as_str());
    if key_is(&k, "publickey") {
        a.public_key = Some(string_clone(value));
    } else if key_is(&k, "presharedkey") {
        a.preshared_key = Some(string_clone(value));
    } else if key_is(&k, "allowedips") {
        a.allowed_ips = split_csv_str(value.as_str());
    } else if key_is(&k, "endpoint") {
        a.endpoint = Some(string_clone(value));
    } else if key_is(&k, "persistentkeepalive") {
        match parse_unsigned_str(value.as_str(), 0xffff_ffff) {
            Some(v) => {
                a.keepalive = Some(v as u32);
            },
            None => {
                return Err(not_a_number("PersistentKeepalive", value.as_str()));
            },
        }
    }
    Ok(())
}

/// The peer of one `[Peer]` section's pairs, if it names a public key.
fn parse_peer_section(pairs: &Vec<(String, String)>) -> (res: Result<Option<Peer>, WgError>)
    ensures
        match res {
            Ok(Some(p)) => peer_section(pair_views(pairs@)) == Ok::<Option<PeerView>, FailKind>(Some(p@)),
            Ok(None) => peer_section(pair_views(pairs@)) == Ok::<Option<PeerView>, FailKind>(None),
            Err(e) => peer_section(pair_views(pairs@)) == Err::<Option<PeerView>, FailKind>(e.kind()),
        },
{
    let mut a = PeerFields {
        public_key: None,
        preshared_key: None,
        allowed_ips: Vec::new(),
        endpoint: None,
        keepalive: None,
    };
    let ghost pv = pair_views(pairs@);
    assert(a@.allowed_ips =~= Seq::<Seq<char>>::empty());
    assert(pv.take(0) =~= Seq::<(Seq<char>, Seq<char>)>::empty());
    let mut i: usize = 0;
    while i < pairs.len()
        invariant
            i <= pairs.len(),
            pv == pair_views(pairs@),
            peer_fold(pv.take(i as int)) == Ok::<PeerAcc, FailKind>(a@),
        decreases pairs.len() - i,
    {
        assert(pv.take(i + 1).drop_last() =~= pv.take(i as int));
        let r = apply_peer_pair(&mut a, &pairs[i].0, &pairs[i].1);
        if let Err(e) = r {
            proof {
                lemma_peer_fold_err(pv, i + 1);
            }
            return Err(e);
        }
        i = i + 1;
    }
    assert(pv.take(pairs.len() as int) =~= pv);
    match a.public_key {
        None => Ok(None),
        Some(pk) => {
            let p = Peer::build(
                pk.as_str(),
                a.allowed_ips,
                a.endpoint,
                a.keepalive,
                a.preshared_key,
                None,
            )?;
            Ok(Some(p))
        },
    }
}

// ---------------------------------------------------------------------
// The whole file
// ---------------------------------------------------------------------

pub struct DocAcc {
    pub opts: OptionsView,
    pub peers: Seq<PeerView>,
}

/// The options of `HostOptions::default()`.
pub open spec fn no_options() -> OptionsView {
    OptionsView {
        private_key: None,
        address: Seq::empty(),
        listen_port: None,
        dns: Seq::empty(),
        mtu: None,
        table: None,
        pre_up: Seq::empty(),
        post_up: Seq::empty(),
        pre_down: Seq::empty(),
        post_down: Seq::empty(),
        save_config: None,
        fw_mark: None,
    }
}

/// One section: `interface` sections add to the options, `peer` sections
/// add a peer, any other section is ignored.
pub open spec fn doc_step(acc: DocAcc, section: (Seq<char>, Seq<Seq<char>>)) -> Result<DocAcc, FailKind> {
    let pairs = kv_pairs(section.1);
    if section.0 == "interface"@ {
        match iface_fold(acc.opts, pairs) {
            Ok(o) => Ok(DocAcc { opts: o, peers: acc.peers }),
            Err(k) => Err(k),
        }
    } else if section.0 == "peer"@ {
        match peer_section(pairs) {
            Ok(Some(p)) => Ok(DocAcc { opts: acc.opts, peers: acc.peers.push(p) }),
            Ok(None) => Ok(acc),
            Err(k) => Err(k),
        }
    } else {
        Ok(acc)
    }
}

pub open spec fn doc_fold(secs: Seq<(Seq<char>, Seq<Seq<char>>)>) -> Result<DocAcc, FailKind>
    decreases secs.len(),
{
    if secs.len() == 0 {
        Ok(DocAcc { opts: no_options(), peers: Seq::empty() })
    } else {
        match doc_fold(secs.drop_last()) {
            Ok(acc) => doc_step(acc, secs.last()),
            Err(k) => Err(k),
        }
    }
}

proof fn lemma_doc_fold_err(secs: Seq<(Seq<char>, Seq<Seq<char>>)>, i: int)
    requires
        0 <= i <= secs.len(),
        doc_fold(secs.take(i)) is Err,
    ensures
        doc_fold(secs) == doc_fold(secs.take(i)),
    decreases secs.len(),
{
    if i < secs.len() {
        assert(secs.drop_last().take(i) =~= secs.take(i));
        lemma_doc_fold_err(secs.drop_last(), i);
    } else {
        assert(secs.take(i) =~= secs);
    }
}

/// Which error `WireGuardHost::new` gives on options it refuses.
pub open spec fn new_fail_kind(o: OptionsView) -> FailKind {
    if o.private_key matches Some(k) && !decodes_to_key(k) {
        FailKind::InvalidKey
    } else if !crate::keys::cidr_list_ok(o.address) {
        FailKind::InvalidCidr
    } else {
        FailKind::Value
    }
}

/// What loading a config text under a name gives: the host of its
/// `[Interface]` options, with the peers of its `[Peer]` sections (which
/// have no comment), or the kind of the first failure. A file without a
/// `PrivateKey` is refused as an invalid key.
pub open spec fn spec_load_host(text: Seq<char>, name: Seq<char>) -> Result<HostView, FailKind> {
    match doc_fold(sections(text)) {
        Err(k) => Err(k),
        Ok(acc) => match acc.opts.private_key {
            None => Err(FailKind::InvalidKey),
            Some(pk) => if options_ok(acc.opts) {
                Ok(HostView { peers: acc.peers, ..host_from_options(name, acc.opts, pk) })
            } else {
                Err(new_fail_kind(acc.opts))
            },
        },
    }
}

/// Parse the text of a standard wg-quick `.conf` file back into a
/// `WireGuardHost`, including its peers. Fails if the file has no
/// `PrivateKey` (which happens if it has been redacted for sharing).
pub fn load_host_from_config(text: &str, name: &str) -> (res: Result<WireGuardHost, WgError>)
    ensures
        match res {
            Ok(h) => spec_load_host(text@, name@) == Ok::<HostView, FailKind>(h@),
            Err(e) => spec_load_host(text@, name@) == Err::<HostView, FailKind>(e.kind()),
        },
{
    let secs = scan_sections(text);
    let ghost sv = section_views(secs@);
    let mut opts = HostOptions::default();
    let mut peers: Vec<Peer> = Vec::new();
    assert(opts@ =~= no_options());
    assert(sv.take(0) =~= Seq::<(Seq<char>, Seq<Seq<char>>)>::empty());
    assert(crate::host::peer_views(peers@) =~= Seq::<PeerView>::empty());
    let mut i: usize = 0;
    while i < secs.len()
        invariant
            i <= secs.len(),
            sv == section_views(secs@),
            sv == sections(text@),
            doc_fold(sv.take(i as int)) == Ok::<DocAcc, FailKind>(
                DocAcc { opts: opts@, peers: crate::host::peer_views(peers@) },
            ),
        decreases secs.len() - i,
    {
        assert(sv.take(i + 1).drop_last() =~= sv.take(i as int));
        assert(sv[i as int] == (secs@[i as int].header@, string_views(secs@[i as int].lines@)));
        let pairs = parse_kv_lines(secs[i].lines.as_slice());
        let ghost pv = pair_views(pairs@);
        if key_is(&secs[i].header, "interface") {
            let ghost start = opts@;
            let mut j: usize = 0;
            assert(pv.take(0) =~= Seq::<(Seq<char>, Seq<char>)>::empty());
            while j < pairs.len()
                invariant
                    j <= pairs.len(),
                    pv == pair_views(pairs@),
                    iface_fold(start, pv.take(j as int)) == Ok::<OptionsView, FailKind>(opts@),
                    i < secs.len(),
                    sv == section_views(secs@),
                    sv == sections(text@),
                    doc_fold(sv.take(i as int)) == Ok::<DocAcc, FailKind>(
                        DocAcc { opts: start, peers: crate::host::peer_views(peers@) },
                    ),
                    sv[i as int].0 == "interface"@,
                    pv == kv_pairs(sv[i as int].1),
                    sv.take(i + 1).drop_last() == sv.take(i as int),
                    sv.take(i + 1).last() == sv[i as int],
                decreases pairs.len() - j,
            {
                assert(pv.take(j + 1).drop_last() =~= pv.take(j as int));
                let r = apply_interface_pair(&mut opts, &pairs[j].0, &pairs[j].1);
                if let Err(e) = r {
                    proof {
                        lemma_iface_fold_err(start, pv, j + 1);
                        assert(iface_fold(start, pv) == Err::<OptionsView, FailKind>(e.kind()));
                        assert(doc_fold(sv.take(i + 1)) == Err::<DocAcc, FailKind>(e.kind()));
                        lemma_doc_fold_err(sv, i + 1);
                    }
                    return Err(e);
                }
                j = j + 1;
            }
            assert(pv.take(pairs.len() as int) =~= pv);
        } else if key_is(&secs[i].header, "peer") {
            match parse_peer_section(&pairs) {
                Ok(Some(p)) => {
                    let ghost before = crate::host::peer_views(peers@);
                    peers.push(p);
                    assert(crate::host::peer_views(peers@) =~= before.push(p@));
                },
                Ok(None) => {},
                Err(e) => {
                    proof {
                        lemma_doc_fold_err(sv, i + 1);
                    }
                    return Err(e);
                },
            }
        }
        i = i + 1;
    }
    assert(sv.take(secs.len() as int) =~= sv);
    if opts.private_key.is_none() {
        return Err(
            WgError::InvalidKey(
                string_of(
                    "No [Interface] PrivateKey found in this file -- it may have been redacted before sharing. A host can't be reconstructed without its private key.",
                ),
            ),
        );
    }
    let mut host = WireGuardHost::new(name, opts)?;
    let mut k: usize = 0;
    let ghost base = host@;
    let ghost all = crate::host::peer_views(peers@);
    assert(all.take(0) =~= Seq::<PeerView>::empty());
    while k < peers.len()
        invariant
            k <= peers.len(),
            all == crate::host::peer_views(peers@),
            host@ == (HostView { peers: all.take(k as int), ..base }),
        decreases peers.len() - k,
    {
        host.add_peer(peers[k].duplicate());
        assert(all.take(k + 1) =~= all.take(k as int).push(peers@[k as int]@));
        k = k + 1;
    }
    assert(all.take(peers.len() as int) =~= all);
    Ok(host)
}

} // verus!
