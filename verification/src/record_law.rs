//! Saving a form to a project record, opening the record and saving again
//! gives the same record: the laws behind "Open Project loads back what
//! Save Entire Project wrote", and the text lemmas they rest on.
use vstd::prelude::*;

use crate::roundtrip::{
    csv_entry, edge_clean, lemma_split_csv_join_entries, lemma_split_join, lemma_trim_clean,
    lemma_trim_end_prefix, no_char,
};
use crate::client_tab::{
    any_route, client_record, csv_or_any, nonempty_opt, opt_dec, opt_trimmed, project_client,
    u32_parse_ok, ClientView,
};
use crate::host_tab::{host_record, host_tab_from_record, opt_dec16, text_or_blank, HostTabView};
use crate::project::{ClientProjectDict, HostProjectDict};
use crate::text::{
    dec, lemma_trim_idem, opt_view, parse_unsigned, string_views,
    is_ws, join, lemma_split_char_nonempty, lemma_trim_end_idem, lemma_trim_start_idem, lines,
    split_char, split_csv, strip_cr, trim, trim_end, trim_start, trimmed_nonempty,
};

verus! {

// ---------------------------------------------------------------------
// Trimmed pieces
// ---------------------------------------------------------------------

/// A trimmed text has no white space at either end.
pub proof fn lemma_trim_edge_clean(s: Seq<char>)
    ensures
        edge_clean(trim(s)),
{
    lemma_trim_start_idem(s);
    let t = trim_start(s);
    lemma_trim_end_idem(t);
    if trim(s).len() > 0 {
        assert(t.len() > 0);
        lemma_trim_end_prefix(t);
    }
}

proof fn lemma_trim_start_no_char(s: Seq<char>, c: char)
    requires
        no_char(s, c),
    ensures
        no_char(trim_start(s), c),
    decreases s.len(),
{
    if s.len() > 0 && is_ws(s[0]) {
        assert(no_char(s.drop_first(), c)) by {
            assert forall|i: int| 0 <= i < s.drop_first().len() implies #[trigger] s.drop_first()[i] != c by {
                assert(s.drop_first()[i] == s[i + 1]);
            }
        }
        lemma_trim_start_no_char(s.drop_first(), c);
    }
}

proof fn lemma_trim_end_no_char(s: Seq<char>, c: char)
    requires
        no_char(s, c),
    ensures
        no_char(trim_end(s), c),
    decreases s.len(),
{
    if s.len() > 0 && is_ws(s.last()) {
        assert(no_char(s.drop_last(), c)) by {
            assert forall|i: int| 0 <= i < s.drop_last().len() implies #[trigger] s.drop_last()[i] != c by {
                assert(s.drop_last()[i] == s[i]);
            }
        }
        lemma_trim_end_no_char(s.drop_last(), c);
    }
}

/// Trimming adds no character.
pub proof fn lemma_trim_no_char(s: Seq<char>, c: char)
    requires
        no_char(s, c),
    ensures
        no_char(trim(s), c),
{
    lemma_trim_start_no_char(s, c);
    lemma_trim_end_no_char(trim_start(s), c);
}

/// No piece of a split holds the separator.
pub proof fn lemma_split_char_pieces(s: Seq<char>, c: char)
    ensures
        forall|i: int| 0 <= i < split_char(s, c).len() ==> no_char(#[trigger] split_char(s, c)[i], c),
    decreases s.len(),
{
    if s.len() > 0 {
        let init = split_char(s.drop_last(), c);
        lemma_split_char_pieces(s.drop_last(), c);
        lemma_split_char_nonempty(s.drop_last(), c);
        let p = split_char(s, c);
        if s.last() != c {
            let l = init.last().push(s.last());
            assert(no_char(init[init.len() - 1], c));
            assert(no_char(l, c)) by {
                assert forall|i: int| 0 <= i < l.len() implies #[trigger] l[i] != c by {
                    if i < l.len() - 1 {
                        assert(l[i] == init.last()[i]);
                    }
                }
            }
            assert forall|i: int| 0 <= i < p.len() implies no_char(#[trigger] p[i], c) by {
                if i < init.len() - 1 {
                    assert(p[i] == init[i]);
                }
            }
        } else {
            assert forall|i: int| 0 <= i < p.len() implies no_char(#[trigger] p[i], c) by {
                if i < init.len() {
                    assert(p[i] == init[i]);
                }
            }
        }
    }
}

/// An entry as `trimmed_nonempty` keeps it: not empty, no white space at
/// either end, and without `c`.
pub open spec fn kept_entry(s: Seq<char>, c: char) -> bool {
    s.len() > 0 && edge_clean(s) && no_char(s, c)
}

/// The trimmed, non-empty pieces of pieces without `c` are kept entries.
pub proof fn lemma_trimmed_nonempty_entries(ps: Seq<Seq<char>>, c: char)
    requires
        forall|i: int| 0 <= i < ps.len() ==> no_char(#[trigger] ps[i], c),
    ensures
        forall|i: int| 0 <= i < trimmed_nonempty(ps).len() ==> kept_entry(#[trigger] trimmed_nonempty(ps)[i], c),
    decreases ps.len(),
{
    if ps.len() > 0 {
        let init = ps.drop_last();
        assert forall|i: int| 0 <= i < init.len() implies no_char(#[trigger] init[i], c) by {
            assert(init[i] == ps[i]);
        }
        lemma_trimmed_nonempty_entries(init, c);
        let t = trim(ps.last());
        assert(no_char(ps[ps.len() - 1], c));
        lemma_trim_no_char(ps.last(), c);
        lemma_trim_edge_clean(ps.last());
        let r = trimmed_nonempty(ps);
        let ri = trimmed_nonempty(init);
        assert forall|i: int| 0 <= i < r.len() implies kept_entry(#[trigger] r[i], c) by {
            if i < ri.len() {
                assert(r[i] == ri[i]);
            }
        }
    }
}

/// Entries that are already kept come through `trimmed_nonempty` as they
/// are.
pub proof fn lemma_trimmed_nonempty_of_kept(v: Seq<Seq<char>>, c: char)
    requires
        forall|i: int| 0 <= i < v.len() ==> kept_entry(#[trigger] v[i], c),
    ensures
        trimmed_nonempty(v) == v,
    decreases v.len(),
{
    if v.len() > 0 {
        let init = v.drop_last();
        assert forall|i: int| 0 <= i < init.len() implies kept_entry(#[trigger] init[i], c) by {
            assert(init[i] == v[i]);
        }
        lemma_trimmed_nonempty_of_kept(init, c);
        assert(kept_entry(v[v.len() - 1], c));
        lemma_trim_clean(v.last());
        assert(init.push(v.last()) =~= v);
    } else {
        assert(v =~= Seq::<Seq<char>>::empty());
    }
}

// ---------------------------------------------------------------------
// Lists written out and read back
// ---------------------------------------------------------------------

/// A comma-separated field read, written back with `", "` and read again
/// gives the same entries.
pub proof fn lemma_split_csv_stable(x: Seq<char>)
    ensures
        split_csv(join(split_csv(x), ", "@)) == split_csv(x),
{
    let v = split_csv(x);
    lemma_split_char_pieces(x, ',');
    lemma_trimmed_nonempty_entries(split_char(x, ','), ',');
    if v.len() > 0 {
        assert forall|i: int| 0 <= i < v.len() implies csv_entry(#[trigger] v[i]) by {
            assert(kept_entry(v[i], ','));
        }
        lemma_split_csv_join_entries(v);
    } else {
        assert(join(v, ", "@) =~= Seq::<char>::empty());
        let e = Seq::<char>::empty();
        assert(split_char(e, ',') =~= seq![e]);
        assert(seq![e].drop_last() =~= Seq::<Seq<char>>::empty());
        assert(trim(e) =~= e);
        assert(trimmed_nonempty(Seq::<Seq<char>>::empty()) =~= Seq::<Seq<char>>::empty());
        assert(trimmed_nonempty(seq![e]) =~= Seq::<Seq<char>>::empty());
    }
}

/// Lines that are kept entries, joined by line feeds, are the lines of the
/// text.
pub proof fn lemma_lines_of_join(v: Seq<Seq<char>>)
    requires
        forall|i: int| 0 <= i < v.len() ==> kept_entry(#[trigger] v[i], '\n'),
    ensures
        lines(join(v, "\n"@)) == v,
{
    reveal_strlit("\n");
    assert("\n"@ =~= seq!['\n']);
    if v.len() == 0 {
        let e = Seq::<char>::empty();
        assert(join(v, "\n"@) =~= e);
        assert(split_char(e, '\n') =~= seq![e]);
        assert(lines(e) =~= Seq::<Seq<char>>::empty());
    } else {
        assert forall|i: int| 0 <= i < v.len() implies no_char(#[trigger] v[i], '\n') by {
            assert(kept_entry(v[i], '\n'));
        }
        lemma_split_join(v, '\n');
        let pieces = split_char(join(v, seq!['\n']), '\n');
        assert(pieces == v);
        assert(kept_entry(v[v.len() - 1], '\n'));
        assert forall|i: int| 0 <= i < v.len() - 1 implies strip_cr(#[trigger] v[i]) == v[i] by {
            assert(kept_entry(v[i], '\n'));
            assert(is_ws('\r'));
        }
        assert(lines(join(v, "\n"@)) =~= v);
    }
}

/// A multi-line field read (trimmed, non-blank lines), written back with
/// line feeds and read again gives the same lines.
pub proof fn lemma_split_lines_stable(x: Seq<char>)
    ensures
        crate::form::spec_split_lines(join(crate::form::spec_split_lines(x), "\n"@)) == crate::form::spec_split_lines(x),
{
    let v = crate::form::spec_split_lines(x);
    let ls = lines(x);
    let pieces = split_char(x, '\n');
    lemma_split_char_pieces(x, '\n');
    lemma_split_char_nonempty(x, '\n');
    assert forall|i: int| 0 <= i < ls.len() implies no_char(#[trigger] ls[i], '\n') by {
        if i < pieces.len() - 1 {
            assert(ls[i] == strip_cr(pieces[i]));
            assert(no_char(pieces[i], '\n'));
            if pieces[i].len() > 0 && pieces[i].last() == '\r' {
                assert forall|j: int| 0 <= j < strip_cr(pieces[i]).len() implies #[trigger] strip_cr(pieces[i])[j] != '\n' by {
                    assert(strip_cr(pieces[i])[j] == pieces[i][j]);
                }
            }
        } else {
            assert(ls[i] == pieces.last());
            assert(no_char(pieces[pieces.len() - 1], '\n'));
        }
    }
    lemma_trimmed_nonempty_entries(ls, '\n');
    lemma_lines_of_join(v);
    lemma_trimmed_nonempty_of_kept(v, '\n');
}

// ---------------------------------------------------------------------
// Numbers written out and read back
// ---------------------------------------------------------------------

/// A number field written from a number reads back as that number; a
/// blank one reads as none.
pub proof fn lemma_opt_dec_reads_back(v: Option<u32>)
    ensures
        u32_parse_ok(opt_dec(v)) == v,
{
    match v {
        Some(n) => {
            crate::roundtrip::lemma_parse_dec(n as nat, 0xffff_ffff);
            lemma_trim_clean(dec(n as nat));
        },
        None => {
            assert(trim(Seq::<char>::empty()) =~= Seq::<char>::empty());
        },
    }
}

/// The same for a port field.
pub proof fn lemma_opt_dec16_reads_back(v: Option<u16>)
    ensures
        (match parse_unsigned(trim(opt_dec16(v)), 65535) {
            Some(p) => Some(p as u16),
            None => None::<u16>,
        }) == v,
{
    match v {
        Some(n) => {
            crate::roundtrip::lemma_parse_dec(n as nat, 65535);
            lemma_trim_clean(dec(n as nat));
        },
        None => {
            assert(trim(Seq::<char>::empty()) =~= Seq::<char>::empty());
        },
    }
}

// ---------------------------------------------------------------------
// Records
// ---------------------------------------------------------------------

/// A client form whose keepalive and tunnel id fields read as numbers
/// (the record has no way to say "blank" for them: opening it fills in the
/// defaults).
pub open spec fn client_numbers_readable(c: ClientView) -> bool {
    u32_parse_ok(c.keepalive) is Some && u32_parse_ok(c.tunnel_id) is Some
}

/// Saving a client form, opening the record and saving again gives the
/// same record.
pub proof fn lemma_client_record_stable(id: u64, c: ClientView, d: ClientProjectDict, c2: ClientView)
    requires
        client_record(c, d),
        client_numbers_readable(c),
        c2 == project_client(id, d, c2.private_key),
        d.private_key matches Some(k) ==> c2.private_key == k@,
    ensures
        client_record(c2, d),
{
    lemma_split_csv_stable(c.address);
    lemma_split_csv_stable(c.dns);
    lemma_opt_dec_reads_back(d.mtu);
    lemma_opt_dec_reads_back(d.persistent_keepalive);
    lemma_opt_dec_reads_back(d.tunnel_id);
    // allowed IPs: always at least the catch-all route
    let ips = csv_or_any(c.allowed_ips);
    assert(string_views(d.allowed_ips@) == ips);
    if split_csv(c.allowed_ips).len() == 0 {
        reveal_strlit("0.0.0.0/0");
        let r = any_route();
        assert(ips =~= seq![r]);
        assert(csv_entry(r)) by {
            assert(r.len() == 9);
            assert forall|i: int| 0 <= i < r.len() implies #[trigger] r[i] != ',' by {
            }
        }
        lemma_split_csv_join_entries(seq![r]);
        assert(join(seq![r], ", "@) == r);
    } else {
        lemma_split_csv_stable(c.allowed_ips);
    }
    // endpoint: a trimmed, non-blank text or none
    match d.endpoint {
        Some(e) => {
            assert(opt_trimmed(c.endpoint) == Some(e@));
            lemma_trim_idem(c.endpoint);
        },
        None => {
            assert(trim(Seq::<char>::empty()) =~= Seq::<char>::empty());
        },
    }
}

/// The clients of a host form all read their numbers.
pub open spec fn host_numbers_readable(t: HostTabView) -> bool {
    forall|i: int| 0 <= i < t.clients.len() ==> client_numbers_readable(#[trigger] t.clients[i])
}

/// Saving a host form (with its clients), opening the record and saving
/// again gives the same record.
pub proof fn lemma_host_record_stable(id: u64, t: HostTabView, d: HostProjectDict, t2: HostTabView)
    requires
        host_record(t, d),
        host_numbers_readable(t),
        host_tab_from_record(id, d, t2),
    ensures
        host_record(t2, d),
{
    lemma_split_csv_stable(t.address);
    lemma_split_csv_stable(t.dns);
    lemma_opt_dec_reads_back(d.mtu);
    lemma_opt_dec16_reads_back(d.listen_port);
    lemma_split_lines_stable(t.pre_up);
    lemma_split_lines_stable(t.post_up);
    lemma_split_lines_stable(t.pre_down);
    lemma_split_lines_stable(t.post_down);
    assert(trim(Seq::<char>::empty()) =~= Seq::<char>::empty());
    assert forall|i: int| 0 <= i < d.clients@.len() implies client_record(t2.clients[i], #[trigger] d.clients@[i]) by {
        assert(client_record(t.clients[i], d.clients@[i]));
        assert(client_numbers_readable(t.clients[i]));
        let c2 = t2.clients[i];
        assert(c2 == project_client((id * 100000 + i) as u64, d.clients@[i], c2.private_key));
        lemma_client_record_stable((id * 100000 + i) as u64, t.clients[i], d.clients@[i], c2);
    }
}

} // verus!
