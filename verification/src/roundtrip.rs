//! Rendering a host to `.conf` text and reading the text back gives the
//! host again: the laws that tie `full_config` to `load_host_from_config`,
//! and the text lemmas they rest on.
use vstd::prelude::*;

use crate::error::FailKind;
use crate::host::{
    bool_text, interface_lines, list_line, num_line, opt_line, opt_nat16, opt_nat32, prefixed_all,
    HostView, OptionsView,
};
use crate::dict::host_options_of;
use crate::parse::{
    empty_peer_acc, iface_apply, iface_fold, is_section_header, kv_of_line, kv_pairs, no_options,
    peer_apply, peer_fold, PeerAcc,
};
use crate::peer::{peer_lines, PeerView};
use crate::text::lowercase;
use crate::text::{
    find_char, all_digits, dec, digit_char, digits_value, is_digit, is_ws, join, lines, parse_unsigned,
    split_char, split_csv, strip_cr, trim, trim_end, trim_start, trimmed_nonempty,
    unsigned_numeral,
};

verus! {

// ---------------------------------------------------------------------
// Clean text
// ---------------------------------------------------------------------

/// No line feed and no carriage return.
pub open spec fn no_line_break(s: Seq<char>) -> bool {
    forall|i: int| 0 <= i < s.len() ==> #[trigger] s[i] != '\n' && s[i] != '\r'
}

/// No white space at either end.
pub open spec fn edge_clean(s: Seq<char>) -> bool {
    s.len() == 0 || (!is_ws(s[0]) && !is_ws(s.last()))
}

/// A value that survives a `Key = Value` line unchanged.
pub open spec fn clean_value(s: Seq<char>) -> bool {
    no_line_break(s) && edge_clean(s)
}

pub open spec fn no_char(s: Seq<char>, c: char) -> bool {
    forall|i: int| 0 <= i < s.len() ==> #[trigger] s[i] != c
}

/// An entry of a comma-separated list that survives joining and splitting.
pub open spec fn clean_entry(s: Seq<char>) -> bool {
    clean_value(s) && s.len() > 0 && no_char(s, ',')
}

pub open spec fn clean_list(v: Seq<Seq<char>>) -> bool {
    forall|i: int| 0 <= i < v.len() ==> clean_entry(#[trigger] v[i])
}

pub open spec fn clean_values(v: Seq<Seq<char>>) -> bool {
    forall|i: int| 0 <= i < v.len() ==> clean_value(#[trigger] v[i])
}

// ---------------------------------------------------------------------
// Joining
// ---------------------------------------------------------------------

/// Joining two non-empty lists is joining each and putting the separator
/// between.
pub proof fn lemma_join_append(x: Seq<Seq<char>>, y: Seq<Seq<char>>, sep: Seq<char>)
    requires
        x.len() > 0,
        y.len() > 0,
    ensures
        join(x + y, sep) == join(x, sep) + sep + join(y, sep),
    decreases y.len(),
{
    if y.len() == 1 {
        assert((x + y).drop_last() =~= x);
        assert((x + y).last() == y[0]);
    } else {
        let y2 = y.drop_last();
        lemma_join_append(x, y2, sep);
        assert((x + y).drop_last() =~= x + y2);
        assert((x + y).last() == y.last());
        assert(join(x + y, sep) == join(x + y2, sep) + sep + y.last());
        assert(join(y, sep) == join(y2, sep) + sep + y.last());
        assert(join(x, sep) + sep + join(y2, sep) + sep + y.last() =~= join(x, sep) + sep + (join(
            y2,
            sep,
        ) + sep + y.last()));
    }
}

pub proof fn lemma_join_no_char(v: Seq<Seq<char>>, sep: Seq<char>, c: char)
    requires
        no_char(sep, c),
        forall|i: int| 0 <= i < v.len() ==> no_char(#[trigger] v[i], c),
    ensures
        no_char(join(v, sep), c),
    decreases v.len(),
{
    if v.len() > 1 {
        lemma_join_no_char(v.drop_last(), sep, c);
        let a = join(v.drop_last(), sep);
        let l = v.last();
        assert(no_char(l, c));
        assert forall|i: int| 0 <= i < (a + sep + l).len() implies #[trigger] (a + sep + l)[i] != c by {
            if i < a.len() {
            } else if i < a.len() + sep.len() {
                assert((a + sep + l)[i] == sep[i - a.len()]);
            } else {
                assert((a + sep + l)[i] == l[i - a.len() - sep.len()]);
            }
        }
    } else if v.len() == 1 {
        assert(no_char(v[0], c));
    }
}

pub proof fn lemma_join_no_line_break(v: Seq<Seq<char>>, sep: Seq<char>)
    requires
        no_line_break(sep),
        forall|i: int| 0 <= i < v.len() ==> no_line_break(#[trigger] v[i]),
    ensures
        no_line_break(join(v, sep)),
    decreases v.len(),
{
    if v.len() > 1 {
        lemma_join_no_line_break(v.drop_last(), sep);
        let a = join(v.drop_last(), sep);
        let l = v.last();
        assert(no_line_break(l));
        assert forall|i: int| 0 <= i < (a + sep + l).len() implies #[trigger] (a + sep + l)[i]
            != '\n' && (a + sep + l)[i] != '\r' by {
            if i < a.len() {
            } else if i < a.len() + sep.len() {
                assert((a + sep + l)[i] == sep[i - a.len()]);
            } else {
                assert((a + sep + l)[i] == l[i - a.len() - sep.len()]);
            }
        }
    } else if v.len() == 1 {
        assert(no_line_break(v[0]));
    }
}

/// A join of non-empty entries starts with the first entry's first
/// character and ends with the last entry's last character.
pub proof fn lemma_join_ends(v: Seq<Seq<char>>, sep: Seq<char>)
    requires
        v.len() > 0,
        forall|i: int| 0 <= i < v.len() ==> (#[trigger] v[i]).len() > 0,
    ensures
        join(v, sep).len() > 0,
        join(v, sep)[0] == v[0][0],
        join(v, sep).last() == v.last().last(),
    decreases v.len(),
{
    if v.len() > 1 {
        lemma_join_ends(v.drop_last(), sep);
        assert(v.last().len() > 0);
        let a = join(v.drop_last(), sep);
        assert((a + sep + v.last())[0] == a[0]);
    }
}

// ---------------------------------------------------------------------
// Splitting
// ---------------------------------------------------------------------

pub proof fn lemma_split_no_sep(s: Seq<char>, c: char)
    requires
        no_char(s, c),
    ensures
        split_char(s, c) == seq![s],
    decreases s.len(),
{
    if s.len() > 0 {
        lemma_split_no_sep(s.drop_last(), c);
        assert(s.drop_last().push(s.last()) =~= s);
    } else {
        assert(s =~= Seq::<char>::empty());
    }
}

/// Appending text without the separator extends the last piece.
pub proof fn lemma_split_append(a: Seq<char>, b: Seq<char>, c: char)
    requires
        no_char(b, c),
    ensures
        split_char(a + b, c) == split_char(a, c).update(
            split_char(a, c).len() - 1,
            split_char(a, c).last() + b,
        ),
    decreases b.len(),
{
    crate::text::lemma_split_char_nonempty(a, c);
    if b.len() == 0 {
        assert(a + b =~= a);
        assert(split_char(a, c).last() + b =~= split_char(a, c).last());
        assert(split_char(a, c).update(split_char(a, c).len() - 1, split_char(a, c).last())
            =~= split_char(a, c));
    } else {
        let b2 = b.drop_last();
        lemma_split_append(a, b2, c);
        assert((a + b).drop_last() =~= a + b2);
        assert((a + b).last() == b.last());
        assert(b.last() != c);
        let p = split_char(a, c);
        assert(split_char(a + b, c) =~= p.update(p.len() - 1, p.last() + b)) by {
            assert(p.last() + b2 + seq![b.last()] =~= p.last() + b);
            assert((p.last() + b2).push(b.last()) =~= p.last() + b);
        }
    }
}

/// Lines joined by a separator character split back into the lines.
pub proof fn lemma_split_join(v: Seq<Seq<char>>, c: char)
    requires
        v.len() > 0,
        forall|i: int| 0 <= i < v.len() ==> no_char(#[trigger] v[i], c),
    ensures
        split_char(join(v, seq![c]), c) == v,
    decreases v.len(),
{
    if v.len() == 1 {
        lemma_split_no_sep(v[0], c);
        assert(v =~= seq![v[0]]);
    } else {
        let init = v.drop_last();
        lemma_split_join(init, c);
        let a = join(init, seq![c]);
        let l = v.last();
        assert(no_char(l, c));
        assert(a + seq![c] =~= a.push(c));
        assert(split_char(a.push(c), c) == split_char(a, c).push(Seq::<char>::empty())) by {
            assert(a.push(c).drop_last() =~= a);
        }
        lemma_split_append(a + seq![c], l, c);
        assert(a + seq![c] + l == join(v, seq![c]));
        assert(Seq::<char>::empty() + l =~= l);
        assert(split_char(join(v, seq![c]), c) =~= init.push(l));
        assert(init.push(l) =~= v);
    }
}

/// The lines of a text made of lines, each ended by a line feed, are those
/// lines.
pub proof fn lemma_lines_of_text(v: Seq<Seq<char>>)
    requires
        v.len() > 0,
        forall|i: int| 0 <= i < v.len() ==> no_line_break(#[trigger] v[i]),
    ensures
        lines(join(v, "\n"@) + "\n"@) == v,
{
    reveal_strlit("\n");
    assert("\n"@ =~= seq!['\n']);
    assert forall|i: int| 0 <= i < v.len() implies no_char(#[trigger] v[i], '\n') by {
        assert(no_line_break(v[i]));
    }
    lemma_split_join(v, '\n');
    let t = join(v, seq!['\n']);
    assert(t + seq!['\n'] =~= t.push('\n'));
    assert(t.push('\n').drop_last() =~= t);
    let pieces = split_char(t.push('\n'), '\n');
    assert(pieces == v.push(Seq::<char>::empty()));
    assert forall|i: int| 0 <= i < v.len() implies strip_cr(#[trigger] pieces[i]) == v[i] by {
        assert(pieces[i] == v[i]);
        assert(no_line_break(v[i]));
        if v[i].len() > 0 {
            assert(v[i][v[i].len() - 1] != '\r');
        }
    }
    assert(lines(t.push('\n')) =~= v);
}

// ---------------------------------------------------------------------
// Comma-separated lists
// ---------------------------------------------------------------------

pub proof fn lemma_trim_start_clean(s: Seq<char>)
    requires
        s.len() == 0 || !is_ws(s[0]),
    ensures
        trim_start(s) == s,
{
}

pub proof fn lemma_trim_end_clean(s: Seq<char>)
    requires
        s.len() == 0 || !is_ws(s.last()),
    ensures
        trim_end(s) == s,
{
}

pub proof fn lemma_trim_clean(s: Seq<char>)
    requires
        edge_clean(s),
    ensures
        trim(s) == s,
{
}

/// A space in front of a clean value trims away.
pub proof fn lemma_trim_space_value(v: Seq<char>)
    requires
        edge_clean(v),
    ensures
        trim(seq![' '] + v) == v,
{
    let s = seq![' '] + v;
    assert(is_ws(' '));
    assert(s.drop_first() =~= v);
    assert(trim_start(s) == trim_start(v));
}

/// Clean entries joined by `", "` split back into the entries.
pub proof fn lemma_split_csv_join(v: Seq<Seq<char>>)
    requires
        v.len() > 0,
        clean_list(v),
    ensures
        split_csv(join(v, ", "@)) == v,
{
    assert forall|i: int| 0 <= i < v.len() implies csv_entry(#[trigger] v[i]) by {
        assert(clean_entry(v[i]));
    }
    lemma_split_csv_join_entries(v);
}

/// An entry of a comma-separated list as `split_csv` gives it: not empty,
/// no white space at either end, no comma.
pub open spec fn csv_entry(s: Seq<char>) -> bool {
    s.len() > 0 && edge_clean(s) && no_char(s, ',')
}

/// Entries joined by `", "` split back into the entries.
pub proof fn lemma_split_csv_join_entries(v: Seq<Seq<char>>)
    requires
        v.len() > 0,
        forall|i: int| 0 <= i < v.len() ==> csv_entry(#[trigger] v[i]),
    ensures
        split_csv(join(v, ", "@)) == v,
{
    reveal_strlit(", ");
    assert(", "@ =~= seq![',', ' ']);
    lemma_split_csv_pieces(v);
    assert(split_csv(join(v, ", "@)) == v);
}

proof fn lemma_split_csv_pieces(v: Seq<Seq<char>>)
    requires
        v.len() > 0,
        forall|i: int| 0 <= i < v.len() ==> csv_entry(#[trigger] v[i]),
    ensures
        trimmed_nonempty(split_char(join(v, seq![',', ' ']), ',')) == v,
        split_char(join(v, seq![',', ' ']), ',').len() == v.len(),
    decreases v.len(),
{
    let sep = seq![',', ' '];
    if v.len() == 1 {
        assert(csv_entry(v[0]));
        lemma_split_no_sep(v[0], ',');
        lemma_trim_clean(v[0]);
        assert(seq![v[0]].drop_last() =~= Seq::<Seq<char>>::empty());
        assert(seq![v[0]].last() == v[0]);
        assert(trimmed_nonempty(Seq::<Seq<char>>::empty()) == Seq::<Seq<char>>::empty());
        assert(Seq::<Seq<char>>::empty().push(v[0]) =~= seq![v[0]]);
        assert(trimmed_nonempty(seq![v[0]]) =~= seq![v[0]]);
        assert(v =~= seq![v[0]]);
    } else {
        let init = v.drop_last();
        assert forall|i: int| 0 <= i < init.len() implies csv_entry(#[trigger] init[i]) by {
            assert(init[i] == v[i]);
        }
        lemma_split_csv_pieces(init);
        let a = join(init, sep);
        let l = v.last();
        assert(csv_entry(l));
        let b = seq![' '] + l;
        assert(no_char(b, ',')) by {
            assert forall|i: int| 0 <= i < b.len() implies #[trigger] b[i] != ',' by {
                if i > 0 {
                    assert(b[i] == l[i - 1]);
                }
            }
        }
        assert(join(v, sep) =~= a.push(',') + b);
        assert(split_char(a.push(','), ',') == split_char(a, ',').push(Seq::<char>::empty())) by {
            assert(a.push(',').drop_last() =~= a);
        }
        lemma_split_append(a.push(','), b, ',');
        let p = split_char(a, ',');
        assert(Seq::<char>::empty() + b =~= b);
        assert(split_char(join(v, sep), ',') =~= p.push(b));
        assert(p.push(b).drop_last() =~= p);
        lemma_trim_space_value(l);
        assert(trimmed_nonempty(p.push(b)) == trimmed_nonempty(p).push(l));
        assert(init.push(l) =~= v);
    }
}

// ---------------------------------------------------------------------
// Numbers
// ---------------------------------------------------------------------

pub proof fn lemma_digit_roundtrip(d: nat)
    requires
        d < 10,
    ensures
        crate::text::digit_value(digit_char(d)) == d,
        is_digit(digit_char(d)),
{
    assert(((d + 48) as char) as u32 == d + 48);
}

pub proof fn lemma_dec_digits(n: nat)
    ensures
        dec(n).len() > 0,
        all_digits(dec(n)),
        digits_value(dec(n)) == n,
    decreases n,
{
    if n >= 10 {
        lemma_dec_digits(n / 10);
        let d = dec(n / 10);
        assert(dec(n).drop_last() =~= d);
        lemma_digit_roundtrip(n % 10);
        assert forall|i: int| 0 <= i < dec(n).len() implies is_digit(#[trigger] dec(n)[i]) by {
            if i < d.len() {
                assert(dec(n)[i] == d[i]);
            }
        }
        assert(dec(n).last() == digit_char(n % 10));
        assert(digits_value(dec(n)) == digits_value(dec(n).drop_last()) * 10 + crate::text::digit_value(dec(n).last()));
        assert(digits_value(dec(n)) == digits_value(d) * 10 + (n % 10));
        assert((n / 10) * 10 + n % 10 == n) by (nonlinear_arith);
    } else {
        assert(dec(n) =~= seq![digit_char(n)]);
        assert(dec(n).drop_last() =~= Seq::<char>::empty());
        lemma_digit_roundtrip(n);
        assert(dec(n).last() == digit_char(n));
        assert(digits_value(Seq::<char>::empty()) == 0);
        assert(digits_value(dec(n)) == digits_value(dec(n).drop_last()) * 10 + crate::text::digit_value(dec(n).last()));
    }
}

/// Decimal text reads back as its number.
pub proof fn lemma_parse_dec(n: nat, max: nat)
    requires
        n <= max,
    ensures
        parse_unsigned(dec(n), max) == Some(n),
        clean_value(dec(n)),
{
    lemma_dec_digits(n);
    let d = dec(n);
    assert(is_digit(d[0]));
    assert(unsigned_numeral(d) == Some(n));
    assert(is_digit(d.last()));
    assert forall|i: int| 0 <= i < d.len() implies #[trigger] d[i] != '\n' && d[i] != '\r' by {
        assert(is_digit(d[i]));
    }
}

// ---------------------------------------------------------------------
// Key = Value lines
// ---------------------------------------------------------------------

pub proof fn lemma_find_char_concat(a: Seq<char>, b: Seq<char>, c: char)
    requires
        no_char(a, c),
    ensures
        find_char(a + b, c) == a.len() + find_char(b, c),
    decreases a.len(),
{
    if a.len() > 0 {
        assert((a + b)[0] == a[0]);
        assert((a + b).drop_first() =~= a.drop_first() + b);
        assert(no_char(a.drop_first(), c)) by {
            assert forall|i: int| 0 <= i < a.drop_first().len() implies #[trigger] a.drop_first()[i] != c by {
                assert(a.drop_first()[i] == a[i + 1]);
            }
        }
        lemma_find_char_concat(a.drop_first(), b, c);
    } else {
        assert(a + b =~= b);
    }
}

/// A key a `Key = Value` line can carry.
pub open spec fn line_key(k: Seq<char>) -> bool {
    &&& k.len() > 0
    &&& edge_clean(k)
    &&& no_char(k, '=')
    &&& no_line_break(k)
    &&& k[0] != '#'
    &&& k[0] != ';'
    &&& k[0] != '['
}

/// A rendered `Key = Value` line reads back as its key and value, and is
/// no section header.
pub proof fn lemma_kv_line(k: Seq<char>, v: Seq<char>)
    requires
        line_key(k),
        clean_value(v),
    ensures
        kv_of_line(k + " = "@ + v) == Some((k, v)),
        !is_section_header(k + " = "@ + v),
        no_line_break(k + " = "@ + v),
{
    reveal_strlit(" = ");
    let eq = seq![' ', '=', ' '];
    assert(" = "@ =~= eq);
    let line = k + eq + v;
    assert(line[0] == k[0]);
    let t = if v.len() > 0 {
        line
    } else {
        k + seq![' ', '=']
    };
    assert(trim(line) == t) by {
        lemma_trim_start_clean(line);
        if v.len() > 0 {
            assert(line.last() == v.last());
            lemma_trim_end_clean(line);
        } else {
            assert(line =~= (k + seq![' ', '=']).push(' '));
            assert(line.drop_last() =~= k + seq![' ', '=']);
            assert(is_ws(' '));
            assert((k + seq![' ', '=']).last() == '=');
            lemma_trim_end_clean(k + seq![' ', '=']);
            assert(t[0] == k[0]);
            lemma_trim_start_clean(t);
        }
    }
    let kp = k.push(' ');
    assert(no_char(kp, '=')) by {
        assert forall|i: int| 0 <= i < kp.len() implies #[trigger] kp[i] != '=' by {
            if i < k.len() {
                assert(kp[i] == k[i]);
            }
        }
    }
    let rest = if v.len() > 0 {
        seq!['='] + seq![' '] + v
    } else {
        seq!['=']
    };
    assert(t =~= kp + rest);
    lemma_find_char_concat(kp, rest, '=');
    assert(find_char(t, '=') == k.len() + 1);
    assert(t.take(k.len() as int + 1) =~= kp);
    assert(kp.drop_last() =~= k);
    assert(trim(kp) == k) by {
        assert(kp[0] == k[0]);
        lemma_trim_start_clean(kp);
        assert(kp.last() == ' ');
        lemma_trim_end_clean(k);
    }
    if v.len() > 0 {
        assert(t.skip(k.len() as int + 2) =~= seq![' '] + v);
        lemma_trim_space_value(v);
    } else {
        assert(t.skip(k.len() as int + 2) =~= Seq::<char>::empty());
        assert(v =~= Seq::<char>::empty());
    }
    assert(no_line_break(line)) by {
        assert forall|i: int| 0 <= i < line.len() implies #[trigger] line[i] != '\n' && line[i]
            != '\r' by {
            if i < k.len() {
                assert(line[i] == k[i]);
            } else if i < k.len() + 3 {
                assert(line[i] == eq[i - k.len()]);
            } else {
                assert(line[i] == v[i - k.len() - 3]);
            }
        }
    }
}

/// A comment line (`#` first) is neither a header nor a pair.
pub proof fn lemma_comment_line(c: Seq<char>)
    requires
        no_line_break(c),
    ensures
        kv_of_line("# "@ + c).is_none(),
        !is_section_header("# "@ + c),
        no_line_break("# "@ + c),
{
    reveal_strlit("# ");
    let line = "# "@ + c;
    assert(line[0] == '#');
    lemma_trim_start_clean(line);
    let t = trim(line);
    assert(t == trim_end(line));
    lemma_trim_end_prefix(line);
    assert(t.len() > 0 && t[0] == '#');
    assert forall|i: int| 0 <= i < line.len() implies #[trigger] line[i] != '\n' && line[i]
        != '\r' by {
        if i >= 2 {
            assert(line[i] == c[i - 2]);
        }
    }
}

/// Trimming the end keeps a non-white-space first character.
pub proof fn lemma_trim_end_prefix(s: Seq<char>)
    requires
        s.len() > 0,
        !is_ws(s[0]),
    ensures
        trim_end(s).len() > 0,
        trim_end(s)[0] == s[0],
    decreases s.len(),
{
    if is_ws(s.last()) {
        assert(s.len() > 1);
        assert(s.drop_last()[0] == s[0]);
        lemma_trim_end_prefix(s.drop_last());
    }
}

/// A blank line is neither a header nor a pair.
pub proof fn lemma_blank_line()
    ensures
        kv_of_line(Seq::<char>::empty()).is_none(),
        !is_section_header(Seq::<char>::empty()),
{
}

pub proof fn lemma_kv_pairs_append(x: Seq<Seq<char>>, y: Seq<Seq<char>>)
    ensures
        kv_pairs(x + y) == kv_pairs(x) + kv_pairs(y),
    decreases y.len(),
{
    if y.len() == 0 {
        assert(x + y =~= x);
        assert(kv_pairs(x) + kv_pairs(y) =~= kv_pairs(x));
    } else {
        lemma_kv_pairs_append(x, y.drop_last());
        assert((x + y).drop_last() =~= x + y.drop_last());
        assert((x + y).last() == y.last());
        match kv_of_line(y.last()) {
            Some(p) => {
                assert(kv_pairs(x) + kv_pairs(y.drop_last()).push(p) =~= (kv_pairs(x) + kv_pairs(
                    y.drop_last(),
                )).push(p));
            },
            None => {},
        }
    }
}

/// A single rendered pair line gives that pair.
pub proof fn lemma_kv_pairs_one(k: Seq<char>, v: Seq<char>)
    requires
        line_key(k),
        clean_value(v),
    ensures
        kv_pairs(seq![k + " = "@ + v]) == seq![(k, v)],
{
    lemma_kv_line(k, v);
    let l = k + " = "@ + v;
    assert(seq![l].drop_last() =~= Seq::<Seq<char>>::empty());
    assert(seq![l].last() == l);
    assert(kv_pairs(Seq::<Seq<char>>::empty()) == Seq::<(Seq<char>, Seq<char>)>::empty());
    assert(kv_pairs(seq![l]) == kv_pairs(seq![l].drop_last()).push((k, v)));
    assert(Seq::<(Seq<char>, Seq<char>)>::empty().push((k, v)) =~= seq![(k, v)]);
}

/// Lines `Key = item`, one per item, give one pair per item.
pub proof fn lemma_kv_pairs_each(k: Seq<char>, items: Seq<Seq<char>>)
    requires
        line_key(k),
        clean_values(items),
    ensures
        kv_pairs(crate::host::prefixed_all(k + " = "@, items)) == Seq::new(
            items.len(),
            |i: int| (k, items[i]),
        ),
    decreases items.len(),
{
    let ls = crate::host::prefixed_all(k + " = "@, items);
    if items.len() > 0 {
        let init = items.drop_last();
        assert(clean_values(init)) by {
            assert forall|i: int| 0 <= i < init.len() implies clean_value(#[trigger] init[i]) by {
                assert(init[i] == items[i]);
            }
        }
        lemma_kv_pairs_each(k, init);
        assert(ls.drop_last() =~= crate::host::prefixed_all(k + " = "@, init));
        assert(clean_value(items.last()));
        assert(ls.last() == k + " = "@ + items.last());
        assert(k + " = "@ + items.last() =~= (k + " = "@) + items.last());
        lemma_kv_line(k, items.last());
        assert(Seq::new(init.len(), |i: int| (k, init[i])).push((k, items.last())) =~= Seq::new(
            items.len(),
            |i: int| (k, items[i]),
        ));
    } else {
        assert(ls =~= Seq::<Seq<char>>::empty());
        assert(Seq::new(items.len(), |i: int| (k, items[i])) =~= Seq::<(Seq<char>, Seq<char>)>::empty());
    }
}

// ---------------------------------------------------------------------
// Keys
// ---------------------------------------------------------------------

pub proof fn lemma_lower(up: Seq<char>, low: Seq<char>)
    requires
        crate::text::all_ascii(up),
        up.len() == low.len(),
        forall|i: int| 0 <= i < up.len() ==> #[trigger] (crate::text::ascii_lower(up[i]) as char)
            == low[i],
    ensures
        lowercase(up) == low,
{
    assert(lowercase(up) =~= low);
}

/// The keys of the `[Interface]` lines lower-case to what the parser
/// matches, and can stand in a `Key = Value` line.
pub proof fn lemma_interface_keys()
    ensures
        lowercase("PrivateKey"@) == "privatekey"@,
        lowercase("Address"@) == "address"@,
        lowercase("ListenPort"@) == "listenport"@,
        lowercase("DNS"@) == "dns"@,
        lowercase("MTU"@) == "mtu"@,
        lowercase("Table"@) == "table"@,
        lowercase("PreUp"@) == "preup"@,
        lowercase("PostUp"@) == "postup"@,
        lowercase("PreDown"@) == "predown"@,
        lowercase("PostDown"@) == "postdown"@,
        lowercase("SaveConfig"@) == "saveconfig"@,
        lowercase("FwMark"@) == "fwmark"@,
        "privatekey"@.len() == 10 && "privatekey"@[0] == 'p',
        "address"@.len() == 7 && "address"@[0] == 'a',
        "listenport"@.len() == 10 && "listenport"@[0] == 'l',
        "dns"@.len() == 3 && "dns"@[0] == 'd',
        "mtu"@.len() == 3 && "mtu"@[0] == 'm',
        "table"@.len() == 5 && "table"@[0] == 't',
        "preup"@.len() == 5 && "preup"@[0] == 'p',
        "postup"@.len() == 6 && "postup"@[0] == 'p',
        "predown"@.len() == 7 && "predown"@[0] == 'p',
        "postdown"@.len() == 8 && "postdown"@[0] == 'p',
        "saveconfig"@.len() == 10 && "saveconfig"@[0] == 's',
        "fwmark"@.len() == 6 && "fwmark"@[0] == 'f',
        line_key("PrivateKey"@),
        line_key("Address"@),
        line_key("ListenPort"@),
        line_key("DNS"@),
        line_key("MTU"@),
        line_key("Table"@),
        line_key("PreUp"@),
        line_key("PostUp"@),
        line_key("PreDown"@),
        line_key("PostDown"@),
        line_key("SaveConfig"@),
        line_key("FwMark"@),
        "PrivateKey = "@ == "PrivateKey"@ + " = "@,
        "Address = "@ == "Address"@ + " = "@,
        "ListenPort = "@ == "ListenPort"@ + " = "@,
        "DNS = "@ == "DNS"@ + " = "@,
        "MTU = "@ == "MTU"@ + " = "@,
        "Table = "@ == "Table"@ + " = "@,
        "PreUp = "@ == "PreUp"@ + " = "@,
        "PostUp = "@ == "PostUp"@ + " = "@,
        "PreDown = "@ == "PreDown"@ + " = "@,
        "PostDown = "@ == "PostDown"@ + " = "@,
        "SaveConfig = "@ == "SaveConfig"@ + " = "@,
        "FwMark = "@ == "FwMark"@ + " = "@,
{
    reveal_strlit(" = ");
    reveal_strlit("PrivateKey");
    reveal_strlit("privatekey");
    reveal_strlit("PrivateKey = ");
    reveal_strlit("Address");
    reveal_strlit("address");
    reveal_strlit("Address = ");
    reveal_strlit("ListenPort");
    reveal_strlit("listenport");
    reveal_strlit("ListenPort = ");
    reveal_strlit("DNS");
    reveal_strlit("dns");
    reveal_strlit("DNS = ");
    reveal_strlit("MTU");
    reveal_strlit("mtu");
    reveal_strlit("MTU = ");
    reveal_strlit("Table");
    reveal_strlit("table");
    reveal_strlit("Table = ");
    reveal_strlit("PreUp");
    reveal_strlit("preup");
    reveal_strlit("PreUp = ");
    reveal_strlit("PostUp");
    reveal_strlit("postup");
    reveal_strlit("PostUp = ");
    reveal_strlit("PreDown");
    reveal_strlit("predown");
    reveal_strlit("PreDown = ");
    reveal_strlit("PostDown");
    reveal_strlit("postdown");
    reveal_strlit("PostDown = ");
    reveal_strlit("SaveConfig");
    reveal_strlit("saveconfig");
    reveal_strlit("SaveConfig = ");
    reveal_strlit("FwMark");
    reveal_strlit("fwmark");
    reveal_strlit("FwMark = ");
    lemma_lower("PrivateKey"@, "privatekey"@);
    lemma_lower("Address"@, "address"@);
    lemma_lower("ListenPort"@, "listenport"@);
    lemma_lower("DNS"@, "dns"@);
    lemma_lower("MTU"@, "mtu"@);
    lemma_lower("Table"@, "table"@);
    lemma_lower("PreUp"@, "preup"@);
    lemma_lower("PostUp"@, "postup"@);
    lemma_lower("PreDown"@, "predown"@);
    lemma_lower("PostDown"@, "postdown"@);
    lemma_lower("SaveConfig"@, "saveconfig"@);
    lemma_lower("FwMark"@, "fwmark"@);
    assert("PrivateKey = "@ =~= "PrivateKey"@ + " = "@);
    assert("Address = "@ =~= "Address"@ + " = "@);
    assert("ListenPort = "@ =~= "ListenPort"@ + " = "@);
    assert("DNS = "@ =~= "DNS"@ + " = "@);
    assert("MTU = "@ =~= "MTU"@ + " = "@);
    assert("Table = "@ =~= "Table"@ + " = "@);
    assert("PreUp = "@ =~= "PreUp"@ + " = "@);
    assert("PostUp = "@ =~= "PostUp"@ + " = "@);
    assert("PreDown = "@ =~= "PreDown"@ + " = "@);
    assert("PostDown = "@ =~= "PostDown"@ + " = "@);
    assert("SaveConfig = "@ =~= "SaveConfig"@ + " = "@);
    assert("FwMark = "@ =~= "FwMark"@ + " = "@);
}

// ---------------------------------------------------------------------
// The [Interface] section
// ---------------------------------------------------------------------

pub open spec fn save_config_lines(h: HostView) -> Seq<Seq<char>> {
    match h.save_config {
        Some(b) => seq!["SaveConfig = "@ + bool_text(b)],
        None => Seq::empty(),
    }
}

pub open spec fn fw_mark_lines(h: HostView) -> Seq<Seq<char>> {
    match h.fw_mark {
        Some(f) => if f.len() > 0 {
            seq!["FwMark = "@ + f]
        } else {
            Seq::empty()
        },
        None => Seq::empty(),
    }
}

/// The lines of the `[Interface]` section after its header.
pub open spec fn iface_body(h: HostView) -> Seq<Seq<char>> {
    seq!["PrivateKey = "@ + h.private_key] + list_line("Address = "@, h.address) + num_line(
        "ListenPort = "@,
        opt_nat16(h.listen_port),
    ) + list_line("DNS = "@, h.dns) + num_line("MTU = "@, opt_nat32(h.mtu)) + opt_line(
        "Table = "@,
        h.table,
    ) + prefixed_all("PreUp = "@, h.pre_up) + prefixed_all("PostUp = "@, h.post_up)
        + prefixed_all("PreDown = "@, h.pre_down) + prefixed_all("PostDown = "@, h.post_down)
        + save_config_lines(h) + fw_mark_lines(h)
}

pub proof fn lemma_interface_lines_split(h: HostView)
    ensures
        interface_lines(h, true) == seq!["[Interface]"@] + iface_body(h),
{
    assert(interface_lines(h, true) =~= seq!["[Interface]"@] + iface_body(h));
}

pub proof fn lemma_iface_fold_append(s: OptionsView, x: Seq<(Seq<char>, Seq<char>)>, y: Seq<(Seq<char>, Seq<char>)>)
    ensures
        iface_fold(s, x + y) == match iface_fold(s, x) {
            Ok(o) => iface_fold(o, y),
            Err(k) => Err(k),
        },
    decreases y.len(),
{
    if y.len() == 0 {
        assert(x + y =~= x);
    } else {
        lemma_iface_fold_append(s, x, y.drop_last());
        assert((x + y).drop_last() =~= x + y.drop_last());
        assert((x + y).last() == y.last());
    }
}

pub proof fn lemma_iface_fold_one(o: OptionsView, k: Seq<char>, v: Seq<char>)
    ensures
        iface_fold(o, seq![(k, v)]) == iface_apply(o, k, v),
{
    assert(seq![(k, v)].drop_last() =~= Seq::<(Seq<char>, Seq<char>)>::empty());
    assert(seq![(k, v)].last() == (k, v));
    assert(iface_fold(o, Seq::<(Seq<char>, Seq<char>)>::empty()) == Ok::<OptionsView, FailKind>(o));
    assert(iface_fold(o, seq![(k, v)]) == match iface_fold(o, seq![(k, v)].drop_last()) {
        Ok(o2) => iface_apply(o2, seq![(k, v)].last().0, seq![(k, v)].last().1),
        Err(e) => Err(e),
    });
}

/// A clean list joined for an `Address`/`DNS` line is a clean value.
pub proof fn lemma_list_value_clean(v: Seq<Seq<char>>)
    requires
        v.len() > 0,
        clean_list(v),
    ensures
        clean_value(join(v, ", "@)),
{
    reveal_strlit(", ");
    assert forall|i: int| 0 <= i < v.len() implies (#[trigger] v[i]).len() > 0 by {
        assert(clean_entry(v[i]));
    }
    assert forall|i: int| 0 <= i < v.len() implies no_line_break(#[trigger] v[i]) by {
        assert(clean_entry(v[i]));
    }
    lemma_join_no_line_break(v, ", "@);
    lemma_join_ends(v, ", "@);
    assert(clean_entry(v[0]));
    assert(clean_entry(v.last()));
}

pub proof fn lemma_seg_pk(o: OptionsView, pk: Seq<char>)
    requires
        clean_value(pk),
    ensures
        iface_fold(o, kv_pairs(seq!["PrivateKey = "@ + pk])) == Ok::<OptionsView, FailKind>(
            OptionsView { private_key: Some(pk), ..o },
        ),
{
    reveal_strlit("privatekey");
    reveal_strlit("address");
    reveal_strlit("listenport");
    reveal_strlit("dns");
    reveal_strlit("mtu");
    reveal_strlit("table");
    reveal_strlit("preup");
    reveal_strlit("postup");
    reveal_strlit("predown");
    reveal_strlit("postdown");
    reveal_strlit("saveconfig");
    reveal_strlit("fwmark");
    lemma_interface_keys();
    assert("PrivateKey = "@ + pk =~= "PrivateKey"@ + " = "@ + pk);
    lemma_kv_pairs_one("PrivateKey"@, pk);
    lemma_iface_fold_one(o, "PrivateKey"@, pk);
}

pub proof fn lemma_seg_address(o: OptionsView, v: Seq<Seq<char>>)
    requires
        clean_list(v),
    ensures
        iface_fold(o, kv_pairs(list_line("Address = "@, v))) == Ok::<OptionsView, FailKind>(
            OptionsView { address: o.address + v, ..o },
        ),
{
    reveal_strlit("privatekey");
    reveal_strlit("address");
    reveal_strlit("listenport");
    reveal_strlit("dns");
    reveal_strlit("mtu");
    reveal_strlit("table");
    reveal_strlit("preup");
    reveal_strlit("postup");
    reveal_strlit("predown");
    reveal_strlit("postdown");
    reveal_strlit("saveconfig");
    reveal_strlit("fwmark");
    lemma_interface_keys();
    if v.len() > 0 {
        let j = join(v, ", "@);
        lemma_list_value_clean(v);
        assert("Address = "@ + j =~= "Address"@ + " = "@ + j);
        lemma_kv_pairs_one("Address"@, j);
        lemma_iface_fold_one(o, "Address"@, j);
        lemma_split_csv_join(v);
        assert(list_line("Address = "@, v) == seq!["Address = "@ + j]);
        assert(kv_pairs(list_line("Address = "@, v)) == seq![("Address"@, j)]);
        assert(lowercase("Address"@) == "address"@);
        assert(iface_apply(o, "Address"@, j) == Ok::<OptionsView, FailKind>(OptionsView { address: o.address + v, ..o }));
    } else {
        assert(o.address + v =~= o.address);
        assert(OptionsView { address: o.address + v, ..o } =~= o);
    }
}

proof fn lemma_seg_dns(o: OptionsView, v: Seq<Seq<char>>)
    requires
        clean_list(v),
    ensures
        iface_fold(o, kv_pairs(list_line("DNS = "@, v))) == Ok::<OptionsView, FailKind>(
            OptionsView { dns: o.dns + v, ..o },
        ),
{
    reveal_strlit("privatekey");
    reveal_strlit("address");
    reveal_strlit("listenport");
    reveal_strlit("dns");
    reveal_strlit("mtu");
    reveal_strlit("table");
    reveal_strlit("preup");
    reveal_strlit("postup");
    reveal_strlit("predown");
    reveal_strlit("postdown");
    reveal_strlit("saveconfig");
    reveal_strlit("fwmark");
    lemma_interface_keys();
    if v.len() > 0 {
        let j = join(v, ", "@);
        lemma_list_value_clean(v);
        assert("DNS = "@ + j =~= "DNS"@ + " = "@ + j);
        lemma_kv_pairs_one("DNS"@, j);
        lemma_iface_fold_one(o, "DNS"@, j);
        lemma_split_csv_join(v);
    } else {
        assert(o.dns + v =~= o.dns);
        assert(OptionsView { dns: o.dns + v, ..o } =~= o);
    }
}

pub proof fn lemma_seg_listen_port(o: OptionsView, p: Option<u16>)
    ensures
        iface_fold(o, kv_pairs(num_line("ListenPort = "@, opt_nat16(p)))) == Ok::<OptionsView, FailKind>(
            match p {
                Some(x) => OptionsView { listen_port: Some(x), ..o },
                None => o,
            },
        ),
{
    reveal_strlit("privatekey");
    reveal_strlit("address");
    reveal_strlit("listenport");
    reveal_strlit("dns");
    reveal_strlit("mtu");
    reveal_strlit("table");
    reveal_strlit("preup");
    reveal_strlit("postup");
    reveal_strlit("predown");
    reveal_strlit("postdown");
    reveal_strlit("saveconfig");
    reveal_strlit("fwmark");
    lemma_interface_keys();
    match p {
        Some(x) => {
            let d = dec(x as nat);
            lemma_parse_dec(x as nat, 65535);
            assert("ListenPort = "@ + d =~= "ListenPort"@ + " = "@ + d);
            lemma_kv_pairs_one("ListenPort"@, d);
            lemma_iface_fold_one(o, "ListenPort"@, d);
        },
        None => {},
    }
}

pub proof fn lemma_seg_mtu(o: OptionsView, m: Option<u32>)
    ensures
        iface_fold(o, kv_pairs(num_line("MTU = "@, opt_nat32(m)))) == Ok::<OptionsView, FailKind>(
            match m {
                Some(x) => OptionsView { mtu: Some(x), ..o },
                None => o,
            },
        ),
{
    reveal_strlit("privatekey");
    reveal_strlit("address");
    reveal_strlit("listenport");
    reveal_strlit("dns");
    reveal_strlit("mtu");
    reveal_strlit("table");
    reveal_strlit("preup");
    reveal_strlit("postup");
    reveal_strlit("predown");
    reveal_strlit("postdown");
    reveal_strlit("saveconfig");
    reveal_strlit("fwmark");
    lemma_interface_keys();
    match m {
        Some(x) => {
            let d = dec(x as nat);
            lemma_parse_dec(x as nat, 0xffff_ffff);
            assert("MTU = "@ + d =~= "MTU"@ + " = "@ + d);
            lemma_kv_pairs_one("MTU"@, d);
            lemma_iface_fold_one(o, "MTU"@, d);
        },
        None => {},
    }
}

proof fn lemma_seg_table(o: OptionsView, t: Option<Seq<char>>)
    requires
        t matches Some(x) ==> clean_value(x),
    ensures
        iface_fold(o, kv_pairs(opt_line("Table = "@, t))) == Ok::<OptionsView, FailKind>(
            match t {
                Some(x) => OptionsView { table: Some(x), ..o },
                None => o,
            },
        ),
{
    reveal_strlit("privatekey");
    reveal_strlit("address");
    reveal_strlit("listenport");
    reveal_strlit("dns");
    reveal_strlit("mtu");
    reveal_strlit("table");
    reveal_strlit("preup");
    reveal_strlit("postup");
    reveal_strlit("predown");
    reveal_strlit("postdown");
    reveal_strlit("saveconfig");
    reveal_strlit("fwmark");
    lemma_interface_keys();
    match t {
        Some(x) => {
            assert("Table = "@ + x =~= "Table"@ + " = "@ + x);
            lemma_kv_pairs_one("Table"@, x);
            lemma_iface_fold_one(o, "Table"@, x);
        },
        None => {},
    }
}

pub proof fn lemma_seg_save_config(o: OptionsView, h: HostView)
    ensures
        iface_fold(o, kv_pairs(save_config_lines(h))) == Ok::<OptionsView, FailKind>(
            match h.save_config {
                Some(b) => OptionsView { save_config: Some(b), ..o },
                None => o,
            },
        ),
{
    reveal_strlit("privatekey");
    reveal_strlit("address");
    reveal_strlit("listenport");
    reveal_strlit("dns");
    reveal_strlit("mtu");
    reveal_strlit("table");
    reveal_strlit("preup");
    reveal_strlit("postup");
    reveal_strlit("predown");
    reveal_strlit("postdown");
    reveal_strlit("saveconfig");
    reveal_strlit("fwmark");
    reveal_strlit("true");
    reveal_strlit("false");
    lemma_interface_keys();
    match h.save_config {
        Some(b) => {
            let t = bool_text(b);
            assert(clean_value(t));
            assert(crate::text::eq_ignore_ascii_case(t, "true"@) == b);
            assert("SaveConfig = "@ + t =~= "SaveConfig"@ + " = "@ + t);
            lemma_kv_pairs_one("SaveConfig"@, t);
            lemma_iface_fold_one(o, "SaveConfig"@, t);
        },
        None => {},
    }
}

proof fn lemma_seg_fw_mark(o: OptionsView, h: HostView)
    requires
        h.fw_mark matches Some(f) ==> clean_value(f) && f.len() > 0,
    ensures
        iface_fold(o, kv_pairs(fw_mark_lines(h))) == Ok::<OptionsView, FailKind>(
            match h.fw_mark {
                Some(f) => OptionsView { fw_mark: Some(f), ..o },
                None => o,
            },
        ),
{
    reveal_strlit("privatekey");
    reveal_strlit("address");
    reveal_strlit("listenport");
    reveal_strlit("dns");
    reveal_strlit("mtu");
    reveal_strlit("table");
    reveal_strlit("preup");
    reveal_strlit("postup");
    reveal_strlit("predown");
    reveal_strlit("postdown");
    reveal_strlit("saveconfig");
    reveal_strlit("fwmark");
    lemma_interface_keys();
    match h.fw_mark {
        Some(f) => {
            assert("FwMark = "@ + f =~= "FwMark"@ + " = "@ + f);
            lemma_kv_pairs_one("FwMark"@, f);
            lemma_iface_fold_one(o, "FwMark"@, f);
        },
        None => {},
    }
}

proof fn lemma_seg_pre_up(o: OptionsView, items: Seq<Seq<char>>)
    requires
        clean_values(items),
    ensures
        iface_fold(o, kv_pairs(prefixed_all("PreUp = "@, items))) == Ok::<OptionsView, FailKind>(
            OptionsView { pre_up: o.pre_up + items, ..o },
        ),
    decreases items.len(),
{
    reveal_strlit("privatekey");
    reveal_strlit("address");
    reveal_strlit("listenport");
    reveal_strlit("dns");
    reveal_strlit("mtu");
    reveal_strlit("table");
    reveal_strlit("preup");
    reveal_strlit("postup");
    reveal_strlit("predown");
    reveal_strlit("postdown");
    reveal_strlit("saveconfig");
    reveal_strlit("fwmark");
    lemma_interface_keys();
    let ls = prefixed_all("PreUp = "@, items);
    if items.len() == 0 {
        assert(ls =~= Seq::<Seq<char>>::empty());
        assert(kv_pairs(ls) =~= Seq::<(Seq<char>, Seq<char>)>::empty());
        assert(o.pre_up + items =~= o.pre_up);
        assert(OptionsView { pre_up: o.pre_up + items, ..o } =~= o);
    } else {
        let init = items.drop_last();
        assert(clean_values(init)) by {
            assert forall|i: int| 0 <= i < init.len() implies clean_value(#[trigger] init[i]) by {
                assert(init[i] == items[i]);
            }
        }
        lemma_seg_pre_up(o, init);
        assert(ls =~= prefixed_all("PreUp = "@, init).push("PreUp = "@ + items.last()));
        assert(clean_value(items.last()));
        lemma_kv_line("PreUp"@, items.last());
        assert("PreUp = "@ + items.last() =~= "PreUp"@ + " = "@ + items.last());
        let pl = kv_pairs(prefixed_all("PreUp = "@, init));
        assert(kv_pairs(ls) == pl.push(("PreUp"@, items.last()))) by {
            assert(ls.drop_last() =~= prefixed_all("PreUp = "@, init));
        }
        let mid = OptionsView { pre_up: o.pre_up + init, ..o };
        assert(iface_fold(o, pl.push(("PreUp"@, items.last()))) == iface_apply(mid, "PreUp"@, items.last())) by {
            assert(pl.push(("PreUp"@, items.last())).drop_last() =~= pl);
        }
        assert((o.pre_up + init).push(items.last()) =~= o.pre_up + items);
    }
}

proof fn lemma_seg_post_up(o: OptionsView, items: Seq<Seq<char>>)
    requires
        clean_values(items),
    ensures
        iface_fold(o, kv_pairs(prefixed_all("PostUp = "@, items))) == Ok::<OptionsView, FailKind>(
            OptionsView { post_up: o.post_up + items, ..o },
        ),
    decreases items.len(),
{
    reveal_strlit("privatekey");
    reveal_strlit("address");
    reveal_strlit("listenport");
    reveal_strlit("dns");
    reveal_strlit("mtu");
    reveal_strlit("table");
    reveal_strlit("preup");
    reveal_strlit("postup");
    reveal_strlit("predown");
    reveal_strlit("postdown");
    reveal_strlit("saveconfig");
    reveal_strlit("fwmark");
    lemma_interface_keys();
    let ls = prefixed_all("PostUp = "@, items);
    if items.len() == 0 {
        assert(ls =~= Seq::<Seq<char>>::empty());
        assert(kv_pairs(ls) =~= Seq::<(Seq<char>, Seq<char>)>::empty());
        assert(o.post_up + items =~= o.post_up);
        assert(OptionsView { post_up: o.post_up + items, ..o } =~= o);
    } else {
        let init = items.drop_last();
        assert(clean_values(init)) by {
            assert forall|i: int| 0 <= i < init.len() implies clean_value(#[trigger] init[i]) by {
                assert(init[i] == items[i]);
            }
        }
        lemma_seg_post_up(o, init);
        assert(ls =~= prefixed_all("PostUp = "@, init).push("PostUp = "@ + items.last()));
        assert(clean_value(items.last()));
        lemma_kv_line("PostUp"@, items.last());
        assert("PostUp = "@ + items.last() =~= "PostUp"@ + " = "@ + items.last());
        let pl = kv_pairs(prefixed_all("PostUp = "@, init));
        assert(kv_pairs(ls) == pl.push(("PostUp"@, items.last()))) by {
            assert(ls.drop_last() =~= prefixed_all("PostUp = "@, init));
        }
        let mid = OptionsView { post_up: o.post_up + init, ..o };
        assert(iface_fold(o, pl.push(("PostUp"@, items.last()))) == iface_apply(mid, "PostUp"@, items.last())) by {
            assert(pl.push(("PostUp"@, items.last())).drop_last() =~= pl);
        }
        assert((o.post_up + init).push(items.last()) =~= o.post_up + items);
    }
}

proof fn lemma_seg_pre_down(o: OptionsView, items: Seq<Seq<char>>)
    requires
        clean_values(items),
    ensures
        iface_fold(o, kv_pairs(prefixed_all("PreDown = "@, items))) == Ok::<OptionsView, FailKind>(
            OptionsView { pre_down: o.pre_down + items, ..o },
        ),
    decreases items.len(),
{
    reveal_strlit("privatekey");
    reveal_strlit("address");
    reveal_strlit("listenport");
    reveal_strlit("dns");
    reveal_strlit("mtu");
    reveal_strlit("table");
    reveal_strlit("preup");
    reveal_strlit("postup");
    reveal_strlit("predown");
    reveal_strlit("postdown");
    reveal_strlit("saveconfig");
    reveal_strlit("fwmark");
    lemma_interface_keys();
    let ls = prefixed_all("PreDown = "@, items);
    if items.len() == 0 {
        assert(ls =~= Seq::<Seq<char>>::empty());
        assert(kv_pairs(ls) =~= Seq::<(Seq<char>, Seq<char>)>::empty());
        assert(o.pre_down + items =~= o.pre_down);
        assert(OptionsView { pre_down: o.pre_down + items, ..o } =~= o);
    } else {
        let init = items.drop_last();
        assert(clean_values(init)) by {
            assert forall|i: int| 0 <= i < init.len() implies clean_value(#[trigger] init[i]) by {
                assert(init[i] == items[i]);
            }
        }
        lemma_seg_pre_down(o, init);
        assert(ls =~= prefixed_all("PreDown = "@, init).push("PreDown = "@ + items.last()));
        assert(clean_value(items.last()));
        lemma_kv_line("PreDown"@, items.last());
        assert("PreDown = "@ + items.last() =~= "PreDown"@ + " = "@ + items.last());
        let pl = kv_pairs(prefixed_all("PreDown = "@, init));
        assert(kv_pairs(ls) == pl.push(("PreDown"@, items.last()))) by {
            assert(ls.drop_last() =~= prefixed_all("PreDown = "@, init));
        }
        let mid = OptionsView { pre_down: o.pre_down + init, ..o };
        assert(iface_fold(o, pl.push(("PreDown"@, items.last()))) == iface_apply(mid, "PreDown"@, items.last())) by {
            assert(pl.push(("PreDown"@, items.last())).drop_last() =~= pl);
        }
        assert((o.pre_down + init).push(items.last()) =~= o.pre_down + items);
    }
}

proof fn lemma_seg_post_down(o: OptionsView, items: Seq<Seq<char>>)
    requires
        clean_values(items),
    ensures
        iface_fold(o, kv_pairs(prefixed_all("PostDown = "@, items))) == Ok::<OptionsView, FailKind>(
            OptionsView { post_down: o.post_down + items, ..o },
        ),
    decreases items.len(),
{
    reveal_strlit("privatekey");
    reveal_strlit("address");
    reveal_strlit("listenport");
    reveal_strlit("dns");
    reveal_strlit("mtu");
    reveal_strlit("table");
    reveal_strlit("preup");
    reveal_strlit("postup");
    reveal_strlit("predown");
    reveal_strlit("postdown");
    reveal_strlit("saveconfig");
    reveal_strlit("fwmark");
    lemma_interface_keys();
    let ls = prefixed_all("PostDown = "@, items);
    if items.len() == 0 {
        assert(ls =~= Seq::<Seq<char>>::empty());
        assert(kv_pairs(ls) =~= Seq::<(Seq<char>, Seq<char>)>::empty());
        assert(o.post_down + items =~= o.post_down);
        assert(OptionsView { post_down: o.post_down + items, ..o } =~= o);
    } else {
        let init = items.drop_last();
        assert(clean_values(init)) by {
            assert forall|i: int| 0 <= i < init.len() implies clean_value(#[trigger] init[i]) by {
                assert(init[i] == items[i]);
            }
        }
        lemma_seg_post_down(o, init);
        assert(ls =~= prefixed_all("PostDown = "@, init).push("PostDown = "@ + items.last()));
        assert(clean_value(items.last()));
        lemma_kv_line("PostDown"@, items.last());
        assert("PostDown = "@ + items.last() =~= "PostDown"@ + " = "@ + items.last());
        let pl = kv_pairs(prefixed_all("PostDown = "@, init));
        assert(kv_pairs(ls) == pl.push(("PostDown"@, items.last()))) by {
            assert(ls.drop_last() =~= prefixed_all("PostDown = "@, init));
        }
        let mid = OptionsView { post_down: o.post_down + init, ..o };
        assert(iface_fold(o, pl.push(("PostDown"@, items.last()))) == iface_apply(mid, "PostDown"@, items.last())) by {
            assert(pl.push(("PostDown"@, items.last())).drop_last() =~= pl);
        }
        assert((o.post_down + init).push(items.last()) =~= o.post_down + items);
    }
}

/// What a host's `[Interface]` fields must be for its section to read back
/// unchanged: no line breaks and no white space at the ends of any value,
/// list entries non-empty and without commas, and a mark that is not empty.
pub open spec fn clean_interface(h: HostView) -> bool {
    &&& clean_value(h.private_key)
    &&& clean_list(h.address)
    &&& clean_list(h.dns)
    &&& (h.table matches Some(t) ==> clean_value(t))
    &&& clean_values(h.pre_up)
    &&& clean_values(h.post_up)
    &&& clean_values(h.pre_down)
    &&& clean_values(h.post_down)
    &&& (h.fw_mark matches Some(f) ==> clean_value(f) && f.len() > 0)
}

/// The pairs of a rendered `[Interface]` section fold back into the host's
/// own options.
#[verifier::spinoff_prover]
#[verifier::rlimit(100)]
pub proof fn lemma_iface_options(h: HostView)
    requires
        clean_interface(h),
    ensures
        iface_fold(no_options(), kv_pairs(iface_body(h))) == Ok::<OptionsView, FailKind>(
            host_options_of(h),
        ),
{
    let o0 = no_options();
    let b1 = seq!["PrivateKey = "@ + h.private_key];
    let b2 = list_line("Address = "@, h.address);
    let b3 = num_line("ListenPort = "@, opt_nat16(h.listen_port));
    let b4 = list_line("DNS = "@, h.dns);
    let b5 = num_line("MTU = "@, opt_nat32(h.mtu));
    let b6 = opt_line("Table = "@, h.table);
    let b7 = prefixed_all("PreUp = "@, h.pre_up);
    let b8 = prefixed_all("PostUp = "@, h.post_up);
    let b9 = prefixed_all("PreDown = "@, h.pre_down);
    let b10 = prefixed_all("PostDown = "@, h.post_down);
    let b11 = save_config_lines(h);
    let b12 = fw_mark_lines(h);
    let c1 = b1;
    let c2 = c1 + b2;
    let c3 = c2 + b3;
    let c4 = c3 + b4;
    let c5 = c4 + b5;
    let c6 = c5 + b6;
    let c7 = c6 + b7;
    let c8 = c7 + b8;
    let c9 = c8 + b9;
    let c10 = c9 + b10;
    let c11 = c10 + b11;
    let c12 = c11 + b12;
    assert(iface_body(h) =~= c12);
    let o1 = OptionsView { private_key: Some(h.private_key), ..o0 };
    lemma_seg_pk(o0, h.private_key);
    assert(iface_fold(o0, kv_pairs(c1)) == Ok::<OptionsView, FailKind>(o1));
    let o2 = OptionsView { address: o1.address + h.address, ..o1 };
    lemma_seg_address(o1, h.address);
    lemma_kv_pairs_append(c1, b2);
    lemma_iface_fold_append(o0, kv_pairs(c1), kv_pairs(b2));
    assert(iface_fold(o0, kv_pairs(c2)) == Ok::<OptionsView, FailKind>(o2));
    let o3 = match h.listen_port { Some(x) => OptionsView { listen_port: Some(x), ..o2 }, None => o2 };
    lemma_seg_listen_port(o2, h.listen_port);
    lemma_kv_pairs_append(c2, b3);
    lemma_iface_fold_append(o0, kv_pairs(c2), kv_pairs(b3));
    assert(iface_fold(o0, kv_pairs(c3)) == Ok::<OptionsView, FailKind>(o3));
    let o4 = OptionsView { dns: o3.dns + h.dns, ..o3 };
    lemma_seg_dns(o3, h.dns);
    lemma_kv_pairs_append(c3, b4);
    lemma_iface_fold_append(o0, kv_pairs(c3), kv_pairs(b4));
    assert(iface_fold(o0, kv_pairs(c4)) == Ok::<OptionsView, FailKind>(o4));
    let o5 = match h.mtu { Some(x) => OptionsView { mtu: Some(x), ..o4 }, None => o4 };
    lemma_seg_mtu(o4, h.mtu);
    lemma_kv_pairs_append(c4, b5);
    lemma_iface_fold_append(o0, kv_pairs(c4), kv_pairs(b5));
    assert(iface_fold(o0, kv_pairs(c5)) == Ok::<OptionsView, FailKind>(o5));
    let o6 = match h.table { Some(x) => OptionsView { table: Some(x), ..o5 }, None => o5 };
    lemma_seg_table(o5, h.table);
    lemma_kv_pairs_append(c5, b6);
    lemma_iface_fold_append(o0, kv_pairs(c5), kv_pairs(b6));
    assert(iface_fold(o0, kv_pairs(c6)) == Ok::<OptionsView, FailKind>(o6));
    let o7 = OptionsView { pre_up: o6.pre_up + h.pre_up, ..o6 };
    lemma_seg_pre_up(o6, h.pre_up);
    lemma_kv_pairs_append(c6, b7);
    lemma_iface_fold_append(o0, kv_pairs(c6), kv_pairs(b7));
    assert(iface_fold(o0, kv_pairs(c7)) == Ok::<OptionsView, FailKind>(o7));
    let o8 = OptionsView { post_up: o7.post_up + h.post_up, ..o7 };
    lemma_seg_post_up(o7, h.post_up);
    lemma_kv_pairs_append(c7, b8);
    lemma_iface_fold_append(o0, kv_pairs(c7), kv_pairs(b8));
    assert(iface_fold(o0, kv_pairs(c8)) == Ok::<OptionsView, FailKind>(o8));
    let o9 = OptionsView { pre_down: o8.pre_down + h.pre_down, ..o8 };
    lemma_seg_pre_down(o8, h.pre_down);
    lemma_kv_pairs_append(c8, b9);
    lemma_iface_fold_append(o0, kv_pairs(c8), kv_pairs(b9));
    assert(iface_fold(o0, kv_pairs(c9)) == Ok::<OptionsView, FailKind>(o9));
    let o10 = OptionsView { post_down: o9.post_down + h.post_down, ..o9 };
    lemma_seg_post_down(o9, h.post_down);
    lemma_kv_pairs_append(c9, b10);
    lemma_iface_fold_append(o0, kv_pairs(c9), kv_pairs(b10));
    assert(iface_fold(o0, kv_pairs(c10)) == Ok::<OptionsView, FailKind>(o10));
    let o11 = match h.save_config { Some(b) => OptionsView { save_config: Some(b), ..o10 }, None => o10 };
    lemma_seg_save_config(o10, h);
    lemma_kv_pairs_append(c10, b11);
    lemma_iface_fold_append(o0, kv_pairs(c10), kv_pairs(b11));
    assert(iface_fold(o0, kv_pairs(c11)) == Ok::<OptionsView, FailKind>(o11));
    let o12 = match h.fw_mark { Some(f) => OptionsView { fw_mark: Some(f), ..o11 }, None => o11 };
    lemma_seg_fw_mark(o11, h);
    lemma_kv_pairs_append(c11, b12);
    lemma_iface_fold_append(o0, kv_pairs(c11), kv_pairs(b12));
    assert(iface_fold(o0, kv_pairs(c12)) == Ok::<OptionsView, FailKind>(o12));
    assert(o12 =~= host_options_of(h));
}

/// The lines of the `[Interface]` section after its header and its
/// private key line: what a section written without the key holds.
pub open spec fn iface_rest(h: HostView) -> Seq<Seq<char>> {
    list_line("Address = "@, h.address) + num_line("ListenPort = "@, opt_nat16(h.listen_port))
        + list_line("DNS = "@, h.dns) + num_line("MTU = "@, opt_nat32(h.mtu)) + opt_line(
        "Table = "@,
        h.table,
    ) + prefixed_all("PreUp = "@, h.pre_up) + prefixed_all("PostUp = "@, h.post_up)
        + prefixed_all("PreDown = "@, h.pre_down) + prefixed_all("PostDown = "@, h.post_down)
        + save_config_lines(h) + fw_mark_lines(h)
}

/// The pairs of an `[Interface]` section written without its key fold
/// into the host's options without a key.
#[verifier::spinoff_prover]
#[verifier::rlimit(100)]
pub proof fn lemma_iface_rest_options(h: HostView)
    requires
        clean_interface(h),
    ensures
        iface_body(h) == seq!["PrivateKey = "@ + h.private_key] + iface_rest(h),
        iface_fold(no_options(), kv_pairs(iface_rest(h))) == Ok::<OptionsView, FailKind>(
            OptionsView { private_key: None, ..host_options_of(h) },
        ),
{
    let o1 = no_options();
    let b2 = list_line("Address = "@, h.address);
    let b3 = num_line("ListenPort = "@, opt_nat16(h.listen_port));
    let b4 = list_line("DNS = "@, h.dns);
    let b5 = num_line("MTU = "@, opt_nat32(h.mtu));
    let b6 = opt_line("Table = "@, h.table);
    let b7 = prefixed_all("PreUp = "@, h.pre_up);
    let b8 = prefixed_all("PostUp = "@, h.post_up);
    let b9 = prefixed_all("PreDown = "@, h.pre_down);
    let b10 = prefixed_all("PostDown = "@, h.post_down);
    let b11 = save_config_lines(h);
    let b12 = fw_mark_lines(h);
    let c2 = b2;
    let c3 = c2 + b3;
    let c4 = c3 + b4;
    let c5 = c4 + b5;
    let c6 = c5 + b6;
    let c7 = c6 + b7;
    let c8 = c7 + b8;
    let c9 = c8 + b9;
    let c10 = c9 + b10;
    let c11 = c10 + b11;
    let c12 = c11 + b12;
    assert(iface_rest(h) =~= c12);
    assert(iface_body(h) =~= seq!["PrivateKey = "@ + h.private_key] + c12);
    let o2 = OptionsView { address: o1.address + h.address, ..o1 };
    lemma_seg_address(o1, h.address);
    assert(iface_fold(o1, kv_pairs(c2)) == Ok::<OptionsView, FailKind>(o2));
    let o3 = match h.listen_port { Some(x) => OptionsView { listen_port: Some(x), ..o2 }, None => o2 };
    lemma_seg_listen_port(o2, h.listen_port);
    lemma_kv_pairs_append(c2, b3);
    lemma_iface_fold_append(o1, kv_pairs(c2), kv_pairs(b3));
    assert(iface_fold(o1, kv_pairs(c3)) == Ok::<OptionsView, FailKind>(o3));
    let o4 = OptionsView { dns: o3.dns + h.dns, ..o3 };
    lemma_seg_dns(o3, h.dns);
    lemma_kv_pairs_append(c3, b4);
    lemma_iface_fold_append(o1, kv_pairs(c3), kv_pairs(b4));
    assert(iface_fold(o1, kv_pairs(c4)) == Ok::<OptionsView, FailKind>(o4));
    let o5 = match h.mtu { Some(x) => OptionsView { mtu: Some(x), ..o4 }, None => o4 };
    lemma_seg_mtu(o4, h.mtu);
    lemma_kv_pairs_append(c4, b5);
    lemma_iface_fold_append(o1, kv_pairs(c4), kv_pairs(b5));
    assert(iface_fold(o1, kv_pairs(c5)) == Ok::<OptionsView, FailKind>(o5));
    let o6 = match h.table { Some(x) => OptionsView { table: Some(x), ..o5 }, None => o5 };
    lemma_seg_table(o5, h.table);
    lemma_kv_pairs_append(c5, b6);
    lemma_iface_fold_append(o1, kv_pairs(c5), kv_pairs(b6));
    assert(iface_fold(o1, kv_pairs(c6)) == Ok::<OptionsView, FailKind>(o6));
    let o7 = OptionsView { pre_up: o6.pre_up + h.pre_up, ..o6 };
    lemma_seg_pre_up(o6, h.pre_up);
    lemma_kv_pairs_append(c6, b7);
    lemma_iface_fold_append(o1, kv_pairs(c6), kv_pairs(b7));
    assert(iface_fold(o1, kv_pairs(c7)) == Ok::<OptionsView, FailKind>(o7));
    let o8 = OptionsView { post_up: o7.post_up + h.post_up, ..o7 };
    lemma_seg_post_up(o7, h.post_up);
    lemma_kv_pairs_append(c7, b8);
    lemma_iface_fold_append(o1, kv_pairs(c7), kv_pairs(b8));
    assert(iface_fold(o1, kv_pairs(c8)) == Ok::<OptionsView, FailKind>(o8));
    let o9 = OptionsView { pre_down: o8.pre_down + h.pre_down, ..o8 };
    lemma_seg_pre_down(o8, h.pre_down);
    lemma_kv_pairs_append(c8, b9);
    lemma_iface_fold_append(o1, kv_pairs(c8), kv_pairs(b9));
    assert(iface_fold(o1, kv_pairs(c9)) == Ok::<OptionsView, FailKind>(o9));
    let o10 = OptionsView { post_down: o9.post_down + h.post_down, ..o9 };
    lemma_seg_post_down(o9, h.post_down);
    lemma_kv_pairs_append(c9, b10);
    lemma_iface_fold_append(o1, kv_pairs(c9), kv_pairs(b10));
    assert(iface_fold(o1, kv_pairs(c10)) == Ok::<OptionsView, FailKind>(o10));
    let o11 = match h.save_config { Some(b) => OptionsView { save_config: Some(b), ..o10 }, None => o10 };
    lemma_seg_save_config(o10, h);
    lemma_kv_pairs_append(c10, b11);
    lemma_iface_fold_append(o1, kv_pairs(c10), kv_pairs(b11));
    assert(iface_fold(o1, kv_pairs(c11)) == Ok::<OptionsView, FailKind>(o11));
    let o12 = match h.fw_mark { Some(f) => OptionsView { fw_mark: Some(f), ..o11 }, None => o11 };
    lemma_seg_fw_mark(o11, h);
    lemma_kv_pairs_append(c11, b12);
    lemma_iface_fold_append(o1, kv_pairs(c11), kv_pairs(b12));
    assert(iface_fold(o1, kv_pairs(c12)) == Ok::<OptionsView, FailKind>(o12));
    assert(o12 =~= OptionsView { private_key: None, ..host_options_of(h) });
}

// ---------------------------------------------------------------------
// [Peer] sections
// ---------------------------------------------------------------------

/// The keys of the `[Peer]` lines lower-case to what the parser matches.
pub proof fn lemma_peer_keys()
    ensures
        lowercase("PublicKey"@) == "publickey"@,
        "publickey"@.len() == 9 && "publickey"@[0] == 'p',
        line_key("PublicKey"@),
        "PublicKey = "@ == "PublicKey"@ + " = "@,
        lowercase("PresharedKey"@) == "presharedkey"@,
        "presharedkey"@.len() == 12 && "presharedkey"@[0] == 'p',
        line_key("PresharedKey"@),
        "PresharedKey = "@ == "PresharedKey"@ + " = "@,
        lowercase("AllowedIPs"@) == "allowedips"@,
        "allowedips"@.len() == 10 && "allowedips"@[0] == 'a',
        line_key("AllowedIPs"@),
        "AllowedIPs = "@ == "AllowedIPs"@ + " = "@,
        lowercase("Endpoint"@) == "endpoint"@,
        "endpoint"@.len() == 8 && "endpoint"@[0] == 'e',
        line_key("Endpoint"@),
        "Endpoint = "@ == "Endpoint"@ + " = "@,
        lowercase("PersistentKeepalive"@) == "persistentkeepalive"@,
        "persistentkeepalive"@.len() == 19 && "persistentkeepalive"@[0] == 'p',
        line_key("PersistentKeepalive"@),
        "PersistentKeepalive = "@ == "PersistentKeepalive"@ + " = "@,
{
    reveal_strlit(" = ");
    reveal_strlit("PublicKey");
    reveal_strlit("publickey");
    reveal_strlit("PublicKey = ");
    reveal_strlit("PresharedKey");
    reveal_strlit("presharedkey");
    reveal_strlit("PresharedKey = ");
    reveal_strlit("AllowedIPs");
    reveal_strlit("allowedips");
    reveal_strlit("AllowedIPs = ");
    reveal_strlit("Endpoint");
    reveal_strlit("endpoint");
    reveal_strlit("Endpoint = ");
    reveal_strlit("PersistentKeepalive");
    reveal_strlit("persistentkeepalive");
    reveal_strlit("PersistentKeepalive = ");
    lemma_lower("PublicKey"@, "publickey"@);
    assert("PublicKey = "@ =~= "PublicKey"@ + " = "@);
    lemma_lower("PresharedKey"@, "presharedkey"@);
    assert("PresharedKey = "@ =~= "PresharedKey"@ + " = "@);
    lemma_lower("AllowedIPs"@, "allowedips"@);
    assert("AllowedIPs = "@ =~= "AllowedIPs"@ + " = "@);
    lemma_lower("Endpoint"@, "endpoint"@);
    assert("Endpoint = "@ =~= "Endpoint"@ + " = "@);
    lemma_lower("PersistentKeepalive"@, "persistentkeepalive"@);
    assert("PersistentKeepalive = "@ =~= "PersistentKeepalive"@ + " = "@);
}

pub open spec fn peer_fold_from(a: PeerAcc, pairs: Seq<(Seq<char>, Seq<char>)>) -> Result<PeerAcc, FailKind>
    decreases pairs.len(),
{
    if pairs.len() == 0 {
        Ok(a)
    } else {
        match peer_fold_from(a, pairs.drop_last()) {
            Ok(b) => peer_apply(b, pairs.last().0, pairs.last().1),
            Err(k) => Err(k),
        }
    }
}

proof fn lemma_peer_fold_is_from(pairs: Seq<(Seq<char>, Seq<char>)>)
    ensures
        peer_fold(pairs) == peer_fold_from(empty_peer_acc(), pairs),
    decreases pairs.len(),
{
    if pairs.len() > 0 {
        lemma_peer_fold_is_from(pairs.drop_last());
    }
}

proof fn lemma_peer_fold_append(s: PeerAcc, x: Seq<(Seq<char>, Seq<char>)>, y: Seq<(Seq<char>, Seq<char>)>)
    ensures
        peer_fold_from(s, x + y) == match peer_fold_from(s, x) {
            Ok(o) => peer_fold_from(o, y),
            Err(k) => Err(k),
        },
    decreases y.len(),
{
    if y.len() == 0 {
        assert(x + y =~= x);
    } else {
        lemma_peer_fold_append(s, x, y.drop_last());
        assert((x + y).drop_last() =~= x + y.drop_last());
        assert((x + y).last() == y.last());
    }
}

proof fn lemma_peer_fold_one(o: PeerAcc, k: Seq<char>, v: Seq<char>)
    ensures
        peer_fold_from(o, seq![(k, v)]) == peer_apply(o, k, v),
{
    assert(seq![(k, v)].drop_last() =~= Seq::<(Seq<char>, Seq<char>)>::empty());
    assert(seq![(k, v)].last() == (k, v));
    assert(peer_fold_from(o, Seq::<(Seq<char>, Seq<char>)>::empty()) == Ok::<PeerAcc, FailKind>(o));
    assert(peer_fold_from(o, seq![(k, v)]) == match peer_fold_from(o, seq![(k, v)].drop_last()) {
        Ok(o2) => peer_apply(o2, seq![(k, v)].last().0, seq![(k, v)].last().1),
        Err(e) => Err(e),
    });
}

pub open spec fn comment_lines(p: PeerView) -> Seq<Seq<char>> {
    match p.comment {
        Some(c) => seq!["# "@ + c],
        None => Seq::empty(),
    }
}

/// The lines of a `[Peer]` block after its header.
pub open spec fn peer_body(p: PeerView) -> Seq<Seq<char>> {
    seq!["PublicKey = "@ + p.public_key] + opt_line("PresharedKey = "@, p.preshared_key) + list_line(
        "AllowedIPs = "@,
        p.allowed_ips,
    ) + opt_line("Endpoint = "@, p.endpoint) + num_line(
        "PersistentKeepalive = "@,
        opt_nat32(p.persistent_keepalive),
    )
}

pub proof fn lemma_peer_lines_split(p: PeerView)
    ensures
        peer_lines(p) == comment_lines(p) + seq!["[Peer]"@] + peer_body(p),
{
    assert(peer_lines(p) =~= comment_lines(p) + seq!["[Peer]"@] + peer_body(p));
}

/// What a peer's fields must be for its block to read back unchanged.
pub open spec fn clean_peer(p: PeerView) -> bool {
    &&& clean_value(p.public_key)
    &&& (p.preshared_key matches Some(k) ==> clean_value(k))
    &&& clean_list(p.allowed_ips)
    &&& (p.endpoint matches Some(e) ==> clean_value(e))
    &&& (p.comment matches Some(c) ==> no_line_break(c))
}

/// The pairs of a rendered `[Peer]` block fold back into the peer's fields.
#[verifier::spinoff_prover]
#[verifier::rlimit(100)]
pub proof fn lemma_peer_fields(p: PeerView)
    requires
        clean_peer(p),
    ensures
        peer_fold(kv_pairs(peer_body(p))) == Ok::<PeerAcc, FailKind>(
            PeerAcc {
                public_key: Some(p.public_key),
                preshared_key: p.preshared_key,
                allowed_ips: p.allowed_ips,
                endpoint: p.endpoint,
                keepalive: p.persistent_keepalive,
            },
        ),
{
    reveal_strlit("publickey");
    reveal_strlit("presharedkey");
    reveal_strlit("allowedips");
    reveal_strlit("endpoint");
    reveal_strlit("persistentkeepalive");
    lemma_peer_keys();
    let a0 = empty_peer_acc();
    let b1 = seq!["PublicKey = "@ + p.public_key];
    let b2 = opt_line("PresharedKey = "@, p.preshared_key);
    let b3 = list_line("AllowedIPs = "@, p.allowed_ips);
    let b4 = opt_line("Endpoint = "@, p.endpoint);
    let b5 = num_line("PersistentKeepalive = "@, opt_nat32(p.persistent_keepalive));
    let c2 = b1 + b2;
    let c3 = c2 + b3;
    let c4 = c3 + b4;
    let c5 = c4 + b5;
    assert(peer_body(p) =~= c5);
    lemma_peer_fold_is_from(kv_pairs(c5));
    // PublicKey
    let a1 = PeerAcc { public_key: Some(p.public_key), ..a0 };
    assert("PublicKey = "@ + p.public_key =~= "PublicKey"@ + " = "@ + p.public_key);
    lemma_kv_pairs_one("PublicKey"@, p.public_key);
    lemma_peer_fold_one(a0, "PublicKey"@, p.public_key);
    assert(peer_fold_from(a0, kv_pairs(b1)) == Ok::<PeerAcc, FailKind>(a1));
    // PresharedKey
    let a2 = PeerAcc { preshared_key: p.preshared_key, ..a1 };
    match p.preshared_key {
        Some(k) => {
            assert("PresharedKey = "@ + k =~= "PresharedKey"@ + " = "@ + k);
            lemma_kv_pairs_one("PresharedKey"@, k);
            lemma_peer_fold_one(a1, "PresharedKey"@, k);
        },
        None => {
            assert(a2 =~= a1);
        },
    }
    assert(peer_fold_from(a1, kv_pairs(b2)) == Ok::<PeerAcc, FailKind>(a2));
    lemma_kv_pairs_append(b1, b2);
    lemma_peer_fold_append(a0, kv_pairs(b1), kv_pairs(b2));
    // AllowedIPs
    let a3 = PeerAcc { allowed_ips: p.allowed_ips, ..a2 };
    if p.allowed_ips.len() > 0 {
        let j = join(p.allowed_ips, ", "@);
        lemma_list_value_clean(p.allowed_ips);
        assert("AllowedIPs = "@ + j =~= "AllowedIPs"@ + " = "@ + j);
        lemma_kv_pairs_one("AllowedIPs"@, j);
        lemma_peer_fold_one(a2, "AllowedIPs"@, j);
        lemma_split_csv_join(p.allowed_ips);
    } else {
        assert(p.allowed_ips =~= Seq::<Seq<char>>::empty());
        assert(a3 =~= a2);
    }
    assert(peer_fold_from(a2, kv_pairs(b3)) == Ok::<PeerAcc, FailKind>(a3));
    lemma_kv_pairs_append(c2, b3);
    lemma_peer_fold_append(a0, kv_pairs(c2), kv_pairs(b3));
    // Endpoint
    let a4 = PeerAcc { endpoint: p.endpoint, ..a3 };
    match p.endpoint {
        Some(e) => {
            assert("Endpoint = "@ + e =~= "Endpoint"@ + " = "@ + e);
            lemma_kv_pairs_one("Endpoint"@, e);
            lemma_peer_fold_one(a3, "Endpoint"@, e);
        },
        None => {
            assert(a4 =~= a3);
        },
    }
    assert(peer_fold_from(a3, kv_pairs(b4)) == Ok::<PeerAcc, FailKind>(a4));
    lemma_kv_pairs_append(c3, b4);
    lemma_peer_fold_append(a0, kv_pairs(c3), kv_pairs(b4));
    // PersistentKeepalive
    let a5 = PeerAcc { keepalive: p.persistent_keepalive, ..a4 };
    match p.persistent_keepalive {
        Some(k) => {
            let d = dec(k as nat);
            lemma_parse_dec(k as nat, 0xffff_ffff);
            assert("PersistentKeepalive = "@ + d =~= "PersistentKeepalive"@ + " = "@ + d);
            lemma_kv_pairs_one("PersistentKeepalive"@, d);
            lemma_peer_fold_one(a4, "PersistentKeepalive"@, d);
        },
        None => {
            assert(a5 =~= a4);
        },
    }
    assert(peer_fold_from(a4, kv_pairs(b5)) == Ok::<PeerAcc, FailKind>(a5));
    lemma_kv_pairs_append(c4, b5);
    lemma_peer_fold_append(a0, kv_pairs(c4), kv_pairs(b5));
}

} // verus!
