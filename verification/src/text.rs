//! Plain-text helpers shared by the config renderer, the config parser and
//! the form logic: whitespace trimming, splitting, joining, line handling,
//! decimal rendering and integer parsing, each with its meaning stated as a
//! spec function over `Seq<char>`.
use vstd::prelude::*;

verus! {

broadcast use vstd::string::group_string_axioms;

// ---------------------------------------------------------------------
// Characters
// ---------------------------------------------------------------------

/// The Unicode `White_Space` property, which is what `char::is_whitespace`
/// (and therefore `str::trim`) tests for.
pub open spec fn is_ws(c: char) -> bool {
    let u = c as u32;
    ||| (0x9 <= u && u <= 0xd)
    ||| u == 0x20
    ||| u == 0x85
    ||| u == 0xa0
    ||| u == 0x1680
    ||| (0x2000 <= u && u <= 0x200a)
    ||| u == 0x2028
    ||| u == 0x2029
    ||| u == 0x202f
    ||| u == 0x205f
    ||| u == 0x3000
}

pub fn char_is_ws(c: char) -> (res: bool)
    ensures
        res == is_ws(c),
{
    let u = c as u32;
    (0x9 <= u && u <= 0xd) || u == 0x20 || u == 0x85 || u == 0xa0 || u == 0x1680 || (0x2000
        <= u && u <= 0x200a) || u == 0x2028 || u == 0x2029 || u == 0x202f || u == 0x205f || u
        == 0x3000
}

pub open spec fn is_digit(c: char) -> bool {
    '0' <= c && c <= '9'
}

pub open spec fn digit_value(c: char) -> nat {
    ((c as u32) - 48) as nat
}

pub open spec fn digit_char(d: nat) -> char {
    (d + 48) as char
}

/// The code of a character after ASCII-only lower-casing, as
/// `char::to_ascii_lowercase`.
pub open spec fn ascii_lower(c: char) -> int {
    if 'A' <= c && c <= 'Z' {
        (c as u32) + 32
    } else {
        c as int
    }
}

/// `str::eq_ignore_ascii_case`.
pub open spec fn eq_ignore_ascii_case(a: Seq<char>, b: Seq<char>) -> bool {
    &&& a.len() == b.len()
    &&& forall|i: int| 0 <= i < a.len() ==> #[trigger] ascii_lower(a[i]) == ascii_lower(b[i])
}

pub fn chars_of(s: &str) -> (res: Vec<char>)
    ensures
        res@ == s@,
{
    let mut out: Vec<char> = Vec::new();
    for c in it: s.chars()
        invariant
            out@ == it.seq().take(it.index() as int),
    {
        out.push(c);
    }
    out
}

pub fn char_eq_ignore_ascii_case(a: char, b: char) -> (res: bool)
    ensures
        res == (ascii_lower(a) == ascii_lower(b)),
{
    let la: u32 = if 'A' <= a && a <= 'Z' {
        (a as u32) + 32
    } else {
        a as u32
    };
    let lb: u32 = if 'A' <= b && b <= 'Z' {
        (b as u32) + 32
    } else {
        b as u32
    };
    la == lb
}

pub fn str_eq_ignore_ascii_case(a: &str, b: &str) -> (res: bool)
    ensures
        res == eq_ignore_ascii_case(a@, b@),
{
    let ca = chars_of(a);
    let cb = chars_of(b);
    if ca.len() != cb.len() {
        return false;
    }
    let mut i: usize = 0;
    while i < ca.len()
        invariant
            ca@ == a@,
            cb@ == b@,
            ca.len() == cb.len(),
            i <= ca.len(),
            forall|j: int| 0 <= j < i ==> #[trigger] ascii_lower(a@[j]) == ascii_lower(b@[j]),
        decreases ca.len() - i,
    {
        if !char_eq_ignore_ascii_case(ca[i], cb[i]) {
            return false;
        }
        i = i + 1;
    }
    true
}

pub fn str_eq(a: &str, b: &str) -> (res: bool)
    ensures
        res == (a@ == b@),
{
    let ca = chars_of(a);
    let cb = chars_of(b);
    if ca.len() != cb.len() {
        return false;
    }
    let mut i: usize = 0;
    while i < ca.len()
        invariant
            ca@ == a@,
            cb@ == b@,
            ca.len() == cb.len(),
            i <= ca.len(),
            forall|j: int| 0 <= j < i ==> a@[j] == b@[j],
        decreases ca.len() - i,
    {
        if ca[i] != cb[i] {
            return false;
        }
        i = i + 1;
    }
    assert(a@ =~= b@);
    true
}

pub fn string_clone(s: &String) -> (res: String)
    ensures
        res@ == s@,
{
    s.clone()
}

pub fn string_of(s: &str) -> (res: String)
    ensures
        res@ == s@,
{
    String::from_str(s)
}

// ---------------------------------------------------------------------
// Trimming
// ---------------------------------------------------------------------

pub open spec fn trim_start(s: Seq<char>) -> Seq<char>
    decreases s.len(),
{
    if s.len() > 0 && is_ws(s[0]) {
        trim_start(s.drop_first())
    } else {
        s
    }
}

pub open spec fn trim_end(s: Seq<char>) -> Seq<char>
    decreases s.len(),
{
    if s.len() > 0 && is_ws(s.last()) {
        trim_end(s.drop_last())
    } else {
        s
    }
}

/// `str::trim`: leading and trailing white space removed.
pub open spec fn trim(s: Seq<char>) -> Seq<char> {
    trim_end(trim_start(s))
}

/// The bounds `[a, b)` of the trimmed part of `s`.
fn trim_bounds(s: &Vec<char>) -> (res: (usize, usize))
    ensures
        res.0 <= res.1 <= s.len(),
        s@.subrange(res.0 as int, res.1 as int) == trim(s@),
{
    let n = s.len();
    let mut a: usize = 0;
    assert(s@.subrange(0, n as int) =~= s@);
    while a < n && char_is_ws(s[a])
        invariant
            a <= n == s.len(),
            trim_start(s@) == trim_start(s@.subrange(a as int, n as int)),
        decreases n - a,
    {
        assert(s@.subrange(a as int, n as int).drop_first() =~= s@.subrange(a + 1, n as int));
        a = a + 1;
    }
    assert(trim_start(s@.subrange(a as int, n as int)) == s@.subrange(a as int, n as int));
    let mut b: usize = n;
    while b > a && char_is_ws(s[b - 1])
        invariant
            a <= b <= n == s.len(),
            trim(s@) == trim_end(s@.subrange(a as int, b as int)),
        decreases b,
    {
        assert(s@.subrange(a as int, b as int).drop_last() =~= s@.subrange(a as int, b - 1));
        b = b - 1;
    }
    (a, b)
}

pub fn trim_str(s: &str) -> (res: String)
    ensures
        res@ == trim(s@),
{
    let cs = chars_of(s);
    let (a, b) = trim_bounds(&cs);
    String::from_str(s.substring_char(a, b))
}

pub proof fn lemma_trim_start_idem(s: Seq<char>)
    ensures
        trim_start(trim_start(s)) == trim_start(s),
        trim_start(s).len() > 0 ==> !is_ws(trim_start(s)[0]),
    decreases s.len(),
{
    if s.len() > 0 && is_ws(s[0]) {
        lemma_trim_start_idem(s.drop_first());
    }
}

pub proof fn lemma_trim_end_idem(s: Seq<char>)
    ensures
        trim_end(trim_end(s)) == trim_end(s),
        trim_end(s).len() > 0 ==> !is_ws(trim_end(s).last()),
    decreases s.len(),
{
    if s.len() > 0 && is_ws(s.last()) {
        lemma_trim_end_idem(s.drop_last());
    }
}

/// Trimming keeps the start of a sequence whose first character is not
/// white space.
pub proof fn lemma_trim_end_keeps_start(s: Seq<char>)
    requires
        s.len() > 0 ==> !is_ws(s[0]),
    ensures
        trim_start(trim_end(s)) == trim_end(s),
    decreases s.len(),
{
    if s.len() > 0 && is_ws(s.last()) {
        lemma_trim_end_keeps_start(s.drop_last());
    }
}

/// `trim` is idempotent.
pub proof fn lemma_trim_idem(s: Seq<char>)
    ensures
        trim(trim(s)) == trim(s),
{
    lemma_trim_start_idem(s);
    let t = trim_start(s);
    lemma_trim_end_keeps_start(t);
    lemma_trim_end_idem(t);
}

// ---------------------------------------------------------------------
// Splitting and joining
// ---------------------------------------------------------------------

/// `str::split(sep)` on a single character: always at least one piece.
pub open spec fn split_char(s: Seq<char>, sep: char) -> Seq<Seq<char>>
    decreases s.len(),
{
    if s.len() == 0 {
        seq![Seq::<char>::empty()]
    } else {
        let init = split_char(s.drop_last(), sep);
        if s.last() == sep {
            init.push(Seq::<char>::empty())
        } else {
            init.update(init.len() - 1, init.last().push(s.last()))
        }
    }
}

pub proof fn lemma_split_char_nonempty(s: Seq<char>, sep: char)
    ensures
        split_char(s, sep).len() >= 1,
    decreases s.len(),
{
    if s.len() > 0 {
        lemma_split_char_nonempty(s.drop_last(), sep);
    }
}

pub open spec fn string_views(v: Seq<String>) -> Seq<Seq<char>> {
    Seq::new(v.len(), |i: int| v[i]@)
}

pub fn split_char_str(s: &str, sep: char) -> (res: Vec<String>)
    ensures
        string_views(res@) == split_char(s@, sep),
{
    let cs = chars_of(s);
    let n = cs.len();
    let mut parts: Vec<String> = Vec::new();
    let mut start: usize = 0;
    let mut i: usize = 0;
    proof {
        assert(s@.take(0) =~= Seq::<char>::empty());
        assert(s@.subrange(0, 0) =~= Seq::<char>::empty());
        assert(string_views(parts@).push(s@.subrange(0, 0)) =~= seq![Seq::<char>::empty()]);
    }
    while i < n
        invariant
            cs@ == s@,
            n == cs.len(),
            start <= i <= n,
            string_views(parts@).push(s@.subrange(start as int, i as int)) == split_char(
                s@.take(i as int),
                sep,
            ),
        decreases n - i,
    {
        proof {
            let t = s@.take(i + 1);
            assert(t.drop_last() =~= s@.take(i as int));
            lemma_split_char_nonempty(s@.take(i as int), sep);
        }
        if cs[i] == sep {
            let piece = String::from_str(s.substring_char(start, i));
            let ghost old_parts = parts@;
            parts.push(piece);
            proof {
                assert(string_views(parts@) =~= string_views(old_parts).push(
                    s@.subrange(start as int, i as int),
                ));
                assert(s@.subrange((i + 1) as int, (i + 1) as int) =~= Seq::<char>::empty());
            }
            start = i + 1;
        } else {
            proof {
                assert(s@.subrange(start as int, i + 1) =~= s@.subrange(
                    start as int,
                    i as int,
                ).push(s@[i as int]));
            }
        }
        i = i + 1;
    }
    let last = String::from_str(s.substring_char(start, n));
    let ghost old_parts = parts@;
    parts.push(last);
    proof {
        assert(s@.take(n as int) =~= s@);
        assert(string_views(parts@) =~= string_views(old_parts).push(
            s@.subrange(start as int, n as int),
        ));
    }
    parts
}

/// The pieces of `parts`, trimmed, with the empty ones left out.
pub open spec fn trimmed_nonempty(parts: Seq<Seq<char>>) -> Seq<Seq<char>>
    decreases parts.len(),
{
    if parts.len() == 0 {
        Seq::empty()
    } else {
        let init = trimmed_nonempty(parts.drop_last());
        let t = trim(parts.last());
        if t.len() == 0 {
            init
        } else {
            init.push(t)
        }
    }
}

/// `text.split(',').map(str::trim).filter(|s| !s.is_empty())`.
pub open spec fn split_csv(s: Seq<char>) -> Seq<Seq<char>> {
    trimmed_nonempty(split_char(s, ','))
}

pub fn trimmed_nonempty_vec(parts: &Vec<String>) -> (res: Vec<String>)
    ensures
        string_views(res@) == trimmed_nonempty(string_views(parts@)),
{
    let mut out: Vec<String> = Vec::new();
    let mut i: usize = 0;
    while i < parts.len()
        invariant
            i <= parts.len(),
            string_views(out@) == trimmed_nonempty(string_views(parts@).take(i as int)),
        decreases parts.len() - i,
    {
        let t = trim_str(parts[i].as_str());
        proof {
            assert(string_views(parts@).take(i + 1).drop_last() =~= string_views(parts@).take(
                i as int,
            ));
        }
        if !t.as_str().is_empty() {
            let ghost old_out = out@;
            out.push(t);
            proof {
                assert(string_views(out@) =~= string_views(old_out).push(t@));
            }
        }
        i = i + 1;
    }
    proof {
        assert(string_views(parts@).take(parts.len() as int) =~= string_views(parts@));
    }
    out
}

/// `parts.join(sep)`.
pub open spec fn join(parts: Seq<Seq<char>>, sep: Seq<char>) -> Seq<char>
    decreases parts.len(),
{
    if parts.len() == 0 {
        Seq::empty()
    } else if parts.len() == 1 {
        parts[0]
    } else {
        join(parts.drop_last(), sep) + sep + parts.last()
    }
}

pub fn join_strs(parts: &Vec<String>, sep: &str) -> (res: String)
    ensures
        res@ == join(string_views(parts@), sep@),
{
    let mut out = String::new();
    let mut i: usize = 0;
    while i < parts.len()
        invariant
            i <= parts.len(),
            out@ == join(string_views(parts@).take(i as int), sep@),
        decreases parts.len() - i,
    {
        proof {
            assert(string_views(parts@).take(i + 1).drop_last() =~= string_views(parts@).take(
                i as int,
            ));
        }
        if i != 0 {
            out.append(sep);
        }
        out.append(parts[i].as_str());
        proof {
            if i == 0 {
                assert(string_views(parts@).take(1) =~= seq![parts@[0]@]);
                assert(out@ =~= parts@[0]@);
            }
        }
        i = i + 1;
    }
    proof {
        assert(string_views(parts@).take(parts.len() as int) =~= string_views(parts@));
    }
    out
}

// ---------------------------------------------------------------------
// Searching
// ---------------------------------------------------------------------

/// Index of the first `c` in `s`, or `s.len()` when there is none.
pub open spec fn find_char(s: Seq<char>, c: char) -> int
    decreases s.len(),
{
    if s.len() == 0 {
        0
    } else if s[0] == c {
        0
    } else {
        1 + find_char(s.drop_first(), c)
    }
}

pub proof fn lemma_find_char_bounds(s: Seq<char>, c: char)
    ensures
        0 <= find_char(s, c) <= s.len(),
        find_char(s, c) < s.len() ==> s[find_char(s, c)] == c,
        forall|j: int| 0 <= j < find_char(s, c) ==> s[j] != c,
    decreases s.len(),
{
    if s.len() > 0 && s[0] != c {
        lemma_find_char_bounds(s.drop_first(), c);
        assert forall|j: int| 0 <= j < find_char(s, c) implies s[j] != c by {
            if j > 0 {
                assert(s[j] == s.drop_first()[j - 1]);
            }
        }
    }
}

/// `str::split_once(c)`.
pub open spec fn split_once(s: Seq<char>, c: char) -> Option<(Seq<char>, Seq<char>)> {
    let k = find_char(s, c);
    if k < s.len() {
        Some((s.take(k), s.skip(k + 1)))
    } else {
        None
    }
}

pub fn find_char_in(s: &Vec<char>, c: char) -> (res: usize)
    ensures
        res as int == find_char(s@, c),
{
    let mut i: usize = 0;
    assert(s@.skip(0) =~= s@);
    while i < s.len()
        invariant
            i <= s.len(),
            find_char(s@, c) == i + find_char(s@.skip(i as int), c),
            forall|j: int| 0 <= j < i ==> s@[j] != c,
        decreases s.len() - i,
    {
        if s[i] == c {
            return i;
        }
        assert(s@.skip(i as int).drop_first() =~= s@.skip(i + 1));
        i = i + 1;
    }
    i
}

pub fn split_once_str(s: &str, c: char) -> (res: Option<(String, String)>)
    ensures
        match res {
            Some((a, b)) => split_once(s@, c) == Some((a@, b@)),
            None => split_once(s@, c).is_none(),
        },
{
    let cs = chars_of(s);
    let k = find_char_in(&cs, c);
    proof {
        lemma_find_char_bounds(s@, c);
    }
    if k < cs.len() {
        let a = String::from_str(s.substring_char(0, k));
        let b = String::from_str(s.substring_char(k + 1, cs.len()));
        proof {
            assert(s@.subrange(0, k as int) =~= s@.take(k as int));
            assert(s@.subrange(k + 1, s@.len() as int) =~= s@.skip(k + 1));
        }
        Some((a, b))
    } else {
        None
    }
}

/// Index of the last `c` in `s`, or -1 when there is none.
pub open spec fn rfind_char(s: Seq<char>, c: char) -> int
    decreases s.len(),
{
    if s.len() == 0 {
        -1
    } else if s.last() == c {
        s.len() - 1
    } else {
        rfind_char(s.drop_last(), c)
    }
}

pub proof fn lemma_rfind_char_bounds(s: Seq<char>, c: char)
    ensures
        -1 <= rfind_char(s, c) < s.len(),
        rfind_char(s, c) >= 0 ==> s[rfind_char(s, c)] == c,
        forall|j: int| rfind_char(s, c) < j < s.len() ==> s[j] != c,
    decreases s.len(),
{
    if s.len() > 0 && s.last() != c {
        lemma_rfind_char_bounds(s.drop_last(), c);
        assert forall|j: int| rfind_char(s, c) < j < s.len() implies s[j] != c by {
            if j < s.len() - 1 {
                assert(s[j] == s.drop_last()[j]);
            }
        }
    }
}

/// `str::rsplit_once(c)`: the text before and after the last `c`.
pub open spec fn rsplit_once(s: Seq<char>, c: char) -> Option<(Seq<char>, Seq<char>)> {
    let k = rfind_char(s, c);
    if k >= 0 {
        Some((s.take(k), s.skip(k + 1)))
    } else {
        None
    }
}

pub fn rsplit_once_str(s: &str, c: char) -> (res: Option<(String, String)>)
    ensures
        match res {
            Some((a, b)) => rsplit_once(s@, c) == Some((a@, b@)),
            None => rsplit_once(s@, c).is_none(),
        },
{
    let cs = chars_of(s);
    let mut i: usize = cs.len();
    assert(cs@.take(i as int) =~= s@);
    while i > 0
        invariant
            i <= cs.len(),
            cs@ == s@,
            rfind_char(s@, c) == rfind_char(s@.take(i as int), c),
        decreases i,
    {
        if cs[i - 1] == c {
            assert(s@.take(i as int).last() == c);
            let a = String::from_str(s.substring_char(0, i - 1));
            let b = String::from_str(s.substring_char(i, cs.len()));
            proof {
                assert(s@.subrange(0, i - 1) =~= s@.take(i - 1));
                assert(s@.subrange(i as int, s@.len() as int) =~= s@.skip(i as int));
            }
            return Some((a, b));
        }
        assert(s@.take(i as int).drop_last() =~= s@.take(i - 1));
        i = i - 1;
    }
    assert(s@.take(0) =~= Seq::<char>::empty());
    None
}

pub open spec fn starts_with_char(s: Seq<char>, c: char) -> bool {
    s.len() > 0 && s[0] == c
}

pub open spec fn ends_with_char(s: Seq<char>, c: char) -> bool {
    s.len() > 0 && s.last() == c
}

pub fn str_starts_with_char(s: &str, c: char) -> (res: bool)
    ensures
        res == starts_with_char(s@, c),
{
    let cs = chars_of(s);
    cs.len() > 0 && cs[0] == c
}

pub fn str_ends_with_char(s: &str, c: char) -> (res: bool)
    ensures
        res == ends_with_char(s@, c),
{
    let cs = chars_of(s);
    cs.len() > 0 && cs[cs.len() - 1] == c
}

/// The characters of `s` strictly between its first and its last.
pub fn strip_ends(s: &str) -> (res: String)
    requires
        s@.len() >= 2,
    ensures
        res@ == s@.subrange(1, s@.len() - 1),
{
    let n = s.unicode_len();
    String::from_str(s.substring_char(1, n - 1))
}

// ---------------------------------------------------------------------
// Lines
// ---------------------------------------------------------------------

pub open spec fn strip_cr(s: Seq<char>) -> Seq<char> {
    if s.len() > 0 && s.last() == '\r' {
        s.drop_last()
    } else {
        s
    }
}

/// `str::lines`: the pieces between line feeds, a carriage return before a
/// line feed dropped, and no final empty line after a trailing line feed.
pub open spec fn lines(s: Seq<char>) -> Seq<Seq<char>> {
    let pieces = split_char(s, '\n');
    let body = Seq::new((pieces.len() - 1) as nat, |i: int| strip_cr(pieces[i]));
    if pieces.last().len() == 0 {
        body
    } else {
        body.push(pieces.last())
    }
}

pub fn strip_cr_str(s: &str) -> (res: String)
    ensures
        res@ == strip_cr(s@),
{
    let cs = chars_of(s);
    if cs.len() > 0 && cs[cs.len() - 1] == '\r' {
        let r = String::from_str(s.substring_char(0, cs.len() - 1));
        assert(s@.subrange(0, s@.len() - 1) =~= s@.drop_last());
        r
    } else {
        string_of(s)
    }
}

pub fn lines_of(s: &str) -> (res: Vec<String>)
    ensures
        string_views(res@) == lines(s@),
{
    let pieces = split_char_str(s, '\n');
    proof {
        lemma_split_char_nonempty(s@, '\n');
    }
    let ghost pv = split_char(s@, '\n');
    let n = pieces.len();
    let mut out: Vec<String> = Vec::new();
    let mut i: usize = 0;
    while i + 1 < n
        invariant
            n == pieces.len() >= 1,
            string_views(pieces@) == pv,
            i + 1 <= n,
            string_views(out@) =~= Seq::new(i as nat, |j: int| strip_cr(pv[j])),
        decreases n - i,
    {
        let t = strip_cr_str(pieces[i].as_str());
        let ghost old_out = out@;
        assert(pieces@[i as int]@ == pv[i as int]);
        out.push(t);
        assert(string_views(out@) =~= string_views(old_out).push(t@));
        i = i + 1;
    }
    let last = &pieces[n - 1];
    if !last.as_str().is_empty() {
        out.push(string_clone(last));
    }
    out
}

// ---------------------------------------------------------------------
// Decimal numbers
// ---------------------------------------------------------------------

/// Decimal rendering of a natural number, as `Display` for the unsigned
/// integer types writes it.
pub open spec fn dec(n: nat) -> Seq<char>
    decreases n,
{
    if n < 10 {
        seq![digit_char(n)]
    } else {
        dec(n / 10).push(digit_char(n % 10))
    }
}

fn digit_text(d: u64) -> (res: &'static str)
    requires
        d < 10,
    ensures
        res@ == seq![digit_char(d as nat)],
{
    proof {
        reveal_strlit("0");
        reveal_strlit("1");
        reveal_strlit("2");
        reveal_strlit("3");
        reveal_strlit("4");
        reveal_strlit("5");
        reveal_strlit("6");
        reveal_strlit("7");
        reveal_strlit("8");
        reveal_strlit("9");
    }
    match d {
        0 => "0",
        1 => "1",
        2 => "2",
        3 => "3",
        4 => "4",
        5 => "5",
        6 => "6",
        7 => "7",
        8 => "8",
        _ => "9",
    }
}

pub fn dec_string(n: u64) -> (res: String)
    ensures
        res@ == dec(n as nat),
    decreases n,
{
    if n < 10 {
        string_of(digit_text(n))
    } else {
        let mut s = dec_string(n / 10);
        s.append(digit_text(n % 10));
        s
    }
}

pub fn dec_string_u128(n: u128) -> (res: String)
    ensures
        res@ == dec(n as nat),
    decreases n,
{
    if n < 10 {
        string_of(digit_text(n as u64))
    } else {
        let mut s = dec_string_u128(n / 10);
        s.append(digit_text((n % 10) as u64));
        s
    }
}

pub open spec fn all_digits(s: Seq<char>) -> bool {
    forall|i: int| 0 <= i < s.len() ==> is_digit(#[trigger] s[i])
}

pub open spec fn digits_value(s: Seq<char>) -> nat
    decreases s.len(),
{
    if s.len() == 0 {
        0
    } else {
        digits_value(s.drop_last()) * 10 + digit_value(s.last())
    }
}

/// The value an optionally `+`-signed decimal numeral denotes, as the
/// unsigned `from_str` implementations read it before their range check.
pub open spec fn unsigned_numeral(s: Seq<char>) -> Option<nat> {
    let t = if s.len() > 0 && s[0] == '+' {
        s.drop_first()
    } else {
        s
    };
    if t.len() > 0 && all_digits(t) {
        Some(digits_value(t))
    } else {
        None
    }
}

/// What `str::parse` gives for an unsigned integer type whose largest value
/// is `max`.
pub open spec fn parse_unsigned(s: Seq<char>, max: nat) -> Option<nat> {
    match unsigned_numeral(s) {
        Some(v) => if v <= max {
            Some(v)
        } else {
            None
        },
        None => None,
    }
}

/// The value an optionally signed decimal numeral denotes, as `i64::from_str`
/// reads it before its range check.
pub open spec fn signed_numeral(s: Seq<char>) -> Option<int> {
    if s.len() > 0 && s[0] == '-' {
        let t = s.drop_first();
        if t.len() > 0 && all_digits(t) {
            Some(-(digits_value(t) as int))
        } else {
            None
        }
    } else {
        match unsigned_numeral(s) {
            Some(v) => Some(v as int),
            None => None,
        }
    }
}

/// What `str::parse::<i64>` gives.
pub open spec fn parse_i64(s: Seq<char>) -> Option<int> {
    match signed_numeral(s) {
        Some(v) => if i64::MIN <= v <= i64::MAX {
            Some(v)
        } else {
            None
        },
        None => None,
    }
}

proof fn lemma_digits_value_grows(s: Seq<char>, i: int)
    requires
        0 <= i <= s.len(),
    ensures
        digits_value(s.take(i)) <= digits_value(s),
    decreases s.len(),
{
    if i < s.len() {
        assert(s.drop_last().take(i) =~= s.take(i));
        lemma_digits_value_grows(s.drop_last(), i);
    } else {
        assert(s.take(i) =~= s);
    }
}

/// Reads the digits `cs[from..]` as a decimal number no larger than `max`.
fn digits_at_most(cs: &Vec<char>, from: usize, max: u64) -> (res: Option<u64>)
    requires
        from <= cs.len(),
    ensures
        ({
            let t = cs@.skip(from as int);
            match res {
                Some(v) => t.len() > 0 && all_digits(t) && digits_value(t) == v && v <= max,
                None => !(t.len() > 0 && all_digits(t) && digits_value(t) <= max),
            }
        }),
{
    let ghost t = cs@.skip(from as int);
    if from == cs.len() {
        return None;
    }
    let mut v: u64 = 0;
    let mut i: usize = from;
    assert(t.take(0) =~= Seq::<char>::empty());
    while i < cs.len()
        invariant
            from <= i <= cs.len(),
            t == cs@.skip(from as int),
            all_digits(t.take(i - from)),
            digits_value(t.take(i - from)) == v,
            v <= max,
        decreases cs.len() - i,
    {
        let c = cs[i];
        assert(t[i - from] == c);
        if !('0' <= c && c <= '9') {
            return None;
        }
        let d = (c as u32 - 48) as u64;
        assert(t.take(i - from + 1).drop_last() =~= t.take(i - from));
        if d > max {
            proof {
                if all_digits(t) {
                    lemma_digits_value_grows(t, i - from + 1);
                }
            }
            return None;
        }
        if v > (max - d) / 10 {
            proof {
                assert(v * 10 + d > max) by (nonlinear_arith)
                    requires
                        v > (max - d) / 10,
                        d <= max,
                ;
                if all_digits(t) {
                    lemma_digits_value_grows(t, i - from + 1);
                }
            }
            return None;
        }
        assert(v * 10 + d <= max) by (nonlinear_arith)
            requires
                v <= (max - d) / 10,
                d <= max,
        ;
        v = v * 10 + d;
        i = i + 1;
    }
    assert(t.take(i - from) =~= t);
    Some(v)
}

/// `str::parse` for an unsigned integer type whose largest value is `max`.
pub fn parse_unsigned_str(s: &str, max: u64) -> (res: Option<u64>)
    ensures
        match res {
            Some(v) => parse_unsigned(s@, max as nat) == Some(v as nat),
            None => parse_unsigned(s@, max as nat).is_none(),
        },
{
    let cs = chars_of(s);
    let from: usize = if cs.len() > 0 && cs[0] == '+' {
        1
    } else {
        0
    };
    proof {
        assert(cs@.skip(1) =~= s@.drop_first());
        assert(cs@.skip(0) =~= s@);
    }
    digits_at_most(&cs, from, max)
}

/// `str::parse::<i64>`.
pub fn parse_i64_str(s: &str) -> (res: Option<i64>)
    ensures
        match res {
            Some(v) => parse_i64(s@) == Some(v as int),
            None => parse_i64(s@).is_none(),
        },
{
    let cs = chars_of(s);
    proof {
        assert(cs@.skip(1) =~= s@.drop_first());
        assert(cs@.skip(0) =~= s@);
    }
    if cs.len() > 0 && cs[0] == '-' {
        match digits_at_most(&cs, 1, 0x8000_0000_0000_0000u64) {
            Some(m) => {
                if m == 0x8000_0000_0000_0000u64 {
                    Some(i64::MIN)
                } else {
                    Some(-(m as i64))
                }
            },
            None => None,
        }
    } else {
        let from: usize = if cs.len() > 0 && cs[0] == '+' {
            1
        } else {
            0
        };
        match digits_at_most(&cs, from, 0x7fff_ffff_ffff_ffffu64) {
            Some(m) => Some(m as i64),
            None => None,
        }
    }
}

// ---------------------------------------------------------------------
// Unicode lower-casing
// ---------------------------------------------------------------------

pub open spec fn all_ascii(s: Seq<char>) -> bool {
    forall|i: int| 0 <= i < s.len() ==> (#[trigger] s[i] as u32) < 128
}

/// Name for what `str::to_lowercase` returns for a given text.
pub uninterp spec fn unicode_lowercase(s: Seq<char>) -> Seq<char>;

/// Lower-casing of a text: on an all-ASCII text, each character
/// lower-cased on its own; otherwise the Unicode lower-case form.
pub open spec fn lowercase(s: Seq<char>) -> Seq<char> {
    if all_ascii(s) {
        Seq::new(s.len(), |i: int| ascii_lower(s[i]) as char)
    } else {
        unicode_lowercase(s)
    }
}

/// Calls `str::to_lowercase`. Trusted: the result is `lowercase(s)`: the
/// named Unicode lower-case form, which on an all-ASCII text maps `A`-`Z`
/// to `a`-`z` and keeps every other character.
#[verifier::external_body]
pub fn to_lowercase_str(s: &str) -> (res: String)
    ensures
        all_ascii(s@) ==> res@ == Seq::new(s@.len(), |i: int| ascii_lower(s@[i]) as char),
        !all_ascii(s@) ==> res@ == unicode_lowercase(s@),
{
    s.to_lowercase()
}

/// Name for the text that `Debug` writes for a `str`: the text in double
/// quotes, with quotes, backslashes and control characters escaped.
pub uninterp spec fn debug_text(s: Seq<char>) -> Seq<char>;

/// Calls `format!("{:?}", s)`. Trusted: the result is the named `Debug`
/// text of `s`, which depends on `s` alone.
#[verifier::external_body]
pub fn debug_quoted(s: &str) -> (res: String)
    ensures
        res@ == debug_text(s@),
{
    format!("{:?}", s)
}

/// A copy of each string of a list.
pub fn clone_strings(v: &[String]) -> (res: Vec<String>)
    ensures
        string_views(res@) == string_views(v@),
{
    let mut out: Vec<String> = Vec::new();
    let mut i: usize = 0;
    while i < v.len()
        invariant
            i <= v.len(),
            string_views(out@) =~= string_views(v@).take(i as int),
        decreases v.len() - i,
    {
        let ghost old_out = out@;
        out.push(string_clone(&v[i]));
        assert(string_views(out@) =~= string_views(old_out).push(v@[i as int]@));
        i = i + 1;
    }
    assert(string_views(v@).take(v.len() as int) =~= string_views(v@));
    out
}

pub open spec fn opt_view(o: Option<String>) -> Option<Seq<char>> {
    match o {
        Some(s) => Some(s@),
        None => None,
    }
}

pub fn clone_opt_string(o: &Option<String>) -> (res: Option<String>)
    ensures
        opt_view(res) == opt_view(*o),
{
    match o {
        Some(s) => Some(string_clone(s)),
        None => None,
    }
}

/// `text.split(',').map(str::trim).filter(|s| !s.is_empty())`, collected.
pub fn split_csv_str(s: &str) -> (res: Vec<String>)
    ensures
        string_views(res@) == split_csv(s@),
{
    let parts = split_char_str(s, ',');
    trimmed_nonempty_vec(&parts)
}

/// Moves the strings of `src` to the end of `dst`.
pub fn append_strings(dst: &mut Vec<String>, src: Vec<String>)
    ensures
        string_views(final(dst)@) == string_views(old(dst)@) + string_views(src@),
{
    let ghost start = string_views(dst@);
    let mut i: usize = 0;
    while i < src.len()
        invariant
            i <= src.len(),
            string_views(dst@) =~= start + string_views(src@).take(i as int),
        decreases src.len() - i,
    {
        let ghost before = string_views(dst@);
        dst.push(string_clone(&src[i]));
        assert(string_views(dst@) =~= before.push(src@[i as int]@));
        assert(string_views(src@).take(i + 1) =~= string_views(src@).take(i as int).push(src@[i as int]@));
        i = i + 1;
    }
    assert(string_views(src@).take(src.len() as int) =~= string_views(src@));
}

} // verus!
