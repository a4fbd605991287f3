//! Small helpers that turn form-field text into values.
use vstd::prelude::*;
use rand::Rng;

use crate::text::{
    debug_quoted, debug_text, lines, lines_of, parse_i64, parse_i64_str, parse_unsigned, parse_unsigned_str,
    split_csv_str, str_eq_ignore_ascii_case, eq_ignore_ascii_case, string_of,
    string_views, trim, trim_str, trimmed_nonempty, trimmed_nonempty_vec,
};

verus! {

/// WireGuard listen ports are often randomized within the IANA
/// dynamic/private port range, to avoid an obviously "default" footprint.
pub const RANDOM_LISTEN_PORT_LOW: u16 = 49152;

pub const RANDOM_LISTEN_PORT_HIGH: u16 = 65535;

/// Calls `rand::thread_rng().gen_range(low..=high)`. Trusted only for the
/// bounds: the value is random.
#[verifier::external_body]
fn random_u16_between(low: u16, high: u16) -> (res: u16)
    requires
        low <= high,
    ensures
        low <= res <= high,
{
    rand::thread_rng().gen_range(low..=high)
}

/// Calls `rand::thread_rng().gen_range(low..=high)`. Trusted only for the
/// bounds: the value is random.
#[verifier::external_body]
fn random_u32_between(low: u32, high: u32) -> (res: u32)
    requires
        low <= high,
    ensures
        low <= res <= high,
{
    rand::thread_rng().gen_range(low..=high)
}

/// Comma-separated entries, trimmed, empty ones dropped.
pub fn split_csv(text: &str) -> (res: Vec<String>)
    ensures
        string_views(res@) == crate::text::split_csv(text@),
{
    split_csv_str(text)
}

/// The non-blank lines of a text, trimmed.
pub open spec fn spec_split_lines(text: Seq<char>) -> Seq<Seq<char>> {
    trimmed_nonempty(lines(text))
}

pub fn split_lines(text: &str) -> (res: Vec<String>)
    ensures
        string_views(res@) == spec_split_lines(text@),
{
    let ls = lines_of(text);
    trimmed_nonempty_vec(&ls)
}

/// The message of a whole number field that does not read as one.
pub open spec fn whole_number_error(field_name: Seq<char>, t: Seq<char>) -> Seq<char> {
    field_name + " must be a whole number, got "@ + debug_text(t)
}

/// A whole number field: blank is `None`, otherwise the (trimmed) text must
/// be an `i64`.
pub fn parse_int(text: &str, field_name: &str) -> (res: Result<Option<i64>, String>)
    ensures
        trim(text@).len() == 0 ==> res == Ok::<Option<i64>, String>(None),
        trim(text@).len() > 0 ==> match res {
            Ok(Some(v)) => parse_i64(trim(text@)) == Some(v as int),
            Ok(None) => false,
            Err(m) => parse_i64(trim(text@)).is_none() && m@ == whole_number_error(
                field_name@,
                trim(text@),
            ),
        },
{
    let t = trim_str(text);
    if t.as_str().is_empty() {
        return Ok(None);
    }
    match parse_i64_str(t.as_str()) {
        Some(v) => Ok(Some(v)),
        None => {
            let mut msg = string_of(field_name);
            msg.append(" must be a whole number, got ");
            msg.append(debug_quoted(t.as_str()).as_str());
            Err(msg)
        },
    }
}

/// What `parse_u32` makes of a parsed whole number: negatives become 0, and
/// the value is cut to its low 32 bits (as `v.max(0) as u32`).
pub open spec fn clamp_u32(v: int) -> u32 {
    if v < 0 {
        0
    } else {
        (v % 0x1_0000_0000) as u32
    }
}

/// A whole number field read as a `u32` (see `clamp_u32`); a field that is
/// no whole number gives the message of `parse_int`.
pub fn parse_u32(text: &str, field_name: &str) -> (res: Result<Option<u32>, String>)
    ensures
        trim(text@).len() == 0 ==> res == Ok::<Option<u32>, String>(None),
        trim(text@).len() > 0 ==> match res {
            Ok(Some(v)) => parse_i64(trim(text@)) matches Some(n) && v == clamp_u32(n),
            Ok(None) => false,
            Err(m) => parse_i64(trim(text@)).is_none() && m@ == whole_number_error(
                field_name@,
                trim(text@),
            ),
        },
{
    match parse_int(text, field_name) {
        Ok(Some(v)) => {
            let c: u32 = if v < 0 {
                0
            } else {
                (v % 0x1_0000_0000i64) as u32
            };
            Ok(Some(c))
        },
        Ok(None) => Ok(None),
        Err(m) => Err(m),
    }
}

/// A random port in the dynamic/private range.
pub fn generate_random_listen_port() -> (res: u16)
    ensures
        RANDOM_LISTEN_PORT_LOW <= res <= RANDOM_LISTEN_PORT_HIGH,
{
    random_u16_between(RANDOM_LISTEN_PORT_LOW, RANDOM_LISTEN_PORT_HIGH)
}

/// How a listen-port field reads: blank, the word `random` (any case),
/// or a port number.
pub enum ListenPortText {
    Blank,
    Random,
    Number(u16),
    Invalid,
}

pub open spec fn listen_port_text(text: Seq<char>) -> ListenPortText {
    let t = trim(text);
    if t.len() == 0 {
        ListenPortText::Blank
    } else if eq_ignore_ascii_case(t, "random"@) {
        ListenPortText::Random
    } else {
        match parse_unsigned(t, 65535) {
            Some(p) => ListenPortText::Number(p as u16),
            None => ListenPortText::Invalid,
        }
    }
}

/// The message of a listen-port field that reads as nothing it accepts.
pub open spec fn listen_port_error(t: Seq<char>) -> Seq<char> {
    "Listen Port must be a number or 'random', got "@ + debug_text(t)
}

/// Accepts a blank field (no port), a literal port number, or the word
/// `random` (any case), which picks a fresh port each time it is resolved.
pub fn resolve_listen_port(text: &str) -> (res: Result<Option<u16>, String>)
    ensures
        match listen_port_text(text@) {
            ListenPortText::Blank => res == Ok::<Option<u16>, String>(None),
            ListenPortText::Random => res matches Ok(Some(p)) && RANDOM_LISTEN_PORT_LOW <= p
                <= RANDOM_LISTEN_PORT_HIGH,
            ListenPortText::Number(p) => res == Ok::<Option<u16>, String>(Some(p)),
            ListenPortText::Invalid => res matches Err(m) && m@ == listen_port_error(trim(text@)),
        },
{
    let t = trim_str(text);
    if t.as_str().is_empty() {
        return Ok(None);
    }
    if str_eq_ignore_ascii_case(t.as_str(), "random") {
        return Ok(Some(generate_random_listen_port()));
    }
    match parse_unsigned_str(t.as_str(), 65535) {
        Some(p) => Ok(Some(p as u16)),
        None => {
            let mut msg = string_of("Listen Port must be a number or 'random', got ");
            msg.append(debug_quoted(t.as_str()).as_str());
            Err(msg)
        },
    }
}

/// A random EoIP tunnel id, 1 to 65000.
pub fn random_tunnel_id() -> (res: u32)
    ensures
        1 <= res <= 65000,
{
    random_u32_between(1, 65000)
}

} // verus!
