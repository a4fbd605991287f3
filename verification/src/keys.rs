//! Key handling: X25519 key pairs and pre-shared keys, all carried as
//! standard base64 text.
use vstd::prelude::*;
use base64::Engine;
use rand::RngCore;

use crate::error::WgError;
use crate::ip::{address_text, ip_parse_error, parse_ip_or_network, spec_ip_or_network};
use crate::text::{
    clone_strings, debug_quoted, debug_text, dec, dec_string, is_ws, string_of, string_views, trim, trim_str,
};

verus! {

/// Name for what the standard base64 engine decodes a text to (`None` when
/// it refuses the text).
pub uninterp spec fn base64_decode(text: Seq<char>) -> Option<Seq<u8>>;

/// Name for the text the standard base64 engine encodes bytes as.
pub uninterp spec fn base64_encode(bytes: Seq<u8>) -> Seq<char>;

/// Name for the X25519 public key of a 32-byte secret.
pub uninterp spec fn x25519_public(secret: Seq<u8>) -> Seq<u8>;

/// A symbol of the standard base64 alphabet, or its padding.
pub open spec fn is_base64_symbol(c: char) -> bool {
    ||| ('A' <= c && c <= 'Z')
    ||| ('a' <= c && c <= 'z')
    ||| ('0' <= c && c <= '9')
    ||| c == '+'
    ||| c == '/'
    ||| c == '='
}

pub open spec fn all_base64_symbols(s: Seq<char>) -> bool {
    forall|i: int| 0 <= i < s.len() ==> is_base64_symbol(#[trigger] s[i])
}

/// Name for the text (`Display`) of the error the standard base64 engine
/// gives for a text it refuses.
pub uninterp spec fn base64_decode_error(text: Seq<char>) -> Seq<char>;

/// Calls `STANDARD.decode` of the `base64` crate. Trusted: the result is
/// the named decoding of `text`, a refusal is the named text of its
/// `DecodeError` (which depends on `text` alone), and decoding only
/// succeeds on a text made of alphabet symbols and padding (any other byte
/// is an `InvalidByte`).
#[verifier::external_body]
fn base64_decode_str(text: &str) -> (res: Result<Vec<u8>, String>)
    ensures
        match res {
            Ok(v) => base64_decode(text@) == Some(v@),
            Err(m) => base64_decode(text@).is_none() && m@ == base64_decode_error(text@),
        },
        res is Ok ==> all_base64_symbols(text@),
{
    match base64::engine::general_purpose::STANDARD.decode(text) {
        Ok(v) => Ok(v),
        Err(e) => Err(e.to_string()),
    }
}

/// Calls `STANDARD.encode` of the `base64` crate. Trusted: the result is
/// the named encoding of `bytes`; it is canonical, padded standard base64,
/// so it is made of alphabet symbols and padding, is `4 * ceil(n / 3)`
/// symbols long, and decodes back to `bytes`.
#[verifier::external_body]
fn base64_encode_bytes(bytes: &[u8]) -> (res: String)
    ensures
        res@ == base64_encode(bytes@),
        base64_decode(res@) == Some(bytes@),
        res@.len() == 4 * ((bytes@.len() + 2) / 3),
        all_base64_symbols(res@),
{
    base64::engine::general_purpose::STANDARD.encode(bytes)
}

/// Calls `x25519_dalek::PublicKey::from(&StaticSecret::from(secret))`.
/// Trusted: the result is the named public key of `secret`, 32 bytes long.
#[verifier::external_body]
fn x25519_public_from_secret(secret: &[u8]) -> (res: Vec<u8>)
    requires
        secret@.len() == 32,
    ensures
        res@ == x25519_public(secret@),
        res@.len() == 32,
{
    let arr: [u8; 32] = secret.try_into().unwrap();
    let s = x25519_dalek::StaticSecret::from(arr);
    x25519_dalek::PublicKey::from(&s).as_bytes().to_vec()
}

/// Calls `x25519_dalek::StaticSecret::random_from_rng(OsRng)`. Trusted only
/// for the length of the secret's bytes: they are random.
#[verifier::external_body]
fn random_static_secret() -> (res: Vec<u8>)
    ensures
        res@.len() == 32,
{
    x25519_dalek::StaticSecret::random_from_rng(rand::rngs::OsRng).to_bytes().to_vec()
}

/// Calls `OsRng.fill_bytes` on a 32-byte buffer. Trusted only for the
/// length: the bytes are random.
#[verifier::external_body]
fn random_key_bytes() -> (res: Vec<u8>)
    ensures
        res@.len() == 32,
{
    let mut buf = [0u8;32];
    rand::rngs::OsRng.fill_bytes(&mut buf);
    buf.to_vec()
}

/// A text that decodes, as standard base64, to exactly 32 bytes (which
/// only a text of alphabet symbols does).
pub open spec fn decodes_to_key(text: Seq<char>) -> bool {
    &&& base64_decode(text) is Some
    &&& base64_decode(text).unwrap().len() == 32
    &&& all_base64_symbols(text)
}

/// The public key text that belongs to a private key text (which is
/// trimmed first), or `None` when it is no key.
pub open spec fn spec_public_key(private_text: Seq<char>) -> Option<Seq<char>> {
    let t = trim(private_text);
    if decodes_to_key(t) {
        Some(base64_encode(x25519_public(base64_decode(t).unwrap())))
    } else {
        None
    }
}

/// A text of base64 symbols has no white space to trim.
pub proof fn lemma_base64_text_is_trimmed(s: Seq<char>)
    requires
        all_base64_symbols(s),
    ensures
        trim(s) == s,
{
    if s.len() > 0 {
        assert(is_base64_symbol(s[0]));
        assert(is_base64_symbol(s[s.len() - 1]));
        assert(!is_ws(s[0]));
        assert(!is_ws(s.last()));
    }
}

fn concat2(a: &str, b: &str) -> (res: String)
    ensures
        res@ == a@ + b@,
{
    let mut s = string_of(a);
    s.append(b);
    s
}

/// Generate a new WireGuard private key, base64-encoded.
pub fn generate_private_key() -> (res: String)
    ensures
        decodes_to_key(res@),
        all_base64_symbols(res@),
        res@.len() == 44,
        spec_public_key(res@) is Some,
{
    let secret = random_static_secret();
    let res = base64_encode_bytes(secret.as_slice());
    proof {
        lemma_base64_text_is_trimmed(res@);
    }
    res
}

/// The message of a (trimmed) private key text that is no key: the
/// decoder's words, or the length it decodes to.
pub open spec fn private_key_error(t: Seq<char>) -> Seq<char> {
    match base64_decode(t) {
        None => "Invalid private key: "@ + base64_decode_error(t),
        Some(b) => "Invalid private key: expected 32 bytes, got "@ + dec(b.len()),
    }
}

/// The message of a key field that is no key: the decoder's words, or the
/// length it decodes to.
pub open spec fn key_field_error(field_name: Seq<char>, value: Seq<char>) -> Seq<char> {
    match base64_decode(value) {
        None => field_name + " is not valid base64: "@ + base64_decode_error(value),
        Some(b) => field_name + " must decode to 32 bytes, got "@ + dec(b.len()),
    }
}

/// Derive the matching public key for a given base64 private key.
pub fn public_key_from_private(private_key_b64: &str) -> (res: Result<String, WgError>)
    ensures
        match res {
            Ok(p) => spec_public_key(private_key_b64@) == Some(p@),
            Err(e) => spec_public_key(private_key_b64@).is_none() && e is InvalidKey
                && e.spec_message() == private_key_error(trim(private_key_b64@)),
        },
        res matches Ok(p) ==> all_base64_symbols(p@) && decodes_to_key(p@) && p@.len() == 44,
{
    let t = trim_str(private_key_b64);
    let raw = match base64_decode_str(t.as_str()) {
        Ok(v) => v,
        Err(e) => {
            let msg = concat2("Invalid private key: ", e.as_str());
            return Err(WgError::InvalidKey(msg));
        },
    };
    if raw.len() != 32 {
        let mut msg = string_of("Invalid private key: expected 32 bytes, got ");
        msg.append(dec_string(raw.len() as u64).as_str());
        return Err(WgError::InvalidKey(msg));
    }
    let public = x25519_public_from_secret(raw.as_slice());
    Ok(base64_encode_bytes(public.as_slice()))
}

/// Generate an optional per-peer pre-shared symmetric key.
pub fn generate_preshared_key() -> (res: String)
    ensures
        decodes_to_key(res@),
        all_base64_symbols(res@),
        res@.len() == 44,
{
    let bytes = random_key_bytes();
    base64_encode_bytes(bytes.as_slice())
}

/// WireGuard keys are 32 raw bytes, base64-encoded: 44 symbols with `=`
/// padding. Returns the key unchanged when it is one.
pub fn validate_key(value: &str, field_name: &str) -> (res: Result<String, WgError>)
    ensures
        res is Ok <==> decodes_to_key(value@),
        match res {
            Ok(v) => v@ == value@ && all_base64_symbols(value@),
            Err(e) => e is InvalidKey && e.spec_message() == key_field_error(field_name@, value@),
        },
{
    let raw = match base64_decode_str(value) {
        Ok(v) => v,
        Err(e) => {
            let mut msg = string_of(field_name);
            msg.append(" is not valid base64: ");
            msg.append(e.as_str());
            return Err(WgError::InvalidKey(msg));
        },
    };
    if raw.len() != 32 {
        let mut msg = string_of(field_name);
        msg.append(" must decode to 32 bytes, got ");
        msg.append(dec_string(raw.len() as u64).as_str());
        return Err(WgError::InvalidKey(msg));
    }
    Ok(string_of(value))
}

/// Every entry is an IP address or a CIDR network (and so a text of
/// address characters).
pub open spec fn cidr_list_ok(values: Seq<Seq<char>>) -> bool {
    forall|i: int|
        0 <= i < values.len() ==> (#[trigger] spec_ip_or_network(values[i])) is Some && address_text(
            values[i],
        )
}

/// Entry `i` is the first that is neither an IP address nor a CIDR network.
pub open spec fn first_bad_entry(values: Seq<Seq<char>>, i: int) -> bool {
    &&& 0 <= i < values.len()
    &&& spec_ip_or_network(values[i]) is None
    &&& forall|j: int| 0 <= j < i ==> (#[trigger] spec_ip_or_network(values[j])) is Some
}

/// The message of a refused list entry: the field, the entry as `Debug`
/// quotes it, and the address parser's own words.
pub open spec fn bad_entry_message(field_name: Seq<char>, entry: Seq<char>) -> Seq<char> {
    "Invalid entry in "@ + field_name + " ("@ + debug_text(entry) + "): "@ + ip_parse_error(entry)
}

/// Validate a list of CIDR/IP strings, accepting either a bare address
/// (a single-address network) or an explicit `addr/prefix` form. Returns
/// the list unchanged when every entry is one.
pub fn validate_cidr_list(values: &[String], field_name: &str) -> (res: Result<Vec<String>, WgError>)
    ensures
        res is Ok <==> cidr_list_ok(string_views(values@)),
        match res {
            Ok(v) => string_views(v@) == string_views(values@),
            Err(e) => e matches WgError::InvalidCidr(m) && exists|i: int|
                #[trigger] first_bad_entry(string_views(values@), i) && m@ == bad_entry_message(
                    field_name@,
                    string_views(values@)[i],
                ),
        },
{
    let mut i: usize = 0;
    while i < values.len()
        invariant
            i <= values.len(),
            forall|j: int|
                0 <= j < i ==> (#[trigger] spec_ip_or_network(values@[j]@)) is Some && address_text(
                    values@[j]@,
                ),
        decreases values.len() - i,
    {
        match parse_ip_or_network(values[i].as_str()) {
            Ok(_) => {},
            Err(e) => {
                let mut msg = string_of("Invalid entry in ");
                msg.append(field_name);
                msg.append(" (");
                msg.append(debug_quoted(values[i].as_str()).as_str());
                msg.append("): ");
                msg.append(e.as_str());
                assert(!cidr_list_ok(string_views(values@))) by {
                    assert(string_views(values@)[i as int] == values@[i as int]@);
                }
                assert(first_bad_entry(string_views(values@), i as int)) by {
                    assert(string_views(values@)[i as int] == values@[i as int]@);
                    assert forall|j: int| 0 <= j < i implies (#[trigger] spec_ip_or_network(
                        string_views(values@)[j],
                    )) is Some by {
                        assert(string_views(values@)[j] == values@[j]@);
                    }
                }
                assert(msg@ == bad_entry_message(field_name@, string_views(values@)[i as int]));
                return Err(WgError::InvalidCidr(msg));
            },
        }
        i = i + 1;
    }
    assert(cidr_list_ok(string_views(values@))) by {
        assert forall|j: int| 0 <= j < string_views(values@).len() implies (#[trigger] spec_ip_or_network(string_views(values@)[j])) is Some && address_text(string_views(values@)[j]) by {
            assert(string_views(values@)[j] == values@[j]@);
        }
    }
    Ok(clone_strings(values))
}

} // verus!
