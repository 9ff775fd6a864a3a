//! Checking that a delivery was signed by GitHub: the `X-Hub-Signature-256`
//! header holds `sha256=` and the hex-encoded HMAC-SHA256 of the payload,
//! keyed with the configured secret.

use vstd::prelude::*;
use vstd::utf8::encode_utf8;
use hmac::{Hmac, Mac};
use sha2::Sha256;
use crate::headers::{Headers, header_lookup, header_text, header_value_str};

verus! {

broadcast use vstd::string::group_string_axioms;

/// Name of the header that carries the signature.
pub open spec fn signature_header() -> Seq<char> {
    "X-Hub-Signature-256"@
}

/// The bytes of `sha256=`, which start the signature header's value.
pub open spec fn signature_prefix() -> Seq<u8> {
    seq![115u8, 104u8, 97u8, 50u8, 53u8, 54u8, 61u8]
}

/// Value of a hexadecimal digit (either case), as the `hex` crate reads it.
pub open spec fn hex_digit_value(b: u8) -> Option<u8> {
    if 48 <= b && b <= 57 {
        Some((b - 48) as u8)
    } else if 97 <= b && b <= 102 {
        Some((b - 97 + 10) as u8)
    } else if 65 <= b && b <= 70 {
        Some((b - 65 + 10) as u8)
    } else {
        None
    }
}

/// Text that `hex::decode` accepts: an even number of hexadecimal digits.
pub open spec fn valid_hex(s: Seq<u8>) -> bool {
    s.len() % 2 == 0 && forall|i: int| 0 <= i < s.len() ==> (#[trigger] hex_digit_value(s[i])) is Some
}

/// The bytes that hexadecimal text stands for, two digits per byte, high
/// digit first.
pub open spec fn hex_decoded(s: Seq<u8>) -> Seq<u8> {
    Seq::new(
        s.len() / 2,
        |i: int| (hex_digit_value(s[2 * i])->0 * 16 + hex_digit_value(s[2 * i + 1])->0) as u8,
    )
}

#[verifier::external_type_specification]
#[verifier::external_body]
pub struct ExFromHexError(hex::FromHexError);

/// `hex::decode`: succeeds exactly on an even number of hexadecimal digits
/// (upper or lower case), and then gives the bytes they stand for. The
/// error's variant is not stated.
#[verifier::external_body]
fn hex_decode(data: &[u8]) -> (res: Result<Vec<u8>, hex::FromHexError>)
    ensures
        res is Ok <==> valid_hex(data@),
        res matches Ok(v) ==> v@ == hex_decoded(data@),
{
    hex::decode(data)
}

/// The HMAC-SHA256 tag of `message` under `key`.
pub uninterp spec fn hmac_sha256(key: Seq<u8>, message: Seq<u8>) -> Seq<u8>;

/// `Hmac::<Sha256>::new_from_slice(key)` (which accepts any key), `update`
/// with the message, then `verify_slice(tag)`: true exactly when `tag` equals
/// the HMAC of the message. The HMAC is always a 32-byte SHA-256 output and
/// `verify_slice` refuses a tag of any other length, so no tag of another
/// length is accepted.
#[verifier::external_body]
fn hmac_sha256_verify(key: &[u8], message: &[u8], tag: &[u8]) -> (ok: bool)
    ensures
        ok == (tag@ == hmac_sha256(key@, message@)),
{
    let mut mac = <Hmac<Sha256> as Mac>::new_from_slice(key).unwrap();
    mac.update(message);
    mac.verify_slice(tag).is_ok()
}

/// The digest that the signature header announces: the header is present,
/// is visible ASCII, starts with `sha256=`, and the rest is hexadecimal.
pub open spec fn announced_digest(h: Seq<(Seq<char>, Seq<u8>)>) -> Option<Seq<u8>> {
    match header_lookup(h, signature_header()) {
        None => None,
        Some(v) => if header_text(v) is Some && v.len() >= 7 && v.take(7) == signature_prefix()
            && valid_hex(v.skip(7)) {
            Some(hex_decoded(v.skip(7)))
        } else {
            None
        },
    }
}

/// The delivery is signed with `secret`: the announced digest is the
/// HMAC-SHA256 of the payload keyed with the secret's UTF-8 bytes.
pub open spec fn signature_valid(
    h: Seq<(Seq<char>, Seq<u8>)>,
    payload: Seq<u8>,
    secret: Seq<char>,
) -> bool {
    match announced_digest(h) {
        None => false,
        Some(tag) => tag == hmac_sha256(encode_utf8(secret), payload),
    }
}

/// Whether `v` starts with `sha256=`.
fn has_signature_prefix(v: &[u8]) -> (res: bool)
    ensures
        res == (v@.len() >= 7 && v@.take(7) == signature_prefix()),
{
    if v.len() < 7 {
        return false;
    }
    let prefix: [u8; 7] = [115u8, 104u8, 97u8, 50u8, 53u8, 54u8, 61u8];
    let mut i: usize = 0;
    while i < 7
        invariant
            i <= 7,
            v@.len() >= 7,
            prefix@ == signature_prefix(),
            forall|j: int| 0 <= j < i ==> v@[j] == signature_prefix()[j],
        decreases 7 - i,
    {
        if v[i] != prefix[i] {
            assert(v@.take(7)[i as int] == v@[i as int]);
            assert(prefix@[i as int] == signature_prefix()[i as int]);
            return false;
        }
        i = i + 1;
    }
    assert(v@.take(7) =~= signature_prefix());
    true
}

/// Whether the headers carry a valid signature of `payload` for `secret`.
pub fn signature_matches(headers: &Headers, payload: &[u8], secret: &str) -> (ok: bool)
    ensures
        ok == signature_valid(headers@, payload@, secret@),
{
    let v = match headers.get("X-Hub-Signature-256") {
        None => return false,
        Some(v) => v,
    };
    if header_value_str(v).is_none() {
        return false;
    }
    if !has_signature_prefix(v) {
        return false;
    }
    let (_, rest) = v.split_at(7);
    assert(rest@ =~= v@.skip(7));
    let tag = match hex_decode(rest) {
        Ok(t) => t,
        Err(_) => return false,
    };
    hmac_sha256_verify(secret.as_bytes(), payload, tag.as_slice())
}

} // verus!
