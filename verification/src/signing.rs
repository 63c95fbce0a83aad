//! Authentication of device configurations with HMAC-SHA256: the agent signs
//! the configuration it writes onto a device and refuses a configuration whose
//! signature does not match.
use vstd::prelude::*;
use crate::models::{DeviceConfig, DeviceConfigView};
use hmac::{Hmac, Mac};
use sha2::Sha256;

verus! {

/// A name for what HMAC-SHA256 computes over `msg` with `key` (RFC 2104 with SHA-256).
pub uninterp spec fn hmac_sha256(key: Seq<u8>, msg: Seq<u8>) -> Seq<u8>;

/// Computes HMAC-SHA256 with `hmac::Hmac<sha2::Sha256>`: `Mac::new_from_slice`,
/// `Mac::update`, `Mac::finalize`. The tag is what `hmac_sha256` names and is
/// 32 bytes long (SHA-256's output size). `new_from_slice` accepts a key of any
/// length for HMAC, so the `expect` never fires.
#[verifier::external_body]
fn hmac_sha256_tag(key: &[u8], msg: &[u8]) -> (tag: Vec<u8>)
    ensures
        tag@ == hmac_sha256(key@, msg@),
        tag@.len() == 32,
{
    let mut mac = <Hmac<Sha256> as Mac>::new_from_slice(key).expect("HMAC can take key of any size");
    mac.update(msg);
    mac.finalize().into_bytes().to_vec()
}

/// Lower-case hexadecimal digit for a nibble.
pub open spec fn hex_digit(n: u8) -> char {
    if n < 10 {
        (48 + n) as char
    } else {
        (87 + n) as char
    }
}

/// Lower-case hexadecimal text of `b`: two digits per byte, high nibble first
/// (what `hex::encode` writes).
pub open spec fn hex_lower(b: Seq<u8>) -> Seq<char> {
    Seq::new(
        2 * b.len(),
        |i: int|
            if i % 2 == 0 {
                hex_digit(b[i / 2] / 16)
            } else {
                hex_digit(b[i / 2] % 16)
            },
    )
}

fn nibble_char(n: u8) -> (c: char)
    requires
        n < 16,
    ensures
        c == hex_digit(n),
{
    if n < 10 {
        (n + 48u8) as char
    } else {
        (n + 87u8) as char
    }
}

/// Lower-case hexadecimal encoding of bytes.
pub fn hex_encode(b: &[u8]) -> (s: String)
    ensures
        s@ == hex_lower(b@),
{
    let mut v: Vec<char> = Vec::new();
    let mut i: usize = 0;
    while i < b.len()
        invariant
            0 <= i <= b@.len(),
            v@.len() == 2 * i,
            forall|k: int| 0 <= k < 2 * i ==> #[trigger] v@[k] == hex_lower(b@)[k],
        decreases b.len() - i,
    {
        let x = b[i];
        v.push(nibble_char(x / 16));
        v.push(nibble_char(x % 16));
        proof {
            assert(hex_lower(b@)[2 * i as int] == hex_digit(x / 16));
            assert(hex_lower(b@)[2 * i + 1] == hex_digit(x % 16));
        }
        i = i + 1;
    }
    assert(v@ =~= hex_lower(b@));
    crate::text::string_from(v.as_slice())
}

/// The signature of `payload` under `secret_key`: HMAC-SHA256 keyed by the
/// key's UTF-8 bytes over the payload's UTF-8 bytes, written in lower-case hex.
pub open spec fn expected_signature(payload: Seq<char>, secret_key: Seq<char>) -> Seq<char> {
    hex_lower(hmac_sha256(vstd::utf8::encode_utf8(secret_key), vstd::utf8::encode_utf8(payload)))
}

/// The signature of `payload` under `secret_key`.
pub fn sign_payload(payload: &str, secret_key: &str) -> (sig: String)
    ensures
        sig@ == expected_signature(payload@, secret_key@),
        sig@.len() == 64,
{
    let tag = hmac_sha256_tag(secret_key.as_bytes(), payload.as_bytes());
    hex_encode(tag.as_slice())
}

/// The configuration after signing: unchanged but for its signature.
pub open spec fn signed(c: DeviceConfigView, payload: Seq<char>, secret_key: Seq<char>) -> DeviceConfigView {
    DeviceConfigView { signature: Some(expected_signature(payload, secret_key)), ..c }
}

/// Whether a configuration carries the signature of `payload` under `secret_key`.
pub open spec fn signature_valid(c: DeviceConfigView, payload: Seq<char>, secret_key: Seq<char>) -> bool {
    c.signature == Some(expected_signature(payload, secret_key))
}

/// Signs `config`: `payload` is the serialised form of `config.unsigned_copy()`.
pub fn sign_config(config: &mut DeviceConfig, payload: &str, secret_key: &str)
    ensures
        final(config)@ == signed(old(config)@, payload@, secret_key@),
        expected_signature(payload@, secret_key@).len() == 64,
{
    let sig = sign_payload(payload, secret_key);
    config.signature = Some(sig);
}

/// Whether `config` is signed with `secret_key` over `payload`, the serialised
/// form of `config.unsigned_copy()`. A configuration with no signature is refused.
pub fn verify_signature(config: &DeviceConfig, payload: &str, secret_key: &str) -> (ok: bool)
    ensures
        ok == signature_valid(config@, payload@, secret_key@),
        expected_signature(payload@, secret_key@).len() == 64,
{
    let expected = sign_payload(payload, secret_key);
    signature_matches(config, expected.as_str())
}

/// Whether `config` carries exactly the signature `expected`.
pub fn signature_matches(config: &DeviceConfig, expected: &str) -> (ok: bool)
    ensures
        ok == (config@.signature == Some(expected@)),
{
    match &config.signature {
        None => false,
        Some(s) => crate::text::str_equals(s.as_str(), expected),
    }
}

/// A configuration signed with a key over a payload verifies with that key over
/// that payload.
pub proof fn lemma_signed_config_verifies(c: DeviceConfigView, payload: Seq<char>, secret_key: Seq<char>)
    ensures
        signature_valid(signed(c, payload, secret_key), payload, secret_key),
{
}

/// Signing leaves the unsigned form of a configuration as it was, so the payload
/// serialised after signing is the payload that was signed.
pub proof fn lemma_signing_keeps_unsigned_form(c: DeviceConfigView, payload: Seq<char>, secret_key: Seq<char>)
    ensures
        (DeviceConfigView { signature: None, ..signed(c, payload, secret_key) }) == (DeviceConfigView { signature: None, ..c }),
{
}

/// A configuration without a signature never verifies.
pub proof fn lemma_unsigned_never_verifies(c: DeviceConfigView, payload: Seq<char>, secret_key: Seq<char>)
    requires
        c.signature is None,
    ensures
        !signature_valid(c, payload, secret_key),
{
}

/// Hex text is twice as long as the bytes and uses only `0-9a-f`.
pub proof fn lemma_hex_shape(b: Seq<u8>)
    ensures
        hex_lower(b).len() == 2 * b.len(),
        forall|i: int|
            0 <= i < hex_lower(b).len() ==> {
                let c = #[trigger] hex_lower(b)[i];
                ('0' <= c <= '9') || ('a' <= c <= 'f')
            },
{
}

proof fn lemma_hex_digit_injective(x: u8, y: u8)
    requires
        x < 16,
        y < 16,
        hex_digit(x) == hex_digit(y),
    ensures
        x == y,
{
    let cx = hex_digit(x);
    let cy = hex_digit(y);
    assert(cx as u32 == if x < 10 { 48 + x } else { 87 + x });
    assert(cy as u32 == if y < 10 { 48 + y } else { 87 + y });
}

/// Distinct byte strings have distinct hex text.
pub proof fn lemma_hex_injective(a: Seq<u8>, b: Seq<u8>)
    requires
        hex_lower(a) == hex_lower(b),
    ensures
        a == b,
{
    assert(hex_lower(a).len() == 2 * a.len());
    assert(hex_lower(b).len() == 2 * b.len());
    assert(a.len() == b.len());
    assert forall|k: int| 0 <= k < a.len() implies a[k] == b[k] by {
        let i = 2 * k;
        assert(i % 2 == 0 && i / 2 == k);
        assert((i + 1) % 2 == 1 && (i + 1) / 2 == k);
        assert(a.len() == b.len());
        assert(hex_lower(a)[i] == hex_digit(a[k] / 16));
        assert(hex_lower(b)[i] == hex_digit(b[k] / 16));
        assert(hex_lower(a)[i + 1] == hex_digit(a[k] % 16));
        assert(hex_lower(b)[i + 1] == hex_digit(b[k] % 16));
        lemma_hex_digit_injective(a[k] / 16, b[k] / 16);
        lemma_hex_digit_injective(a[k] % 16, b[k] % 16);
        assert(a[k] == 16 * (a[k] / 16) + a[k] % 16);
        assert(b[k] == 16 * (b[k] / 16) + b[k] % 16);
    }
    assert(a =~= b);
}

} // verus!
