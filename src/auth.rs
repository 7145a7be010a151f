//! Credentials of the polled venue: reading the private key and signing
//! requests with RSA-PSS over SHA-256.
use vstd::prelude::*;
use vstd::string::*;
use base64::Engine;
use pkcs8::DecodePrivateKey;
use rsa::pkcs1::DecodeRsaPrivateKey;
use rsa::signature::{RandomizedSigner, SignatureEncoding};

verus! {

/// rsa's private key, carried through opaque.
#[verifier::external_type_specification]
#[verifier::external_body]
pub struct ExRsaPrivateKey(rsa::RsaPrivateKey);

/// Whether `RsaPrivateKey::from_pkcs1_pem` accepts a PEM text.
pub uninterp spec fn pkcs1_pem_accepts(pem: Seq<char>) -> bool;

/// Whether `RsaPrivateKey::from_pkcs8_pem` accepts a PEM text.
pub uninterp spec fn pkcs8_pem_accepts(pem: Seq<char>) -> bool;

/// The character of a six-bit value in the standard base64 alphabet.
pub open spec fn base64_digit(v: int) -> char {
    if v < 26 {
        ('A' as int + v) as char
    } else if v < 52 {
        ('a' as int + v - 26) as char
    } else if v < 62 {
        ('0' as int + v - 52) as char
    } else if v == 62 {
        '+'
    } else {
        '/'
    }
}

/// Standard base64 with `=` padding: each group of three bytes becomes four
/// characters; a last group of one or two bytes is padded to four.
pub open spec fn base64_of(b: Seq<u8>) -> Seq<char>
    decreases b.len(),
{
    if b.len() == 0 {
        Seq::empty()
    } else if b.len() == 1 {
        seq![base64_digit((b[0] as int) / 4), base64_digit(((b[0] as int) % 4) * 16), '=', '=']
    } else if b.len() == 2 {
        seq![
            base64_digit((b[0] as int) / 4),
            base64_digit(((b[0] as int) % 4) * 16 + (b[1] as int) / 16),
            base64_digit(((b[1] as int) % 16) * 4),
            '=',
        ]
    } else {
        seq![
            base64_digit((b[0] as int) / 4),
            base64_digit(((b[0] as int) % 4) * 16 + (b[1] as int) / 16),
            base64_digit(((b[1] as int) % 16) * 4 + (b[2] as int) / 64),
            base64_digit((b[2] as int) % 64),
        ] + base64_of(b.skip(3))
    }
}

/// Relies on rsa's `DecodeRsaPrivateKey::from_pkcs1_pem`: decodes an
/// `RSA PRIVATE KEY` PEM text, or fails; a function of the text alone.
#[verifier::external_body]
fn key_from_pkcs1_pem(pem: &str) -> (r: Option<rsa::RsaPrivateKey>)
    ensures
        r is Some == pkcs1_pem_accepts(pem@),
{
    rsa::RsaPrivateKey::from_pkcs1_pem(pem).ok()
}

/// Relies on pkcs8's `DecodePrivateKey::from_pkcs8_pem` for `RsaPrivateKey`:
/// decodes a `PRIVATE KEY` PEM text, or fails; a function of the text alone.
#[verifier::external_body]
fn key_from_pkcs8_pem(pem: &str) -> (r: Option<rsa::RsaPrivateKey>)
    ensures
        r is Some == pkcs8_pem_accepts(pem@),
{
    rsa::RsaPrivateKey::from_pkcs8_pem(pem).ok()
}

/// Relies on rsa's `BlindedSigningKey::<Sha256>` and
/// `RandomizedSigner::try_sign_with_rng` with `rand::thread_rng`: a PSS
/// signature of the message, salted at random, or `None` where the key is
/// too small for the padding. Nothing is promised of the bytes.
#[verifier::external_body]
fn sign_pss_sha256(key: &rsa::RsaPrivateKey, message: &Vec<u8>) -> (r: Option<Vec<u8>>) {
    let signer = rsa::pss::BlindedSigningKey::<sha2::Sha256>::new(key.clone());
    let signed: Result<rsa::pss::Signature, _> = signer.try_sign_with_rng(&mut rand::thread_rng(), message);
    signed.ok().map(|s| s.to_vec())
}

/// Relies on `base64::engine::general_purpose::STANDARD.encode`: standard
/// alphabet with padding (see `base64_of`), four characters for each started
/// group of three bytes. It panics only where that length overflows `usize`.
#[verifier::external_body]
fn base64_encode(b: &Vec<u8>) -> (r: String)
    requires
        b@.len() <= usize::MAX / 2,
    ensures
        r@ == base64_of(b@),
        r@.len() == 4 * ((b@.len() + 2) / 3),
{
    base64::engine::general_purpose::STANDARD.encode(b)
}

/// Why no signature could be made.
#[derive(Clone, Copy, PartialEq, Eq, Structural, Debug)]
pub enum AuthError {
    /// The PEM text is neither a PKCS#1 nor a PKCS#8 RSA private key.
    UnreadableKey,
    /// The key cannot sign (too small for PSS over SHA-256).
    SigningFailed,
    /// The signature is too long to encode.
    SignatureTooLong,
}

/// Decodes an RSA private key from PEM text, PKCS#1 first, then PKCS#8.
pub fn parse_private_key(pem: &str) -> (r: Result<rsa::RsaPrivateKey, AuthError>)
    ensures
        r is Ok <==> pkcs1_pem_accepts(pem@) || pkcs8_pem_accepts(pem@),
        r is Err ==> r == Err::<rsa::RsaPrivateKey, AuthError>(AuthError::UnreadableKey),
{
    match key_from_pkcs1_pem(pem) {
        Some(k) => Ok(k),
        None => match key_from_pkcs8_pem(pem) {
            Some(k) => Ok(k),
            None => Err(AuthError::UnreadableKey),
        },
    }
}

/// The decimal digits of `n` as ASCII bytes.
pub open spec fn decimal_bytes(n: nat) -> Seq<u8>
    decreases n,
{
    if n < 10 {
        seq![(48 + n) as u8]
    } else {
        decimal_bytes(n / 10).push((48 + n % 10) as u8)
    }
}

/// The text that is signed: the timestamp in decimal, the method, the path.
pub open spec fn signing_message(timestamp: u128, method: Seq<u8>, path: Seq<u8>) -> Seq<u8> {
    decimal_bytes(timestamp as nat) + method + path
}

fn push_decimal(n: u128, out: &mut Vec<u8>)
    ensures
        final(out)@ == old(out)@ + decimal_bytes(n as nat),
    decreases n,
{
    if n >= 10 {
        push_decimal(n / 10, out);
    }
    out.push((48 + n % 10) as u8);
    assert(final(out)@ =~= old(out)@ + decimal_bytes(n as nat));
}

fn push_bytes(b: &[u8], out: &mut Vec<u8>)
    ensures
        final(out)@ == old(out)@ + b@,
{
    let ghost start = out@;
    let mut i: usize = 0;
    while i < b.len()
        invariant
            i <= b.len(),
            out@ == start + b@.take(i as int),
        decreases b.len() - i,
    {
        out.push(b[i]);
        assert(start + b@.take(i as int + 1) =~= out@);
        i = i + 1;
    }
    assert(b@.take(b.len() as int) =~= b@);
}

/// Builds the signed text of a request (see `signing_message`).
pub fn build_signing_message(timestamp: u128, method: &str, path: &str) -> (r: Vec<u8>)
    ensures
        r@ == signing_message(timestamp, method.spec_bytes(), path.spec_bytes()),
{
    let mut out: Vec<u8> = Vec::new();
    push_decimal(timestamp, &mut out);
    push_bytes(method.as_bytes(), &mut out);
    push_bytes(path.as_bytes(), &mut out);
    assert(out@ =~= signing_message(timestamp, method.spec_bytes(), path.spec_bytes()));
    out
}

/// Encodes the signer's result: padded base64 of the signature bytes, or
/// the error for a failed signing or a signature too long to encode.
pub fn encode_signature(sig: Option<Vec<u8>>) -> (r: Result<String, AuthError>)
    ensures
        sig is None ==> r == Err::<String, AuthError>(AuthError::SigningFailed),
        sig is Some && sig->Some_0@.len() > usize::MAX / 2 ==> r == Err::<String, AuthError>(
            AuthError::SignatureTooLong,
        ),
        sig is Some && sig->Some_0@.len() <= usize::MAX / 2 ==> r is Ok && r->Ok_0@ == base64_of(
            sig->Some_0@,
        ) && r->Ok_0@.len() == 4 * ((sig->Some_0@.len() + 2) / 3),
{
    match sig {
        Some(bytes) => {
            if bytes.len() > usize::MAX / 2 {
                Err(AuthError::SignatureTooLong)
            } else {
                Ok(base64_encode(&bytes))
            }
        },
        None => Err(AuthError::SigningFailed),
    }
}

/// Signs a request: RSA-PSS over SHA-256 of `build_signing_message`'s text
/// (timestamp in milliseconds, in decimal, then method, then path), encoded
/// as padded base64 by `encode_signature`. The signature is salted at
/// random, so only its form is known: the base64 of some byte sequence.
pub fn generate_signature(private_key: &rsa::RsaPrivateKey, timestamp: u128, method: &str, path: &str) -> (r: Result<String, AuthError>)
    ensures
        r is Ok ==> exists|sig: Seq<u8>|
            sig.len() <= usize::MAX / 2 && #[trigger] base64_of(sig) == r->Ok_0@ && r->Ok_0@.len() == 4 * ((
            sig.len() + 2) / 3),
        r is Err ==> r->Err_0 == AuthError::SigningFailed || r->Err_0 == AuthError::SignatureTooLong,
{
    let message = build_signing_message(timestamp, method, path);
    let sig = sign_pss_sha256(private_key, &message);
    let ghost signed = sig;
    let r = encode_signature(sig);
    proof {
        if r is Ok {
            let b = signed->Some_0@;
            assert(b.len() <= usize::MAX / 2 && base64_of(b) == r->Ok_0@);
        }
    }
    r
}

} // verus!
