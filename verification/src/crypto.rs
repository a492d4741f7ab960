//! The cryptographic backend. Every contract in this module is a statement
//! about OpenSSL that Verus takes on trust; the rest of the crate is proved
//! against these statements.

use vstd::prelude::*;

verus! {

/// The SHA-256 digest of `data`, as the backend computes it.
pub uninterp spec fn sha256_digest(data: Seq<u8>) -> Seq<u8>;

/// Calls `openssl::sha::sha256`. Trusted: the 32 bytes returned are the
/// SHA-256 digest of `data`, a function of the input bytes alone.
#[verifier::external_body]
pub(crate) fn sha256(data: &[u8]) -> (out: [u8; 32])
    ensures
        out@ == sha256_digest(data@),
{
    openssl::sha::sha256(data)
}

/// `openssl::error::ErrorStack`: the errors that the backend reports. Its
/// contents are not looked into.
#[verifier::external_type_specification]
#[verifier::external_body]
pub struct ExErrorStack(openssl::error::ErrorStack);

/// `openssl::pkey::PKey`: a key held by the backend. Its contents are not
/// looked into.
#[verifier::external_type_specification]
#[verifier::external_body]
#[verifier::reject_recursive_types(T)]
pub struct ExPKey<T>(openssl::pkey::PKey<T>);

/// `openssl::pkey::Private`: the mark of a key that has its private half.
#[verifier::external_type_specification]
#[verifier::external_body]
pub struct ExPrivate(openssl::pkey::Private);

/// Whether ECDSA verification accepts the signature `(r, s)`, two big-endian
/// unsigned integers, over `data` under the public key whose DER-encoded
/// SubjectPublicKeyInfo is `public_der`: the verdict of the backend where it
/// reaches one.
pub uninterp spec fn ecdsa_accepts(public_der: Seq<u8>, r: Seq<u8>, s: Seq<u8>, data: Seq<u8>) -> bool;

/// Calls `PKey::ec_gen`: a fresh key pair on the named curve. Nothing is
/// claimed of the key, which is random. The backend panics on a name with a
/// NUL character in it.
#[verifier::external_body]
pub(crate) fn generate_ec_key(curve: &str) -> (key: Result<
    openssl::pkey::PKey<openssl::pkey::Private>,
    openssl::error::ErrorStack,
>)
    requires
        forall|i: int| 0 <= i < curve@.len() ==> curve@[i] != '\0',
{
    openssl::pkey::PKey::ec_gen(curve)
}

/// Calls `PKeyRef::public_key_to_der`: the public half of `key` as a
/// DER-encoded SubjectPublicKeyInfo. Nothing is claimed of the bytes.
#[verifier::external_body]
pub(crate) fn public_key_der(key: &openssl::pkey::PKey<openssl::pkey::Private>) -> (der: Result<
    Vec<u8>,
    openssl::error::ErrorStack,
>)
{
    key.public_key_to_der()
}

/// Calls `EcdsaSig::sign` with the EC key that `PKeyRef::ec_key` takes out
/// of `key`, and hands out the two components of the signature
/// (`EcdsaSigRef::r` and `EcdsaSigRef::s`) through
/// `BigNumRef::to_vec_padded`. Trusted: on success each component is exactly
/// `width` bytes long (the backend fails rather than cut a component
/// short). Nothing else is claimed of the signature, which is random. The
/// backend panics on data longer than `i32::MAX`, and takes the width as an
/// `i32`.
#[verifier::external_body]
pub(crate) fn ecdsa_sign(
    key: &openssl::pkey::PKey<openssl::pkey::Private>,
    data: &[u8],
    width: usize,
) -> (components: Result<(Vec<u8>, Vec<u8>), openssl::error::ErrorStack>)
    requires
        data@.len() <= i32::MAX,
        width <= i32::MAX,
    ensures
        components matches Ok((r, s)) ==> r@.len() == width && s@.len() == width,
{
    let ec_key = key.ec_key()?;
    let sig = openssl::ecdsa::EcdsaSig::sign(data, &ec_key)?;
    Ok((sig.r().to_vec_padded(width as i32)?, sig.s().to_vec_padded(width as i32)?))
}

/// Calls `EcdsaSigRef::verify` on the signature that
/// `EcdsaSig::from_private_components` makes of `r` and `s` (read by
/// `BigNum::from_slice`), under the key that `EcKey::public_key_from_der`
/// reads from `public_der`. Trusted: where the backend gives a verdict, it
/// is a function of the four byte strings alone. Whether it gives one is
/// left open: malformed key material is an error, and so is any failure
/// inside the backend. The backend panics on inputs longer than `i32::MAX`.
#[verifier::external_body]
pub(crate) fn ecdsa_verify(public_der: &[u8], r: &[u8], s: &[u8], data: &[u8]) -> (verdict: Result<
    bool,
    openssl::error::ErrorStack,
>)
    requires
        r@.len() <= i32::MAX,
        s@.len() <= i32::MAX,
        data@.len() <= i32::MAX,
    ensures
        verdict matches Ok(valid) ==> valid == ecdsa_accepts(public_der@, r@, s@, data@),
{
    let key = openssl::ec::EcKey::public_key_from_der(public_der)?;
    let r = openssl::bn::BigNum::from_slice(r)?;
    let s = openssl::bn::BigNum::from_slice(s)?;
    openssl::ecdsa::EcdsaSig::from_private_components(r, s)?.verify(data, &key)
}

/// Calls `ErrorStack`'s `Display`: the backend's own account of the error.
#[verifier::external_body]
pub(crate) fn error_stack_text(err: &openssl::error::ErrorStack) -> (text: String) {
    err.to_string()
}

} // verus!
