//! The wallet: a P-256 key pair, the address that names its public key, and
//! detached signatures.

use vstd::prelude::*;
use openssl::error::ErrorStack;
use openssl::pkey::{PKey, Private};
use crate::crypto::{ecdsa_sign, generate_ec_key, public_key_der};
use crate::encoding::{hex_encode, hex_text};

verus! {

/// Name of the curve of every wallet key: NIST P-256.
pub const CURVE_NAME: &'static str = "prime256v1";

/// Bytes in each of the two components of a signature.
pub const COMPONENT_LEN: usize = 32;

/// Bytes in a signature: the component `r`, then the component `s`.
pub const SIGNATURE_LEN: usize = 64;

/// A signature in its byte layout: `r` then `s`, with nothing between them
/// and nothing around them.
pub open spec fn signature_bytes(r: Seq<u8>, s: Seq<u8>) -> Seq<u8> {
    r + s
}

/// Lays out a signature: `r` then `s`.
pub fn join_signature(r: &[u8], s: &[u8]) -> (sig: Vec<u8>)
    ensures
        sig@ == signature_bytes(r@, s@),
{
    let mut sig: Vec<u8> = Vec::new();
    sig.extend_from_slice(r);
    sig.extend_from_slice(s);
    assert(sig@ =~= r@ + s@);
    sig
}

/// A key pair and the address under which others know it.
pub struct Wallet {
    priv_key: PKey<Private>,
    /// The public key as a DER-encoded SubjectPublicKeyInfo.
    pub pub_key: Vec<u8>,
    /// The public key in lowercase hexadecimal.
    pub address: String,
}

/// What others may know of a wallet.
pub ghost struct WalletView {
    pub pub_key: Seq<u8>,
    pub address: Seq<char>,
}

impl View for Wallet {
    type V = WalletView;

    closed spec fn view(&self) -> WalletView {
        WalletView { pub_key: self.pub_key@, address: self.address@ }
    }
}

impl Wallet {
    /// The address is the hexadecimal form of the public key.
    pub open spec fn well_formed(&self) -> bool {
        self@.address == hex_text(self@.pub_key)
    }

    /// Puts a wallet together from a private key and its public half.
    pub fn from_key(priv_key: PKey<Private>, public_der: Vec<u8>) -> (wallet: Self)
        ensures
            wallet@.pub_key == public_der@,
            wallet@.address == hex_text(public_der@),
            wallet.well_formed(),
    {
        let address = hex_encode(public_der.as_slice());
        Wallet { priv_key, pub_key: public_der, address }
    }

    /// The address: the public key in lowercase hexadecimal.
    pub fn address(&self) -> (text: &str)
        ensures
            text@ == self@.address,
    {
        self.address.as_str()
    }

    /// The public key as a DER-encoded SubjectPublicKeyInfo.
    pub fn public_key(&self) -> (der: &[u8])
        ensures
            der@ == self@.pub_key,
    {
        self.pub_key.as_slice()
    }

    /// Generates a key pair on P-256 and derives its address. The backend
    /// decides whether that succeeds; its error is handed on.
    pub fn new() -> (made: Result<Self, ErrorStack>)
        ensures
            made matches Ok(wallet) ==> wallet.well_formed(),
    {
        proof {
            reveal_strlit("prime256v1");
        }
        let priv_key = match generate_ec_key(CURVE_NAME) {
            Ok(key) => key,
            Err(err) => {
                return Err(err);
            },
        };
        let public_der = match public_key_der(&priv_key) {
            Ok(der) => der,
            Err(err) => {
                return Err(err);
            },
        };
        Ok(Wallet::from_key(priv_key, public_der))
    }

    /// Signs `data`. The signature is 64 bytes whatever the length of
    /// `data`: the two ECDSA components, each as 32 big-endian bytes. The
    /// backend decides whether signing succeeds; its error is handed on.
    pub fn sign_bytes(&self, data: &[u8]) -> (signed: Result<Vec<u8>, ErrorStack>)
        requires
            data@.len() <= i32::MAX,
        ensures
            signed matches Ok(sig) ==> sig@.len() == SIGNATURE_LEN,
    {
        match ecdsa_sign(&self.priv_key, data, COMPONENT_LEN) {
            Ok((r, s)) => Ok(join_signature(r.as_slice(), s.as_slice())),
            Err(err) => Err(err),
        }
    }
}

} // verus!
