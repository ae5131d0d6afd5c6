use vstd::prelude::*;
use vstd::utf8::{decode_utf8, valid_utf8};

verus! {

/// One developer identity as shown to callers: its email (the unique key),
/// its display name, and whether it is the active one.
#[derive(Debug)]
pub struct Identity {
    pub email: String,
    pub name: String,
    pub is_active: bool,
}

/// The SSH key material of one identity, as raw file contents.
#[derive(Debug)]
pub struct KeyPair {
    pub private_key: Vec<u8>,
    pub public_key: Vec<u8>,
}

/// The errors of the identity operations.
#[derive(Debug)]
pub enum SwitchError {
    /// The key-generation tool was unavailable or failed; holds its diagnostic.
    KeyGenFailure(String),
    /// No identity or key is registered under the given email.
    NotFound,
    /// The global configuration has no name or no email set.
    NoIdentityConfigured,
    /// Stored public-key bytes are not valid UTF-8 text.
    EncodingError,
    /// The durable store failed; holds its diagnostic.
    StorageFailure(String),
    /// The version-control tool failed while writing or unsetting the
    /// configuration; holds its diagnostic.
    ExternalToolFailure(String),
}

/// What the model knows of a registered identity.
pub struct IdentityModel {
    pub name: Seq<char>,
    pub active: bool,
    pub private_key: Seq<u8>,
    pub public_key: Seq<u8>,
}

impl KeyPair {
    pub open spec fn key_view(&self) -> (Seq<u8>, Seq<u8>) {
        (self.private_key@, self.public_key@)
    }

    /// A copy of the key pair, byte for byte.
    pub fn duplicate(&self) -> (r: KeyPair)
        ensures
            r.key_view() == self.key_view(),
    {
        KeyPair { private_key: copy_bytes(&self.private_key), public_key: copy_bytes(&self.public_key) }
    }
}

impl SwitchError {
    /// Human-readable text for the error.
    /// Where the error carries a diagnostic, the text is that diagnostic.
    pub fn message(&self) -> (r: String)
        ensures
            self matches SwitchError::KeyGenFailure(d) ==> r@ == d@,
            self matches SwitchError::StorageFailure(d) ==> r@ == d@,
            self matches SwitchError::ExternalToolFailure(d) ==> r@ == d@,
    {
        match self {
            SwitchError::KeyGenFailure(d) => d.clone(),
            SwitchError::NotFound => "no identity is registered under that email".to_string(),
            SwitchError::NoIdentityConfigured => "No current user found".to_string(),
            SwitchError::EncodingError => "the stored public key is not valid UTF-8".to_string(),
            SwitchError::StorageFailure(d) => d.clone(),
            SwitchError::ExternalToolFailure(d) => d.clone(),
        }
    }
}

/// A byte-for-byte copy of `v`.
pub fn copy_bytes(v: &Vec<u8>) -> (r: Vec<u8>)
    ensures
        r@ == v@,
{
    let mut r: Vec<u8> = Vec::with_capacity(v.len());
    let mut i: usize = 0;
    while i < v.len()
        invariant
            i <= v.len(),
            r@ == v@.subrange(0, i as int),
        decreases v.len() - i,
    {
        r.push(v[i]);
        i = i + 1;
    }
    assert(r@ =~= v@);
    r
}

} // verus!

verus! {

/// Relies on `String::from_utf8`: it succeeds exactly on valid UTF-8, and
/// then holds the text those bytes encode.
#[verifier::external_body]
pub(crate) fn text_from_bytes(bytes: Vec<u8>) -> (r: Option<String>)
    ensures
        r is Some <==> valid_utf8(bytes@),
        r matches Some(s) ==> s@ == decode_utf8(bytes@),
{
    String::from_utf8(bytes).ok()
}

} // verus!
