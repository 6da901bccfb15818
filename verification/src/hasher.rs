//! The production password hasher: a digest of salt and password,
//! rendered as lowercase hex. The digest and the rendering come from
//! outside crates behind trusted wrappers; everything around them is
//! verified against the names of their results.

use vstd::prelude::*;

use crate::domain::user::PasswordHasher;

verus! {

use vstd::utf8::encode_utf8;

/// The digest of a byte sequence; a function of the bytes alone.
pub uninterp spec fn sha256_of(data: Seq<u8>) -> Seq<u8>;

/// The lowercase hex digit of one nibble.
pub open spec fn hex_digit(n: int) -> char {
    if n < 10 {
        (('0' as u8) + n as u8) as char
    } else {
        (('a' as u8) + (n - 10) as u8) as char
    }
}

/// The lowercase hex rendering of a byte sequence: two digits per byte,
/// high nibble first.
pub open spec fn hex_of(data: Seq<u8>) -> Seq<char>
    decreases data.len(),
{
    if data.len() == 0 {
        Seq::<char>::empty()
    } else {
        hex_of(data.drop_last()) + seq![
            hex_digit(data.last() as int / 16),
            hex_digit(data.last() as int % 16),
        ]
    }
}

/// Relies on sha2's Sha256 (`new`, `update`, `finalize`): the digest of
/// the two inputs fed in order, a function of those bytes alone, 32
/// bytes long.
#[verifier::external_body]
fn sha256_concat(a: &[u8], b: &[u8]) -> (r: Vec<u8>)
    ensures
        r@ == sha256_of(a@ + b@),
        r@.len() == 32,
{
    let mut h = <sha2::Sha256 as sha2::Digest>::new();
    sha2::Digest::update(&mut h, a);
    sha2::Digest::update(&mut h, b);
    let out = sha2::Digest::finalize(h);
    out.to_vec()
}

/// Relies on hex::encode: the lowercase hex rendering of the bytes, two
/// digits per byte with the high nibble first, as `hex_of` states it.
#[verifier::external_body]
fn hex_encode(b: &[u8]) -> (r: String)
    ensures
        r@ == hex_of(b@),
{
    hex::encode(b)
}

/// The salted digest hasher.
pub struct Hasher {}

impl Hasher {
    pub fn new() -> (r: Self)
        ensures
            r == (Hasher {  }),
    {
        Hasher {  }
    }
}

impl PasswordHasher for Hasher {
    /// The hex rendering of the digest of the salt's bytes followed by
    /// the password's bytes.
    open spec fn hash_spec(&self, salt: Seq<char>, password: Seq<char>) -> Seq<char> {
        hex_of(sha256_of(encode_utf8(salt) + encode_utf8(password)))
    }

    fn hash(&self, salt: &str, password: &str) -> (r: String)
        ensures
            r@ == self.hash_spec(salt@, password@),
    {
        let digest = sha256_concat(salt.as_bytes(), password.as_bytes());
        hex_encode(digest.as_slice())
    }
}

} // verus!
