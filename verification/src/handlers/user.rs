//! User flows at the request level: sign-up and sign-in, the token
//! source they hand the caller, and the built-in salt source.

use vstd::prelude::*;

use crate::domain::user::{self, PasswordHasher, SaltGenerator};
use crate::errors::Error;
use crate::store::Store;

verus! {

/// A source of signed caller tokens: issuing and checking are the
/// implementation's business.
pub trait Tokener {
    fn generate(&self, uid: i32) -> Result<String, Error>;

    fn validate(&self, token: &str) -> Result<i32, Error>;
}

/// Whether a salt has the expected shape: 64 printable ASCII characters.
pub open spec fn salt_ok(s: Seq<char>) -> bool {
    &&& s.len() == 64
    &&& forall|k: int| 0 <= k < s.len()
        ==> 33 <= (#[trigger] s[k]) as int && (s[k] as int) < 127
}

/// Relies on rand's `thread_rng` and `Rng::gen_range`: one byte drawn
/// from the half-open printable band; the draw is random, so nothing but
/// the band is promised.
#[verifier::external_body]
fn random_printable_byte() -> (b: u8)
    ensures
        33 <= b < 127,
{
    rand::Rng::gen_range(&mut rand::thread_rng(), 33u8..127u8)
}

/// Relies on String::from_utf8: printable ASCII bytes are valid UTF-8,
/// so the conversion returns each byte as the character it encodes.
#[verifier::external_body]
fn ascii_bytes_to_string(v: Vec<u8>) -> (r: String)
    requires
        forall|k: int| 0 <= k < v@.len() ==> (#[trigger] v@[k]) < 128,
    ensures
        r@.len() == v@.len(),
        forall|k: int| 0 <= k < v@.len() ==> r@[k] == (#[trigger] v@[k]) as char,
{
    String::from_utf8(v).unwrap_or_default()
}

/// The built-in salt source: 64 random printable characters per salt.
pub struct RandomGenerator {}

impl RandomGenerator {
    pub fn new() -> (r: Self)
        ensures
            r == (RandomGenerator {  }),
    {
        RandomGenerator {  }
    }
}

impl SaltGenerator for RandomGenerator {
    fn gen(&self) -> (r: String)
        ensures
            salt_ok(r@),
    {
        let mut bytes: Vec<u8> = Vec::new();
        let mut i: usize = 0;
        while i < 64
            invariant
                i <= 64,
                bytes@.len() == i,
                forall|k: int| 0 <= k < i
                    ==> 33 <= #[trigger] bytes@[k] && bytes@[k] < 127,
            decreases 64 - i,
        {
            let b = random_printable_byte();
            bytes.push(b);
            i = i + 1;
        }
        let s = ascii_bytes_to_string(bytes);
        proof {
            assert forall|k: int| 0 <= k < s@.len()
                implies 33 <= (#[trigger] s@[k]) as int && (s@[k] as int) < 127 by {
                assert(s@[k] == bytes@[k] as char);
                assert(33 <= bytes@[k] && bytes@[k] < 127);
            }
        }
        s
    }
}

/// A placeholder hasher whose output is one fixed string; it stands in
/// for the digest hasher where wiring is under test.
pub struct Hasher {}

impl Hasher {
    pub fn new() -> (r: Self)
        ensures
            r == (Hasher {  }),
    {
        Hasher {  }
    }
}

impl PasswordHasher for Hasher {
    open spec fn hash_spec(&self, salt: Seq<char>, password: Seq<char>) -> Seq<char> {
        "fake password"@
    }

    fn hash(&self, salt: &str, password: &str) -> (r: String)
        ensures
            r@ == self.hash_spec(salt@, password@),
    {
        let r: String = "fake password".to_owned();
        r
    }
}

/// A list page and its filter-wide total.
pub struct QueryResponse<T> {
    pub list: Vec<T>,
    pub total: i64,
}

impl<T> QueryResponse<T> {
    pub fn new(list: Vec<T>, total: i64) -> (r: Self)
        ensures
            r.list == list,
            r.total == total,
    {
        QueryResponse { list, total }
    }
}

/// Registers a user with a fresh salt: the appended row's password is
/// the hash of its salt and the given password. `Conflict` exactly when
/// the phone is taken; `StorageError` exactly when the id space is
/// spent; otherwise the fresh id is owed. Nothing changes on failure.
pub fn signup<SG: SaltGenerator, PH: PasswordHasher>(
    store: &mut Store, salt_generator: &SG, password_hasher: &PH, req: user::Registration,
    now: i64,
) -> (r: Result<i32, Error>)
    requires
        old(store).wf(),
    ensures
        final(store).wf(),
        match r {
            Ok(id) => {
                let u = final(store).users_v().last();
                &&& id as int == old(store).next_id as int
                &&& final(store).users_v() == old(store).users_v().push(u)
                &&& u.id == id as int
                &&& u.name == req.name@
                &&& u.phone == req.phone@
                &&& u.password == password_hasher.hash_spec(u.salt, req.password@)
                &&& final(store).next_id as int == old(store).next_id as int + 1
                &&& final(store).locations == old(store).locations
                &&& final(store).comments == old(store).comments
                &&& final(store).rank_aggregations == old(store).rank_aggregations
            },
            Err(e) => {
                &&& *final(store) == *old(store)
                &&& (e == Error::Conflict || e == Error::StorageError)
                &&& (e == Error::Conflict <==> crate::dao::user::has_phone(
                    old(store).users_v(), req.phone@,
                ))
                &&& (e == Error::StorageError <==> !crate::dao::user::has_phone(
                    old(store).users_v(), req.phone@,
                ) && old(store).next_id as int == 0x7fff_ffff)
            },
        },
{
    user::register(store, salt_generator, password_hasher, req, now)
}

/// What a successful sign-in hands back: the identity and a token.
#[derive(Debug)]
pub struct SigninResponse {
    pub id: i32,
    pub name: String,
    pub token: String,
    pub avatar: Option<i32>,
}

/// Signs a user in and issues a token for the id that logged in.
/// `NotFound` exactly when no user carries the phone; `PermissionDenied`
/// exactly when one does but the password does not hash to the stored
/// one; a failure of the caller-supplied token source surfaces as
/// `StorageError`, the one error a matching password still admits.
pub fn signin<PH: PasswordHasher, TK: Tokener>(
    store: &Store, password_hasher: &PH, tokener: &TK, req: user::Login,
) -> (r: Result<SigninResponse, Error>)
    ensures
        match r {
            Ok(res) => exists|u: crate::model::UserV| {
                &&& crate::dao::user::first_by_phone(store.users_v(), req.phone@) == Some(u)
                &&& password_hasher.hash_spec(#[trigger] u.salt, req.password@) == u.password
                &&& res.id as int == u.id
                &&& res.name@ == u.name
            },
            Err(e) => {
                &&& (e == Error::NotFound || e == Error::PermissionDenied
                    || e == Error::StorageError)
                &&& (e == Error::NotFound
                    <==> crate::dao::user::first_by_phone(store.users_v(), req.phone@) is None)
                &&& (e == Error::PermissionDenied <==> match crate::dao::user::first_by_phone(
                    store.users_v(), req.phone@,
                ) {
                    Some(u) => password_hasher.hash_spec(u.salt, req.password@) != u.password,
                    None => false,
                })
                &&& (e == Error::StorageError ==> match crate::dao::user::first_by_phone(
                    store.users_v(), req.phone@,
                ) {
                    Some(u) => password_hasher.hash_spec(u.salt, req.password@) == u.password,
                    None => false,
                })
            },
        },
{
    let res = match user::login(store, password_hasher, req) {
        Ok(res) => res,
        Err(e) => {
            return Err(e);
        },
    };
    let token = match tokener.generate(res.id) {
        Ok(t) => t,
        Err(_) => {
            return Err(Error::StorageError);
        },
    };
    Ok(SigninResponse { id: res.id, name: res.name, token, avatar: res.avatar })
}

} // verus!
