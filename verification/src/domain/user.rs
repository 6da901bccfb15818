//! User registration and login: a fresh salt and a hash close over the
//! password at registration, and login recomputes the hash from the
//! stored salt and compares, so success is owed exactly to the phone
//! and password that registered.

use vstd::prelude::*;

use crate::dao::user as user_dao;
use crate::errors::Error;
use crate::model::UserV;
use crate::store::Store;

verus! {

/// The stored fields of a fresh user row.
pub struct Insert {
    pub name: String,
    pub phone: String,
    pub password: String,
    pub salt: String,
}

/// The stored fields a profile update replaces.
pub struct Update {
    pub name: String,
    pub phone: String,
    pub password: String,
    pub salt: String,
}

/// The filter of a user listing.
pub struct Query {
    pub name: Option<String>,
    pub phone: Option<String>,
}

/// A source of fresh salts; what it draws is the implementation's
/// business, so nothing is promised of the result.
pub trait SaltGenerator {
    fn gen(&self) -> String;
}

/// A password hasher: one pure function of salt and password, named by
/// the implementation's own specification.
pub trait PasswordHasher {
    spec fn hash_spec(&self, salt: Seq<char>, password: Seq<char>) -> Seq<char>;

    fn hash(&self, salt: &str, password: &str) -> (r: String)
        ensures
            r@ == self.hash_spec(salt@, password@),
    ;
}

/// A source of signed tokens for authenticated callers.
pub trait TokenGenerator {
    fn gen(&self, id: i32) -> String;
}

/// The caller-supplied fields of a registration.
pub struct Registration {
    pub name: String,
    pub phone: String,
    pub password: String,
    pub avatar: Option<i32>,
}

/// The caller-supplied fields of a login.
pub struct Login {
    pub phone: String,
    pub password: String,
}

/// What a successful login hands back.
#[derive(Debug)]
pub struct LoginResult {
    pub id: i32,
    pub name: String,
    pub avatar: Option<i32>,
}

/// Registers a user: the phone must be new, a fresh salt is drawn, and
/// the stored password is the hash of salt and password. `Conflict`
/// exactly when the phone is taken; `StorageError` when the id space is
/// spent; nothing changes on failure.
pub fn register<SG: SaltGenerator, PH: PasswordHasher>(
    store: &mut Store, salt_generator: &SG, password_hasher: &PH, req: Registration, now: i64,
) -> (r: Result<i32, Error>)
    requires
        old(store).wf(),
    ensures
        final(store).wf(),
        match r {
            Ok(id) => {
                let u = final(store).users_v().last();
                &&& id as int == old(store).next_id as int
                &&& final(store).users_v() == old(store).users_v().push(u)
                &&& u.id == id as int
                &&& u.name == req.name@
                &&& u.phone == req.phone@
                &&& u.password == password_hasher.hash_spec(u.salt, req.password@)
                &&& u.create_on == now as int
                &&& u.update_on == now as int
                &&& u.avatar is None
                &&& final(store).next_id as int == old(store).next_id as int + 1
                &&& final(store).locations == old(store).locations
                &&& final(store).comments == old(store).comments
                &&& final(store).rank_aggregations == old(store).rank_aggregations
            },
            Err(e) => {
                &&& *final(store) == *old(store)
                &&& (e == Error::Conflict || e == Error::StorageError)
                &&& (e == Error::Conflict <==> user_dao::has_phone(
                    old(store).users_v(), req.phone@,
                ))
                &&& (e == Error::StorageError <==> !user_dao::has_phone(
                    old(store).users_v(), req.phone@,
                ) && old(store).next_id as int == 0x7fff_ffff)
            },
        },
{
    if user_dao::exists_user_by_phone(store, req.phone.as_str()) {
        proof {
            user_dao::lemma_first_by_phone_member(store.users_v(), req.phone@);
        }
        return Err(Error::Conflict);
    }
    proof {
        user_dao::lemma_first_by_phone_member(store.users_v(), req.phone@);
    }
    let salt = salt_generator.gen();
    let hashed_password = password_hasher.hash(salt.as_str(), req.password.as_str());
    let ghost saltv = salt@;
    match user_dao::insert_user(store, req.name, req.phone, hashed_password, salt, None, now) {
        Ok(id) => {
            proof {
                assert(store.users_v().last() == (UserV {
                    id: id as int,
                    name: req.name@,
                    phone: req.phone@,
                    password: password_hasher.hash_spec(saltv, req.password@),
                    salt: saltv,
                    create_on: now as int,
                    update_on: now as int,
                    avatar: None,
                }));
            }
            Ok(id)
        },
        Err(e) => Err(e),
    }
}

/// Logs a user in: the phone's first row is read and the hash of its
/// salt and the given password must equal the stored password.
/// `NotFound` exactly when no user carries the phone; `PermissionDenied`
/// exactly when one does but the password does not hash to the stored
/// one; a matching password is owed success.
pub fn login<PH: PasswordHasher>(store: &Store, password_hasher: &PH, req: Login) -> (r: Result<
    LoginResult,
    Error,
>)
    ensures
        match r {
            Ok(res) => exists|u: UserV| {
                &&& user_dao::first_by_phone(store.users_v(), req.phone@) == Some(u)
                &&& password_hasher.hash_spec(#[trigger] u.salt, req.password@) == u.password
                &&& res.id as int == u.id
                &&& res.name@ == u.name
                &&& match res.avatar {
                    Some(a) => u.avatar == Some(a as int),
                    None => u.avatar is None,
                }
            },
            Err(e) => {
                &&& (e == Error::NotFound || e == Error::PermissionDenied)
                &&& (e == Error::NotFound
                    <==> user_dao::first_by_phone(store.users_v(), req.phone@) is None)
                &&& (e == Error::PermissionDenied <==> match user_dao::first_by_phone(
                    store.users_v(), req.phone@,
                ) {
                    Some(u) => password_hasher.hash_spec(u.salt, req.password@) != u.password,
                    None => false,
                })
            },
        },
{
    let user = match user_dao::get_user_by_phone(store, req.phone.as_str()) {
        Ok(u) => u,
        Err(_) => {
            return Err(Error::NotFound);
        },
    };
    let ghost uv = user@;
    let hashed_password = password_hasher.hash(user.salt.as_str(), req.password.as_str());
    if !crate::text::str_eq(hashed_password.as_str(), user.password.as_str()) {
        proof {
            assert(password_hasher.hash_spec(uv.salt, req.password@) != uv.password);
        }
        return Err(Error::PermissionDenied);
    }
    proof {
        assert(password_hasher.hash_spec(uv.salt, req.password@) == uv.password);
    }
    Ok(LoginResult { id: user.id, name: user.name, avatar: user.avatar })
}

} // verus!
