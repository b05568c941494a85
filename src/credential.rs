use vstd::prelude::*;

use argon2::password_hash::rand_core::OsRng;
use argon2::password_hash::{Salt, SaltString};
use argon2::{Argon2, PasswordHasher};

use crate::book::StoreError;

verus! {

/// One registered user: the name and the encoded hash of the password,
/// never the password itself.
#[derive(Clone, Debug, PartialEq, Eq)]
pub struct Credential {
    pub username: String,
    pub password_hash: String,
}

/// The mathematical value of a [`Credential`].
pub struct CredentialView {
    pub username: Seq<char>,
    pub password_hash: Seq<char>,
}

impl View for Credential {
    type V = CredentialView;

    open spec fn view(&self) -> CredentialView {
        CredentialView { username: self.username@, password_hash: self.password_hash@ }
    }
}

/// The error type of password_hash, carried opaque until it is mapped.
#[verifier::external_type_specification]
#[verifier::external_body]
pub struct ExHashError(argon2::password_hash::Error);

/// The PHC string that Argon2id with its default parameters derives from a
/// password and a B64 salt.
pub uninterp spec fn argon2_phc(password: Seq<char>, salt: Seq<char>) -> Seq<char>;

/// A character of the standard Base64 alphabet.
pub open spec fn is_b64_char(c: char) -> bool {
    ('A' <= c && c <= 'Z') || ('a' <= c && c <= 'z') || ('0' <= c && c <= '9') || c == '+' || c
        == '/'
}

/// A salt as `SaltString::generate` writes it: sixteen bytes in unpadded
/// Base64, whose last character carries two data bits and four zero bits.
pub open spec fn is_generated_salt(s: Seq<char>) -> bool {
    &&& s.len() == 22
    &&& forall|i: int| 0 <= i < s.len() ==> is_b64_char(#[trigger] s[i])
    &&& (s[21] == 'A' || s[21] == 'Q' || s[21] == 'g' || s[21] == 'w')
}

/// How a PHC string of Argon2id with the default parameters opens.
pub open spec fn phc_prefix() -> Seq<char> {
    "$argon2id$v=19$m=19456,t=2,p=1$"@
}

/// `h` is the prefix, then `salt`, then a `$` that leads to the hash itself.
pub open spec fn has_phc_layout(h: Seq<char>, salt: Seq<char>) -> bool {
    let n = phc_prefix().len() + salt.len();
    &&& h.len() > n
    &&& h.subrange(0, phc_prefix().len() as int) == phc_prefix()
    &&& h.subrange(phc_prefix().len() as int, n as int) == salt
    &&& h[n as int] == '$'
}

/// The longest password, in characters, whose UTF-8 form stays within
/// argon2's limit of `0xFFFFFFFF` bytes.
pub open spec fn password_fits(password: Seq<char>) -> bool {
    password.len() <= 0x3fff_ffff
}

/// Relies on password_hash's `SaltString::generate`, fed by the operating
/// system's random source: a fresh salt of sixteen bytes in unpadded B64.
#[verifier::external_body]
fn generate_salt() -> (r: String)
    ensures
        is_generated_salt(r@),
{
    SaltString::generate(&mut OsRng).as_str().to_string()
}

/// Relies on password_hash's `Salt::from_b64` and on argon2's
/// `PasswordHasher::hash_password` with `Argon2::default()`: the PHC string
/// depends on the password and the salt alone, and `PasswordHash`'s
/// `Display` writes it as the prefix, the salt, `$` and the hash. A
/// canonical salt of sixteen bytes and a password within argon2's length
/// limit always hash.
#[verifier::external_body]
fn argon2_hash(password: &str, salt: &str) -> (r: Result<String, argon2::password_hash::Error>)
    ensures
        r matches Ok(h) ==> h@ == argon2_phc(password@, salt@) && has_phc_layout(h@, salt@),
        is_generated_salt(salt@) && password_fits(password@) ==> r is Ok,
{
    let salt = Salt::from_b64(salt)?;
    Argon2::default().hash_password(password.as_bytes(), salt).map(|h| h.to_string())
}

/// The encoded hash of `password` under `salt`; a failed derivation is
/// `HashDerivation`, which a generated salt and a password that fits never
/// meet.
pub fn derive_hash(password: &str, salt: &str) -> (r: Result<String, StoreError>)
    ensures
        match r {
            Ok(h) => h@ == argon2_phc(password@, salt@) && has_phc_layout(h@, salt@),
            Err(e) => e == StoreError::HashDerivation,
        },
        is_generated_salt(salt@) && password_fits(password@) ==> r is Ok,
{
    match argon2_hash(password, salt) {
        Ok(h) => Ok(h),
        Err(_) => Err(StoreError::HashDerivation),
    }
}

/// The encoded hash of `password` under a freshly generated salt.
pub fn hash_password(password: &str) -> (r: Result<String, StoreError>)
    ensures
        match r {
            Ok(h) => exists|salt: Seq<char>|
                is_generated_salt(salt) && h@ == argon2_phc(password@, salt) && has_phc_layout(
                    h@,
                    salt,
                ),
            Err(e) => e == StoreError::HashDerivation,
        },
        password_fits(password@) ==> r is Ok,
{
    let salt = generate_salt();
    derive_hash(password, salt.as_str())
}

/// The credentials that loading the file gave; a missing or unreadable file
/// and one that does not parse both count as an empty set.
pub fn load_all(loaded: Result<Vec<Credential>, StoreError>) -> (r: Vec<Credential>)
    ensures
        match loaded {
            Ok(users) => r@ == users@,
            Err(_) => r@.len() == 0,
        },
{
    match loaded {
        Ok(users) => users,
        Err(_) => Vec::new(),
    }
}

/// Appends the record of `username` with the hash that derivation gave, or
/// passes on its failure and leaves `users` as it was.
pub fn append_credential(
    users: &mut Vec<Credential>,
    username: &str,
    hashed: Result<String, StoreError>,
) -> (r: Result<(), StoreError>)
    ensures
        match hashed {
            Ok(h) => {
                &&& r is Ok
                &&& final(users)@.len() == old(users)@.len() + 1
                &&& final(users)@.drop_last() == old(users)@
                &&& final(users)@.last()@ == CredentialView { username: username@, password_hash: h@ }
            },
            Err(e) => r == Err::<(), StoreError>(e) && final(users)@ == old(users)@,
        },
{
    match hashed {
        Ok(h) => {
            let ghost before = users@;
            users.push(Credential { username: username.to_owned(), password_hash: h });
            assert(users@.drop_last() =~= before);
            Ok(())
        },
        Err(e) => Err(e),
    }
}

/// Registers `username` with a salted hash of `password`. On success the set
/// grows by exactly that one record, whose hash is an Argon2id PHC string of
/// the password under a generated salt and differs from a password that does
/// not open with `$`; on failure the set is left as it was. A password that
/// fits argon2's limit always registers. Names already present are not
/// checked.
pub fn register(users: &mut Vec<Credential>, username: &str, password: &str) -> (r: Result<
    (),
    StoreError,
>)
    ensures
        match r {
            Ok(_) => {
                &&& final(users)@.len() == old(users)@.len() + 1
                &&& final(users)@.drop_last() == old(users)@
                &&& final(users)@.last().username@ == username@
                &&& exists|salt: Seq<char>|
                    is_generated_salt(salt) && final(users)@.last().password_hash@ == argon2_phc(
                        password@,
                        salt,
                    ) && has_phc_layout(final(users)@.last().password_hash@, salt)
                &&& final(users)@.last().password_hash@[0] == '$'
                &&& (password@.len() == 0 || password@[0] != '$')
                    ==> final(users)@.last().password_hash@ != password@
            },
            Err(e) => e == StoreError::HashDerivation && final(users)@ == old(users)@,
        },
        password_fits(password@) ==> r is Ok,
{
    let hashed = hash_password(password);
    let r = append_credential(users, username, hashed);
    proof {
        if r is Ok {
            reveal_strlit("$argon2id$v=19$m=19456,t=2,p=1$");
            let h = users@.last().password_hash@;
            let salt = choose|salt: Seq<char>|
                is_generated_salt(salt) && h == argon2_phc(password@, salt) && has_phc_layout(
                    h,
                    salt,
                );
            assert(h.subrange(0, phc_prefix().len() as int)[0] == phc_prefix()[0]);
        }
    }
    r
}

} // verus!
