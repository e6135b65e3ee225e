//! The results of checking PGP signatures.
use vstd::prelude::*;

verus! {

/// The outcome of checking one signature.
#[derive(Debug, Eq, PartialEq, Structural, Copy, Clone, Ord, PartialOrd, Hash)]
pub enum SigStatus {
    /// The signature is valid.
    Valid,
    /// The key has expired.
    KeyExpired,
    /// The signature has expired.
    SigExpired,
    /// The key is not in the keyring.
    KeyUnknown,
    /// The key is disabled.
    KeyDisabled,
    /// The signature is invalid.
    Invalid,
}

/// How far the key of a signature is trusted.
#[derive(Debug, Eq, PartialEq, Structural, Copy, Clone, Ord, PartialOrd, Hash)]
pub enum SigValidity {
    /// Fully trusted.
    Full,
    /// Marginally trusted.
    Marginal,
    /// Never trusted.
    Never,
    /// Of unknown trust.
    Unknown,
}

/// A PGP key.
#[derive(Debug)]
pub struct PgpKey {
    fingerprint: String,
    uid: String,
    name: Option<String>,
    email: Option<String>,
    created: i64,
    expires: i64,
    length: u32,
    revoked: u32,
    pubkey_algo: u8,
}

/// The abstract value of a PGP key.
pub struct PgpKeySpec {
    /// The fingerprint.
    pub fingerprint: Seq<char>,
    /// The user id.
    pub uid: Seq<char>,
    /// The name of the owner, if known.
    pub name: Option<Seq<char>>,
    /// The email of the owner, if known.
    pub email: Option<Seq<char>>,
    /// When the key was created.
    pub created: i64,
    /// When the key expires.
    pub expires: i64,
    /// The length of the key.
    pub length: u32,
    /// Whether the key is revoked (non-zero).
    pub revoked: u32,
    /// The public-key algorithm.
    pub pubkey_algo: u8,
}

/// A string held as an `Option`, by its characters.
pub open spec fn opt_string_view(o: Option<String>) -> Option<Seq<char>> {
    match o {
        Some(v) => Some(v@),
        None => None,
    }
}

impl View for PgpKey {
    type V = PgpKeySpec;

    closed spec fn view(&self) -> PgpKeySpec {
        PgpKeySpec {
            fingerprint: self.fingerprint@,
            uid: self.uid@,
            name: opt_string_view(self.name),
            email: opt_string_view(self.email),
            created: self.created,
            expires: self.expires,
            length: self.length,
            revoked: self.revoked,
            pubkey_algo: self.pubkey_algo,
        }
    }
}

/// A copy of an optional string.
fn clone_opt(o: &Option<String>) -> (r: Option<String>)
    ensures
        opt_string_view(r) == opt_string_view(*o),
{
    match o {
        Some(s) => Some(s.clone()),
        None => None,
    }
}

impl Clone for PgpKey {
    fn clone(&self) -> (r: PgpKey)
        ensures
            r@ == self@,
    {
        PgpKey {
            fingerprint: self.fingerprint.clone(),
            uid: self.uid.clone(),
            name: clone_opt(&self.name),
            email: clone_opt(&self.email),
            created: self.created,
            expires: self.expires,
            length: self.length,
            revoked: self.revoked,
            pubkey_algo: self.pubkey_algo,
        }
    }
}

impl PgpKey {
    /// A key with the given properties.
    pub fn new(
        fingerprint: &str,
        uid: &str,
        name: Option<&str>,
        email: Option<&str>,
        created: i64,
        expires: i64,
        length: u32,
        revoked: u32,
        pubkey_algo: u8,
    ) -> (k: PgpKey)
        ensures
            k@.fingerprint == fingerprint@,
            k@.uid == uid@,
            k@.name == match name {
                Some(n) => Some(n@),
                None => None::<Seq<char>>,
            },
            k@.email == match email {
                Some(e) => Some(e@),
                None => None::<Seq<char>>,
            },
            k@.created == created,
            k@.expires == expires,
            k@.length == length,
            k@.revoked == revoked,
            k@.pubkey_algo == pubkey_algo,
    {
        let name = match name {
            Some(n) => Some(n.to_owned()),
            None => None,
        };
        let email = match email {
            Some(e) => Some(e.to_owned()),
            None => None,
        };
        PgpKey {
            fingerprint: fingerprint.to_owned(),
            uid: uid.to_owned(),
            name,
            email,
            created,
            expires,
            length,
            revoked,
            pubkey_algo,
        }
    }

    /// The fingerprint.
    pub fn fingerprint(&self) -> (r: &str)
        ensures
            r@ == self@.fingerprint,
    {
        self.fingerprint.as_str()
    }

    /// The user id.
    pub fn uid(&self) -> (r: &str)
        ensures
            r@ == self@.uid,
    {
        self.uid.as_str()
    }

    /// The name of the owner, if known.
    pub fn name(&self) -> (r: Option<&str>)
        ensures
            self@.name == match r {
                Some(n) => Some(n@),
                None => None::<Seq<char>>,
            },
    {
        match &self.name {
            Some(n) => Some(n.as_str()),
            None => None,
        }
    }

    /// The email of the owner, if known.
    pub fn email(&self) -> (r: Option<&str>)
        ensures
            self@.email == match r {
                Some(e) => Some(e@),
                None => None::<Seq<char>>,
            },
    {
        match &self.email {
            Some(e) => Some(e.as_str()),
            None => None,
        }
    }

    /// When the key was created.
    pub fn created(&self) -> (r: i64)
        ensures
            r == self@.created,
    {
        self.created
    }

    /// When the key expires.
    pub fn expires(&self) -> (r: i64)
        ensures
            r == self@.expires,
    {
        self.expires
    }

    /// The length of the key.
    pub fn length(&self) -> (r: u32)
        ensures
            r == self@.length,
    {
        self.length
    }

    /// Whether the key is revoked (non-zero).
    pub fn revoked(&self) -> (r: u32)
        ensures
            r == self@.revoked,
    {
        self.revoked
    }

    /// The public-key algorithm.
    pub fn pubkey_algo(&self) -> (r: u8)
        ensures
            r == self@.pubkey_algo,
    {
        self.pubkey_algo
    }
}

/// The result of checking one signature.
#[derive(Debug)]
pub struct SigResult {
    key: PgpKey,
    status: SigStatus,
    validity: SigValidity,
}

impl SigResult {
    /// A result for the given key, status and validity.
    pub fn new(key: PgpKey, status: SigStatus, validity: SigValidity) -> (r: SigResult)
        ensures
            r.key_view() == key@,
            r.status_view() == status,
            r.validity_view() == validity,
    {
        SigResult { key, status, validity }
    }

    /// The key that made the signature.
    pub closed spec fn key_view(&self) -> PgpKeySpec {
        self.key@
    }

    /// The status of the signature.
    pub closed spec fn status_view(&self) -> SigStatus {
        self.status
    }

    /// The validity of the key.
    pub closed spec fn validity_view(&self) -> SigValidity {
        self.validity
    }

    /// The key that made the signature.
    pub fn key(&self) -> (r: PgpKey)
        ensures
            r@ == self.key_view(),
    {
        self.key.clone()
    }

    /// The status of the signature.
    pub fn status(&self) -> (r: SigStatus)
        ensures
            r == self.status_view(),
    {
        self.status
    }

    /// The validity of the key.
    pub fn validity(&self) -> (r: SigValidity)
        ensures
            r == self.validity_view(),
    {
        self.validity
    }
}

/// The results of checking the signatures of a package or a database.
#[derive(Debug)]
pub struct SigList {
    results: Vec<SigResult>,
}

impl View for SigList {
    type V = Seq<SigResult>;

    closed spec fn view(&self) -> Seq<SigResult> {
        self.results@
    }
}

impl SigList {
    /// A list with no result.
    pub fn new() -> (l: SigList)
        ensures
            l@.len() == 0,
    {
        SigList { results: Vec::new() }
    }

    /// The results, in the order they were recorded.
    pub fn results(&self) -> (r: &[SigResult])
        ensures
            r@ == self@,
    {
        self.results.as_slice()
    }

    /// Records the result of checking one more signature.
    pub fn push(&mut self, result: SigResult)
        ensures
            final(self)@ == old(self)@.push(result),
    {
        self.results.push(result);
    }
}

impl Default for SigList {
    fn default() -> (l: SigList)
        ensures
            l@.len() == 0,
    {
        SigList::new()
    }
}

} // verus!
