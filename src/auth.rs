//! Token validation: the header picks the algorithm, a symmetric token is
//! checked against the shared secret, an asymmetric one against a published
//! key found by key id in a cache that is refilled at most once per
//! validation; the claims must carry a subject, an `exp` no more than the
//! leeway in the past, and an audience claim that names the expected one.
use vstd::prelude::*;
use crate::jwt::{
    claim_audience, claim_text, claim_u64, decode_claims, read_header, refusal_of, token_header,
    token_verifies,
};
use crate::tables::{jwk_table, jwks_clear, jwks_get, jwks_insert, jwks_new, JwkTable};

verus! {

/// Seconds by which an `exp` claim may lie in the past.
pub const CLOCK_LEEWAY_SECS: u64 = 60;

/// The algorithm that a token header names, as far as validation tells them apart.
#[derive(Debug, Clone, Copy, PartialEq, Eq)]
pub enum SigningAlg {
    Hs256,
    Rs256,
    Other,
}

/// What validation reads of a token's header.
#[derive(Debug, Clone, PartialEq, Eq)]
pub struct TokenHeader {
    pub alg: SigningAlg,
    pub kid: Option<String>,
}

/// Why a token was refused.
#[derive(Debug, Clone, Copy, PartialEq, Eq)]
pub enum AuthError {
    Malformed,
    Expired,
    BadSignature,
    UnknownKey,
    UnsupportedAlgorithm,
    AudienceMismatch,
}

/// The audience claim as it arrives: one string, a list whose entries are
/// strings or not, or some other JSON shape.
#[derive(Debug, Clone, PartialEq, Eq)]
pub enum AudClaim {
    One(String),
    Many(Vec<Option<String>>),
    Other,
}

/// The claims of an accepted token.
#[derive(Debug, Clone, PartialEq, Eq)]
pub struct Claims {
    pub sub: String,
    /// The audience the token was accepted for.
    pub aud: String,
    pub exp: u64,
}

impl Claims {
    /// The user a token speaks for: its subject.
    pub fn user_id(&self) -> (r: &str)
        ensures
            r@ == self.sub@,
    {
        self.sub.as_str()
    }
}

/// A published RSA signing key: key id, base64url modulus and exponent.
#[derive(Debug, Clone, PartialEq, Eq)]
pub struct Jwk {
    pub kid: String,
    pub n: String,
    pub e: String,
}

pub struct JwkView {
    pub kid: Seq<char>,
    pub n: Seq<char>,
    pub e: Seq<char>,
}

impl View for Jwk {
    type V = JwkView;

    open spec fn view(&self) -> JwkView {
        JwkView { kid: self.kid@, n: self.n@, e: self.e@ }
    }
}

impl Jwk {
    pub fn copy(&self) -> (r: Jwk)
        ensures
            r@ == self@,
    {
        Jwk { kid: self.kid.clone(), n: self.n.clone(), e: self.e.clone() }
    }
}

/// The audience claim has a shape that is read: a string, or a list of strings.
pub open spec fn aud_well_formed(a: AudClaim) -> bool {
    match a {
        AudClaim::One(_) => true,
        AudClaim::Many(v) => forall|i: int| 0 <= i < v@.len() ==> (#[trigger] v@[i]) is Some,
        AudClaim::Other => false,
    }
}

/// The audience claim names `e`: the string is `e`, or some list entry is.
pub open spec fn aud_names(a: AudClaim, e: Seq<char>) -> bool {
    match a {
        AudClaim::One(s) => s@ == e,
        AudClaim::Many(v) => exists|i: int| 0 <= i < v@.len() && (#[trigger] v@[i]) is Some && v@[i]->0@ == e,
        AudClaim::Other => false,
    }
}

/// Checks an audience claim against the expected audience.
fn audience_check(a: &AudClaim, expected: &str) -> (r: Result<(), AuthError>)
    ensures
        !aud_well_formed(*a) ==> r == Err::<(), AuthError>(AuthError::Malformed),
        aud_well_formed(*a) && aud_names(*a, expected@) ==> r is Ok,
        aud_well_formed(*a) && !aud_names(*a, expected@) ==> r == Err::<(), AuthError>(AuthError::AudienceMismatch),
{
    let e = String::from_str(expected);
    match a {
        AudClaim::Other => Err(AuthError::Malformed),
        AudClaim::One(s) => if *s == e {
            Ok(())
        } else {
            Err(AuthError::AudienceMismatch)
        },
        AudClaim::Many(v) => {
            let mut found = false;
            let mut i: usize = 0;
            while i < v.len()
                invariant
                    i <= v@.len(),
                    *a == AudClaim::Many(*v),
                    e@ == expected@,
                    forall|j: int| 0 <= j < i ==> (#[trigger] v@[j]) is Some,
                    found <==> exists|j: int| 0 <= j < i && (#[trigger] v@[j]) is Some && v@[j]->0@ == e@,
                decreases v@.len() - i,
            {
                match &v[i] {
                    None => {
                        return Err(AuthError::Malformed);
                    },
                    Some(s) => {
                        if *s == e {
                            found = true;
                        }
                    },
                }
                i = i + 1;
            }
            if found {
                Ok(())
            } else {
                Err(AuthError::AudienceMismatch)
            }
        },
    }
}

/// `exp` lies more than the leeway before `now`.
pub open spec fn expired(exp: u64, now: u64) -> bool {
    exp + CLOCK_LEEWAY_SECS < now
}

/// What every accepted token satisfies at time `now`.
pub open spec fn claims_acceptable(c: Claims, audience: Seq<char>, now: u64) -> bool {
    &&& !expired(c.exp, now)
    &&& c.aud@ == audience
}

/// The checks that every token passes whatever its algorithm: a subject,
/// an `exp` no more than the leeway in the past, and an audience claim (a
/// string or a list of strings) that names the expected audience.
pub fn check_claims(
    sub: Option<String>,
    aud: Option<AudClaim>,
    exp: Option<u64>,
    audience: &str,
    now: u64,
) -> (r: Result<Claims, AuthError>)
    ensures
        sub is None ==> r == Err::<Claims, AuthError>(AuthError::Malformed),
        sub is Some && exp is None ==> r == Err::<Claims, AuthError>(AuthError::Malformed),
        sub is Some && exp is Some && expired(exp->0, now) ==> r == Err::<Claims, AuthError>(AuthError::Expired),
        sub is Some && exp is Some && !expired(exp->0, now) ==> {
            &&& aud is None ==> r == Err::<Claims, AuthError>(AuthError::AudienceMismatch)
            &&& aud is Some && !aud_well_formed(aud->0) ==> r == Err::<Claims, AuthError>(AuthError::Malformed)
            &&& aud is Some && aud_well_formed(aud->0) && !aud_names(aud->0, audience@) ==> r == Err::<
                Claims,
                AuthError,
            >(AuthError::AudienceMismatch)
            &&& aud is Some && aud_well_formed(aud->0) && aud_names(aud->0, audience@) ==> (r matches Ok(c)
                && c.sub == sub->0 && c.aud@ == audience@ && c.exp == exp->0)
        },
        r matches Ok(c) ==> claims_acceptable(c, audience@, now),
{
    let sub = match sub {
        Some(s) => s,
        None => return Err(AuthError::Malformed),
    };
    let exp = match exp {
        Some(x) => x,
        None => return Err(AuthError::Malformed),
    };
    if now > exp && now - exp > CLOCK_LEEWAY_SECS {
        return Err(AuthError::Expired);
    }
    match aud {
        None => return Err(AuthError::AudienceMismatch),
        Some(a) => {
            match audience_check(&a, audience) {
                Err(e) => return Err(e),
                Ok(()) => {},
            }
        },
    }
    Ok(Claims { sub, aud: String::from_str(audience), exp })
}

/// The key table that a fetched key list stands for: each key under its
/// id, a later key replacing an earlier one with the same id.
pub open spec fn keyed(s: Seq<Jwk>) -> Map<Seq<char>, JwkView>
    decreases s.len(),
{
    if s.len() == 0 {
        Map::empty()
    } else {
        keyed(s.drop_last()).insert(s.last().kid@, s.last()@)
    }
}

/// Published signing keys by key id.
pub struct KeyCache {
    keys: JwkTable,
}

impl KeyCache {
    pub closed spec fn view_keys(&self) -> Map<Seq<char>, JwkView> {
        jwk_table(self.keys)
    }

    pub fn new() -> (r: Self)
        ensures
            r.view_keys().dom().is_empty(),
    {
        KeyCache { keys: jwks_new() }
    }

    /// The key cached under `kid`, if any.
    pub fn lookup(&self, kid: &str) -> (r: Option<Jwk>)
        ensures
            r is Some <==> self.view_keys().contains_key(kid@),
            r matches Some(k) ==> k@ == self.view_keys()[kid@],
    {
        jwks_get(&self.keys, kid)
    }

    /// Replaces the whole cache by a freshly fetched key list (no merge).
    pub fn replace_all(&mut self, fetched: Vec<Jwk>)
        ensures
            final(self).view_keys() == keyed(fetched@),
    {
        jwks_clear(&mut self.keys);
        let mut i: usize = 0;
        while i < fetched.len()
            invariant
                i <= fetched@.len(),
                self.view_keys() == keyed(fetched@.take(i as int)),
            decreases fetched@.len() - i,
        {
            let k = fetched[i].copy();
            let ghost pre = fetched@.take(i as int);
            assert(fetched@.take(i + 1).drop_last() =~= pre);
            jwks_insert(&mut self.keys, k.kid.clone(), k);
            i = i + 1;
        }
        assert(fetched@.take(fetched@.len() as int) =~= fetched@);
    }
}

/// What validation needs before it can decide.
#[derive(Debug, PartialEq, Eq)]
pub enum AuthOutcome {
    /// Validation is decided.
    Done(Result<Claims, AuthError>),
    /// The token's key id is not cached: fetch the published key set, then
    /// call [`Authenticator::validate_after_refetch`].
    NeedKeys,
}

/// The token's header names the asymmetric algorithm with a key id that
/// `cache` does not hold: the one case in which keys are fetched.
pub open spec fn needs_refetch(cache: Map<Seq<char>, JwkView>, header: Option<(SigningAlg, Option<Seq<char>>)>) -> bool {
    header matches Some((alg, kid)) && alg == SigningAlg::Rs256 && kid is Some && !cache.contains_key(kid->0)
}

/// The outcome of validation that the header alone decides, given whether
/// the key set was already fetched for this validation.
pub open spec fn refusal_by_header(
    cache: Map<Seq<char>, JwkView>,
    header: Option<(SigningAlg, Option<Seq<char>>)>,
    refetched: bool,
) -> Option<AuthError> {
    match header {
        None => Some(AuthError::Malformed),
        Some((alg, kid)) => match alg {
            SigningAlg::Other => Some(AuthError::UnsupportedAlgorithm),
            SigningAlg::Hs256 => None,
            SigningAlg::Rs256 => match kid {
                None => Some(AuthError::Malformed),
                Some(k) => if refetched && !cache.contains_key(k) {
                    Some(AuthError::UnknownKey)
                } else {
                    None
                },
            },
        },
    }
}

/// The key a token is checked with: the shared secret, or a published RSA
/// key (base64url modulus and exponent).
#[derive(Debug, Clone, PartialEq, Eq)]
pub enum KeySource {
    Secret(String),
    Rsa { n: String, e: String },
}

pub enum KeyView {
    Secret(Seq<char>),
    Rsa(Seq<char>, Seq<char>),
}

impl View for KeySource {
    type V = KeyView;

    open spec fn view(&self) -> KeyView {
        match self {
            KeySource::Secret(s) => KeyView::Secret(s@),
            KeySource::Rsa { n, e } => KeyView::Rsa(n@, e@),
        }
    }
}

/// The key that a token with this header is checked with: the secret for
/// the symmetric algorithm, the cached key of its key id for the asymmetric
/// one; none otherwise.
pub open spec fn key_for(
    cache: Map<Seq<char>, JwkView>,
    secret: Seq<char>,
    header: Option<(SigningAlg, Option<Seq<char>>)>,
) -> Option<KeyView> {
    match header {
        Some((SigningAlg::Hs256, _)) => Some(KeyView::Secret(secret)),
        Some((SigningAlg::Rs256, Some(k))) => if cache.contains_key(k) {
            Some(KeyView::Rsa(cache[k].n, cache[k].e))
        } else {
            None
        },
        _ => None,
    }
}

/// Validates tokens of one deployment: its shared secret, expected
/// audience, and cache of published keys.
pub struct Authenticator {
    pub secret: String,
    pub audience: String,
    pub cache: KeyCache,
}

impl Authenticator {
    pub fn new(secret: String, audience: String) -> (r: Self)
        ensures
            r.secret@ == secret@,
            r.audience@ == audience@,
            r.cache.view_keys().dom().is_empty(),
    {
        Authenticator { secret, audience, cache: KeyCache::new() }
    }

    /// Checks the signature with `key`, then the claims.
    fn check_signed(&self, token: &str, key: &KeySource, now: u64) -> (r: Result<Claims, AuthError>)
        ensures
            !token_verifies(token@, key@, self.audience@) ==> r is Err,
            r matches Ok(c) ==> token_verifies(token@, key@, self.audience@) && claims_acceptable(c, self.audience@, now),
    {
        match decode_claims(token, key, self.audience.as_str()) {
            Err(e) => Err(refusal_of(&e)),
            Ok(claims) => {
                let sub = claim_text(&claims, "sub");
                let aud = claim_audience(&claims);
                let exp = claim_u64(&claims, "exp");
                check_claims(sub, aud, exp, self.audience.as_str(), now)
            },
        }
    }

    fn attempt(&self, token: &str, now: u64, refetched: bool) -> (r: AuthOutcome)
        ensures
            r is NeedKeys <==> !refetched && needs_refetch(self.cache.view_keys(), token_header(token@)),
            refusal_by_header(self.cache.view_keys(), token_header(token@), refetched) matches Some(e)
                ==> r == AuthOutcome::Done(Err(e)),
            key_for(self.cache.view_keys(), self.secret@, token_header(token@)) matches Some(k) && !token_verifies(
                token@,
                k,
                self.audience@,
            ) ==> (r matches AuthOutcome::Done(Err(_))),
            r matches AuthOutcome::Done(Ok(c)) ==> (key_for(self.cache.view_keys(), self.secret@, token_header(token@))
                matches Some(k) && token_verifies(token@, k, self.audience@) && claims_acceptable(c, self.audience@, now)),
    {
        let header = match read_header(token) {
            None => return AuthOutcome::Done(Err(AuthError::Malformed)),
            Some(h) => h,
        };
        match header.alg {
            SigningAlg::Other => AuthOutcome::Done(Err(AuthError::UnsupportedAlgorithm)),
            SigningAlg::Hs256 => {
                let key = KeySource::Secret(self.secret.clone());
                AuthOutcome::Done(self.check_signed(token, &key, now))
            },
            SigningAlg::Rs256 => {
                let kid = match header.kid {
                    None => return AuthOutcome::Done(Err(AuthError::Malformed)),
                    Some(k) => k,
                };
                match self.cache.lookup(kid.as_str()) {
                    None => if refetched {
                        AuthOutcome::Done(Err(AuthError::UnknownKey))
                    } else {
                        AuthOutcome::NeedKeys
                    },
                    Some(jwk) => {
                        let key = KeySource::Rsa { n: jwk.n, e: jwk.e };
                        AuthOutcome::Done(self.check_signed(token, &key, now))
                    },
                }
            },
        }
    }

    /// First attempt at validating `token` at time `now` (Unix seconds).
    /// Asks for the key set only when the token is asymmetric and its key
    /// id is not cached. A token is accepted only if it verifies under the
    /// key its header selects and its claims pass [`check_claims`].
    pub fn validate(&self, token: &str, now: u64) -> (r: AuthOutcome)
        ensures
            r is NeedKeys <==> needs_refetch(self.cache.view_keys(), token_header(token@)),
            refusal_by_header(self.cache.view_keys(), token_header(token@), false) matches Some(e)
                ==> r == AuthOutcome::Done(Err(e)),
            key_for(self.cache.view_keys(), self.secret@, token_header(token@)) matches Some(k) && !token_verifies(
                token@,
                k,
                self.audience@,
            ) ==> (r matches AuthOutcome::Done(Err(_))),
            r matches AuthOutcome::Done(Ok(c)) ==> (key_for(self.cache.view_keys(), self.secret@, token_header(token@))
                matches Some(k) && token_verifies(token@, k, self.audience@) && claims_acceptable(c, self.audience@, now)),
    {
        self.attempt(token, now, false)
    }

    /// Second and last attempt, after the key set was fetched: `fetched`
    /// replaces the cache wholesale (`None` when the fetch failed, which
    /// leaves the cache as it was); a key id still absent is `UnknownKey`.
    pub fn validate_after_refetch(&mut self, token: &str, fetched: Option<Vec<Jwk>>, now: u64) -> (r: Result<Claims, AuthError>)
        ensures
            final(self).secret == old(self).secret,
            final(self).audience == old(self).audience,
            final(self).cache.view_keys() == match fetched {
                Some(keys) => keyed(keys@),
                None => old(self).cache.view_keys(),
            },
            refusal_by_header(final(self).cache.view_keys(), token_header(token@), true) matches Some(e)
                ==> r == Err::<Claims, AuthError>(e),
            key_for(final(self).cache.view_keys(), old(self).secret@, token_header(token@)) matches Some(k)
                && !token_verifies(token@, k, old(self).audience@) ==> r is Err,
            r matches Ok(c) ==> (key_for(final(self).cache.view_keys(), old(self).secret@, token_header(token@)) matches Some(
                k,
            ) && token_verifies(token@, k, old(self).audience@) && claims_acceptable(c, old(self).audience@, now)),
    {
        match fetched {
            Some(keys) => self.cache.replace_all(keys),
            None => {},
        }
        match self.attempt(token, now, true) {
            AuthOutcome::Done(r) => r,
            AuthOutcome::NeedKeys => Err(AuthError::UnknownKey),
        }
    }
}

/// A validation fetches the key set at most once: never again once it was
/// fetched, never for a key id that the cache holds, and never for a
/// symmetric token.
pub proof fn lemma_single_refetch(cache: Map<Seq<char>, JwkView>, token: Seq<char>)
    ensures
        needs_refetch(cache, token_header(token)) ==> refusal_by_header(cache, token_header(token), false) is None,
        token_header(token) matches Some((alg, kid)) ==> ((alg == SigningAlg::Hs256 || (kid is Some
            && cache.contains_key(kid->0))) ==> !needs_refetch(cache, token_header(token))),
{
}

} // verus!
