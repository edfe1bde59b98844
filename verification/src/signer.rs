use vstd::prelude::*;
use vstd::string::StringExecFns;
use vstd::utf8::encode_utf8;
use rsa::pkcs1::DecodeRsaPrivateKey;
use rsa::pkcs8::DecodePrivateKey;
use rsa::signature::{SignatureEncoding, Signer};
use crate::base64::{base64url, push_base64url};
use crate::document::{json_text, Node, Tree};
use crate::error::{TokenError, TokenErrorModel};
use crate::secret::SecretText;
use crate::text::{trim, trimmed};
use crate::wire::{decimal, push_decimal};

verus! {

/// Seconds for which the app's assertion is valid, counted from the moment it is issued.
pub const ASSERTION_SECONDS: u64 = 60;

/// What the app asserts of itself: who issues the assertion, when, and until when it
/// holds. No other claim is made.
#[derive(Debug, PartialEq, Eq)]
pub struct Claims {
    pub issuer: String,
    /// Seconds since the epoch.
    pub issued_at: u64,
    /// Seconds since the epoch.
    pub expires_at: u64,
}

/// What `Claims` stand for.
pub struct ClaimsModel {
    pub issuer: Seq<char>,
    pub issued_at: u64,
    pub expires_at: u64,
}

impl View for Claims {
    type V = ClaimsModel;

    open spec fn view(&self) -> ClaimsModel {
        ClaimsModel {
            issuer: self.issuer@,
            issued_at: self.issued_at,
            expires_at: self.expires_at,
        }
    }
}

/// The moment at which an assertion that is issued at `now` ends: `ASSERTION_SECONDS`
/// later, or the last moment that can be written where that lies beyond it.
pub open spec fn expiry(now: u64) -> u64 {
    if now + ASSERTION_SECONDS <= u64::MAX {
        (now + ASSERTION_SECONDS) as u64
    } else {
        u64::MAX
    }
}

impl ClaimsModel {
    /// The claims of the app with the given identifier at the given moment.
    pub open spec fn issued(app_id: Seq<char>, now: u64) -> ClaimsModel {
        ClaimsModel { issuer: app_id, issued_at: now, expires_at: expiry(now) }
    }

    /// The claims as a JSON object: issuer, time of issue, expiry.
    pub open spec fn text(self) -> Seq<char> {
        "{\"iss\":"@ + json_text(Tree::Text(self.issuer)) + ",\"iat\":"@ + decimal(
            self.issued_at as nat,
        ) + ",\"exp\":"@ + decimal(self.expires_at as nat) + "}"@
    }

    /// What is signed: the header and the claims, each in base 64, with a dot between.
    pub open spec fn signing_input(self) -> Seq<char> {
        base64url(encode_utf8(header())) + "."@ + base64url(encode_utf8(self.text()))
    }

    /// The assertion that a key makes of the claims: what is signed, a dot, and the
    /// signature in base 64. A key that is not accepted, or not read, makes none and is
    /// an invalid key; a key that is read and does not sign is a failure to sign.
    pub open spec fn assertion(self, pem: Seq<char>) -> Result<Seq<char>, TokenErrorModel> {
        if !is_rsa_key(pem) {
            Err(TokenErrorModel::InvalidKey)
        } else {
            match key_read(trimmed(pem)) {
                None => Err(TokenErrorModel::InvalidKey),
                Some(key) => match rs256_signature(key, encode_utf8(self.signing_input())) {
                    Some(signature) => Ok(self.signing_input() + "."@ + base64url(signature)),
                    None => Err(TokenErrorModel::SignFailure),
                },
            }
        }
    }
}

/// The header of an assertion: a JSON Web Token that is signed with RS256.
pub open spec fn header() -> Seq<char> {
    "{\"alg\":\"RS256\",\"typ\":\"JWT\"}"@
}

/// The assertion of the app with the given identifier and key at the given moment.
pub open spec fn assertion_at(app_id: Seq<char>, app_pk: Seq<char>, now: u64) -> Result<
    Seq<char>,
    TokenErrorModel,
> {
    ClaimsModel::issued(app_id, now).assertion(app_pk)
}

/// The key that a PEM text gives: the one that it holds in PKCS#8, or else the one that
/// it holds in PKCS#1.
pub open spec fn key_read(pem: Seq<char>) -> Option<KeyModel> {
    match pkcs8_key(pem) {
        Some(key) => Some(key),
        None => pkcs1_key(pem),
    }
}

/// What an RSA private key holds: the modulus, the two exponents and the factors of the
/// modulus.
pub struct KeyModel {
    pub modulus: nat,
    pub public_exponent: nat,
    pub private_exponent: nat,
    pub factors: Seq<nat>,
}

/// `rsa::RsaPrivateKey`: a key as it is carried from where it is read to where it signs.
#[verifier::external_type_specification]
#[verifier::external_body]
pub struct ExRsaPrivateKey(rsa::RsaPrivateKey);

/// What an `rsa::RsaPrivateKey` holds.
pub uninterp spec fn key_model(key: rsa::RsaPrivateKey) -> KeyModel;

/// Whether `jwt_simple` accepts a PEM text as an RSA key pair.
pub uninterp spec fn is_rsa_key(pem: Seq<char>) -> bool;

/// The key that `rsa` reads from a PEM text in PKCS#8, if it reads one.
pub uninterp spec fn pkcs8_key(pem: Seq<char>) -> Option<KeyModel>;

/// The key that `rsa` reads from a PEM text in PKCS#1, if it reads one.
pub uninterp spec fn pkcs1_key(pem: Seq<char>) -> Option<KeyModel>;

/// The PKCS#1 v1.5 signature over SHA-256 with which a key signs a message, if it signs.
pub uninterp spec fn rs256_signature(key: KeyModel, message: Seq<u8>) -> Option<Seq<u8>>;

/// Calls `RS256KeyPair::from_pem` of `jwt_simple`, which reads the text without the white
/// space around it and checks the key: whether it is accepted depends on the text alone.
#[verifier::external_body]
fn accepts_key(pem: &str) -> (accepted: bool)
    ensures
        accepted == is_rsa_key(pem@),
{
    jwt_simple::algorithms::RS256KeyPair::from_pem(pem).is_ok()
}

/// Calls `from_pkcs8_pem` of `rsa::pkcs8::DecodePrivateKey`. The key read, or the failure
/// to read one, depends on the text alone.
#[verifier::external_body]
fn read_pkcs8(pem: &str) -> (key: Option<rsa::RsaPrivateKey>)
    ensures
        pkcs8_key(pem@) == match key {
            Some(read) => Some(key_model(read)),
            None => None,
        },
{
    rsa::RsaPrivateKey::from_pkcs8_pem(pem).ok()
}

/// Calls `from_pkcs1_pem` of `rsa::pkcs1::DecodeRsaPrivateKey`. The key read, or the
/// failure to read one, depends on the text alone.
#[verifier::external_body]
fn read_pkcs1(pem: &str) -> (key: Option<rsa::RsaPrivateKey>)
    ensures
        pkcs1_key(pem@) == match key {
            Some(read) => Some(key_model(read)),
            None => None,
        },
{
    rsa::RsaPrivateKey::from_pkcs1_pem(pem).ok()
}

/// Calls `try_sign` of `rsa::pkcs1v15::SigningKey` over SHA-256, which hands a failure
/// back and takes no random source, on the key after `clear_precomputed`: without the
/// values of the Chinese remainder theorem the key signs by one exponentiation modulo the
/// modulus, which ends on every key, whatever the sizes of its factors. The signature
/// depends on what the key holds and on the message alone.
#[verifier::external_body]
fn sign_with(key: rsa::RsaPrivateKey, message: &[u8]) -> (signature: Option<Vec<u8>>)
    ensures
        rs256_signature(key_model(key), message@) == match signature {
            Some(bytes) => Some(bytes@),
            None => None,
        },
{
    let mut plain = key;
    plain.clear_precomputed();
    let signer = rsa::pkcs1v15::SigningKey::<sha2::Sha256>::new(plain);
    signer.try_sign(message).ok().map(|signature| signature.to_vec())
}

/// Reads the system's clock with `SystemTime::now` and `duration_since` of std: the
/// seconds since the epoch, and zero where the clock stands before it.
#[verifier::external_body]
fn clock() -> (seconds: u64) {
    std::time::SystemTime::now().duration_since(std::time::UNIX_EPOCH).map_or(
        0,
        |since| since.as_secs(),
    )
}

/// The seconds since the epoch, by the system's clock.
pub fn now() -> (seconds: u64) {
    clock()
}

impl Claims {
    /// The claims of the app with the given identifier at the given moment.
    pub fn issue(app_id: &str, now: u64) -> (claims: Claims)
        ensures
            claims@ == ClaimsModel::issued(app_id@, now),
    {
        let expires_at = if now <= u64::MAX - ASSERTION_SECONDS {
            now + ASSERTION_SECONDS
        } else {
            u64::MAX
        };
        Claims { issuer: app_id.to_owned(), issued_at: now, expires_at }
    }

    /// Writes the claims as a JSON object.
    pub fn to_text(&self) -> (text: String)
        ensures
            text@ == self@.text(),
    {
        let issuer = Node::Text(self.issuer.clone()).to_json();
        let mut text = "{\"iss\":".to_owned();
        text.append(issuer.as_str());
        text.append(",\"iat\":");
        push_decimal(&mut text, self.issued_at);
        text.append(",\"exp\":");
        push_decimal(&mut text, self.expires_at);
        text.append("}");
        text
    }

    /// Writes what is signed.
    pub fn to_signing_input(&self) -> (input: String)
        ensures
            input@ == self@.signing_input(),
    {
        let claims = self.to_text();
        let mut input = String::new();
        push_base64url(&mut input, "{\"alg\":\"RS256\",\"typ\":\"JWT\"}".as_bytes());
        input.append(".");
        push_base64url(&mut input, claims.as_str().as_bytes());
        assert(input@ =~= self@.signing_input());
        input
    }
}

/// What a signed assertion or its refusal stands for.
pub open spec fn assertion_model(assertion: Result<SecretText, TokenError>) -> Result<
    Seq<char>,
    TokenErrorModel,
> {
    match assertion {
        Ok(secret) => Ok(secret@),
        Err(error) => Err(error@),
    }
}

/// Reads the key of a PEM text: in PKCS#8, or else in PKCS#1.
pub fn read_key(pem: &str) -> (key: Option<rsa::RsaPrivateKey>)
    ensures
        key_read(pem@) == match key {
            Some(read) => Some(key_model(read)),
            None => None,
        },
{
    match read_pkcs8(pem) {
        Some(key) => Some(key),
        None => read_pkcs1(pem),
    }
}

/// Puts the assertion together from what was signed and the signature, where there is
/// one.
pub fn seal_assertion(input: String, signature: Option<Vec<u8>>) -> (assertion: Result<
    SecretText,
    TokenError,
>)
    ensures
        assertion_model(assertion) == match signature {
            Some(bytes) => Ok::<_, TokenErrorModel>(input@ + "."@ + base64url(bytes@)),
            None => Err(TokenErrorModel::SignFailure),
        },
{
    match signature {
        Some(bytes) => {
            let mut text = input;
            text.append(".");
            push_base64url(&mut text, bytes.as_slice());
            Ok(SecretText::new(text))
        },
        None => Err(TokenError::SignFailure),
    }
}

/// Signs the assertion with which the app proves that it holds its key: issued by the
/// app's identifier at `now`, valid for `ASSERTION_SECONDS`, signed with RS256.
///
/// A key that is not accepted fails with `InvalidKey`, whatever the identifier and the
/// moment, and so does one that is not read once the white space around it is taken off;
/// a key that is read and does not sign fails with `SignFailure`.
pub fn sign_assertion(app_id: &SecretText, app_pk: &SecretText, now: u64) -> (assertion: Result<
    SecretText,
    TokenError,
>)
    ensures
        assertion_model(assertion) == assertion_at(app_id@, app_pk@, now),
{
    if !accepts_key(app_pk.expose()) {
        return Err(TokenError::InvalidKey);
    }
    let key = match read_key(trim(app_pk.expose())) {
        Some(key) => key,
        None => {
            return Err(TokenError::InvalidKey);
        },
    };
    let claims = Claims::issue(app_id.expose(), now);
    let input = claims.to_signing_input();
    let signature = sign_with(key, input.as_str().as_bytes());
    seal_assertion(input, signature)
}

} // verus!
