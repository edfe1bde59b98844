use vstd::prelude::*;
use secrecy::ExposeSecret;

verus! {

/// A credential: the app's key, the app's assertion or an issued token. It is held in a
/// `secrecy::Secret`, whose debug form shows a marker in place of the text.
#[verifier::external_body]
#[derive(Debug)]
pub struct SecretText {
    inner: secrecy::Secret<String>,
}

/// The text that a secret holds.
pub uninterp spec fn secret_text(secret: SecretText) -> Seq<char>;

impl View for SecretText {
    type V = Seq<char>;

    open spec fn view(&self) -> Seq<char> {
        secret_text(*self)
    }
}

/// Calls `secrecy::Secret::new`, which takes the text in as it is.
#[verifier::external_body]
fn seal(text: String) -> (secret: SecretText)
    ensures
        secret_text(secret) == text@,
{
    SecretText { inner: secrecy::Secret::new(text) }
}

/// Calls `expose_secret` of `secrecy::ExposeSecret`, which hands out the text that was
/// taken in.
#[verifier::external_body]
fn unseal(secret: &SecretText) -> (text: &String)
    ensures
        text@ == secret_text(*secret),
{
    secret.inner.expose_secret()
}

impl SecretText {
    /// Takes a text into a secret.
    pub fn new(text: String) -> (secret: SecretText)
        ensures
            secret@ == text@,
    {
        seal(text)
    }

    /// The text of the secret. Every use of it is a place where the text may leave.
    pub fn expose(&self) -> (text: &str)
        ensures
            text@ == self@,
    {
        unseal(self).as_str()
    }
}

} // verus!
