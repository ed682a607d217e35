//! Texts that are wiped from memory once they are dropped.
use vstd::prelude::*;
use zeroize::Zeroizing;

verus! {

/// The characters of a secret, held in a `zeroize::Zeroizing`, which overwrites them
/// when it is dropped. That they are overwritten is not stated.
#[verifier::external_body]
#[derive(Debug, PartialEq, Eq)]
pub struct Secret {
    text: Zeroizing<String>,
}

/// The characters that a secret holds.
pub uninterp spec fn secret_text(secret: Secret) -> Seq<char>;

impl View for Secret {
    type V = Seq<char>;

    open spec fn view(&self) -> Seq<char> {
        secret_text(*self)
    }
}

/// `Zeroizing::new` holds the given text.
#[verifier::external_body]
pub(crate) fn conceal(text: String) -> (secret: Secret)
    ensures
        secret_text(secret) == text@,
{
    Secret { text: Zeroizing::new(text) }
}

/// `<Zeroizing as Deref>::deref` is the text that is held.
#[verifier::external_body]
pub(crate) fn secret_ref(secret: &Secret) -> (text: &String)
    ensures
        text@ == secret_text(*secret),
{
    &secret.text
}

/// `<Zeroizing as DerefMut>::deref_mut` is the text that is held; what it becomes is
/// held from then on.
#[verifier::external_body]
pub(crate) fn secret_mut(secret: &mut Secret) -> (text: &mut String)
    ensures
        text@ == secret_text(*old(secret)),
        secret_text(*final(secret)) == final(text)@,
{
    &mut secret.text
}

impl Secret {
    /// A secret that holds a text.
    pub fn new(text: String) -> (secret: Self)
        ensures
            secret@ == text@,
    {
        conceal(text)
    }

    /// The text that is held.
    pub fn as_str(&self) -> (text: &str)
        ensures
            text@ == self@,
    {
        secret_ref(self).as_str()
    }
}

} // verus!
