//! The certificates and the key of the frontend: what the files that hold them give.

use vstd::prelude::*;

use crate::text::joined;

verus! {

/// The error of std for input and output, which also stands for a file of another form.
#[verifier::external_type_specification]
#[verifier::external_body]
pub struct ExIoError(std::io::Error);

/// A private key in one of the forms that a file can hold.
#[derive(Debug)]
pub enum PrivateKey {
    Pkcs1(Vec<u8>),
    Sec1(Vec<u8>),
    Pkcs8(Vec<u8>),
}

/// What matters of a [`PrivateKey`]: its form and its bytes.
pub enum KeyView {
    Pkcs1(Seq<u8>),
    Sec1(Seq<u8>),
    Pkcs8(Seq<u8>),
}

impl View for PrivateKey {
    type V = KeyView;

    open spec fn view(&self) -> KeyView {
        match self {
            PrivateKey::Pkcs1(bytes) => KeyView::Pkcs1(bytes@),
            PrivateKey::Sec1(bytes) => KeyView::Sec1(bytes@),
            PrivateKey::Pkcs8(bytes) => KeyView::Pkcs8(bytes@),
        }
    }
}

/// The bytes of each item of a list.
pub open spec fn all_bytes(items: Seq<Vec<u8>>) -> Seq<Seq<u8>> {
    items.map_values(|item: Vec<u8>| item@)
}

/// An optional key.
pub open spec fn optional_key(key: Option<PrivateKey>) -> Option<KeyView> {
    match key {
        Some(key) => Some(key@),
        None => None,
    }
}

/// The certificates in a PEM file, if it can be parsed.
pub uninterp spec fn pem_certs(file: Seq<u8>) -> Option<Seq<Seq<u8>>>;

/// The first private key in a PEM file, where it has one, if it can be parsed that far.
pub uninterp spec fn pem_key(file: Seq<u8>) -> Option<Option<KeyView>>;

/// Parses the certificates in a PEM file.
///
/// Calls `rustls_pemfile::certs` on the bytes and gathers what it yields up to its first error.
/// The form of PEM files is not stated: the certificates only have a name.
#[verifier::external_body]
fn parse_certs(file: &Vec<u8>) -> (result: Result<Vec<Vec<u8>>, std::io::Error>)
    ensures
        match result {
            Ok(certs) => pem_certs(file@) == Some(all_bytes(certs@)),
            Err(_) => pem_certs(file@) is None,
        },
{
    let mut reader = file.as_slice();
    rustls_pemfile::certs(&mut reader).map(|cert| Ok(cert?.to_vec())).collect()
}

/// Parses the first private key in a PEM file.
///
/// Calls `rustls_pemfile::private_key` on the bytes, which gives a key in one of the three forms
/// of [`PrivateKey`] or none. The last arm takes the third form: the outside enum is open to more,
/// which the call does not give. The form of PEM files is not stated: the key only has a name.
#[verifier::external_body]
fn parse_key(file: &Vec<u8>) -> (result: Result<Option<PrivateKey>, std::io::Error>)
    ensures
        match result {
            Ok(key) => pem_key(file@) == Some(optional_key(key)),
            Err(_) => pem_key(file@) is None,
        },
{
    let mut reader = file.as_slice();
    Ok(rustls_pemfile::private_key(&mut reader)?.map(|key| match key {
        rustls_pki_types::PrivateKeyDer::Pkcs1(_) => PrivateKey::Pkcs1(key.secret_der().to_vec()),
        rustls_pki_types::PrivateKeyDer::Sec1(_) => PrivateKey::Sec1(key.secret_der().to_vec()),
        _ => PrivateKey::Pkcs8(key.secret_der().to_vec()),
    }))
}

/// A file that could not be opened: how its path and the error are shown.
#[derive(Debug)]
pub struct OpenFailure {
    pub path: String,
    pub error: String,
}

/// Why a file gives nothing.
#[derive(Debug)]
pub enum LoadError {
    FailedToOpen(String),
    FailedToParse(std::io::Error),
}

/// Why a file gives no key.
#[derive(Debug)]
pub enum KeyError {
    FailedToLoad(LoadError),
    NoPrivateKey,
}

impl OpenFailure {
    /// The text of the error for a file that could not be opened.
    pub open spec fn text(self) -> Seq<char> {
        "failed to open "@ + self.path@ + ": "@ + self.error@
    }

    /// The error for a file that could not be opened.
    fn report(&self) -> (error: LoadError)
        ensures
            error matches LoadError::FailedToOpen(text) && text@ == self.text(),
    {
        let start = joined("failed to open ", self.path.as_str());
        LoadError::FailedToOpen(joined(joined(start.as_str(), ": ").as_str(), self.error.as_str()))
    }
}

/// The certificates in a file, given its bytes or why it could not be opened.
pub fn load_certs(file: Result<Vec<u8>, OpenFailure>) -> (result: Result<Vec<Vec<u8>>, LoadError>)
    ensures
        match result {
            Ok(certs) => file matches Ok(bytes) && pem_certs(bytes@) == Some(all_bytes(certs@)),
            Err(LoadError::FailedToOpen(text)) => file matches Err(failure) && text@
                == failure.text(),
            Err(LoadError::FailedToParse(_)) => file matches Ok(bytes) && pem_certs(bytes@) is None,
        },
{
    match file {
        Err(failure) => Err(failure.report()),
        Ok(bytes) => match parse_certs(&bytes) {
            Ok(certs) => Ok(certs),
            Err(error) => Err(LoadError::FailedToParse(error)),
        },
    }
}

/// The private key in a file, given its bytes or why it could not be opened.
pub fn load_private_key(file: Result<Vec<u8>, OpenFailure>) -> (result: Result<
    PrivateKey,
    KeyError,
>)
    ensures
        match result {
            Ok(key) => file matches Ok(bytes) && pem_key(bytes@) == Some(Some(key@)),
            Err(KeyError::FailedToLoad(LoadError::FailedToOpen(text))) => file matches Err(failure)
                && text@ == failure.text(),
            Err(KeyError::FailedToLoad(LoadError::FailedToParse(_))) => file matches Ok(bytes)
                && pem_key(bytes@) is None,
            Err(KeyError::NoPrivateKey) => file matches Ok(bytes) && pem_key(bytes@) == Some(
                None::<KeyView>,
            ),
        },
{
    match file {
        Err(failure) => Err(KeyError::FailedToLoad(failure.report())),
        Ok(bytes) => match parse_key(&bytes) {
            Ok(key) => first_key(key),
            Err(error) => Err(KeyError::FailedToLoad(LoadError::FailedToParse(error))),
        },
    }
}

/// The key that was found, if there is one.
pub fn first_key(key: Option<PrivateKey>) -> (result: Result<PrivateKey, KeyError>)
    ensures
        match result {
            Ok(found) => key == Some(found),
            Err(error) => key is None && error is NoPrivateKey,
        },
{
    match key {
        Some(key) => Ok(key),
        None => Err(KeyError::NoPrivateKey),
    }
}

/// The error for a file that could not be opened names its path, and behind it why.
pub proof fn law_open_failures_name_the_file(failure: OpenFailure)
    ensures
        failure.text() == "failed to open "@ + failure.path@ + ": "@ + failure.error@,
{
}

/// Keys are the same only in the same form with the same bytes.
pub proof fn law_keys_are_their_form_and_bytes(first: PrivateKey, second: PrivateKey)
    requires
        first@ == second@,
    ensures
        first is Pkcs1 <==> second is Pkcs1,
        first is Sec1 <==> second is Sec1,
        first is Pkcs8 <==> second is Pkcs8,
        first is Pkcs1 ==> first->Pkcs1_0@ == second->Pkcs1_0@,
        first is Sec1 ==> first->Sec1_0@ == second->Sec1_0@,
        first is Pkcs8 ==> first->Pkcs8_0@ == second->Pkcs8_0@,
{
}

/// Lists of certificates are the same only where they hold the same bytes in the same order.
pub proof fn law_certificates_are_their_bytes(first: Seq<Vec<u8>>, second: Seq<Vec<u8>>)
    requires
        all_bytes(first) == all_bytes(second),
    ensures
        first.len() == second.len(),
        forall|i: int| 0 <= i < first.len() ==> (#[trigger] first[i])@ == second[i]@,
{
    assert(first.len() == all_bytes(first).len());
    assert(second.len() == all_bytes(second).len());
    assert forall|i: int| 0 <= i < first.len() implies (#[trigger] first[i])@ == second[i]@ by {
        assert(all_bytes(first)[i] == first[i]@);
        assert(all_bytes(second)[i] == second[i]@);
    }
}

/// A missing key is no key, and a key that is there is itself.
pub proof fn law_missing_keys_are_told_apart(key: Option<PrivateKey>)
    ensures
        key is None <==> optional_key(key) is None,
        key is Some ==> optional_key(key)->0 == key->0@,
{
}

} // verus!
