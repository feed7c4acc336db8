//! TLS material of the listening socket.
use vstd::prelude::*;

use crate::text;
use crate::text::append_chars;

verus! {

/// Why TLS material cannot be used.
#[derive(Debug)]
pub struct TlsError {
    /// What was tried.
    pub context: String,
    /// What went wrong with it, where there is more to say.
    pub cause: Option<String>,
}

/// A list of certificates or the reason why there is none, by its views.
pub open spec fn certs_view(r: Result<Vec<Vec<u8>>, String>) -> Result<Seq<Seq<u8>>, Seq<char>> {
    match r {
        Ok(list) => Ok(byte_views(list@)),
        Err(e) => Err(e@),
    }
}

/// A list of byte strings, each by its bytes.
pub open spec fn byte_views(list: Seq<Vec<u8>>) -> Seq<Seq<u8>> {
    Seq::new(list.len(), |i: int| list[i]@)
}

/// The certificates in a PEM file, as `rustls_pemfile::certs` reads them.
pub uninterp spec fn pem_certificates(pem: Seq<u8>) -> Result<Seq<Seq<u8>>, Seq<char>>;

/// Reads the certificates of a PEM file with `rustls_pemfile::certs`: their DER
/// bytes in order, or the first error. An empty file has none.
#[verifier::external_body]
fn read_certs(pem: &Vec<u8>) -> (r: Result<Vec<Vec<u8>>, String>)
    ensures
        certs_view(r) == pem_certificates(pem@),
        pem@.len() == 0 ==> r is Ok && r->Ok_0@.len() == 0,
{
    rustls_pemfile::certs(&mut pem.as_slice())
        .map(|cert| cert.map(|c| c.to_vec()))
        .collect::<Result<Vec<Vec<u8>>, _>>()
        .map_err(|e| e.to_string())
}

/// A private key in one of the three encodings that are supported.
#[derive(Debug)]
pub enum PrivateKey {
    Pkcs1(Vec<u8>),
    Sec1(Vec<u8>),
    Pkcs8(Vec<u8>),
}

/// A private key by its bytes.
pub enum PrivateKeyView {
    Pkcs1(Seq<u8>),
    Sec1(Seq<u8>),
    Pkcs8(Seq<u8>),
}

impl View for PrivateKey {
    type V = PrivateKeyView;

    open spec fn view(&self) -> PrivateKeyView {
        match self {
            PrivateKey::Pkcs1(b) => PrivateKeyView::Pkcs1(b@),
            PrivateKey::Sec1(b) => PrivateKeyView::Sec1(b@),
            PrivateKey::Pkcs8(b) => PrivateKeyView::Pkcs8(b@),
        }
    }
}

/// A key or the reason why there is none, by its views.
pub open spec fn key_view(r: Result<Option<PrivateKey>, String>) -> Result<
    Option<PrivateKeyView>,
    Seq<char>,
> {
    match r {
        Ok(Some(key)) => Ok(Some(key@)),
        Ok(None) => Ok(None),
        Err(e) => Err(e@),
    }
}

/// The first private key in a PEM file, as `rustls_pemfile::private_key` reads
/// it.
pub uninterp spec fn pem_private_key(pem: Seq<u8>) -> Result<Option<PrivateKeyView>, Seq<char>>;

/// Reads the first private key of a PEM file with `rustls_pemfile::private_key`,
/// or the first error before it. An empty file has none.
#[verifier::external_body]
fn read_key(pem: &Vec<u8>) -> (r: Result<Option<PrivateKey>, String>)
    ensures
        key_view(r) == pem_private_key(pem@),
        pem@.len() == 0 ==> r is Ok && r->Ok_0 is None,
{
    match rustls_pemfile::private_key(&mut pem.as_slice()) {
        Ok(Some(rustls_pki_types::PrivateKeyDer::Pkcs1(k))) => {
            Ok(Some(PrivateKey::Pkcs1(k.secret_pkcs1_der().to_vec())))
        },
        Ok(Some(rustls_pki_types::PrivateKeyDer::Sec1(k))) => {
            Ok(Some(PrivateKey::Sec1(k.secret_sec1_der().to_vec())))
        },
        Ok(Some(k)) => Ok(Some(PrivateKey::Pkcs8(k.secret_der().to_vec()))),
        Ok(None) => Ok(None),
        Err(e) => Err(e.to_string()),
    }
}

/// A sentence that ends in the path of a file.
fn about(sentence: &str, path: &str) -> (r: String)
    ensures
        r@ == sentence@ + path@,
{
    let mut r = text::chars_of(sentence);
    append_chars(&mut r, text::chars_of(path).as_slice());
    text::string_of(r.as_slice())
}

/// The outcome of looking for certificates in a file.
pub open spec fn loaded_certs(
    found: Result<Seq<Seq<u8>>, Seq<char>>,
    path: Seq<char>,
) -> Result<Seq<Seq<u8>>, (Seq<char>, Option<Seq<char>>)> {
    match found {
        Ok(list) => if list.len() == 0 {
            Err(("no PEM certificates found in "@ + path, None))
        } else {
            Ok(list)
        },
        Err(e) => Err(("reading TLS certificate PEM "@ + path, Some(e))),
    }
}

impl TlsError {
    /// The context and the cause.
    pub open spec fn parts(self) -> (Seq<char>, Option<Seq<char>>) {
        (self.context@, text::text_view(self.cause))
    }
}

/// Decides on what was found in a certificate file: there must be a
/// certificate.
pub fn check_certs(found: Result<Vec<Vec<u8>>, String>, path: &str) -> (r: Result<
    Vec<Vec<u8>>,
    TlsError,
>)
    ensures
        match r {
            Ok(list) => loaded_certs(certs_view(found), path@) == Ok::<
                Seq<Seq<u8>>,
                (Seq<char>, Option<Seq<char>>),
            >(byte_views(list@)),
            Err(e) => loaded_certs(certs_view(found), path@) == Err::<
                Seq<Seq<u8>>,
                (Seq<char>, Option<Seq<char>>),
            >(e.parts()),
        },
{
    match found {
        Ok(list) => if list.len() == 0 {
            Err(TlsError { context: about("no PEM certificates found in ", path), cause: None })
        } else {
            Ok(list)
        },
        Err(e) => Err(
            TlsError { context: about("reading TLS certificate PEM ", path), cause: Some(e) },
        ),
    }
}

/// Takes the certificate chain out of the contents of a PEM file.
pub fn load_certs(pem: &Vec<u8>, path: &str) -> (r: Result<Vec<Vec<u8>>, TlsError>)
    ensures
        match r {
            Ok(list) => loaded_certs(pem_certificates(pem@), path@) == Ok::<
                Seq<Seq<u8>>,
                (Seq<char>, Option<Seq<char>>),
            >(byte_views(list@)),
            Err(e) => loaded_certs(pem_certificates(pem@), path@) == Err::<
                Seq<Seq<u8>>,
                (Seq<char>, Option<Seq<char>>),
            >(e.parts()),
        },
        pem@.len() == 0 ==> r is Err,
{
    check_certs(read_certs(pem), path)
}

/// The outcome of looking for a private key in a file.
pub open spec fn loaded_key(
    found: Result<Option<PrivateKeyView>, Seq<char>>,
    path: Seq<char>,
) -> Result<PrivateKeyView, (Seq<char>, Option<Seq<char>>)> {
    match found {
        Ok(Some(key)) => Ok(key),
        Ok(None) => Err(("no PEM private key found in "@ + path, None)),
        Err(e) => Err(("reading TLS key PEM "@ + path, Some(e))),
    }
}

/// Decides on what was found in a key file: there must be a key.
pub fn check_key(found: Result<Option<PrivateKey>, String>, path: &str) -> (r: Result<
    PrivateKey,
    TlsError,
>)
    ensures
        match r {
            Ok(key) => loaded_key(key_view(found), path@) == Ok::<
                PrivateKeyView,
                (Seq<char>, Option<Seq<char>>),
            >(key@),
            Err(e) => loaded_key(key_view(found), path@) == Err::<
                PrivateKeyView,
                (Seq<char>, Option<Seq<char>>),
            >(e.parts()),
        },
{
    match found {
        Ok(Some(key)) => Ok(key),
        Ok(None) => Err(
            TlsError { context: about("no PEM private key found in ", path), cause: None },
        ),
        Err(e) => Err(TlsError { context: about("reading TLS key PEM ", path), cause: Some(e) }),
    }
}

/// Takes the private key out of the contents of a PEM file.
pub fn load_key(pem: &Vec<u8>, path: &str) -> (r: Result<PrivateKey, TlsError>)
    ensures
        match r {
            Ok(key) => loaded_key(pem_private_key(pem@), path@) == Ok::<
                PrivateKeyView,
                (Seq<char>, Option<Seq<char>>),
            >(key@),
            Err(e) => loaded_key(pem_private_key(pem@), path@) == Err::<
                PrivateKeyView,
                (Seq<char>, Option<Seq<char>>),
            >(e.parts()),
        },
        pem@.len() == 0 ==> r is Err,
{
    check_key(read_key(pem), path)
}

/// Certificates are taken as they were found; a file without any, and one that cannot
/// be read, are refused with the path of the file.
pub proof fn certificates_are_taken_as_found(
    found: Result<Seq<Seq<u8>>, Seq<char>>,
    path: Seq<char>,
)
    ensures
        match loaded_certs(found, path) {
            Ok(list) => list.len() > 0 && found == Ok::<Seq<Seq<u8>>, Seq<char>>(list),
            Err((context, cause)) => path.is_suffix_of(context) && match found {
                Ok(list) => list.len() == 0 && cause is None,
                Err(e) => cause == Some(e),
            },
        },
{
    let none = "no PEM certificates found in "@;
    let unread = "reading TLS certificate PEM "@;
    assert((none + path).subrange(none.len() as int, (none + path).len() as int) =~= path);
    assert((unread + path).subrange(unread.len() as int, (unread + path).len() as int) =~= path);
}

/// A private key is taken as it was found; a file without one, and one that cannot be
/// read, are refused with the path of the file.
pub proof fn keys_are_taken_as_found(
    found: Result<Option<PrivateKeyView>, Seq<char>>,
    path: Seq<char>,
)
    ensures
        match loaded_key(found, path) {
            Ok(key) => found == Ok::<Option<PrivateKeyView>, Seq<char>>(Some(key)),
            Err((context, cause)) => path.is_suffix_of(context) && match found {
                Ok(key) => key is None && cause is None,
                Err(e) => cause == Some(e),
            },
        },
{
    let none = "no PEM private key found in "@;
    let unread = "reading TLS key PEM "@;
    assert((none + path).subrange(none.len() as int, (none + path).len() as int) =~= path);
    assert((unread + path).subrange(unread.len() as int, (unread + path).len() as int) =~= path);
}

} // verus!
