//! TLS material of one identity and the artifacts derived from it.

use vstd::prelude::*;
use vstd::slice::slice_to_vec;

verus! {

/// Why a PEM document could not be read.
#[verifier::external_type_specification]
#[verifier::external_body]
pub struct ExPemError(x509_parser::error::PEMError);

/// Why the bytes of a certificate could not be parsed.
#[verifier::external_type_specification]
#[verifier::external_body]
pub struct ExX509Error(x509_parser::error::X509Error);

/// How a parser of the `x509-parser` crate fails.
#[verifier::external_type_specification]
#[verifier::external_body]
#[verifier::reject_recursive_types(E)]
pub struct ExParseFailure<E>(x509_parser::nom::Err<E>);

/// Why the `pem` crate does not accept a document.
#[verifier::external_type_specification]
#[verifier::external_body]
pub struct ExPemDocumentError(pem::PemError);

/// The byte that separates the two halves of a bundle: a line feed.
pub const BUNDLE_SEPARATOR: u8 = 0x0A;

/// A bundle is the first item, one line feed, then the second item.
pub open spec fn spec_pem_bundle(item1: Seq<u8>, item2: Seq<u8>) -> Seq<u8> {
    item1.push(BUNDLE_SEPARATOR) + item2
}

/// Concatenates two PEM documents with a line feed between them.
pub fn pem_bundle(item1: &[u8], item2: &[u8]) -> (bundle: Vec<u8>)
    ensures
        bundle@ == spec_pem_bundle(item1@, item2@),
{
    let mut bundle = slice_to_vec(item1);
    bundle.push(BUNDLE_SEPARATOR);
    bundle.extend_from_slice(item2);
    assert(bundle@ =~= spec_pem_bundle(item1@, item2@));
    bundle
}

/// Why the public key of a certificate could not be given.
#[derive(Debug)]
pub enum TlsError {
    /// The certificate document holds no PEM block that can be decoded.
    Pem(x509_parser::error::PEMError),
    /// The first PEM block is no X.509 certificate.
    Certificate(x509_parser::nom::Err<x509_parser::error::X509Error>),
    /// A document of the pair is no well-formed PEM.
    Document(pem::PemError),
}

/// The decoded contents of the first PEM block of a document, or `None`
/// where the `x509-parser` crate finds no block that it can decode.
pub uninterp spec fn spec_pem_contents(document: Seq<u8>) -> Option<Seq<u8>>;

/// The raw `SubjectPublicKeyInfo` of a DER-encoded X.509 certificate, or
/// `None` where the `x509-parser` crate does not accept the bytes as one.
pub uninterp spec fn spec_subject_public_key_info(der: Seq<u8>) -> Option<Seq<u8>>;

/// The PEM document that the `pem` crate writes for a label and contents.
pub uninterp spec fn spec_pem_encode(label: Seq<char>, contents: Seq<u8>) -> Seq<char>;

/// `Pem::read` of the `x509-parser` crate on the bytes of a document: the
/// decoded contents of its first PEM block. The outcome is a function of
/// the bytes alone.
#[verifier::external_body]
fn read_pem(document: &[u8]) -> (contents: Result<Vec<u8>, x509_parser::error::PEMError>)
    ensures
        match contents {
            Ok(der) => spec_pem_contents(document@) == Some(der@),
            Err(_) => spec_pem_contents(document@) is None,
        },
{
    x509_parser::pem::Pem::read(std::io::Cursor::new(document)).map(|(pem, _)| pem.contents)
}

/// `parse_x509_certificate` of the `x509-parser` crate, and of the
/// certificate it gives the raw bytes of the public key. The outcome is a
/// function of the bytes alone.
#[verifier::external_body]
fn read_subject_public_key_info(der: &[u8]) -> (raw: Result<
    Vec<u8>,
    x509_parser::nom::Err<x509_parser::error::X509Error>,
>)
    ensures
        match raw {
            Ok(bytes) => spec_subject_public_key_info(der@) == Some(bytes@),
            Err(_) => spec_subject_public_key_info(der@) is None,
        },
{
    x509_parser::parse_x509_certificate(der).map(|(_, cert)| cert.public_key().raw.to_vec())
}

/// `pem::encode` of the `pem` crate on a label and contents.
#[verifier::external_body]
fn encode_pem(label: &str, contents: Vec<u8>) -> (document: String)
    ensures
        document@ == spec_pem_encode(label@, contents@),
{
    pem::encode(&pem::Pem { tag: label.to_string(), contents })
}

/// The decoded contents of a document that holds one PEM block, or `None`
/// where the `pem` crate does not accept the document.
pub uninterp spec fn spec_pem_parse(document: Seq<u8>) -> Option<Seq<u8>>;

/// The decoded contents of the PEM blocks of a document, in their order,
/// or `None` where the `pem` crate does not accept one of them.
pub uninterp spec fn spec_pem_parse_many(document: Seq<u8>) -> Option<Seq<Seq<u8>>>;

/// Byte strings as plain values.
pub open spec fn spec_byte_strings(items: Seq<Vec<u8>>) -> Seq<Seq<u8>> {
    Seq::new(items.len(), |i: int| items[i]@)
}

/// `pem::parse` of the `pem` crate: the decoded contents of the first PEM
/// block of a document. The outcome is a function of the bytes alone.
#[verifier::external_body]
pub(crate) fn parse_pem(document: &[u8]) -> (contents: Result<Vec<u8>, pem::PemError>)
    ensures
        match contents {
            Ok(der) => spec_pem_parse(document@) == Some(der@),
            Err(_) => spec_pem_parse(document@) is None,
        },
{
    pem::parse(document).map(|block| block.contents)
}

/// `pem::parse_many` of the `pem` crate: the decoded contents of every PEM
/// block of a document. The outcome is a function of the bytes alone.
#[verifier::external_body]
pub(crate) fn parse_pem_many(document: &[u8]) -> (contents: Result<Vec<Vec<u8>>, pem::PemError>)
    ensures
        match contents {
            Ok(blocks) => spec_pem_parse_many(document@) == Some(spec_byte_strings(blocks@)),
            Err(_) => spec_pem_parse_many(document@) is None,
        },
{
    pem::parse_many(document).map(|blocks| blocks.into_iter().map(|block| block.contents).collect())
}

/// The public key of a certificate document as a PEM document with the
/// label `PUBLIC KEY`, for each outcome of reading the certificate.
pub open spec fn spec_public_key_pem(cert_pem: Seq<u8>, result: Result<String, TlsError>) -> bool {
    match spec_pem_contents(cert_pem) {
        None => result matches Err(TlsError::Pem(_)),
        Some(der) => match spec_subject_public_key_info(der) {
            None => result matches Err(TlsError::Certificate(_)),
            Some(raw) => result matches Ok(document) && document@ == spec_pem_encode(
                "PUBLIC KEY"@,
                raw,
            ),
        },
    }
}

/// The PEM documents of one identity: the root certificate that is
/// trusted, the certificate of the identity and its private key.
#[derive(Debug, Clone)]
pub struct TlsPair {
    pub root_pem: Vec<u8>,
    pub cert_pem: Vec<u8>,
    pub key_pem: Vec<u8>,
}

impl TlsPair {
    /// Puts the three documents together. Nothing is checked, so this
    /// never fails.
    pub fn new(root_pem: Vec<u8>, cert_pem: Vec<u8>, key_pem: Vec<u8>) -> (pair: Result<
        Self,
        TlsError,
    >)
        ensures
            pair matches Ok(made) && made.root_pem@ == root_pem@ && made.cert_pem@ == cert_pem@
                && made.key_pem@ == key_pem@,
    {
        Ok(Self { root_pem, cert_pem, key_pem })
    }

    /// The certificate, a line feed and the root certificate: the chain
    /// that a server presents, and the authorities that it asks of its
    /// clients.
    pub fn bundle(&self) -> (bundle: Vec<u8>)
        ensures
            bundle@ == spec_pem_bundle(self.cert_pem@, self.root_pem@),
    {
        pem_bundle(self.cert_pem.as_slice(), self.root_pem.as_slice())
    }

    /// The public key of the certificate as a PEM document with the label
    /// `PUBLIC KEY`: the first PEM block of the certificate document is
    /// decoded and parsed as an X.509 certificate, and the raw
    /// `SubjectPublicKeyInfo` of that certificate is encoded again.
    pub fn public_key_pem(&self) -> (document: Result<String, TlsError>)
        ensures
            spec_public_key_pem(self.cert_pem@, document),
    {
        match read_pem(self.cert_pem.as_slice()) {
            Err(reason) => Err(TlsError::Pem(reason)),
            Ok(der) => match read_subject_public_key_info(der.as_slice()) {
                Err(reason) => Err(TlsError::Certificate(reason)),
                Ok(raw) => Ok(encode_pem("PUBLIC KEY", raw)),
            },
        }
    }
}

} // verus!
