//! The signing backend (ML-DSA-87 key generation and signing) and the
//! ASN.1 codec (DER encoding of the certification request), behind trusted
//! wrappers. Each wrapper makes one outside call; every consequence of what
//! comes back is handled by verified code that takes the returned value as
//! an argument.

use vstd::prelude::*;

use der::Decode;
use der::Encode;
use sha2::Digest;
use std::str::FromStr;
use x509_cert::ext::AsExtension;

verus! {

#[verifier::external_type_specification]
#[verifier::external_body]
pub struct ExThreadRng(rand::rngs::ThreadRng);

#[verifier::external_type_specification]
#[verifier::external_body]
pub struct ExMlDsa87(ml_dsa::MlDsa87);

/// Holds an ML-DSA-87 key pair, opaque to the verifier: the outside type's
/// generic parameter is bound by an outside trait, which the verifier
/// refuses in a type declaration.
#[verifier::external_body]
pub struct MlKeyPair {
    inner: ml_dsa::KeyPair<ml_dsa::MlDsa87>,
}

/// Holds an ML-DSA-87 signature value, opaque to the verifier, for the same
/// reason as `MlKeyPair`.
#[verifier::external_body]
pub struct MlSignatureValue {
    inner: ml_dsa::Signature<ml_dsa::MlDsa87>,
}

#[verifier::external_type_specification]
#[verifier::external_body]
pub struct ExBitString(der::asn1::BitString);

#[verifier::external_type_specification]
#[verifier::external_body]
pub struct ExAny(der::asn1::Any);

#[verifier::external_type_specification]
#[verifier::external_body]
pub struct ExOctetString(der::asn1::OctetString);

#[verifier::external_type_specification]
#[verifier::external_body]
pub struct ExObjectIdentifier(const_oid::ObjectIdentifier);

#[verifier::external_type_specification]
#[verifier::external_body]
pub struct ExDerError(der::Error);

#[verifier::external_type_specification]
#[verifier::external_body]
pub struct ExOidError(const_oid::Error);

#[verifier::external_type_specification]
#[verifier::external_body]
pub struct ExSignatureError(signature::Error);

#[verifier::external_type_specification]
#[verifier::external_body]
pub struct ExSpkiError(spki::Error);

/// Holds the attribute set of a certification request, opaque to the
/// verifier: the outside set type's element parameter is bound by an
/// outside trait, which the verifier refuses in a type declaration.
#[verifier::external_body]
pub struct ReqAttributes {
    inner: x509_cert::attr::Attributes,
}

#[verifier::external_type_specification]
#[verifier::external_body]
#[verifier::reject_recursive_types(Params)]
#[verifier::reject_recursive_types(Key)]
pub struct ExSubjectPublicKeyInfo<Params, Key>(spki::SubjectPublicKeyInfo<Params, Key>);

#[verifier::external_type_specification]
#[verifier::external_body]
#[verifier::reject_recursive_types(Params)]
pub struct ExAlgorithmIdentifier<Params>(spki::AlgorithmIdentifier<Params>);

#[verifier::external_type_specification]
#[verifier::external_body]
pub struct ExRdnSequence(x509_cert::name::RdnSequence);

#[verifier::external_type_specification]
#[verifier::external_body]
pub struct ExExtension(x509_cert::ext::Extension);

#[verifier::external_type_specification]
#[verifier::external_body]
pub struct ExAttribute(x509_cert::attr::Attribute);

#[verifier::external_type_specification]
#[verifier::external_body]
pub struct ExCertReqInfo(x509_cert::request::CertReqInfo);

#[verifier::external_type_specification]
#[verifier::external_body]
pub struct ExCertReq(x509_cert::request::CertReq);

#[verifier::external_type_specification]
#[verifier::external_body]
pub struct ExKeyUsage(x509_cert::ext::pkix::KeyUsage);

/// What SHA-256 returns for the given input bytes; the digest is a function
/// of those bytes alone.
pub uninterp spec fn sha256_of(data: Seq<u8>) -> Seq<u8>;

/// Relies on sha2::Sha256 (Digest::digest): the digest depends on the input
/// bytes alone and is 32 bytes long.
#[verifier::external_body]
pub(crate) fn sha256(data: &[u8]) -> (r: Vec<u8>)
    ensures
        r@ == sha256_of(data@),
        r@.len() == 32,
{
    sha2::Sha256::digest(data).to_vec()
}

/// Relies on rand::thread_rng: a handle to the process-wide
/// cryptographically secure random source.
#[verifier::external_body]
pub(crate) fn generate_rng() -> rand::rngs::ThreadRng {
    rand::thread_rng()
}

/// Relies on ml_dsa::KeyGen::key_gen for MlDsa87: draws a fresh ML-DSA-87
/// key pair from the given random source. Nothing is promised of the value;
/// everything derived from it is handled by verified code over the bytes it
/// yields.
#[verifier::external_body]
pub(crate) fn key_gen(rng: &mut rand::rngs::ThreadRng) -> MlKeyPair {
    MlKeyPair { inner: <ml_dsa::MlDsa87 as ml_dsa::KeyGen>::key_gen(rng) }
}

/// Relies on spki::EncodePublicKey::to_public_key_der for the ML-DSA
/// verifying key: the DER-encoded SubjectPublicKeyInfo of the key pair's
/// public half.
#[verifier::external_body]
pub(crate) fn public_key_der(key: &MlKeyPair) -> (r: Result<Vec<u8>, spki::Error>) {
    spki::EncodePublicKey::to_public_key_der(key.inner.verifying_key()).map(
        |d| d.as_bytes().to_vec(),
    )
}

/// What str::as_bytes returns: the UTF-8 encoding of the string, a
/// function of its characters alone.
pub uninterp spec fn utf8_of(s: Seq<char>) -> Seq<u8>;

/// Relies on str::as_bytes: the UTF-8 bytes of the string.
#[verifier::external_body]
pub(crate) fn str_bytes(s: &str) -> (r: Vec<u8>)
    ensures
        r@ == utf8_of(s@),
{
    s.as_bytes().to_vec()
}

/// Relies on x509_cert::name::RdnSequence::from_str: parses a subject name
/// from the given bytes, which the verified caller assembles; the body only
/// converts the bytes back to a string for the call (losslessly — the
/// caller hands UTF-8).
#[verifier::external_body]
pub(crate) fn subject_name(subject: &[u8]) -> (r: Result<
    x509_cert::name::RdnSequence,
    der::Error,
>) {
    let s = String::from_utf8_lossy(subject);
    x509_cert::name::RdnSequence::from_str(&s)
}

/// Relies on const_oid::ObjectIdentifier::new: parses a dot-delimited OID
/// string.
#[verifier::external_body]
pub(crate) fn oid_parse(s: &str) -> (r: Result<const_oid::ObjectIdentifier, const_oid::Error>) {
    const_oid::ObjectIdentifier::new(s)
}

/// Relies on der::asn1::OctetString::new: wraps an already DER-encoded
/// extension value into an Extension with the given OID and criticality.
#[verifier::external_body]
pub(crate) fn raw_extension(oid: const_oid::ObjectIdentifier, critical: bool, value: Vec<u8>) -> (r:
    Result<x509_cert::ext::Extension, der::Error>) {
    Ok(
        x509_cert::ext::Extension {
            extn_id: oid,
            critical,
            extn_value: der::asn1::OctetString::new(value)?,
        },
    )
}

/// Relies on x509_cert's AsExtension impl for BasicConstraints
/// (to_extension): encodes the basicConstraints extension and sets the
/// criticality that impl chooses.
#[verifier::external_body]
pub(crate) fn basic_constraints_extension(
    ca: bool,
    path_len: u8,
    subject: &x509_cert::name::RdnSequence,
) -> (r: Result<x509_cert::ext::Extension, der::Error>) {
    let bc = x509_cert::ext::pkix::BasicConstraints { ca, path_len_constraint: Some(path_len) };
    bc.to_extension(subject, &[])
}

/// Relies on x509_cert's AsExtension impl for KeyUsage (to_extension):
/// encodes the keyUsage extension and sets the criticality that impl
/// chooses.
#[verifier::external_body]
pub(crate) fn key_usage_extension(
    usage: &x509_cert::ext::pkix::KeyUsage,
    subject: &x509_cert::name::RdnSequence,
) -> (r: Result<x509_cert::ext::Extension, der::Error>) {
    usage.to_extension(subject, &[])
}

/// Relies on x509_cert::request::ExtensionReq's TryFrom conversion to an
/// extensionRequest Attribute, exactly as the request builder's finalize
/// step applies it.
#[verifier::external_body]
pub(crate) fn extensions_attribute(extensions: Vec<x509_cert::ext::Extension>) -> (r: Result<
    x509_cert::attr::Attribute,
    der::Error,
>) {
    x509_cert::request::ExtensionReq(extensions).try_into()
}

/// Relies on der::asn1::SetOfVec::insert: the singleton attribute set of a
/// certification request.
#[verifier::external_body]
pub(crate) fn attributes_one(attribute: x509_cert::attr::Attribute) -> (r: Result<
    ReqAttributes,
    der::Error,
>) {
    let mut attrs = x509_cert::attr::Attributes::default();
    attrs.insert(attribute)?;
    Ok(ReqAttributes { inner: attrs })
}

/// Relies on der::Decode::from_der for SubjectPublicKeyInfoOwned: decodes
/// the DER that the signing backend produced for the public key.
#[verifier::external_body]
pub(crate) fn spki_from_der(b: &[u8]) -> (r: Result<
    spki::SubjectPublicKeyInfoOwned,
    der::Error,
>) {
    spki::SubjectPublicKeyInfoOwned::from_der(b)
}

/// Builds CertReqInfo — the to-be-signed content of a v1 certification
/// request — from its parts; pure construction of x509_cert values.
#[verifier::external_body]
pub(crate) fn cert_req_info(
    subject: x509_cert::name::RdnSequence,
    public_key: spki::SubjectPublicKeyInfoOwned,
    attributes: ReqAttributes,
) -> x509_cert::request::CertReqInfo {
    x509_cert::request::CertReqInfo {
        version: x509_cert::request::Version::V1,
        subject,
        public_key,
        attributes: attributes.inner,
    }
}

/// Relies on der::Encode::to_der for CertReqInfo: the exact bytes that are
/// signed, and whose first-element framing the template is cut from.
#[verifier::external_body]
pub(crate) fn cert_req_info_to_der(info: &x509_cert::request::CertReqInfo) -> (r: Result<
    Vec<u8>,
    der::Error,
>) {
    info.to_der()
}

/// Relies on signature::Signer::try_sign for ml_dsa::KeyPair: the
/// deterministic ML-DSA signing variant with an empty context string.
#[verifier::external_body]
pub(crate) fn try_sign(key: &MlKeyPair, msg: &[u8]) -> (r: Result<
    MlSignatureValue,
    signature::Error,
>) {
    signature::Signer::try_sign(&key.inner, msg).map(|s| MlSignatureValue { inner: s })
}

/// Relies on spki::SignatureBitStringEncoding::to_bitstring for the ML-DSA
/// signature value.
#[verifier::external_body]
pub(crate) fn sig_to_bitstring(sig: &MlSignatureValue) -> (r: Result<
    der::asn1::BitString,
    der::Error,
>) {
    spki::SignatureBitStringEncoding::to_bitstring(&sig.inner)
}

/// Relies on spki::DynSignatureAlgorithmIdentifier for ml_dsa::KeyPair: the
/// ML-DSA-87 signature algorithm identifier.
#[verifier::external_body]
pub(crate) fn algorithm_identifier(key: &MlKeyPair) -> (r: Result<
    spki::AlgorithmIdentifierOwned,
    spki::Error,
>) {
    spki::DynSignatureAlgorithmIdentifier::signature_algorithm_identifier(&key.inner)
}

/// Relies on der::Encode::to_der for CertReq: assembles the signed
/// certification request from its three parts and encodes it.
#[verifier::external_body]
pub(crate) fn cert_req_to_der(
    info: x509_cert::request::CertReqInfo,
    algorithm: spki::AlgorithmIdentifierOwned,
    signature: der::asn1::BitString,
) -> (r: Result<Vec<u8>, der::Error>) {
    x509_cert::request::CertReq { info, algorithm, signature }.to_der()
}

/// Relies on der::Decode::from_der for CertReq: the round-trip self-check
/// decode of the encoded request.
#[verifier::external_body]
pub(crate) fn cert_req_from_der(b: &[u8]) -> (r: Result<
    x509_cert::request::CertReq,
    der::Error,
>) {
    x509_cert::request::CertReq::from_der(b)
}

} // verus!
