//! Builder for ML-DSA-87 certificate signing request templates: declare
//! dynamic fields, encode and sign through the external codec and signing
//! backend, resolve each field's byte range in the to-be-signed region, and
//! hand back an immutable `TbsTemplate`.

use vstd::prelude::*;

use crate::backend;
use crate::envelope;
use crate::hexenc;
use crate::resolver;
use crate::tbs::{PendingParam, TbsParam, TbsTemplate, TemplateError};

verus! {

/// The largest unique-device-identifier the template can carry: its DER
/// extension value must stay within the modelled length forms.
pub const UEID_MAX_LEN: usize = 0xFFFF00;

/// The subject-name string handed to the codec, as UTF-8 bytes:
/// `CN=<cn>,serialNumber=<serial>`, with the serial bytes ASCII.
pub open spec fn spec_subject_bytes(cn: Seq<char>, serial: Seq<u8>) -> Seq<u8> {
    backend::utf8_of("CN="@) + backend::utf8_of(cn) + backend::utf8_of(",serialNumber="@) + serial
}

/// Assemble the subject-name bytes `CN=<cn>,serialNumber=<serial>`.
pub fn subject_bytes(cn: &str, serial: &[u8]) -> (r: Vec<u8>)
    ensures
        r@ == spec_subject_bytes(cn@, serial@),
{
    let mut out = backend::str_bytes("CN=");
    let cn_bytes = backend::str_bytes(cn);
    envelope::push_bytes(&mut out, cn_bytes.as_slice());
    let mid = backend::str_bytes(",serialNumber=");
    envelope::push_bytes(&mut out, mid.as_slice());
    envelope::push_bytes(&mut out, serial);
    assert(out@ =~= spec_subject_bytes(cn@, serial@));
    out
}

/// Fluent, consuming configuration surface for one certificate signing
/// request template. Each configuration call returns an updated builder
/// value; `tbs_template` consumes the builder, so declarations cannot
/// change after offsets have been resolved. Declaring the same semantic
/// role twice is a configuration error, reported when the template is
/// built.
pub struct CsrTemplateBuilder {
    basic_constraints: Option<(bool, u32)>,
    key_usage: Option<x509_cert::ext::pkix::KeyUsage>,
    ueid: Option<Vec<u8>>,
    duplicate: bool,
}

impl CsrTemplateBuilder {
    /// The declared basicConstraints role: `(ca, path_length)`.
    pub closed spec fn spec_basic_constraints(&self) -> Option<(bool, u32)> {
        self.basic_constraints
    }

    /// Whether the keyUsage role has been declared.
    pub closed spec fn spec_has_key_usage(&self) -> bool {
        self.key_usage is Some
    }

    /// The declared unique-device-identifier bytes.
    pub closed spec fn spec_ueid(&self) -> Option<Seq<u8>> {
        match self.ueid {
            Some(u) => Some(u@),
            None => None,
        }
    }

    /// Whether some role has been declared twice.
    pub closed spec fn spec_duplicate(&self) -> bool {
        self.duplicate
    }

    /// How many dynamic fields the built template will carry: the declared
    /// unique device identifier, if any, then the public key and the
    /// subject serial number.
    pub open spec fn spec_param_count(&self) -> int {
        if self.spec_ueid() is Some {
            3
        } else {
            2
        }
    }

    pub fn new() -> (r: Self)
        ensures
            r.spec_basic_constraints() is None,
            !r.spec_has_key_usage(),
            r.spec_ueid() is None,
            !r.spec_duplicate(),
    {
        CsrTemplateBuilder { basic_constraints: None, key_usage: None, ueid: None, duplicate: false }
    }

    /// Declare the basicConstraints extension: `ca` and a path length
    /// constraint.
    pub fn add_basic_constraints_ext(self, ca: bool, path_len: u32) -> (r: Self)
        ensures
            r.spec_basic_constraints() == Some((ca, path_len)),
            r.spec_has_key_usage() == self.spec_has_key_usage(),
            r.spec_ueid() == self.spec_ueid(),
            r.spec_duplicate() == (self.spec_duplicate() || self.spec_basic_constraints() is Some),
    {
        let mut b = self;
        b.duplicate = b.duplicate || b.basic_constraints.is_some();
        b.basic_constraints = Some((ca, path_len));
        b
    }

    /// Declare the keyUsage extension.
    pub fn add_key_usage_ext(self, usage: x509_cert::ext::pkix::KeyUsage) -> (r: Self)
        ensures
            r.spec_has_key_usage(),
            r.spec_basic_constraints() == self.spec_basic_constraints(),
            r.spec_ueid() == self.spec_ueid(),
            r.spec_duplicate() == (self.spec_duplicate() || self.spec_has_key_usage()),
    {
        let mut b = self;
        b.duplicate = b.duplicate || b.key_usage.is_some();
        b.key_usage = Some(usage);
        b
    }

    /// Declare the unique-device-identifier extension; its raw bytes also
    /// become a dynamic-field declaration, located and zeroed in the built
    /// template.
    pub fn add_ueid_ext(self, ueid: &[u8]) -> (r: Self)
        ensures
            r.spec_ueid() == Some(ueid@),
            r.spec_basic_constraints() == self.spec_basic_constraints(),
            r.spec_has_key_usage() == self.spec_has_key_usage(),
            r.spec_duplicate() == (self.spec_duplicate() || self.spec_ueid() is Some),
    {
        let mut b = self;
        b.duplicate = b.duplicate || b.ueid.is_some();
        let copied = envelope::copy_range(ueid, 0, ueid.len());
        proof {
            assert(copied@ =~= ueid@);
        }
        b.ueid = Some(copied);
        b
    }

    /// Build the template: request a fresh ML-DSA-87 key pair, derive the
    /// subject name `CN=<subject_cn>,serialNumber=<uppercase hex of
    /// SHA-256(public key)>`, encode and sign the certification request
    /// through the external codec, decode it back as a self-check, strip
    /// the signed envelope, and resolve and sanitize every declared field
    /// in declaration order. The builder is consumed: a template is
    /// returned fully formed or not at all.
    pub fn tbs_template(self, subject_cn: &str) -> (r: Result<TbsTemplate, TemplateError>)
        ensures
            self.spec_duplicate() ==> r == Err::<TbsTemplate, TemplateError>(
                TemplateError::ConfigurationError,
            ),
            match self.spec_ueid() {
                Some(u) => (u.len() == 0 || u.len() > UEID_MAX_LEN) ==> r == Err::<
                    TbsTemplate,
                    TemplateError,
                >(TemplateError::ConfigurationError),
                None => true,
            },
            r == Err::<TbsTemplate, TemplateError>(TemplateError::ConfigurationError)
                ==> self.spec_duplicate() || (match self.spec_ueid() {
                Some(u) => u.len() == 0 || u.len() > UEID_MAX_LEN,
                None => false,
            }),
            match r {
                Ok(t) => {
                    &&& !self.spec_duplicate()
                    &&& t.wf()
                    &&& t.spec_params().len() == self.spec_param_count()
                    &&& match self.spec_ueid() {
                        Some(u) => {
                            &&& t.spec_params()[0].name@ == "UEID"@
                            &&& t.spec_params()[0].length == u.len()
                            &&& t.spec_params()[1].name@ == "PUBLIC_KEY"@
                            &&& t.spec_params()[2].name@ == "SUBJECT_SN"@
                            &&& t.spec_params()[2].length == 64
                        },
                        None => {
                            &&& t.spec_params()[0].name@ == "PUBLIC_KEY"@
                            &&& t.spec_params()[1].name@ == "SUBJECT_SN"@
                            &&& t.spec_params()[1].length == 64
                        },
                    }
                },
                Err(_) => true,
            },
    {
        if self.duplicate {
            return Err(TemplateError::ConfigurationError);
        }
        let CsrTemplateBuilder { basic_constraints, key_usage, ueid, duplicate: _ } = self;
        if let Some(u) = &ueid {
            if u.len() == 0 || u.len() > UEID_MAX_LEN {
                return Err(TemplateError::ConfigurationError);
            }
        }

        // Signing backend: fresh key pair, encoded public key, serial number.
        let mut rng = backend::generate_rng();
        let key = backend::key_gen(&mut rng);
        let pk_der = match backend::public_key_der(&key) {
            Ok(v) => v,
            Err(_) => {
                return Err(TemplateError::EncodingError);
            },
        };
        let pk_bytes = match envelope::extract_public_key_bits(pk_der.as_slice()) {
            Ok(v) => v,
            Err(e) => {
                return Err(e);
            },
        };
        if pk_bytes.len() == 0 {
            // An empty public key means the backend misencoded the key.
            return Err(TemplateError::EncodingError);
        }
        let digest = backend::sha256(pk_bytes.as_slice());
        let sn = hexenc::hex_upper(digest.as_slice());
        let subject = subject_bytes(subject_cn, sn.as_slice());
        let name = match backend::subject_name(subject.as_slice()) {
            Ok(v) => v,
            Err(_) => {
                return Err(TemplateError::EncodingError);
            },
        };

        // Declared extensions, in declaration order.
        let mut extensions: Vec<x509_cert::ext::Extension> = Vec::new();
        if let Some((ca, path_len)) = basic_constraints {
            #[verifier::truncate]
            let path_len_octet: u8 = path_len as u8;
            match backend::basic_constraints_extension(ca, path_len_octet, &name) {
                Ok(e) => extensions.push(e),
                Err(_) => {
                    return Err(TemplateError::EncodingError);
                },
            }
        }
        if let Some(ku) = &key_usage {
            match backend::key_usage_extension(ku, &name) {
                Ok(e) => extensions.push(e),
                Err(_) => {
                    return Err(TemplateError::EncodingError);
                },
            }
        }
        if let Some(u) = &ueid {
            let value = envelope::ueid_extension_value(u.as_slice());
            let oid = match backend::oid_parse("2.23.133.5.4.4") {
                Ok(v) => v,
                Err(_) => {
                    return Err(TemplateError::EncodingError);
                },
            };
            match backend::raw_extension(oid, true, value) {
                Ok(e) => extensions.push(e),
                Err(_) => {
                    return Err(TemplateError::EncodingError);
                },
            }
        }

        // Codec: assemble, sign and encode the certification request.
        let attr = match backend::extensions_attribute(extensions) {
            Ok(v) => v,
            Err(_) => {
                return Err(TemplateError::EncodingError);
            },
        };
        let attrs = match backend::attributes_one(attr) {
            Ok(v) => v,
            Err(_) => {
                return Err(TemplateError::EncodingError);
            },
        };
        let spki_pub = match backend::spki_from_der(pk_der.as_slice()) {
            Ok(v) => v,
            Err(_) => {
                return Err(TemplateError::EncodingError);
            },
        };
        let info = backend::cert_req_info(name, spki_pub, attrs);
        let msg = match backend::cert_req_info_to_der(&info) {
            Ok(v) => v,
            Err(_) => {
                return Err(TemplateError::EncodingError);
            },
        };
        let sig = match backend::try_sign(&key, msg.as_slice()) {
            Ok(v) => v,
            Err(_) => {
                return Err(TemplateError::EncodingError);
            },
        };
        let sig_bits = match backend::sig_to_bitstring(&sig) {
            Ok(v) => v,
            Err(_) => {
                return Err(TemplateError::EncodingError);
            },
        };
        let alg = match backend::algorithm_identifier(&key) {
            Ok(v) => v,
            Err(_) => {
                return Err(TemplateError::EncodingError);
            },
        };
        let der_bytes = match backend::cert_req_to_der(info, alg, sig_bits) {
            Ok(v) => v,
            Err(_) => {
                return Err(TemplateError::EncodingError);
            },
        };

        // Self-check: the encoded request must decode back. A failure here
        // is an unrecoverable internal defect of the codec, never a normal
        // caller error.
        if backend::cert_req_from_der(der_bytes.as_slice()).is_err() {
            return Err(TemplateError::DecodingError);
        }

        // Offset resolver: strip the envelope, then resolve and sanitize
        // every declared field against the to-be-signed region.
        let tbs = match envelope::extract_signed_payload(der_bytes.as_slice()) {
            Ok(v) => v,
            Err(e) => {
                return Err(e);
            },
        };
        let mut pending: Vec<PendingParam> = Vec::new();
        if let Some(u) = ueid {
            pending.push(PendingParam { name: "UEID", needle: u });
        }
        pending.push(PendingParam { name: "PUBLIC_KEY", needle: pk_bytes });
        pending.push(PendingParam { name: "SUBJECT_SN", needle: sn });
        proof {
            // Every needle is non-empty, so resolution cannot report a
            // configuration error; the exact-error clauses above follow.
            assert forall|i: int|
                0 <= i < pending@.len() implies (#[trigger] pending@[i]).needle@.len() > 0 by {}
            resolver::lemma_resolve_no_config(pending@, tbs@, Seq::<TbsParam>::empty());
        }
        resolver::resolve_params(&pending, tbs)
    }
}

} // verus!
