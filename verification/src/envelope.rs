//! Byte-level DER views: strip the signed envelope (signature algorithm
//! identifier + signature value) off an encoded certificate signing request,
//! and pull the raw public-key bits out of an encoded SubjectPublicKeyInfo.
//!
//! Only as much DER as is needed to locate these regions is modelled: a
//! tag byte followed by a definite, minimally encoded length of at most
//! three length bytes (objects up to 2^24 - 1 content bytes).

use vstd::prelude::*;

use crate::tbs::TemplateError;

verus! {

/// The DER tag of an ASN.1 SEQUENCE.
pub const TAG_SEQUENCE: u8 = 0x30;

/// The DER tag of an ASN.1 BIT STRING.
pub const TAG_BIT_STRING: u8 = 0x03;

/// Parse the TLV header at position `p` of `b`: the result is
/// `(header_len, content_len)`, where `header_len` counts the tag byte and
/// the length bytes. `None` if the bytes at `p` are not a well-formed
/// definite, minimally encoded length of at most three length bytes.
pub open spec fn spec_header(b: Seq<u8>, p: int) -> Option<(int, int)> {
    if p < 0 || p + 2 > b.len() {
        None
    } else {
        let l0 = b[p + 1];
        if l0 < 0x80 {
            Some((2, l0 as int))
        } else if l0 == 0x81 {
            if p + 3 <= b.len() && b[p + 2] >= 0x80 {
                Some((3, b[p + 2] as int))
            } else {
                None
            }
        } else if l0 == 0x82 {
            if p + 4 <= b.len() && b[p + 2] as int * 0x100 + b[p + 3] as int >= 0x100 {
                Some((4, b[p + 2] as int * 0x100 + b[p + 3] as int))
            } else {
                None
            }
        } else if l0 == 0x83 {
            if p + 5 <= b.len() && b[p + 2] as int * 0x10000 + b[p + 3] as int * 0x100 + b[p
                + 4] as int >= 0x10000 {
                Some((5, b[p + 2] as int * 0x10000 + b[p + 3] as int * 0x100 + b[p + 4] as int))
            } else {
                None
            }
        } else {
            None
        }
    }
}

/// Executable TLV header parse; agrees exactly with `spec_header`.
fn parse_header(b: &[u8], p: usize) -> (r: Option<(usize, usize)>)
    ensures
        match (r, spec_header(b@, p as int)) {
            (Some((h, c)), Some(sp)) => h == sp.0 && c == sp.1,
            (None, None) => true,
            _ => false,
        },
{
    let bl: usize = b.len();
    if p >= bl || bl - p < 2 {
        return None;
    }
    let l0: u8 = b[p + 1];
    if l0 < 0x80 {
        Some((2, l0 as usize))
    } else if l0 == 0x81 {
        if bl - p >= 3 && b[p + 2] >= 0x80 {
            Some((3, b[p + 2] as usize))
        } else {
            None
        }
    } else if l0 == 0x82 {
        if bl - p >= 4 {
            let c: usize = (b[p + 2] as usize) * 0x100 + (b[p + 3] as usize);
            if c >= 0x100 {
                Some((4, c))
            } else {
                None
            }
        } else {
            None
        }
    } else if l0 == 0x83 {
        if bl - p >= 5 {
            let c: usize = (b[p + 2] as usize) * 0x10000 + (b[p + 3] as usize) * 0x100 + (b[p
                + 4] as usize);
            if c >= 0x10000 {
                Some((5, c))
            } else {
                None
            }
        } else {
            None
        }
    } else {
        None
    }
}

/// `b` is shaped like a signed envelope: an outer SEQUENCE filling `b`
/// exactly, whose first element is itself a SEQUENCE (the to-be-signed
/// region) lying entirely inside `b`. The elements after it — signature
/// algorithm identifier and signature value — are not inspected.
pub open spec fn envelope_wf(b: Seq<u8>) -> bool {
    match spec_header(b, 0) {
        None => false,
        Some(outer) => {
            &&& b[0] == TAG_SEQUENCE
            &&& outer.0 + outer.1 == b.len()
            &&& match spec_header(b, outer.0) {
                None => false,
                Some(inner) => b[outer.0] == TAG_SEQUENCE && outer.0 + inner.0 + inner.1
                    <= b.len(),
            }
        },
    }
}

/// The to-be-signed region of a well-formed envelope: the complete encoding
/// (header and content) of the outer SEQUENCE's first element.
pub open spec fn spec_payload(b: Seq<u8>) -> Seq<u8>
    recommends
        envelope_wf(b),
{
    let outer = spec_header(b, 0).unwrap();
    let inner = spec_header(b, outer.0).unwrap();
    b.subrange(outer.0, outer.0 + inner.0 + inner.1)
}

/// Copy `b[start .. start + len]` into a fresh buffer.
pub(crate) fn copy_range(b: &[u8], start: usize, len: usize) -> (r: Vec<u8>)
    requires
        start + len <= b@.len(),
    ensures
        r@ == b@.subrange(start as int, start as int + len as int),
{
    let bl: usize = b.len();
    let mut r: Vec<u8> = Vec::new();
    let mut k: usize = 0;
    while k < len
        invariant
            bl == b@.len(),
            start + len <= bl,
            k <= len,
            r@.len() == k,
            forall|m: int| 0 <= m < k ==> #[trigger] r@[m] == b@[start + m],
        decreases len - k,
    {
        r.push(b[start + k]);
        k = k + 1;
    }
    assert(r@ =~= b@.subrange(start as int, start as int + len as int));
    r
}

/// Strip the outer envelope (signature algorithm identifier + signature
/// value) from a fully encoded, signed certificate signing request,
/// returning exactly the to-be-signed region. Pure function of the input
/// bytes; fails exactly when the input is not shaped like a signed envelope.
pub fn extract_signed_payload(encoded: &[u8]) -> (r: Result<Vec<u8>, TemplateError>)
    ensures
        match r {
            Ok(p) => envelope_wf(encoded@) && p@ == spec_payload(encoded@),
            Err(e) => e == TemplateError::EnvelopeStructureError && !envelope_wf(encoded@),
        },
{
    let el: usize = encoded.len();
    let outer = match parse_header(encoded, 0) {
        None => {
            return Err(TemplateError::EnvelopeStructureError);
        },
        Some(hc) => hc,
    };
    if encoded[0] != TAG_SEQUENCE {
        return Err(TemplateError::EnvelopeStructureError);
    }
    if !(outer.1 <= el && el - outer.1 == outer.0) {
        return Err(TemplateError::EnvelopeStructureError);
    }
    let inner = match parse_header(encoded, outer.0) {
        None => {
            return Err(TemplateError::EnvelopeStructureError);
        },
        Some(hc) => hc,
    };
    if encoded[outer.0] != TAG_SEQUENCE {
        return Err(TemplateError::EnvelopeStructureError);
    }
    if !(inner.1 <= el - outer.0 && el - outer.0 - inner.1 >= inner.0) {
        return Err(TemplateError::EnvelopeStructureError);
    }
    Ok(copy_range(encoded, outer.0, inner.0 + inner.1))
}

/// The DER tag of an ASN.1 OCTET STRING.
pub const TAG_OCTET_STRING: u8 = 0x04;

/// The DER encoding of a definite length below 2^24, in minimal form.
pub open spec fn spec_len_bytes(n: int) -> Seq<u8> {
    if n < 0x80 {
        seq![n as u8]
    } else if n < 0x100 {
        seq![0x81u8, n as u8]
    } else if n < 0x10000 {
        seq![0x82u8, (n / 0x100) as u8, (n % 0x100) as u8]
    } else {
        seq![0x83u8, (n / 0x10000) as u8, ((n / 0x100) % 0x100) as u8, (n % 0x100) as u8]
    }
}

/// The DER encoding of one TLV: tag, minimal definite length, content.
pub open spec fn spec_tlv(tag: u8, content: Seq<u8>) -> Seq<u8> {
    seq![tag] + spec_len_bytes(content.len() as int) + content
}

/// The DER value of the unique-device-identifier extension: a SEQUENCE
/// holding one OCTET STRING with the raw identifier bytes.
pub open spec fn spec_ueid_ext_value(ueid: Seq<u8>) -> Seq<u8> {
    spec_tlv(TAG_SEQUENCE, spec_tlv(TAG_OCTET_STRING, ueid))
}

/// The encoder and the header parser agree: a TLV built by `spec_tlv`
/// parses back to its own header and carries exactly its content.
pub proof fn lemma_tlv_parses_back(tag: u8, content: Seq<u8>)
    requires
        content.len() < 0x1000000,
    ensures
        ({
            let enc = spec_tlv(tag, content);
            let hlen = 1 + spec_len_bytes(content.len() as int).len() as int;
            &&& spec_header(enc, 0) == Some((hlen, content.len() as int))
            &&& enc[0] == tag
            &&& enc.len() == hlen + content.len()
            &&& enc.subrange(hlen, enc.len() as int) =~= content
        }),
{
    let n = content.len() as int;
    let enc = spec_tlv(tag, content);
    let lb = spec_len_bytes(n);
    assert(enc =~= seq![tag] + lb + content);
    if n < 0x80 {
        assert(enc[1] == n as u8);
    } else if n < 0x100 {
        assert(enc[1] == 0x81u8 && enc[2] == n as u8);
    } else if n < 0x10000 {
        assert(enc[1] == 0x82u8 && enc[2] == (n / 0x100) as u8 && enc[3] == (n % 0x100) as u8);
        assert((n / 0x100) * 0x100 + n % 0x100 == n) by (nonlinear_arith)
            requires 0x100 <= n < 0x10000;
        assert(0 <= n / 0x100 < 0x100 && 0 <= n % 0x100 < 0x100);
    } else {
        assert(enc[1] == 0x83u8 && enc[2] == (n / 0x10000) as u8 && enc[3] == ((n / 0x100)
            % 0x100) as u8 && enc[4] == (n % 0x100) as u8);
        assert((n / 0x10000) * 0x10000 + ((n / 0x100) % 0x100) * 0x100 + n % 0x100 == n)
            by (nonlinear_arith)
            requires 0x10000 <= n < 0x1000000;
        assert(0 <= n / 0x10000 < 0x100 && 0 <= (n / 0x100) % 0x100 < 0x100 && 0 <= n % 0x100
            < 0x100);
    }
}

/// Append the minimal DER length encoding of `n`.
fn push_len(out: &mut Vec<u8>, n: usize)
    requires
        n < 0x1000000,
    ensures
        final(out)@ == old(out)@ + spec_len_bytes(n as int),
{
    if n < 0x80 {
        out.push(n as u8);
    } else if n < 0x100 {
        out.push(0x81);
        out.push(n as u8);
    } else if n < 0x10000 {
        out.push(0x82);
        out.push((n / 0x100) as u8);
        out.push((n % 0x100) as u8);
    } else {
        out.push(0x83);
        out.push((n / 0x10000) as u8);
        out.push(((n / 0x100) % 0x100) as u8);
        out.push((n % 0x100) as u8);
    }
    assert(final(out)@ =~= old(out)@ + spec_len_bytes(n as int));
}

/// Append all of `b`.
pub(crate) fn push_bytes(out: &mut Vec<u8>, b: &[u8])
    ensures
        final(out)@ == old(out)@ + b@,
{
    let n: usize = b.len();
    let mut k: usize = 0;
    while k < n
        invariant
            n == b@.len(),
            k <= n,
            out@ == old(out)@ + b@.take(k as int),
        decreases n - k,
    {
        out.push(b[k]);
        proof {
            assert(old(out)@ + b@.take(k as int) + seq![b@[k as int]] =~= old(out)@ + b@.take(
                k as int + 1,
            ));
        }
        k = k + 1;
    }
    assert(b@.take(n as int) =~= b@);
}

/// Encode the unique-device-identifier extension value for the given
/// identifier bytes: `SEQUENCE { OCTET STRING ueid }` in DER.
pub fn ueid_extension_value(ueid: &[u8]) -> (r: Vec<u8>)
    requires
        ueid@.len() <= 0xFFFF00,
    ensures
        r@ == spec_ueid_ext_value(ueid@),
        spec_header(r@, 0) is Some,
{
    proof {
        lemma_tlv_parses_back(TAG_SEQUENCE, spec_tlv(TAG_OCTET_STRING, ueid@));
    }
    let l: usize = ueid.len();
    let mut inner: Vec<u8> = Vec::new();
    inner.push(TAG_OCTET_STRING);
    push_len(&mut inner, l);
    push_bytes(&mut inner, ueid);
    assert(inner@ =~= spec_tlv(TAG_OCTET_STRING, ueid@));
    let c: usize = inner.len();
    let mut out: Vec<u8> = Vec::new();
    out.push(TAG_SEQUENCE);
    push_len(&mut out, c);
    push_bytes(&mut out, inner.as_slice());
    assert(out@ =~= spec_tlv(TAG_SEQUENCE, inner@));
    out
}

/// `b` is shaped like an encoded SubjectPublicKeyInfo: a SEQUENCE filling
/// `b` exactly, holding an AlgorithmIdentifier (a SEQUENCE, not inspected
/// further) followed by the subjectPublicKey BIT STRING with zero unused
/// bits.
pub open spec fn spki_wf(b: Seq<u8>) -> bool {
    match spec_header(b, 0) {
        None => false,
        Some(outer) => {
            &&& b[0] == TAG_SEQUENCE
            &&& outer.0 + outer.1 == b.len()
            &&& match spec_header(b, outer.0) {
                None => false,
                Some(alg) => {
                    &&& b[outer.0] == TAG_SEQUENCE
                    &&& match spec_header(b, outer.0 + alg.0 + alg.1) {
                        None => false,
                        Some(bits) => {
                            &&& b[outer.0 + alg.0 + alg.1] == TAG_BIT_STRING
                            &&& bits.1 >= 1
                            &&& b[outer.0 + alg.0 + alg.1 + bits.0] == 0
                            &&& outer.0 + alg.0 + alg.1 + bits.0 + bits.1 == b.len()
                        },
                    }
                },
            }
        },
    }
}

/// The raw public-key bytes of a well-formed SubjectPublicKeyInfo: the BIT
/// STRING content after its unused-bits octet.
pub open spec fn spec_public_key_bits(b: Seq<u8>) -> Seq<u8>
    recommends
        spki_wf(b),
{
    let outer = spec_header(b, 0).unwrap();
    let alg = spec_header(b, outer.0).unwrap();
    let q = outer.0 + alg.0 + alg.1;
    let bits = spec_header(b, q).unwrap();
    b.subrange(q + bits.0 + 1, q + bits.0 + bits.1)
}

/// Extract the raw public-key bytes from an encoded SubjectPublicKeyInfo.
/// Fails exactly when the input is not shaped as `spki_wf` demands; a
/// failure means the signing backend handed back unusable key encoding.
pub fn extract_public_key_bits(spki_der: &[u8]) -> (r: Result<Vec<u8>, TemplateError>)
    ensures
        match r {
            Ok(k) => spki_wf(spki_der@) && k@ == spec_public_key_bits(spki_der@),
            Err(e) => e == TemplateError::EncodingError && !spki_wf(spki_der@),
        },
{
    let el: usize = spki_der.len();
    let outer = match parse_header(spki_der, 0) {
        None => {
            return Err(TemplateError::EncodingError);
        },
        Some(hc) => hc,
    };
    if spki_der[0] != TAG_SEQUENCE {
        return Err(TemplateError::EncodingError);
    }
    if !(outer.1 <= el && el - outer.1 == outer.0) {
        return Err(TemplateError::EncodingError);
    }
    let alg = match parse_header(spki_der, outer.0) {
        None => {
            return Err(TemplateError::EncodingError);
        },
        Some(hc) => hc,
    };
    if spki_der[outer.0] != TAG_SEQUENCE {
        return Err(TemplateError::EncodingError);
    }
    if !(alg.1 <= el - outer.0 && el - outer.0 - alg.1 >= alg.0) {
        return Err(TemplateError::EncodingError);
    }
    let q: usize = outer.0 + alg.0 + alg.1;
    let bits = match parse_header(spki_der, q) {
        None => {
            return Err(TemplateError::EncodingError);
        },
        Some(hc) => hc,
    };
    if spki_der[q] != TAG_BIT_STRING {
        return Err(TemplateError::EncodingError);
    }
    if !(bits.1 >= 1 && bits.1 <= el - q && el - q - bits.1 == bits.0) {
        return Err(TemplateError::EncodingError);
    }
    if spki_der[q + bits.0] != 0 {
        return Err(TemplateError::EncodingError);
    }
    Ok(copy_range(spki_der, q + bits.0 + 1, bits.1 - 1))
}

} // verus!
