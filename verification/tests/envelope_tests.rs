use tbs_template::envelope::{
    extract_public_key_bits, extract_signed_payload, ueid_extension_value,
};
use tbs_template::tbs::TemplateError;

/// A hand-built signed envelope: outer SEQUENCE holding a to-be-signed
/// SEQUENCE followed by trailing bytes standing for the signature parts.
fn sample_envelope() -> (Vec<u8>, Vec<u8>) {
    let tbs = vec![0x30u8, 0x03, 0xAA, 0xBB, 0xCC];
    let mut encoded = vec![0x30u8, 0x08];
    encoded.extend_from_slice(&tbs);
    encoded.extend_from_slice(&[0x05, 0x00, 0x99]);
    (encoded, tbs)
}

#[test]
fn extract_returns_exactly_the_tbs_region() {
    let (encoded, tbs) = sample_envelope();
    assert_eq!(extract_signed_payload(&encoded).unwrap(), tbs);
}

#[test]
fn extract_handles_long_form_lengths() {
    // Outer SEQUENCE and inner TBS SEQUENCE both with two-byte (0x82)
    // lengths.
    let inner_content = vec![0x77u8; 0x150];
    let mut tbs = vec![0x30u8, 0x82, 0x01, 0x50];
    tbs.extend_from_slice(&inner_content);
    let trailer = vec![0x05u8, 0x00];
    let outer_len = tbs.len() + trailer.len();
    assert!(outer_len > 0xFF && outer_len < 0x10000);
    let mut encoded = vec![0x30u8, 0x82, (outer_len >> 8) as u8, (outer_len & 0xFF) as u8];
    encoded.extend_from_slice(&tbs);
    encoded.extend_from_slice(&trailer);
    assert_eq!(extract_signed_payload(&encoded).unwrap(), tbs);
}

#[test]
fn extract_rejects_short_input() {
    assert_eq!(
        extract_signed_payload(&[]).unwrap_err(),
        TemplateError::EnvelopeStructureError
    );
    assert_eq!(
        extract_signed_payload(&[0x30]).unwrap_err(),
        TemplateError::EnvelopeStructureError
    );
}

#[test]
fn extract_rejects_wrong_outer_tag() {
    let (mut encoded, _) = sample_envelope();
    encoded[0] = 0x31;
    assert_eq!(
        extract_signed_payload(&encoded).unwrap_err(),
        TemplateError::EnvelopeStructureError
    );
}

#[test]
fn extract_rejects_wrong_outer_length() {
    let (mut encoded, _) = sample_envelope();
    encoded[1] = 0x07;
    assert_eq!(
        extract_signed_payload(&encoded).unwrap_err(),
        TemplateError::EnvelopeStructureError
    );
}

#[test]
fn extract_rejects_non_sequence_tbs() {
    let (mut encoded, _) = sample_envelope();
    encoded[2] = 0x04;
    assert_eq!(
        extract_signed_payload(&encoded).unwrap_err(),
        TemplateError::EnvelopeStructureError
    );
}

#[test]
fn public_key_bits_from_sample_spki() {
    // SEQUENCE { SEQUENCE { OID 1.2 }, BIT STRING 00 AA BB CC }
    let spki = vec![
        0x30u8, 0x0B, 0x30, 0x03, 0x06, 0x01, 0x2A, 0x03, 0x04, 0x00, 0xAA, 0xBB, 0xCC,
    ];
    assert_eq!(extract_public_key_bits(&spki).unwrap(), vec![0xAAu8, 0xBB, 0xCC]);
}

#[test]
fn public_key_bits_reject_nonzero_unused_bits() {
    let spki = vec![
        0x30u8, 0x0B, 0x30, 0x03, 0x06, 0x01, 0x2A, 0x03, 0x04, 0x03, 0xAA, 0xBB, 0xCC,
    ];
    assert_eq!(
        extract_public_key_bits(&spki).unwrap_err(),
        TemplateError::EncodingError
    );
}

#[test]
fn public_key_bits_reject_trailing_garbage() {
    let spki = vec![
        0x30u8, 0x0B, 0x30, 0x03, 0x06, 0x01, 0x2A, 0x03, 0x04, 0x00, 0xAA, 0xBB, 0xCC, 0xFF,
    ];
    assert_eq!(
        extract_public_key_bits(&spki).unwrap_err(),
        TemplateError::EncodingError
    );
}

#[test]
fn ueid_extension_value_is_nested_der() {
    let ueid = vec![0xFFu8; 17];
    let mut expected = vec![0x30u8, 0x13, 0x04, 0x11];
    expected.extend_from_slice(&ueid);
    assert_eq!(ueid_extension_value(&ueid), expected);
}

#[test]
fn ueid_extension_value_long_form() {
    let ueid = vec![0x01u8; 0x80];
    let mut expected = vec![0x30u8, 0x81, 0x83, 0x04, 0x81, 0x80];
    expected.extend_from_slice(&ueid);
    assert_eq!(ueid_extension_value(&ueid), expected);
}
