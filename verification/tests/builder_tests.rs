use tbs_template::csr::CsrTemplateBuilder;
use tbs_template::tbs::{TbsParam, TbsTemplate, TemplateError};
use x509_cert::ext::pkix::{KeyUsage, KeyUsages};

/// The encoded public-key size of ML-DSA-87.
const MLDSA87_PK_LEN: usize = 2592;

fn check_template(template: &TbsTemplate, ueid_len: usize) {
    let params = template.params();
    assert_eq!(params.len(), 3);
    assert_eq!(params[0].name, "UEID");
    assert_eq!(params[0].length, ueid_len);
    assert_eq!(params[1].name, "PUBLIC_KEY");
    assert_eq!(params[1].length, MLDSA87_PK_LEN);
    assert_eq!(params[2].name, "SUBJECT_SN");
    assert_eq!(params[2].length, 64);
    for p in params.iter() {
        assert!(p.offset + p.length <= template.bytes().len());
        for k in p.offset..p.offset + p.length {
            assert_eq!(template.bytes()[k], 0, "range of {} not zeroed", p.name);
        }
    }
    for i in 0..params.len() {
        for j in 0..params.len() {
            if i != j {
                let (a, b) = (&params[i], &params[j]);
                assert!(a.offset + a.length <= b.offset || b.offset + b.length <= a.offset);
            }
        }
    }
}

#[test]
fn test_gen_init_devid_csr_mldsa87() {
    let key_usage = KeyUsage(KeyUsages::KeyCertSign.into());

    let bldr = CsrTemplateBuilder::new()
        .add_ueid_ext(&[0xFF; 17])
        .add_basic_constraints_ext(true, 5)
        .add_key_usage_ext(key_usage);

    let template = bldr.tbs_template("Caliptra 2.0 MlDsa87 IDevID").unwrap();
    check_template(&template, 17);
}

#[test]
fn test_gen_fmc_alias_csr_mldsa87() {
    let key_usage = KeyUsage(KeyUsages::KeyCertSign.into());

    let bldr = CsrTemplateBuilder::new()
        .add_ueid_ext(&[0xFF; 17])
        .add_basic_constraints_ext(true, 5)
        .add_key_usage_ext(key_usage);

    let template = bldr.tbs_template("Caliptra 2.0 MlDsa87 FMC Alias").unwrap();
    check_template(&template, 17);
}

#[test]
fn end_to_end_unique_device_id_example() {
    // A unique-device-id field of 17 bytes all 0xFF, basic constraints
    // CA = true with path length 5, certificate-signing key usage: the
    // template carries a 17-byte UEID param, a public-key param of the
    // scheme's encoded key size, and a 64-byte hex SHA-256 serial number,
    // all zeroed in the buffer.
    let key_usage = KeyUsage(KeyUsages::KeyCertSign.into());
    let template = CsrTemplateBuilder::new()
        .add_ueid_ext(&[0xFF; 17])
        .add_basic_constraints_ext(true, 5)
        .add_key_usage_ext(key_usage)
        .tbs_template("Example Subject")
        .unwrap();
    check_template(&template, 17);
}

#[test]
fn structural_determinism_across_independent_builds() {
    // Two independent builds with identical configuration yield templates
    // of identical length and identical param lists, even though key and
    // signature bytes differ between the runs.
    let build = || {
        CsrTemplateBuilder::new()
            .add_ueid_ext(&[0xAB; 17])
            .add_basic_constraints_ext(true, 3)
            .add_key_usage_ext(KeyUsage(KeyUsages::KeyCertSign.into()))
            .tbs_template("Determinism Subject")
            .unwrap()
    };
    let t1 = build();
    let t2 = build();
    assert_eq!(t1.bytes().len(), t2.bytes().len());
    let p1: &Vec<TbsParam> = t1.params();
    let p2: &Vec<TbsParam> = t2.params();
    assert_eq!(p1, p2);
}

#[test]
fn builder_without_ueid_yields_two_params() {
    let template = CsrTemplateBuilder::new()
        .add_basic_constraints_ext(false, 0)
        .tbs_template("No Ueid Subject")
        .unwrap();
    let params = template.params();
    assert_eq!(params.len(), 2);
    assert_eq!(params[0].name, "PUBLIC_KEY");
    assert_eq!(params[1].name, "SUBJECT_SN");
}

#[test]
fn duplicate_role_is_configuration_error() {
    let r = CsrTemplateBuilder::new()
        .add_ueid_ext(&[0x01; 4])
        .add_ueid_ext(&[0x02; 4])
        .tbs_template("Duplicate Subject");
    assert_eq!(r.unwrap_err(), TemplateError::ConfigurationError);
}

#[test]
fn empty_ueid_is_configuration_error() {
    let r = CsrTemplateBuilder::new()
        .add_ueid_ext(&[])
        .tbs_template("Empty Ueid Subject");
    assert_eq!(r.unwrap_err(), TemplateError::ConfigurationError);
}

#[test]
fn template_frames_a_der_sequence() {
    // The template buffer is the complete encoding of the to-be-signed
    // SEQUENCE: tag, length, and exactly as much content.
    let template = CsrTemplateBuilder::new()
        .add_ueid_ext(&[0xFF; 17])
        .tbs_template("Frame Subject")
        .unwrap();
    let b = template.bytes();
    assert_eq!(b[0], 0x30);
    let content_len = match b[1] {
        l if l < 0x80 => (l as usize, 2),
        0x81 => (b[2] as usize, 3),
        0x82 => (((b[2] as usize) << 8) | b[3] as usize, 4),
        0x83 => (((b[2] as usize) << 16) | ((b[3] as usize) << 8) | b[4] as usize, 5),
        _ => panic!("unexpected length form"),
    };
    assert_eq!(content_len.1 + content_len.0, b.len());
}

#[test]
fn duplicate_basic_constraints_is_configuration_error() {
    let r = CsrTemplateBuilder::new()
        .add_basic_constraints_ext(true, 1)
        .add_basic_constraints_ext(false, 2)
        .tbs_template("Duplicate Basic Constraints");
    assert!(matches!(r, Err(TemplateError::ConfigurationError)));
}

#[test]
fn oversize_ueid_is_configuration_error() {
    let big = vec![0x55u8; 0xFFFF01];
    let r = CsrTemplateBuilder::new()
        .add_ueid_ext(&big)
        .tbs_template("Oversize Ueid Subject");
    assert!(matches!(r, Err(TemplateError::ConfigurationError)));
}

#[test]
fn subject_bytes_formats_cn_and_serial() {
    let r = tbs_template::csr::subject_bytes("Example Subject", b"00AB");
    assert_eq!(r, b"CN=Example Subject,serialNumber=00AB".to_vec());
}
