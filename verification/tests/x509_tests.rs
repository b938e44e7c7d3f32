use dpe::dpe_instance::{TciMeasurement, TciNodeData};
use dpe::response::DpeErrorCode;
use dpe::x509::{EcdsaPub, EcdsaSignature, MeasurementData, Name, X509CertWriter};
use dpe::DPE_PROFILE;

use x509_parser::certificate::{TbsCertificateParser, X509CertificateParser};
use x509_parser::nom::Parser;
use x509_parser::objects::oid_registry;
use x509_parser::prelude::FromDer;
use x509_parser::x509::{SubjectPublicKeyInfo, X509Name, X509Version};

fn parse_tcb_info(
    data: &[u8],
) -> (
    Vec<(asn1::ObjectIdentifier, Vec<u8>)>,
    Option<Vec<u8>>,
    Option<Vec<u8>>,
) {
    asn1::parse::<_, asn1::ParseError, _>(data, |d| {
        d.read_element::<asn1::Sequence>()?.parse(|d| {
            let fwids: Option<asn1::Implicit<asn1::SequenceOf<asn1::Sequence>, 6>> =
                d.read_element()?;
            let vendor_info: Option<asn1::Implicit<&[u8], 8>> = d.read_element()?;
            let tci_type: Option<asn1::Implicit<&[u8], 9>> = d.read_element()?;

            let mut fwid_list = Vec::new();
            if let Some(fwids) = fwids {
                for fwid in fwids.into_inner() {
                    let (hash_alg, digest) = fwid.parse(|d| {
                        let hash_alg = d.read_element::<asn1::ObjectIdentifier>()?;
                        let digest = d.read_element::<&[u8]>()?;
                        Ok((hash_alg, digest.to_vec()))
                    })?;
                    fwid_list.push((hash_alg, digest));
                }
            }
            Ok((
                fwid_list,
                vendor_info.map(|v| v.into_inner().to_vec()),
                tci_type.map(|v| v.into_inner().to_vec()),
            ))
        })
    })
    .unwrap()
}

#[test]
fn test_integers() {
    let buffer_cases = [
        [0; 8],
        [0xFF, 0xFF, 0xFF, 0xFF, 0x00, 0x00, 0x00, 0x00],
        [0x01, 0x02, 0x03, 0x04, 0x00, 0x00, 0x00, 0x00],
        [0x00, 0x00, 0xFF, 0x04, 0x00, 0x00, 0x00, 0x00],
        [0x01, 0x02, 0x03, 0x04, 0x00, 0x00, 0x00, 0x00],
    ];

    for c in buffer_cases {
        let cert = vec![0u8; 128];
        let mut w = X509CertWriter::new(cert);
        let byte_count = w.encode_integer_bytes(&c).unwrap();
        let n = asn1::parse_single::<u64>(&w.certificate[..byte_count]).unwrap();
        assert_eq!(n, u64::from_be_bytes(c));
        assert_eq!(
            X509CertWriter::get_integer_bytes_size(&c, true).unwrap(),
            byte_count
        );
    }

    let integer_cases = [0xFFFFFFFF00000000u64, 0x0102030405060708, 0x2];

    for c in integer_cases {
        let cert = vec![0u8; 128];
        let mut w = X509CertWriter::new(cert);
        let byte_count = w.encode_integer(c).unwrap();
        let n = asn1::parse_single::<u64>(&w.certificate[..byte_count]).unwrap();
        assert_eq!(n, c);
        assert_eq!(
            X509CertWriter::get_integer_size(c, true).unwrap(),
            byte_count
        );
    }
}

#[test]
fn test_rdn() {
    let cert = vec![0u8; 128];
    let test_name = Name {
        cn: "Caliptra Alias".as_bytes().to_vec(),
        serial: "0x00000000".as_bytes().to_vec(),
    };

    let mut w = X509CertWriter::new(cert);
    let bytes_written = w.encode_rdn(&test_name).unwrap();

    let name = match X509Name::from_der(&w.certificate[..bytes_written]) {
        Ok((_rem, name)) => name,
        Err(e) => panic!("Name parsing failed: {:?}", e),
    };

    let expected = format!(
        "CN={} + serialNumber={}",
        "Caliptra Alias", "0x00000000"
    );
    let actual = name.to_string_with_registry(oid_registry()).unwrap();
    assert_eq!(expected, actual);

    assert_eq!(
        X509CertWriter::get_rdn_size(&test_name, true).unwrap(),
        bytes_written
    );
}

#[test]
fn test_subject_pubkey() {
    let cert = vec![0u8; 256];
    let test_key = EcdsaPub {
        x: vec![0; DPE_PROFILE.get_ecc_int_size()],
        y: vec![0; DPE_PROFILE.get_ecc_int_size()],
    };

    let mut w = X509CertWriter::new(cert);
    let bytes_written = w.encode_ecdsa_subject_pubkey_info(&test_key).unwrap();

    if let Err(e) = SubjectPublicKeyInfo::from_der(&w.certificate[..bytes_written]) {
        panic!("Subject pki parsing failed: {:?}", e);
    }

    assert_eq!(
        X509CertWriter::get_ecdsa_subject_pubkey_info_size(&test_key, true).unwrap(),
        bytes_written
    );
}

#[test]
fn test_tcb_info() {
    let mut node = TciNodeData::new();

    node.tci_type = 0x11223344;
    node.tci_cumulative = TciMeasurement(vec![0xaau8; DPE_PROFILE.get_hash_size()]);
    node.tci_current = TciMeasurement(vec![0xbbu8; DPE_PROFILE.get_hash_size()]);

    let cert = vec![0u8; 256];
    let mut w = X509CertWriter::new(cert);
    let bytes_written = w.encode_tcb_info(&node).unwrap();

    let (fwids, vendor_info, tci_type) = parse_tcb_info(&w.certificate[..bytes_written]);

    assert_eq!(
        bytes_written,
        X509CertWriter::get_tcb_info_size(&node, true).unwrap()
    );

    // FWIDs: current first, then cumulative.
    assert_eq!(fwids[0].1, node.tci_current.0);
    assert_eq!(fwids[1].1, node.tci_cumulative.0);

    assert_eq!(tci_type.unwrap(), node.tci_type.to_be_bytes());
    assert_eq!(vendor_info.unwrap(), b"USER");
}

#[test]
fn test_tbs() {
    let cert = vec![0u8; 4096];
    let mut w = X509CertWriter::new(cert);

    let test_serial = [0x1F; 20];
    let test_issuer_name = Name {
        cn: "Caliptra Alias".as_bytes().to_vec(),
        serial: "0x00000000".as_bytes().to_vec(),
    };

    let test_subject_name = Name {
        cn: "DPE Leaf".as_bytes().to_vec(),
        serial: "0x00000000".as_bytes().to_vec(),
    };

    let test_pub = EcdsaPub {
        x: vec![0xAA; DPE_PROFILE.get_ecc_int_size()],
        y: vec![0xBB; DPE_PROFILE.get_ecc_int_size()],
    };

    let node = TciNodeData::new();

    let measurements = MeasurementData {
        label: vec![0; DPE_PROFILE.get_hash_size()],
        tci_nodes: vec![node],
    };

    let bytes_written = w
        .encode_ecdsa_tbs(
            &test_serial,
            &test_issuer_name,
            &test_subject_name,
            &test_pub,
            &measurements,
        )
        .unwrap();

    let mut parser = TbsCertificateParser::new().with_deep_parse_extensions(false);
    match parser.parse(&w.certificate) {
        Ok((rem, parsed_cert)) => {
            assert_eq!(parsed_cert.version(), X509Version::V3);
            assert_eq!(rem.len(), w.certificate.len() - bytes_written);
        }
        Err(e) => panic!("x509 parsing failed: {:?}", e),
    };
}

#[test]
fn test_full_cert() {
    let cert = vec![0u8; 1024];
    let mut w = X509CertWriter::new(cert);

    let test_serial = [0x1F; 20];
    let test_issuer_name = Name {
        cn: "Caliptra Alias".as_bytes().to_vec(),
        serial: "0x00000000".as_bytes().to_vec(),
    };

    let test_subject_name = Name {
        cn: "DPE Leaf".as_bytes().to_vec(),
        serial: "0x00000000".as_bytes().to_vec(),
    };

    let test_pub = EcdsaPub {
        x: vec![0xAA; DPE_PROFILE.get_ecc_int_size()],
        y: vec![0xBB; DPE_PROFILE.get_ecc_int_size()],
    };
    let test_sig = EcdsaSignature {
        r: vec![0xCC; DPE_PROFILE.get_ecc_int_size()],
        s: vec![0xDD; DPE_PROFILE.get_ecc_int_size()],
    };

    let node = TciNodeData::new();

    let measurements = MeasurementData {
        label: vec![0; DPE_PROFILE.get_hash_size()],
        tci_nodes: vec![node],
    };

    let bytes_written = w
        .encode_ecdsa_certificate(
            &test_serial,
            &test_issuer_name,
            &test_subject_name,
            &test_pub,
            &measurements,
            &test_sig,
        )
        .unwrap();

    let mut parser = X509CertificateParser::new().with_deep_parse_extensions(false);
    match parser.parse(&w.certificate) {
        Ok((rem, parsed_cert)) => {
            assert_eq!(parsed_cert.version(), X509Version::V3);
            assert_eq!(rem.len(), w.certificate.len() - bytes_written);
        }
        Err(e) => panic!("x509 parsing failed: {:?}", e),
    };
}

#[test]
fn test_full_cert_extension() {
    // The certificate carries exactly one extension: critical
    // tcg-dice-MultiTcbInfo, OID 2.23.133.5.4.5.
    let cert = vec![0u8; 1024];
    let mut w = X509CertWriter::new(cert);

    let test_serial = [0x1F; 20];
    let test_issuer_name = Name {
        cn: "Caliptra Alias".as_bytes().to_vec(),
        serial: "0x00000000".as_bytes().to_vec(),
    };
    let test_subject_name = Name {
        cn: "DPE Leaf".as_bytes().to_vec(),
        serial: "0x00000000".as_bytes().to_vec(),
    };
    let test_pub = EcdsaPub {
        x: vec![0xAA; DPE_PROFILE.get_ecc_int_size()],
        y: vec![0xBB; DPE_PROFILE.get_ecc_int_size()],
    };
    let test_sig = EcdsaSignature {
        r: vec![0xCC; DPE_PROFILE.get_ecc_int_size()],
        s: vec![0xDD; DPE_PROFILE.get_ecc_int_size()],
    };
    let measurements = MeasurementData {
        label: vec![0; DPE_PROFILE.get_hash_size()],
        tci_nodes: vec![TciNodeData::new()],
    };

    let bytes_written = w
        .encode_ecdsa_certificate(
            &test_serial,
            &test_issuer_name,
            &test_subject_name,
            &test_pub,
            &measurements,
            &test_sig,
        )
        .unwrap();

    let mut parser = X509CertificateParser::new().with_deep_parse_extensions(false);
    let (_, parsed_cert) = parser.parse(&w.certificate[..bytes_written]).unwrap();
    assert_eq!(parsed_cert.version(), X509Version::V3);
    let extensions = parsed_cert.extensions();
    assert_eq!(extensions.len(), 1);
    assert!(extensions[0].critical);
    assert_eq!(extensions[0].oid.to_id_string(), "2.23.133.5.4.5");
}

#[test]
fn test_integer_canonical_form() {
    // A big-endian input with leading zeros and a set top bit: the leading
    // zeros are stripped and a single disambiguation zero is kept.
    let input = [0x00u8, 0x00, 0xFF, 0x04, 0x00, 0x00, 0x00, 0x00];
    let cert = vec![0u8; 32];
    let mut w = X509CertWriter::new(cert);
    let byte_count = w.encode_integer_bytes(&input).unwrap();
    assert_eq!(
        &w.certificate[..byte_count],
        &[0x02, 0x07, 0x00, 0xFF, 0x04, 0x00, 0x00, 0x00, 0x00]
    );
    let n = asn1::parse_single::<u64>(&w.certificate[..byte_count]).unwrap();
    assert_eq!(n, u64::from_be_bytes(input));
}

#[test]
fn test_empty_measurements() {
    // Encoding with zero TCI nodes fails with InternalError.
    let cert = vec![0u8; 1024];
    let mut w = X509CertWriter::new(cert);

    let test_serial = [0x1F; 20];
    let name = Name {
        cn: "Caliptra Alias".as_bytes().to_vec(),
        serial: "0x00000000".as_bytes().to_vec(),
    };
    let test_pub = EcdsaPub {
        x: vec![0xAA; DPE_PROFILE.get_ecc_int_size()],
        y: vec![0xBB; DPE_PROFILE.get_ecc_int_size()],
    };
    let test_sig = EcdsaSignature {
        r: vec![0xCC; DPE_PROFILE.get_ecc_int_size()],
        s: vec![0xDD; DPE_PROFILE.get_ecc_int_size()],
    };
    let measurements = MeasurementData {
        label: vec![0; DPE_PROFILE.get_hash_size()],
        tci_nodes: Vec::new(),
    };

    let r = w.encode_ecdsa_certificate(
        &test_serial,
        &name,
        &name,
        &test_pub,
        &measurements,
        &test_sig,
    );
    assert_eq!(r, Err(DpeErrorCode::InternalError));
}

#[test]
fn test_buffer_overflow() {
    // For any buffer strictly smaller than the required size, encoding
    // fails with BufferOverflow.
    let test_serial = [0x1F; 20];
    let name = Name {
        cn: "Caliptra Alias".as_bytes().to_vec(),
        serial: "0x00000000".as_bytes().to_vec(),
    };
    let test_pub = EcdsaPub {
        x: vec![0xAA; DPE_PROFILE.get_ecc_int_size()],
        y: vec![0xBB; DPE_PROFILE.get_ecc_int_size()],
    };
    let test_sig = EcdsaSignature {
        r: vec![0xCC; DPE_PROFILE.get_ecc_int_size()],
        s: vec![0xDD; DPE_PROFILE.get_ecc_int_size()],
    };
    let measurements = MeasurementData {
        label: vec![0; DPE_PROFILE.get_hash_size()],
        tci_nodes: vec![TciNodeData::new()],
    };

    let mut w = X509CertWriter::new(vec![0u8; 1024]);
    let required = w
        .encode_ecdsa_certificate(
            &test_serial,
            &name,
            &name,
            &test_pub,
            &measurements,
            &test_sig,
        )
        .unwrap();

    for small in [0, 1, required / 2, required - 1] {
        let mut w = X509CertWriter::new(vec![0u8; small]);
        let r = w.encode_ecdsa_certificate(
            &test_serial,
            &name,
            &name,
            &test_pub,
            &measurements,
            &test_sig,
        );
        assert_eq!(r, Err(DpeErrorCode::BufferOverflow));
    }
}

#[test]
fn test_determinism() {
    // Re-encoding the same inputs produces byte-identical output.
    let test_serial = [0x1F; 20];
    let issuer = Name {
        cn: "Caliptra Alias".as_bytes().to_vec(),
        serial: "0x00000000".as_bytes().to_vec(),
    };
    let subject = Name {
        cn: "DPE Leaf".as_bytes().to_vec(),
        serial: "0x00000000".as_bytes().to_vec(),
    };
    let test_pub = EcdsaPub {
        x: vec![0xAA; DPE_PROFILE.get_ecc_int_size()],
        y: vec![0xBB; DPE_PROFILE.get_ecc_int_size()],
    };
    let test_sig = EcdsaSignature {
        r: vec![0xCC; DPE_PROFILE.get_ecc_int_size()],
        s: vec![0xDD; DPE_PROFILE.get_ecc_int_size()],
    };
    let measurements = MeasurementData {
        label: vec![0; DPE_PROFILE.get_hash_size()],
        tci_nodes: vec![TciNodeData::new()],
    };

    let mut w1 = X509CertWriter::new(vec![0u8; 1024]);
    let n1 = w1
        .encode_ecdsa_certificate(
            &test_serial,
            &issuer,
            &subject,
            &test_pub,
            &measurements,
            &test_sig,
        )
        .unwrap();
    let mut w2 = X509CertWriter::new(vec![0xA5u8; 2048]);
    let n2 = w2
        .encode_ecdsa_certificate(
            &test_serial,
            &issuer,
            &subject,
            &test_pub,
            &measurements,
            &test_sig,
        )
        .unwrap();
    assert_eq!(n1, n2);
    assert_eq!(w1.certificate[..n1], w2.certificate[..n2]);
}

#[test]
fn test_size_emit_agreement() {
    // Every tagged size query equals the byte count its emitter writes.
    let test_sig = EcdsaSignature {
        r: vec![0xCC; DPE_PROFILE.get_ecc_int_size()],
        s: vec![0xDD; DPE_PROFILE.get_ecc_int_size()],
    };
    let measurements = MeasurementData {
        label: vec![0; DPE_PROFILE.get_hash_size()],
        tci_nodes: vec![TciNodeData::new(), TciNodeData::new(), TciNodeData::new()],
    };
    let digest = TciMeasurement(vec![0x5A; DPE_PROFILE.get_hash_size()]);

    let mut w = X509CertWriter::new(vec![0u8; 64]);
    assert_eq!(
        w.encode_ecc_alg_id().unwrap(),
        X509CertWriter::get_ecc_alg_id_size(true).unwrap()
    );

    let mut w = X509CertWriter::new(vec![0u8; 64]);
    assert_eq!(
        w.encode_validity().unwrap(),
        X509CertWriter::get_validity_size(true).unwrap()
    );

    let mut w = X509CertWriter::new(vec![0u8; 16]);
    assert_eq!(
        w.encode_version().unwrap(),
        X509CertWriter::get_version_size(true).unwrap()
    );

    let mut w = X509CertWriter::new(vec![0u8; 256]);
    assert_eq!(
        w.encode_ecdsa_signature(&test_sig).unwrap(),
        X509CertWriter::get_ecdsa_signature_size(&test_sig, true).unwrap()
    );

    let mut w = X509CertWriter::new(vec![0u8; 128]);
    assert_eq!(
        w.encode_fwid(&digest).unwrap(),
        X509CertWriter::get_fwid_size(&digest.0, true).unwrap()
    );

    let mut w = X509CertWriter::new(vec![0u8; 1024]);
    assert_eq!(
        w.encode_multi_tcb_info(&measurements).unwrap(),
        X509CertWriter::get_multi_tcb_info_size(&measurements, true).unwrap()
    );

    let mut w = X509CertWriter::new(vec![0u8; 1024]);
    assert_eq!(
        w.encode_extensions(&measurements).unwrap(),
        X509CertWriter::get_extensions_size(&measurements, true).unwrap()
    );

    let serial = [0x7Fu8; 20];
    let issuer = Name {
        cn: "Caliptra Alias".as_bytes().to_vec(),
        serial: "0x00000000".as_bytes().to_vec(),
    };
    let subject = Name {
        cn: "DPE Leaf".as_bytes().to_vec(),
        serial: "0x00000000".as_bytes().to_vec(),
    };
    let key = EcdsaPub {
        x: vec![0x11; DPE_PROFILE.get_ecc_int_size()],
        y: vec![0x22; DPE_PROFILE.get_ecc_int_size()],
    };
    let mut w = X509CertWriter::new(vec![0u8; 2048]);
    assert_eq!(
        w.encode_ecdsa_tbs(&serial, &issuer, &subject, &key, &measurements)
            .unwrap(),
        X509CertWriter::get_tbs_size(&serial, &issuer, &subject, &key, &measurements, true)
            .unwrap()
    );
}
