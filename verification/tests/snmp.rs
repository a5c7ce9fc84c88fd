use projektil_control::snmp;

const SYS_NAME: [u32; 9] = [1, 3, 6, 1, 2, 1, 1, 5, 0];

#[test]
fn lengths_are_read() {
    assert_eq!(snmp::decode_asn1_length(&[0x05], 0), Some((5, 1)));
    assert_eq!(snmp::decode_asn1_length(&[0x82, 0x01, 0x02], 0), Some((258, 3)));
    assert_eq!(snmp::decode_asn1_length(&[0x80], 0), None);
    assert_eq!(snmp::decode_asn1_length(&[0x85, 0, 0, 0, 0, 0], 0), None);
    assert_eq!(snmp::decode_asn1_length(&[0x82, 0x01], 0), None);
    assert_eq!(snmp::decode_asn1_length(&[], 0), None);
}

#[test]
fn lengths_read_back() {
    for n in [0usize, 1, 127, 128, 255] {
        let bytes = snmp::encode_length(n);
        assert_eq!(snmp::decode_asn1_length(&bytes, 0), Some((n, bytes.len())));
    }
    assert_eq!(snmp::encode_length(256), vec![0x81, 0]);
}

#[test]
fn values_read_back() {
    let oid = [0x06, 0x03, 0x2b, 0x06, 0x01];
    let with = |v: &[u8]| {
        let mut d = oid.to_vec();
        d.extend_from_slice(v);
        d
    };
    assert_eq!(snmp::extract_snmp_value(&with(&[0x02, 0x01, 0xff])), Some(-1));
    assert_eq!(snmp::extract_snmp_value(&with(&[0x02, 0x02, 0x01, 0x00])), Some(256));
    assert_eq!(snmp::extract_snmp_value(&with(&[0x43, 0x01, 0xff])), Some(255));
    assert_eq!(snmp::extract_snmp_value(&with(&[0x41, 0x04, 0xff, 0xff, 0xff, 0xff])), Some(4294967295));
    assert_eq!(snmp::extract_snmp_value(&with(&[0x04, 0x01, 0x41])), None);
    assert_eq!(snmp::extract_snmp_value(&with(&[0x02, 0x00])), None);
    assert_eq!(snmp::extract_snmp_value(&with(&[0x02, 0x02, 0x01])), None);
    assert_eq!(snmp::extract_snmp_value(&[]), None);
    assert_eq!(snmp::snmp_value_field(&with(&[0x02, 0x01, 0x07])), Some((0x02, vec![7])));
    assert_eq!(snmp::snmp_number(0x02, &vec![0x80, 0x00]), -32768);
}

#[test]
fn texts_lose_padding() {
    let d = [0x06, 0x01, 0x2b, 0x04, 0x05, 0x00, b' ', b'N', b'A', 0x00];
    assert_eq!(snmp::extract_snmp_octet_string(&d), Some("NA".to_string()));
    assert_eq!(snmp::extract_snmp_octet_string(&[0x06, 0x01, 0x2b, 0x04, 0x01, 0xff]), Some("\u{fffd}".to_string()));
    assert_eq!(snmp::extract_snmp_octet_string(&[0x06, 0x01, 0x2b, 0x02, 0x01, 0x07]), None);
    assert_eq!(snmp::strip_octets("\0 x \0"), "x");
}

#[test]
fn blank_texts_give_way_to_numbers() {
    assert_eq!(snmp::snmp_text(&[0x06, 0x01, 0x2b, 0x02, 0x01, 0xfe]), Some("-2".to_string()));
    assert_eq!(snmp::snmp_text(&[0x06, 0x01, 0x2b, 0x04, 0x01, b'x']), Some("x".to_string()));
    assert_eq!(snmp::snmp_text(&[0x06, 0x01, 0x2b, 0x04, 0x01, b' ']), None);
}

#[test]
fn identifiers_are_encoded() {
    assert_eq!(snmp::encode_oid(&[1, 3, 6, 1]), vec![0x2b, 0x06, 0x01]);
    assert_eq!(snmp::encode_oid(&[1, 3, 318]), vec![0x2b, 0x82, 0x3e]);
    assert_eq!(snmp::encode_oid(&[1, 3, 48690]), vec![0x2b, 0x82, 0xfc, 0x32]);
    assert_eq!(snmp::oid_to_string(&SYS_NAME), "1.3.6.1.2.1.1.5.0");
    assert_eq!(snmp::bytes_to_hex_string(&[0x0a, 0xff]), "0A FF");
    assert_eq!(snmp::bytes_to_hex_string(&[]), "");
}

#[test]
fn requests_are_framed() {
    let packet = snmp::snmp_get_packet("public", &SYS_NAME);
    assert_eq!(
        packet,
        vec![
            0x30, 0x26, 0x02, 0x01, 0x00, 0x04, 0x06, b'p', b'u', b'b', b'l', b'i', b'c', 0xa0, 0x19, 0x02, 0x01, 0x01,
            0x02, 0x01, 0x00, 0x02, 0x01, 0x00, 0x30, 0x0e, 0x30, 0x0c, 0x06, 0x08, 0x2b, 0x06, 0x01, 0x02, 0x01, 0x01,
            0x05, 0x00, 0x05, 0x00
        ]
    );
    assert_eq!(snmp::snmp_request("public", &SYS_NAME), Ok(packet));
}

#[test]
fn only_listed_identifiers_are_asked() {
    assert_eq!(snmp::validate_snmp_oid(&SYS_NAME), Ok(()));
    assert_eq!(snmp::validate_snmp_oid(&[]), Err("SNMP OID cannot be empty".to_string()));
    assert_eq!(
        snmp::validate_snmp_oid(&[1u32; 129]),
        Err("SNMP OID too long: 129 components (max 128)".to_string())
    );
    assert_eq!(snmp::validate_snmp_oid(&[3, 1]), Err("Invalid OID root: 3 (must be 0, 1, or 2)".to_string()));
    assert_eq!(snmp::validate_snmp_oid(&[1, 3, 6]), Err("SNMP OID not whitelisted: 1.3.6".to_string()));
    assert_eq!(
        snmp::snmp_request("public", &[1, 3, 6, 1, 4, 1, 9]),
        Err("SNMP OID not whitelisted: 1.3.6.1.4.1.9".to_string())
    );
    assert!(snmp::snmp_request("c", &[1, 3, 6, 1, 4, 1, 6574, 1, 1, 0]).is_ok());
}

#[test]
fn lengths_read_back_at_any_place() {
    for n in [0usize, 127, 128, 255] {
        let length = snmp::encode_length(n);
        let mut data = vec![0x30, 0x81, 0x06];
        data.extend_from_slice(&length);
        data.push(9);
        assert_eq!(snmp::decode_asn1_length(&data, 3), Some((n, length.len())));
    }
}

#[test]
fn identifiers_read_back() {
    for oid in [vec![1u32, 3, 6, 1, 4, 1, 48690, 2, 2, 1, 12, 1], vec![2, 100, 2097151, 16383, 16384, 0], vec![0, 39]] {
        let bytes = snmp::encode_oid(&oid);
        let first = if bytes[0] < 80 { bytes[0] as u32 / 40 } else { 2 };
        let mut read = vec![first, bytes[0] as u32 - 40 * first];
        let mut part = 0u32;
        for b in &bytes[1..] {
            part = part * 128 + (*b as u32 & 127);
            if *b < 128 {
                read.push(part);
                part = 0;
            }
        }
        assert_eq!(read, oid);
    }
}
