use rcodex::device_key::p256_x963_to_spki_der;

#[test]
fn wraps_an_uncompressed_p256_point_as_spki_der() {
    let mut point = vec![0x04];
    point.extend(1_u8..=64);

    let spki = p256_x963_to_spki_der(&point).unwrap();

    assert_eq!(spki.len(), 91);
    assert_eq!(
        &spki[..26],
        &[
            0x30, 0x59, 0x30, 0x13, 0x06, 0x07, 0x2a, 0x86, 0x48, 0xce, 0x3d, 0x02, 0x01, 0x06,
            0x08, 0x2a, 0x86, 0x48, 0xce, 0x3d, 0x03, 0x01, 0x07, 0x03, 0x42, 0x00,
        ]
    );
    assert_eq!(&spki[26..], point);
}

#[test]
fn rejects_non_p256_public_key_material() {
    assert!(p256_x963_to_spki_der(&[0x04; 64]).is_err());
    assert!(p256_x963_to_spki_der(&[0x03; 65]).is_err());
}
