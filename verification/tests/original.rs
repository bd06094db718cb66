use lightning_invoice::{
    Currency, Description, PayeePubKey, PublicKey, RawDataPart, RawHrp, RawInvoice, Sha256,
    Signature, SignedRawInvoice, TaggedField,
};

fn payment_hash_bytes() -> [u8; 32] {
    [
        0x00u8, 0x01, 0x02, 0x03, 0x04, 0x05, 0x06, 0x07, 0x08, 0x09, 0x00, 0x01, 0x02, 0x03,
        0x04, 0x05, 0x06, 0x07, 0x08, 0x09, 0x00, 0x01, 0x02, 0x03, 0x04, 0x05, 0x06, 0x07,
        0x08, 0x09, 0x01, 0x02,
    ]
}

fn example_raw_invoice() -> RawInvoice {
    RawInvoice {
        hrp: RawHrp {
            currency: Currency::Bitcoin,
            raw_amount: None,
            si_prefix: None,
        },
        data: RawDataPart {
            timestamp: 1496314658,
            tagged_fields: vec![
                TaggedField::PaymentHash(Sha256(payment_hash_bytes())).into(),
                TaggedField::Description(
                    Description::new("Please consider supporting this project".to_owned())
                        .unwrap(),
                )
                .into(),
            ],
        },
    }
}

#[test]
fn test_calc_invoice_hash() {
    let invoice = example_raw_invoice();

    let expected_hash = [
        0xc3, 0xd4, 0xe8, 0x3f, 0x64, 0x6f, 0xa7, 0x9a, 0x39, 0x3d, 0x75, 0x27, 0x7b, 0x1d,
        0x85, 0x8d, 0xb1, 0xd1, 0xf7, 0xab, 0x71, 0x37, 0xdc, 0xb7, 0x83, 0x5d, 0xb2, 0xec,
        0xd5, 0x18, 0xe1, 0xc9,
    ];

    assert_eq!(invoice.hash(), expected_hash)
}

#[test]
fn test_check_signature() {
    let invoice = SignedRawInvoice {
        raw_invoice: example_raw_invoice(),
        hash: [
            0xc3, 0xd4, 0xe8, 0x3f, 0x64, 0x6f, 0xa7, 0x9a, 0x39, 0x3d, 0x75, 0x27, 0x7b, 0x1d,
            0x85, 0x8d, 0xb1, 0xd1, 0xf7, 0xab, 0x71, 0x37, 0xdc, 0xb7, 0x83, 0x5d, 0xb2, 0xec,
            0xd5, 0x18, 0xe1, 0xc9,
        ],
        signature: Signature {
            compact: [
                0x38u8, 0xec, 0x68, 0x91, 0x34, 0x5e, 0x20, 0x41, 0x45, 0xbe, 0x8a, 0x3a, 0x99,
                0xde, 0x38, 0xe9, 0x8a, 0x39, 0xd6, 0xa5, 0x69, 0x43, 0x4e, 0x18, 0x45, 0xc8,
                0xaf, 0x72, 0x05, 0xaf, 0xcf, 0xcc, 0x7f, 0x42, 0x5f, 0xcd, 0x14, 0x63, 0xe9,
                0x3c, 0x32, 0x88, 0x1e, 0xad, 0x0d, 0x6e, 0x35, 0x6d, 0x46, 0x7e, 0xc8, 0xc0,
                0x25, 0x53, 0xf9, 0xaa, 0xb1, 0x5e, 0x57, 0x38, 0xb1, 0x1f, 0x12, 0x7f,
            ],
            recovery_id: 0,
        },
    };

    assert!(invoice.check_signature());

    let private_key = secp256k1::SecretKey::from_byte_array([
        0xe1, 0x26, 0xf6, 0x8f, 0x7e, 0xaf, 0xcc, 0x8b, 0x74, 0xf5, 0x4d, 0x26, 0x9f, 0xe2, 0x06,
        0xbe, 0x71, 0x50, 0x00, 0xf9, 0x4d, 0xac, 0x06, 0x7d, 0x1c, 0x04, 0xa8, 0xca, 0x3b, 0x2d,
        0xb7, 0x34,
    ])
    .unwrap();
    let public_key = secp256k1::PublicKey::from_secret_key(&private_key);
    let public_key = PublicKey::from_slice(&public_key.serialize()).unwrap();

    assert_eq!(invoice.recover_payee_pub_key(), Ok(PayeePubKey(public_key)));
}
