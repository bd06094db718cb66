use lightning_invoice::constants::{
    TAG_DESCRIPTION, TAG_DESCRIPTION_HASH, TAG_EXPIRY_TIME, TAG_FALLBACK,
    TAG_MIN_FINAL_CLTV_EXPIRY, TAG_PAYEE_PUB_KEY, TAG_PAYMENT_HASH, TAG_ROUTE,
};
use lightning_invoice::{
    CreationError, Currency, Description, ExpiryTime, Fallback, Invoice, InvoiceDescription,
    MinFinalCltvExpiry, PayeePubKey, PublicKey, RawDataPart, RawHrp, RawInvoice, RawTaggedField,
    Route, RouteHop, Secp256k1Error, SemanticError, Sha256, SiPrefix, Signature,
    SignedRawInvoice, TaggedField, U5,
};

const PAYMENT_HASH: [u8; 32] = [
    0x00, 0x01, 0x02, 0x03, 0x04, 0x05, 0x06, 0x07, 0x08, 0x09, 0x00, 0x01, 0x02, 0x03, 0x04, 0x05,
    0x06, 0x07, 0x08, 0x09, 0x00, 0x01, 0x02, 0x03, 0x04, 0x05, 0x06, 0x07, 0x08, 0x09, 0x01, 0x02,
];

const NODE_KEY: [u8; 33] = [
    0x03, 0xe7, 0x15, 0x6a, 0xe3, 0x3b, 0x0a, 0x20, 0x8d, 0x07, 0x44, 0x19, 0x91, 0x63, 0x17, 0x7e,
    0x90, 0x9e, 0x80, 0x17, 0x6e, 0x55, 0xd9, 0x7a, 0x2f, 0x22, 0x1e, 0xde, 0x0f, 0x93, 0x4d, 0xd9,
    0xad,
];

const OTHER_KEY: [u8; 33] = [
    0x02, 0x9e, 0x03, 0xa9, 0x01, 0xb8, 0x55, 0x34, 0xff, 0x1e, 0x92, 0xc4, 0x3c, 0x74, 0x43, 0x1f,
    0x7c, 0xe7, 0x20, 0x46, 0x06, 0x0f, 0xcf, 0x7a, 0x95, 0xc3, 0x7e, 0x14, 0x8f, 0x78, 0xc7, 0x72,
    0x55,
];

const THIRD_KEY: [u8; 33] = [
    0x03, 0x9e, 0x03, 0xa9, 0x01, 0xb8, 0x55, 0x34, 0xff, 0x1e, 0x92, 0xc4, 0x3c, 0x74, 0x43, 0x1f,
    0x7c, 0xe7, 0x20, 0x46, 0x06, 0x0f, 0xcf, 0x7a, 0x95, 0xc3, 0x7e, 0x14, 0x8f, 0x78, 0xc7, 0x72,
    0x55,
];

const DONATION_HASH: [u8; 32] = [
    0xc3, 0xd4, 0xe8, 0x3f, 0x64, 0x6f, 0xa7, 0x9a, 0x39, 0x3d, 0x75, 0x27, 0x7b, 0x1d, 0x85, 0x8d,
    0xb1, 0xd1, 0xf7, 0xab, 0x71, 0x37, 0xdc, 0xb7, 0x83, 0x5d, 0xb2, 0xec, 0xd5, 0x18, 0xe1, 0xc9,
];

const DONATION_SIG: [u8; 64] = [
    0x38, 0xec, 0x68, 0x91, 0x34, 0x5e, 0x20, 0x41, 0x45, 0xbe, 0x8a, 0x3a, 0x99, 0xde, 0x38, 0xe9,
    0x8a, 0x39, 0xd6, 0xa5, 0x69, 0x43, 0x4e, 0x18, 0x45, 0xc8, 0xaf, 0x72, 0x05, 0xaf, 0xcf, 0xcc,
    0x7f, 0x42, 0x5f, 0xcd, 0x14, 0x63, 0xe9, 0x3c, 0x32, 0x88, 0x1e, 0xad, 0x0d, 0x6e, 0x35, 0x6d,
    0x46, 0x7e, 0xc8, 0xc0, 0x25, 0x53, 0xf9, 0xaa, 0xb1, 0x5e, 0x57, 0x38, 0xb1, 0x1f, 0x12, 0x7f,
];

fn key(bytes: &[u8]) -> PublicKey {
    PublicKey::from_slice(bytes).unwrap()
}

fn hrp(currency: Currency, raw_amount: Option<u64>, si_prefix: Option<SiPrefix>) -> RawHrp {
    RawHrp { currency, raw_amount, si_prefix }
}

fn description(s: &str) -> TaggedField {
    TaggedField::Description(Description::new(s.to_owned()).unwrap())
}

fn donation_fields() -> Vec<RawTaggedField> {
    vec![
        TaggedField::PaymentHash(Sha256(PAYMENT_HASH)).into(),
        description("Please consider supporting this project").into(),
    ]
}

fn signed(fields: Vec<RawTaggedField>, recovery_id: i32) -> SignedRawInvoice {
    SignedRawInvoice {
        raw_invoice: RawInvoice {
            hrp: hrp(Currency::Bitcoin, None, None),
            data: RawDataPart { timestamp: 1496314658, tagged_fields: fields },
        },
        hash: DONATION_HASH,
        signature: Signature { compact: DONATION_SIG, recovery_id },
    }
}

fn coffee_invoice() -> RawInvoice {
    RawInvoice {
        hrp: hrp(Currency::Bitcoin, Some(2500), Some(SiPrefix::Micro)),
        data: RawDataPart {
            timestamp: 1496314658,
            tagged_fields: vec![
                TaggedField::PaymentHash(Sha256(PAYMENT_HASH)).into(),
                description("1 cup coffee").into(),
                TaggedField::ExpiryTime(ExpiryTime { seconds: 60 }).into(),
            ],
        },
    }
}

const COFFEE_HASH: [u8; 32] = [
    0x3c, 0xd6, 0xef, 0x07, 0x74, 0x40, 0x40, 0x55, 0x6e, 0x01, 0xbe, 0x64, 0xf6, 0x8f, 0xd9, 0xe1,
    0x56, 0x5f, 0xb4, 0x7d, 0x78, 0xc4, 0x23, 0x08, 0xb1, 0xee, 0x00, 0x5a, 0xca, 0x5a, 0x0d, 0x86,
];

const COFFEE_SIG: [u8; 64] = [
    0xe8, 0x96, 0x39, 0xba, 0x68, 0x14, 0xe3, 0x66, 0x89, 0xd4, 0xb9, 0x1b, 0xf1, 0x25, 0xf1, 0x03,
    0x51, 0xb5, 0x5d, 0xa0, 0x57, 0xb0, 0x06, 0x47, 0xa8, 0xda, 0xba, 0xeb, 0x8a, 0x90, 0xc9, 0x5f,
    0x16, 0x0f, 0x9d, 0x5a, 0x6e, 0x0f, 0x79, 0xd1, 0xfc, 0x2b, 0x96, 0x42, 0x38, 0xb9, 0x44, 0xe2,
    0xfa, 0x4a, 0xa6, 0x77, 0xc6, 0xf0, 0x20, 0xd4, 0x66, 0x47, 0x2a, 0xb8, 0x42, 0xbd, 0x75, 0x0e,
];

fn hop(pubkey: [u8; 33], scid: [u8; 8], base: u32, prop: u32, cltv: u16) -> RouteHop {
    RouteHop {
        pubkey: key(&pubkey),
        short_channel_id: scid,
        fee_base_msat: base,
        fee_proportional_millionths: prop,
        cltv_expiry_delta: cltv,
    }
}

fn fallback_invoice() -> RawInvoice {
    let route = Route::new(vec![
        hop(OTHER_KEY, [1, 2, 3, 4, 5, 6, 7, 8], 1, 20, 3),
        hop(THIRD_KEY, [3, 4, 5, 6, 7, 8, 9, 10], 2, 30, 4),
    ])
    .unwrap();
    RawInvoice {
        hrp: hrp(Currency::Bitcoin, Some(20), Some(SiPrefix::Milli)),
        data: RawDataPart {
            timestamp: 1496314658,
            tagged_fields: vec![
                TaggedField::PaymentHash(Sha256(PAYMENT_HASH)).into(),
                TaggedField::DescriptionHash(Sha256([
                    0x39, 0x25, 0xb6, 0xf6, 0x7e, 0x2c, 0x34, 0x00, 0x36, 0xed, 0x12, 0x09, 0x3d,
                    0xd4, 0x4e, 0x03, 0x68, 0xdf, 0x1b, 0x6e, 0xa2, 0x6c, 0x53, 0xdb, 0xe4, 0x81,
                    0x1f, 0x58, 0xfd, 0x5d, 0xb8, 0xc1,
                ]))
                .into(),
                TaggedField::Fallback(Fallback::PubKeyHash([
                    0x04, 0xb6, 0x1f, 0x7d, 0xc1, 0xea, 0x0d, 0xc9, 0x94, 0x24, 0x46, 0x4c, 0xc4,
                    0x06, 0x4d, 0xc5, 0x64, 0xd9, 0x1e, 0x89,
                ]))
                .into(),
                TaggedField::Route(route).into(),
            ],
        },
    }
}

const FALLBACK_HASH: [u8; 32] = [
    0xff, 0x68, 0x24, 0x6c, 0x5a, 0xd4, 0xb4, 0x8c, 0x90, 0xcf, 0x8f, 0xf3, 0xb3, 0x3b, 0x5c, 0xea,
    0x61, 0xe6, 0x2f, 0x08, 0xd0, 0xe6, 0x79, 0x10, 0xff, 0xdc, 0xe1, 0xed, 0xec, 0xad, 0xe7, 0x1b,
];

const FALLBACK_SIG: [u8; 64] = [
    0x91, 0x67, 0x5c, 0xb3, 0xfa, 0xd8, 0xe9, 0xd9, 0x15, 0x34, 0x38, 0x83, 0xa4, 0x92, 0x42, 0xe0,
    0x74, 0x47, 0x4e, 0x26, 0xd4, 0x2c, 0x7e, 0xd9, 0x14, 0x65, 0x56, 0x89, 0xa8, 0x07, 0x45, 0x53,
    0x73, 0x3e, 0x8e, 0x4e, 0xa5, 0xce, 0x9b, 0x85, 0xf6, 0x9e, 0x40, 0xd7, 0x55, 0xa5, 0x50, 0x14,
    0x53, 0x6b, 0x12, 0x32, 0x3f, 0x8b, 0x22, 0x06, 0x00, 0xc9, 0x4e, 0xf2, 0xb9, 0xc5, 0x14, 0x28,
];

fn values(v: &[U5]) -> Vec<u8> {
    v.iter().map(|x| x.to_u8()).collect()
}

#[test]
fn hash_of_invoice_with_amount_and_expiry() {
    assert_eq!(coffee_invoice().hash(), COFFEE_HASH);
}

#[test]
fn hash_of_invoice_with_fallback_and_route() {
    assert_eq!(fallback_invoice().hash(), FALLBACK_HASH);
}

#[test]
fn hash_of_invoice_with_unknown_field_and_segwit_fallback() {
    let invoice = RawInvoice {
        hrp: hrp(Currency::BitcoinTestnet, Some(10), Some(SiPrefix::Pico)),
        data: RawDataPart {
            timestamp: 1,
            tagged_fields: vec![
                RawTaggedField::UnknownSemantics(vec![
                    U5::try_from_u8(1).unwrap(),
                    U5::try_from_u8(2).unwrap(),
                    U5::try_from_u8(3).unwrap(),
                ]),
                TaggedField::ExpiryTime(ExpiryTime { seconds: 3600 }).into(),
                TaggedField::MinFinalCltvExpiry(MinFinalCltvExpiry(9)).into(),
                TaggedField::Fallback(Fallback::SegWitProgram {
                    version: U5::try_from_u8(0).unwrap(),
                    program: vec![0x11; 20],
                })
                .into(),
                TaggedField::PayeePubKey(PayeePubKey(key(&NODE_KEY))).into(),
            ],
        },
    };
    let expected = [
        0x6a, 0xc5, 0x9d, 0x36, 0xaf, 0xef, 0xa9, 0xd4, 0xf4, 0xfa, 0x80, 0xc3, 0x86, 0x1a, 0xc3,
        0xec, 0x0b, 0x33, 0x0c, 0xca, 0xa0, 0x75, 0xb9, 0x1d, 0x01, 0xf9, 0x28, 0x72, 0xfa, 0x0a,
        0x83, 0xfc,
    ];
    assert_eq!(invoice.hash(), expected);
    let data = invoice.data.to_base32();
    assert_eq!(
        values(&data[..20]),
        vec![0, 0, 0, 0, 0, 0, 1, 1, 2, 3, 6, 0, 3, 3, 16, 16, 24, 0, 1, 9]
    );
}

#[test]
fn human_readable_part_bytes() {
    assert_eq!(hrp(Currency::Bitcoin, None, None).to_bytes(), b"lnbc".to_vec());
    assert_eq!(
        hrp(Currency::Bitcoin, Some(2500), Some(SiPrefix::Micro)).to_bytes(),
        b"lnbc2500u".to_vec()
    );
    assert_eq!(
        hrp(Currency::BitcoinTestnet, Some(0), Some(SiPrefix::Nano)).to_bytes(),
        b"lntb0n".to_vec()
    );
    assert_eq!(
        hrp(Currency::BitcoinTestnet, Some(u64::MAX), Some(SiPrefix::Pico)).to_bytes(),
        b"lntb18446744073709551615p".to_vec()
    );
    assert_eq!(hrp(Currency::Bitcoin, Some(20), Some(SiPrefix::Milli)).to_bytes(), b"lnbc20m".to_vec());
}

#[test]
fn timestamp_takes_seven_digits() {
    let data = RawDataPart { timestamp: 1496314658, tagged_fields: vec![] };
    assert_eq!(values(&data.to_base32()), vec![1, 12, 18, 31, 28, 25, 2]);
    let data = RawDataPart { timestamp: 0, tagged_fields: vec![] };
    assert_eq!(values(&data.to_base32()), vec![0; 7]);
    let data = RawDataPart { timestamp: 0x7_ffff_ffff, tagged_fields: vec![] };
    assert_eq!(values(&data.to_base32()), vec![31; 7]);
}

#[test]
fn tagged_field_length_prefix_counts_data() {
    let data = RawDataPart {
        timestamp: 0,
        tagged_fields: vec![TaggedField::PaymentHash(Sha256(PAYMENT_HASH)).into()],
    };
    let v = values(&data.to_base32());
    assert_eq!(v.len(), 7 + 3 + 52);
    assert_eq!(v[7], TAG_PAYMENT_HASH);
    assert_eq!(v[8] as usize * 32 + v[9] as usize, 52);
}

#[test]
fn coffee_signature_recovers_node_key() {
    let signed = SignedRawInvoice {
        raw_invoice: coffee_invoice(),
        hash: COFFEE_HASH,
        signature: Signature { compact: COFFEE_SIG, recovery_id: 1 },
    };
    assert!(signed.check_signature());
    assert_eq!(signed.recover_payee_pub_key(), Ok(PayeePubKey(key(&NODE_KEY))));
    let invoice = Invoice::from_signed(signed).unwrap();
    assert_eq!(invoice.expiry_time(), Some(&ExpiryTime { seconds: 60 }));
    match invoice.description() {
        InvoiceDescription::Direct(d) => assert_eq!(d.as_str(), "1 cup coffee"),
        InvoiceDescription::Hash(_) => panic!("expected a direct description"),
    }
}

#[test]
fn fallback_invoice_is_valid() {
    let signed = SignedRawInvoice {
        raw_invoice: fallback_invoice(),
        hash: FALLBACK_HASH,
        signature: Signature { compact: FALLBACK_SIG, recovery_id: 0 },
    };
    assert!(signed.check_signature());
    let invoice = Invoice::from_signed(signed).unwrap();
    assert_eq!(invoice.recover_payee_pub_key(), PayeePubKey(key(&NODE_KEY)));
    assert_eq!(invoice.payment_hash(), &Sha256(PAYMENT_HASH));
    match invoice.description() {
        InvoiceDescription::Hash(h) => assert_eq!(h.0[0], 0x39),
        InvoiceDescription::Direct(_) => panic!("expected a description hash"),
    }
    let fallbacks = invoice.fallbacks();
    assert_eq!(fallbacks.len(), 1);
    assert!(matches!(fallbacks[0], Fallback::PubKeyHash(h) if h[0] == 0x04));
    let routes = invoice.routes();
    assert_eq!(routes.len(), 1);
    assert_eq!(routes[0].len(), 2);
    assert_eq!(routes[0][1].fee_proportional_millionths, 30);
    assert_eq!(invoice.payee_pub_key(), None);
    assert_eq!(invoice.min_final_cltv_expiry(), None);
    assert_eq!(invoice.tagged_fields().len(), 4);
}

#[test]
fn donation_invoice_accessors() {
    let invoice = Invoice::from_signed(signed(donation_fields(), 0)).unwrap();
    assert_eq!(invoice.payment_hash(), &Sha256(PAYMENT_HASH));
    assert_eq!(invoice.expiry_time(), None);
    assert!(invoice.fallbacks().is_empty());
    assert!(invoice.routes().is_empty());
    assert_eq!(invoice.recover_payee_pub_key(), PayeePubKey(key(&NODE_KEY)));
}

#[test]
fn missing_payment_hash_is_refused() {
    let fields = vec![description("x").into()];
    assert_eq!(Invoice::from_signed(signed(fields, 0)).err(), Some(SemanticError::NoPaymentHash));
}

#[test]
fn two_payment_hashes_are_refused() {
    let mut fields = donation_fields();
    fields.push(TaggedField::PaymentHash(Sha256([7; 32])).into());
    assert_eq!(
        Invoice::from_signed(signed(fields, 0)).err(),
        Some(SemanticError::MultiplePaymentHashes)
    );
}

#[test]
fn missing_description_is_refused() {
    let fields = vec![TaggedField::PaymentHash(Sha256(PAYMENT_HASH)).into()];
    assert_eq!(Invoice::from_signed(signed(fields, 0)).err(), Some(SemanticError::NoDescription));
}

#[test]
fn description_and_description_hash_are_refused() {
    let mut fields = donation_fields();
    fields.push(TaggedField::DescriptionHash(Sha256([7; 32])).into());
    assert_eq!(
        Invoice::from_signed(signed(fields, 0)).err(),
        Some(SemanticError::MultipleDescriptions)
    );
}

#[test]
fn bad_recovery_id_is_refused() {
    let s = signed(donation_fields(), 4);
    assert_eq!(s.recover_payee_pub_key(), Err(Secp256k1Error::InvalidRecoveryId));
    assert!(!s.check_signature());
    assert_eq!(Invoice::from_signed(s).err(), Some(SemanticError::InvalidRecoveryId));
    let s = signed(donation_fields(), -1);
    assert_eq!(Invoice::from_signed(s).err(), Some(SemanticError::InvalidRecoveryId));
}

#[test]
fn signature_by_another_payee_is_refused() {
    let mut fields = donation_fields();
    fields.push(TaggedField::PayeePubKey(PayeePubKey(key(&OTHER_KEY))).into());
    let s = signed(fields, 0);
    assert!(!s.check_signature());
    assert_eq!(Invoice::from_signed(s).err(), Some(SemanticError::InvalidSignature));
}

#[test]
fn signature_by_the_included_payee_is_accepted() {
    let mut fields = donation_fields();
    fields.push(TaggedField::PayeePubKey(PayeePubKey(key(&NODE_KEY))).into());
    let s = signed(fields, 0);
    assert!(s.check_signature());
    let invoice = Invoice::from_signed(s).unwrap();
    assert_eq!(invoice.payee_pub_key(), Some(&PayeePubKey(key(&NODE_KEY))));
}

#[test]
fn unrecoverable_signature_is_left_to_the_checked_constructor() {
    let mut s = signed(donation_fields(), 0);
    s.signature.compact = [0; 64];
    assert_eq!(s.recover_payee_pub_key(), Err(Secp256k1Error::InvalidSignature));
    assert!(!s.check_signature());
    assert!(Invoice::from_signed_checked(s).is_none());

    let mut s = signed(vec![description("x").into()], 0);
    s.signature.compact = [0; 64];
    assert_eq!(
        Invoice::from_signed_checked(s).map(|r| r.err()),
        Some(Some(SemanticError::NoPaymentHash))
    );

    let s = signed(donation_fields(), 0);
    assert!(matches!(Invoice::from_signed_checked(s), Some(Ok(_))));
}

#[test]
fn accessors_take_the_first_known_field() {
    let raw = RawInvoice {
        hrp: hrp(Currency::Bitcoin, None, None),
        data: RawDataPart {
            timestamp: 1,
            tagged_fields: vec![
                RawTaggedField::UnknownSemantics(vec![U5::try_from_u8(31).unwrap()]),
                TaggedField::ExpiryTime(ExpiryTime { seconds: 10 }).into(),
                TaggedField::MinFinalCltvExpiry(MinFinalCltvExpiry(5)).into(),
                TaggedField::ExpiryTime(ExpiryTime { seconds: 20 }).into(),
                TaggedField::Fallback(Fallback::ScriptHash([1; 20])).into(),
                TaggedField::Fallback(Fallback::PubKeyHash([2; 20])).into(),
            ],
        },
    };
    assert_eq!(raw.known_tagged_fields().len(), 5);
    assert_eq!(raw.expiry_time(), Some(&ExpiryTime { seconds: 10 }));
    assert_eq!(raw.min_final_cltv_expiry(), Some(&MinFinalCltvExpiry(5)));
    assert_eq!(raw.payment_hash(), None);
    assert_eq!(raw.description(), None);
    assert_eq!(raw.description_hash(), None);
    assert_eq!(raw.payee_pub_key(), None);
    assert_eq!(
        raw.fallbacks(),
        vec![&Fallback::ScriptHash([1; 20]), &Fallback::PubKeyHash([2; 20])]
    );
    assert!(raw.routes().is_empty());
}

#[test]
fn description_length_limit() {
    let ok = "a".repeat(639);
    let d = Description::new(ok.clone()).unwrap();
    assert_eq!(&*d, ok.as_str());
    assert_eq!(d.into_inner(), ok);
    assert_eq!(Description::new("a".repeat(640)), Err(CreationError::DescriptionTooLong));
    assert_eq!(Description::new("é".repeat(320)), Err(CreationError::DescriptionTooLong));
    let mixed = format!("{}a", "é".repeat(319));
    let d = Description::new(mixed.clone()).unwrap();
    assert_eq!(String::from(d), mixed);
}

#[test]
fn route_length_limit() {
    let h = hop(OTHER_KEY, [0; 8], 0, 0, 0);
    let hops = vec![h; 12];
    let route = Route::new(hops.clone()).unwrap();
    assert_eq!(route.hops(), &hops);
    assert_eq!(Vec::<RouteHop>::from(route), hops);
    assert_eq!(Route::new(vec![h; 13]), Err(CreationError::RouteTooLong));
}

#[test]
fn u5_range() {
    assert_eq!(U5::try_from_u8(31).map(|v| v.to_u8()), Some(31));
    assert_eq!(U5::try_from_u8(32), None);
    assert_eq!(U5::try_from_u8(255), None);
}

#[test]
fn tags_of_known_fields() {
    let r = Route::new(vec![]).unwrap();
    let fields = vec![
        (TaggedField::PaymentHash(Sha256([0; 32])), TAG_PAYMENT_HASH, 1),
        (description("d"), TAG_DESCRIPTION, 13),
        (TaggedField::PayeePubKey(PayeePubKey(key(&NODE_KEY))), TAG_PAYEE_PUB_KEY, 19),
        (TaggedField::DescriptionHash(Sha256([0; 32])), TAG_DESCRIPTION_HASH, 23),
        (TaggedField::ExpiryTime(ExpiryTime { seconds: 1 }), TAG_EXPIRY_TIME, 6),
        (TaggedField::MinFinalCltvExpiry(MinFinalCltvExpiry(1)), TAG_MIN_FINAL_CLTV_EXPIRY, 24),
        (TaggedField::Fallback(Fallback::ScriptHash([0; 20])), TAG_FALLBACK, 9),
        (TaggedField::Route(r), TAG_ROUTE, 3),
    ];
    for (tf, tag, value) in fields {
        assert_eq!(tf.tag().to_u8(), tag);
        assert_eq!(tag, value);
    }
}

#[test]
fn public_key_parsing() {
    let sk = secp256k1::SecretKey::from_byte_array([
        0xe1, 0x26, 0xf6, 0x8f, 0x7e, 0xaf, 0xcc, 0x8b, 0x74, 0xf5, 0x4d, 0x26, 0x9f, 0xe2, 0x06,
        0xbe, 0x71, 0x50, 0x00, 0xf9, 0x4d, 0xac, 0x06, 0x7d, 0x1c, 0x04, 0xa8, 0xca, 0x3b, 0x2d,
        0xb7, 0x34,
    ])
    .unwrap();
    let uncompressed = secp256k1::PublicKey::from_secret_key(&sk).serialize_uncompressed();
    assert_eq!(PublicKey::from_slice(&uncompressed).unwrap().serialize(), NODE_KEY);
    assert_eq!(PublicKey::from_slice(&NODE_KEY).unwrap().serialize(), NODE_KEY);
    assert_eq!(PublicKey::from_slice(&[2; 10]), Err(Secp256k1Error::InvalidPublicKey));
    let mut bad = NODE_KEY;
    bad[0] = 0x05;
    assert_eq!(PublicKey::from_slice(&bad), Err(Secp256k1Error::InvalidPublicKey));
    assert_eq!(*PayeePubKey::from(key(&NODE_KEY)), key(&NODE_KEY));
}

#[test]
fn signed_invoice_parts() {
    let s = signed(donation_fields(), 0);
    assert_eq!(s.hash(), &DONATION_HASH);
    assert_eq!(s.signature().recovery_id, 0);
    assert_eq!(s.raw_invoice().data.timestamp, 1496314658);
    assert_eq!(s.payment_hash(), Some(&Sha256(PAYMENT_HASH)));
    let (raw, hash, sig) = s.into_parts();
    assert_eq!(raw, RawInvoice {
        hrp: hrp(Currency::Bitcoin, None, None),
        data: RawDataPart { timestamp: 1496314658, tagged_fields: donation_fields() },
    });
    assert_eq!(hash, DONATION_HASH);
    assert_eq!(sig.compact, DONATION_SIG);
}

#[test]
fn trailing_zero_value_that_adds_no_byte_keeps_the_hash() {
    let mut invoice = coffee_invoice();
    invoice
        .data
        .tagged_fields
        .push(RawTaggedField::UnknownSemantics(vec![U5::try_from_u8(0).unwrap()]));
    assert_eq!(invoice.hash(), COFFEE_HASH);
    invoice
        .data
        .tagged_fields
        .push(RawTaggedField::UnknownSemantics(vec![U5::try_from_u8(0).unwrap()]));
    assert_ne!(invoice.hash(), COFFEE_HASH);
}

#[test]
fn unknown_fields_do_not_change_checks() {
    let mut fields = donation_fields();
    fields.insert(1, RawTaggedField::UnknownSemantics(vec![U5::try_from_u8(13).unwrap()]));
    assert!(Invoice::from_signed(signed(fields, 0)).is_ok());
    let fields = vec![
        RawTaggedField::UnknownSemantics(vec![U5::try_from_u8(1).unwrap()]),
        description("x").into(),
    ];
    assert_eq!(Invoice::from_signed(signed(fields, 0)).err(), Some(SemanticError::NoPaymentHash));
}

#[test]
fn conversions_keep_contents() {
    let d = Description::new("abc".to_owned()).unwrap();
    let s: String = d.into();
    assert_eq!(s, "abc");
    let hops = vec![hop(OTHER_KEY, [1; 8], 1, 2, 3)];
    let r = Route::new(hops.clone()).unwrap();
    let v: Vec<RouteHop> = r.into();
    assert_eq!(v, hops);
}
