use vstd::prelude::*;

use crate::external::{parse_public_key, parse_public_key_bytes};
use crate::u5::U5;

verus! {

/// Errors that may occur when constructing a new `RawInvoice` or `Invoice`.
#[derive(PartialEq, Eq, Debug, Clone, Copy, Structural)]
pub enum CreationError {
    /// The supplied description string was longer than 639 bytes.
    DescriptionTooLong,
    /// The specified route has too many hops and can't be encoded.
    RouteTooLong,
}

/// Longest description, in UTF-8 bytes, that fits in one tagged field.
pub const MAX_DESCRIPTION_BYTES: usize = 639;

/// Description string; at most 639 bytes in UTF-8.
#[derive(PartialEq, Eq, Debug)]
pub struct Description(String);

impl View for Description {
    type V = Seq<char>;

    closed spec fn view(&self) -> Seq<char> {
        self.0@
    }
}

/// The UTF-8 encoding of a string.
pub open spec fn utf8_bytes(s: Seq<char>) -> Seq<u8> {
    vstd::utf8::encode_utf8(s)
}

impl Description {
    #[verifier::type_invariant]
    spec fn fits(self) -> bool {
        utf8_bytes(self.0@).len() <= MAX_DESCRIPTION_BYTES
    }

    /// Creates a new `Description` if `description` is at most 639 bytes long in UTF-8,
    /// returns `CreationError::DescriptionTooLong` otherwise.
    pub fn new(description: String) -> (res: Result<Description, CreationError>)
        ensures
            utf8_bytes(description@).len() <= MAX_DESCRIPTION_BYTES ==> (res matches Ok(d) && d@
                == description@),
            utf8_bytes(description@).len() > MAX_DESCRIPTION_BYTES ==> res == Err::<
                Description,
                CreationError,
            >(CreationError::DescriptionTooLong),
    {
        let len = description.as_str().as_bytes().len();
        if len > MAX_DESCRIPTION_BYTES {
            Err(CreationError::DescriptionTooLong)
        } else {
            Ok(Description(description))
        }
    }

    /// The description string.
    pub fn into_inner(self) -> (res: String)
        ensures
            res@ == self@,
    {
        self.0
    }
}

} // verus!

verus! {

/// Represents a semantically correct lightning BOLT11 invoice: a signed raw invoice that
/// passed the checks of `Invoice::from_signed`.
pub struct Invoice {
    pub(crate) signed_invoice: SignedRawInvoice,
}

/// The description of an `Invoice`: either given directly or as a hash.
pub enum InvoiceDescription<'f> {
    Direct(&'f Description),
    Hash(&'f Sha256),
}

/// Represents a signed `RawInvoice` with cached hash.
///
/// The hash is meant to be the hash of the encoded form the invoice was read from, or the
/// hash computed from `raw_invoice` (`RawInvoice::hash`); nothing here checks that it is.
#[derive(PartialEq, Eq, Debug)]
pub struct SignedRawInvoice {
    /// The raw invoice that the signature belongs to
    pub raw_invoice: RawInvoice,
    /// Hash that the signature is checked against; set by whoever builds the value.
    pub hash: [u8; 32],
    /// Signature of the payment request
    pub signature: Signature,
}

/// Represents a syntactically correct invoice for a payment on the lightning network as
/// defined in BOLT #11, but without the signature information.
#[derive(PartialEq, Eq, Debug)]
pub struct RawInvoice {
    /// human readable part
    pub hrp: RawHrp,
    /// data part
    pub data: RawDataPart,
}

/// Data of the `RawInvoice` that is encoded in the human readable part.
#[derive(PartialEq, Eq, Debug)]
pub struct RawHrp {
    /// The currency deferred from the 3rd and 4th character of the bech32 transaction
    pub currency: Currency,
    /// The amount that, multiplied by the SI prefix, has to be payed
    pub raw_amount: Option<u64>,
    /// SI prefix that gets multiplied with the `raw_amount`
    pub si_prefix: Option<SiPrefix>,
}

/// Data of the `RawInvoice` that is encoded in the data part.
#[derive(PartialEq, Eq, Debug)]
pub struct RawDataPart {
    /// generation time of the invoice as UNIX timestamp
    pub timestamp: u64,
    /// tagged fields of the payment request
    pub tagged_fields: Vec<RawTaggedField>,
}

/// SI prefixes for the human readable part.
#[derive(PartialEq, Eq, Debug, Clone, Copy, Structural)]
pub enum SiPrefix {
    /// 10^-3
    Milli,
    /// 10^-6
    Micro,
    /// 10^-9
    Nano,
    /// 10^-12
    Pico,
}

/// The network an invoice pays on.
#[derive(PartialEq, Eq, Debug, Clone, Copy, Structural)]
pub enum Currency {
    Bitcoin,
    BitcoinTestnet,
}

/// Tagged field which may have an unknown tag.
#[derive(PartialEq, Eq, Debug)]
pub enum RawTaggedField {
    /// Parsed tagged field with known tag
    KnownSemantics(TaggedField),
    /// tagged field which was not parsed due to an unknown tag or undefined field semantics
    UnknownSemantics(Vec<U5>),
}

/// Tagged field with known tag.
#[derive(PartialEq, Eq, Debug)]
pub enum TaggedField {
    PaymentHash(Sha256),
    Description(Description),
    PayeePubKey(PayeePubKey),
    DescriptionHash(Sha256),
    ExpiryTime(ExpiryTime),
    MinFinalCltvExpiry(MinFinalCltvExpiry),
    Fallback(Fallback),
    Route(Route),
}

/// SHA-256 hash
#[derive(PartialEq, Eq, Debug, Clone, Copy)]
pub struct Sha256(pub [u8; 32]);

/// A secp256k1 public key, held as its 33 byte compressed serialization.
#[derive(PartialEq, Eq, Debug, Clone, Copy)]
pub struct PublicKey {
    pub(crate) bytes: [u8; 33],
}

impl View for PublicKey {
    type V = Seq<u8>;

    closed spec fn view(&self) -> Seq<u8> {
        self.bytes@
    }
}

impl PublicKey {
    /// Parses a public key from its 33 byte compressed or 65 byte uncompressed
    /// serialization, as `secp256k1::PublicKey::from_slice` does.
    pub fn from_slice(data: &[u8]) -> (res: Result<PublicKey, Secp256k1Error>)
        ensures
            match parse_public_key(data@) {
                Some(k) => res matches Ok(pk) && pk@ == k,
                None => res == Err::<PublicKey, Secp256k1Error>(Secp256k1Error::InvalidPublicKey),
            },
    {
        match parse_public_key_bytes(data) {
            Some(bytes) => Ok(PublicKey { bytes }),
            None => Err(Secp256k1Error::InvalidPublicKey),
        }
    }

    /// The key held by the given compressed serialization.
    pub(crate) fn from_compressed(bytes: [u8; 33]) -> (res: PublicKey)
        ensures
            res@ == bytes@,
    {
        PublicKey { bytes }
    }

    /// The 33 byte compressed serialization of the key.
    pub fn serialize(&self) -> (res: [u8; 33])
        ensures
            res@ == self@,
    {
        self.bytes
    }

    /// Every key is 33 bytes long in compressed form.
    pub proof fn lemma_len(&self)
        ensures
            self@.len() == 33,
    {
    }
}

/// Payee public key
#[derive(PartialEq, Eq, Debug, Clone, Copy)]
pub struct PayeePubKey(pub PublicKey);

/// Positive duration that defines when (relatively to the timestamp) in the future the
/// invoice expires
#[derive(PartialEq, Eq, Debug, Clone, Copy)]
pub struct ExpiryTime {
    pub seconds: u64,
}

/// `min_final_cltv_expiry` to use for the last HTLC in the route
#[derive(PartialEq, Eq, Debug, Clone, Copy)]
pub struct MinFinalCltvExpiry(pub u64);

/// Fallback address in case no LN payment is possible
#[derive(PartialEq, Eq, Debug)]
pub enum Fallback {
    SegWitProgram { version: U5, program: Vec<u8> },
    PubKeyHash([u8; 20]),
    ScriptHash([u8; 20]),
}

/// Recoverable signature: the 64 byte compact form and the recovery id.
#[derive(PartialEq, Eq, Debug, Clone, Copy)]
pub struct Signature {
    pub compact: [u8; 64],
    pub recovery_id: i32,
}

/// Longest private route that fits in one tagged field.
pub const MAX_ROUTE_HOPS: usize = 12;

/// Private routing information; at most 12 hops.
#[derive(PartialEq, Eq, Debug)]
pub struct Route(Vec<RouteHop>);

/// One hop of a private route.
#[derive(PartialEq, Eq, Debug, Clone, Copy)]
pub struct RouteHop {
    pub pubkey: PublicKey,
    pub short_channel_id: [u8; 8],
    pub fee_base_msat: u32,
    pub fee_proportional_millionths: u32,
    pub cltv_expiry_delta: u16,
}

impl View for Route {
    type V = Seq<RouteHop>;

    closed spec fn view(&self) -> Seq<RouteHop> {
        self.0@
    }
}

impl Route {
    #[verifier::type_invariant]
    spec fn short(self) -> bool {
        self.0@.len() <= MAX_ROUTE_HOPS
    }

    /// Creates a route of at most 12 hops, returns `CreationError::RouteTooLong` otherwise.
    pub fn new(hops: Vec<RouteHop>) -> (res: Result<Route, CreationError>)
        ensures
            hops@.len() <= MAX_ROUTE_HOPS ==> (res matches Ok(r) && r@ == hops@),
            hops@.len() > MAX_ROUTE_HOPS ==> res == Err::<Route, CreationError>(
                CreationError::RouteTooLong,
            ),
    {
        if hops.len() <= MAX_ROUTE_HOPS {
            Ok(Route(hops))
        } else {
            Err(CreationError::RouteTooLong)
        }
    }

    /// The hops of the route.
    fn into_inner(self) -> (res: Vec<RouteHop>)
        ensures
            res == self.0,
    {
        self.0
    }

    /// The hops of the route.
    pub fn hops(&self) -> (res: &Vec<RouteHop>)
        ensures
            res@ == self@,
            res@.len() <= MAX_ROUTE_HOPS,
    {
        proof {
            use_type_invariant(self);
        }
        &self.0
    }
}

impl Description {
    /// The description as a string slice.
    pub fn as_str(&self) -> (res: &str)
        ensures
            res@ == self@,
            utf8_bytes(res@).len() <= MAX_DESCRIPTION_BYTES,
    {
        proof {
            use_type_invariant(self);
        }
        self.0.as_str()
    }
}

/// Errors that may occur when converting a `RawInvoice` to an `Invoice`. They relate to the
/// requirements sections in BOLT #11
#[derive(PartialEq, Eq, Debug, Clone, Copy, Structural)]
pub enum SemanticError {
    NoPaymentHash,
    MultiplePaymentHashes,
    NoDescription,
    MultipleDescriptions,
    InvalidRecoveryId,
    InvalidSignature,
}

/// Errors of the secp256k1 operations the library performs.
#[derive(PartialEq, Eq, Debug, Clone, Copy, Structural)]
pub enum Secp256k1Error {
    /// The bytes do not hold a valid public key.
    InvalidPublicKey,
    /// The signature does not parse, or no key can be recovered from it.
    InvalidSignature,
    /// The recovery id is not in `0..4`.
    InvalidRecoveryId,
}

} // verus!

verus! {

impl From<Description> for String {
    fn from(d: Description) -> (res: String)
        ensures
            res@ == d@,
    {
        d.0
    }
}

impl vstd::std_specs::convert::FromSpecImpl<Description> for String {
    open spec fn obeys_from_spec() -> bool {
        true
    }

    closed spec fn from_spec(d: Description) -> String {
        d.0
    }
}

impl From<Route> for Vec<RouteHop> {
    fn from(r: Route) -> (res: Vec<RouteHop>)
        ensures
            res@ == r@,
    {
        r.into_inner()
    }
}

impl vstd::std_specs::convert::FromSpecImpl<Route> for Vec<RouteHop> {
    open spec fn obeys_from_spec() -> bool {
        true
    }

    closed spec fn from_spec(r: Route) -> Vec<RouteHop> {
        r.0
    }
}

} // verus!
