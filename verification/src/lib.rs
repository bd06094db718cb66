//! Semantic model of BOLT #11 lightning invoices: raw and signed invoices,
//! the encoding that the invoice hash is computed over, and the semantic
//! checks that turn a signed raw invoice into an `Invoice`.

pub mod bits;
pub mod constants;
pub mod conversions;
pub mod encoding;
pub mod external;
pub mod fields;
pub mod invoice;
pub mod laws;
pub mod raw;
pub mod signed;
pub mod types;
pub mod u5;

pub use crate::types::{
    CreationError, Currency, Description, ExpiryTime, Fallback, Invoice, InvoiceDescription,
    MinFinalCltvExpiry, PayeePubKey, PublicKey, RawDataPart, RawHrp, RawInvoice, RawTaggedField,
    Route, RouteHop, Secp256k1Error, SemanticError, Sha256, SiPrefix, Signature, SignedRawInvoice,
    TaggedField,
};
pub use crate::u5::U5;
