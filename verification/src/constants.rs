use vstd::prelude::*;

verus! {

/// Tag of the payment hash field (`p`).
pub const TAG_PAYMENT_HASH: u8 = 1;

/// Tag of the description field (`d`).
pub const TAG_DESCRIPTION: u8 = 13;

/// Tag of the payee public key field (`n`).
pub const TAG_PAYEE_PUB_KEY: u8 = 19;

/// Tag of the description hash field (`h`).
pub const TAG_DESCRIPTION_HASH: u8 = 23;

/// Tag of the expiry time field (`x`).
pub const TAG_EXPIRY_TIME: u8 = 6;

/// Tag of the `min_final_cltv_expiry` field (`c`).
pub const TAG_MIN_FINAL_CLTV_EXPIRY: u8 = 24;

/// Tag of the fallback address field (`f`).
pub const TAG_FALLBACK: u8 = 9;

/// Tag of the private route field (`r`).
pub const TAG_ROUTE: u8 = 3;

} // verus!
