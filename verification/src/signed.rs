//! Key recovery and signature checking of a `SignedRawInvoice`.

use vstd::prelude::*;

use crate::external::{ecdsa_recover, ecdsa_recover_compact, ecdsa_verify, ecdsa_verify_compact};
use crate::fields::payee_pub_key_of;
use crate::raw::opt_deref;
use crate::types::{PayeePubKey, PublicKey, RawInvoice, Secp256k1Error, Signature, SignedRawInvoice};

verus! {

broadcast use vstd::array::group_array_axioms;

/// What `RecoveryId::try_from(i32)` accepts: the recovery ids `0..4`.
pub open spec fn valid_recovery_id(id: i32) -> bool {
    0 <= id < 4
}

impl SignedRawInvoice {
    /// The payee key recovered from the signature over the hash, as compressed bytes.
    pub open spec fn recovery(&self) -> Result<Seq<u8>, Secp256k1Error> {
        if !valid_recovery_id(self.signature.recovery_id) {
            Err(Secp256k1Error::InvalidRecoveryId)
        } else {
            match ecdsa_recover(
                self.hash@,
                self.signature.compact@,
                self.signature.recovery_id as u8,
            ) {
                Some(k) => Ok(k),
                None => Err(Secp256k1Error::InvalidSignature),
            }
        }
    }

    /// The key the signature is checked against: the payee key field if the invoice has
    /// one, the recovered key otherwise.
    pub open spec fn checked_key(&self, recovered: Seq<u8>) -> Seq<u8> {
        match payee_pub_key_of(self.raw_invoice.known()) {
            Some(k) => k.0@,
            None => recovered,
        }
    }

    /// The signature recovers a key, and verifies against the payee key field if there is
    /// one, against the recovered key otherwise.
    pub open spec fn signature_valid(&self) -> bool {
        match self.recovery() {
            Ok(recovered) => ecdsa_verify(
                self.hash@,
                self.signature.compact@,
                self.signature.recovery_id as u8,
                self.checked_key(recovered),
            ),
            Err(_) => false,
        }
    }

    /// Disassembles the `SignedRawInvoice` into its three parts: raw invoice, hash of the
    /// raw invoice, signature.
    pub fn into_parts(self) -> (res: (RawInvoice, [u8; 32], Signature))
        ensures
            res.0 == self.raw_invoice,
            res.1 == self.hash,
            res.2 == self.signature,
    {
        (self.raw_invoice, self.hash, self.signature)
    }

    /// The raw invoice that the signature belongs to.
    pub fn raw_invoice(&self) -> (res: &RawInvoice)
        ensures
            *res == self.raw_invoice,
    {
        &self.raw_invoice
    }

    /// The hash that the signature signs.
    pub fn hash(&self) -> (res: &[u8; 32])
        ensures
            *res == self.hash,
    {
        &self.hash
    }

    /// The signature.
    pub fn signature(&self) -> (res: &Signature)
        ensures
            *res == self.signature,
    {
        &self.signature
    }

    /// Recovers the payee's public key from the signature over the hash.
    pub fn recover_payee_pub_key(&self) -> (res: Result<PayeePubKey, Secp256k1Error>)
        ensures
            match res {
                Ok(pk) => self.recovery() == Ok::<Seq<u8>, Secp256k1Error>(pk.0@),
                Err(e) => self.recovery() == Err::<Seq<u8>, Secp256k1Error>(e),
            },
    {
        let id = self.signature.recovery_id;
        if id < 0 || id > 3 {
            return Err(Secp256k1Error::InvalidRecoveryId);
        }
        match ecdsa_recover_compact(&self.hash, &self.signature.compact, id as u8) {
            Some(bytes) => Ok(PayeePubKey(PublicKey::from_compressed(bytes))),
            None => Err(Secp256k1Error::InvalidSignature),
        }
    }

    /// Checks the signature: a key must be recoverable from it, and it must verify against
    /// the payee key field if the invoice has one, against the recovered key otherwise.
    pub fn check_signature(&self) -> (res: bool)
        ensures
            res == self.signature_valid(),
    {
        let included_pub_key = self.raw_invoice.payee_pub_key();
        let recovered = match self.recover_payee_pub_key() {
            Ok(pk) => pk,
            Err(_) => return false,
        };
        let pub_key = match included_pub_key {
            Some(pk) => pk,
            None => &recovered,
        };
        assert(pub_key.0@ == self.checked_key(recovered.0@)) by {
            assert(opt_deref(included_pub_key) == payee_pub_key_of(self.raw_invoice.known()));
        }
        let id = self.signature.recovery_id as u8;
        let key = pub_key.0.serialize();
        ecdsa_verify_compact(&self.hash, &self.signature.compact, id, &key)
    }
}

} // verus!
