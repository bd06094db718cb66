//! `Invoice`: a signed raw invoice that passed the semantic checks of BOLT #11.

use vstd::prelude::*;

use crate::constants::{TAG_DESCRIPTION, TAG_DESCRIPTION_HASH, TAG_PAYMENT_HASH};
use crate::fields::{
    count_tag, derefs, description_hash_of, description_of, expiry_time_of, fallbacks_of,
    lemma_count_first, lemma_count_push, min_final_cltv_expiry_of, payee_pub_key_of,
    payment_hash_of, routes_of, tag_of,
};
use crate::fields::lemma_known_fields_insert_unknown;
use crate::raw::opt_deref;
use crate::u5::U5;
use crate::types::{
    ExpiryTime, Fallback, Invoice, InvoiceDescription, MinFinalCltvExpiry, PayeePubKey, Route,
    RawTaggedField, Secp256k1Error, SemanticError, Sha256, SignedRawInvoice, TaggedField,
};

verus! {

/// The number of payment hash fields.
pub open spec fn payment_hash_count(fields: Seq<TaggedField>) -> nat {
    count_tag(fields, TAG_PAYMENT_HASH)
}

/// The number of description and description hash fields together.
pub open spec fn description_count(fields: Seq<TaggedField>) -> nat {
    count_tag(fields, TAG_DESCRIPTION) + count_tag(fields, TAG_DESCRIPTION_HASH)
}

/// BOLT #11: a writer must include exactly one payment hash field, and either exactly one
/// description or exactly one description hash field.
pub open spec fn field_counts_check(fields: Seq<TaggedField>) -> Result<(), SemanticError> {
    if payment_hash_count(fields) < 1 {
        Err(SemanticError::NoPaymentHash)
    } else if payment_hash_count(fields) > 1 {
        Err(SemanticError::MultiplePaymentHashes)
    } else if description_count(fields) < 1 {
        Err(SemanticError::NoDescription)
    } else if description_count(fields) > 1 {
        Err(SemanticError::MultipleDescriptions)
    } else {
        Ok(())
    }
}

/// Key recovery must work and the signature must check out.
pub open spec fn signature_check(s: SignedRawInvoice) -> Result<(), SemanticError> {
    match s.recovery() {
        Err(Secp256k1Error::InvalidRecoveryId) => Err(SemanticError::InvalidRecoveryId),
        Err(_) => Err(SemanticError::InvalidSignature),
        Ok(_) => if s.signature_valid() {
            Ok(())
        } else {
            Err(SemanticError::InvalidSignature)
        },
    }
}

/// The checks that turn a signed raw invoice into an `Invoice`, in the order they are made.
pub open spec fn semantic_check(s: SignedRawInvoice) -> Result<(), SemanticError> {
    match field_counts_check(s.raw_invoice.known()) {
        Err(e) => Err(e),
        Ok(_) => signature_check(s),
    }
}

/// The inputs on which the checks are defined: once the field counts are right, key
/// recovery fails, if at all, only for an invalid recovery id.
pub open spec fn checkable(s: SignedRawInvoice) -> bool {
    field_counts_check(s.raw_invoice.known()) is Ok ==> s.recovery() != Err::<
        Seq<u8>,
        Secp256k1Error,
    >(Secp256k1Error::InvalidSignature)
}

/// The field counts pass exactly when there is one payment hash field and one description
/// or description hash field (BOLT #11).
pub proof fn lemma_field_counts_ok(fields: Seq<TaggedField>)
    ensures
        field_counts_check(fields) is Ok <==> (payment_hash_count(fields) == 1 && description_count(
            fields,
        ) == 1),
{
}

/// Fields of unknown semantics are never counted and take no part in any check: a signed
/// invoice with one more such field passes and fails the same checks.
pub proof fn lemma_unknown_fields_ignored(
    s: SignedRawInvoice,
    t: SignedRawInvoice,
    i: int,
    v: Vec<U5>,
)
    requires
        0 <= i <= s.raw_invoice.data.tagged_fields@.len(),
        t.raw_invoice.data.tagged_fields@ == s.raw_invoice.data.tagged_fields@.insert(
            i,
            RawTaggedField::UnknownSemantics(v),
        ),
        t.hash == s.hash,
        t.signature == s.signature,
    ensures
        field_counts_check(t.raw_invoice.known()) == field_counts_check(s.raw_invoice.known()),
        semantic_check(t) == semantic_check(s),
{
    lemma_known_fields_insert_unknown(s.raw_invoice.data.tagged_fields@, i, v);
}

/// The signature check reports an invalid recovery id as such; once a key is recovered, it
/// passes exactly when `SignedRawInvoice::check_signature` does.
pub proof fn lemma_signature_check(s: SignedRawInvoice)
    ensures
        s.recovery() == Err::<Seq<u8>, Secp256k1Error>(Secp256k1Error::InvalidRecoveryId)
            ==> signature_check(s) == Err::<(), SemanticError>(SemanticError::InvalidRecoveryId),
        s.recovery() is Ok ==> signature_check(s) == if s.signature_valid() {
            Ok::<(), SemanticError>(())
        } else {
            Err::<(), SemanticError>(SemanticError::InvalidSignature)
        },
{
}

/// Counts the fields that carry `tag` or `other`.
fn count_tags(fields: &Vec<&TaggedField>, tag: u8, other: u8) -> (res: usize)
    ensures
        res == count_tag(derefs(fields@), tag) + (if other != tag {
            count_tag(derefs(fields@), other)
        } else {
            0
        }),
{
    let ghost all = derefs(fields@);
    let mut n: usize = 0;
    let mut i: usize = 0;
    while i < fields.len()
        invariant
            i <= fields@.len(),
            all == derefs(fields@),
            n == count_tag(all.take(i as int), tag) + (if other != tag {
                count_tag(all.take(i as int), other)
            } else {
                0
            }),
            n <= i,
        decreases fields@.len() - i,
    {
        let t = fields[i].tag().to_u8();
        proof {
            lemma_count_push(all.take(i as int), all[i as int], tag);
            lemma_count_push(all.take(i as int), all[i as int], other);
            assert(all.take(i + 1) =~= all.take(i as int).push(all[i as int]));
        }
        if t == tag || t == other {
            n += 1;
        }
        i += 1;
    }
    assert(all.take(all.len() as int) =~= all);
    n
}

/// Checks that all mandatory fields are present, exactly once.
fn check_field_counts(signed: &SignedRawInvoice) -> (res: Result<(), SemanticError>)
    ensures
        res == field_counts_check(signed.raw_invoice.known()),
{
    let fields = signed.raw_invoice.known_tagged_fields();
    let payment_hash_cnt = count_tags(&fields, TAG_PAYMENT_HASH, TAG_PAYMENT_HASH);
    if payment_hash_cnt < 1 {
        return Err(SemanticError::NoPaymentHash);
    } else if payment_hash_cnt > 1 {
        return Err(SemanticError::MultiplePaymentHashes);
    }
    let description_cnt = count_tags(&fields, TAG_DESCRIPTION, TAG_DESCRIPTION_HASH);
    if description_cnt < 1 {
        return Err(SemanticError::NoDescription);
    } else if description_cnt > 1 {
        return Err(SemanticError::MultipleDescriptions);
    }
    Ok(())
}

/// Checks that the invoice is signed correctly and that key recovery works.
fn check_signature(signed: &SignedRawInvoice) -> (res: Result<(), SemanticError>)
    requires
        signed.recovery() != Err::<Seq<u8>, Secp256k1Error>(Secp256k1Error::InvalidSignature),
    ensures
        res == signature_check(*signed),
{
    match signed.recover_payee_pub_key() {
        Err(Secp256k1Error::InvalidRecoveryId) => return Err(SemanticError::InvalidRecoveryId),
        Err(_) => {
            proof {
                assert(false);
            }
            return Err(SemanticError::InvalidSignature);
        },
        Ok(_) => {},
    }
    if !signed.check_signature() {
        return Err(SemanticError::InvalidSignature);
    }
    Ok(())
}

impl View for Invoice {
    type V = SignedRawInvoice;

    closed spec fn view(&self) -> SignedRawInvoice {
        self.signed_invoice
    }
}

impl Invoice {
    #[verifier::type_invariant]
    spec fn valid(self) -> bool {
        semantic_check(self.signed_invoice) is Ok
    }

    /// Turns a signed raw invoice into an `Invoice` if it has exactly one payment hash,
    /// exactly one description or description hash, a valid recovery id and a signature
    /// that checks out; returns the first check that fails otherwise.
    pub fn from_signed(signed_invoice: SignedRawInvoice) -> (res: Result<Invoice, SemanticError>)
        requires
            checkable(signed_invoice),
        ensures
            match res {
                Ok(invoice) => semantic_check(signed_invoice) is Ok && invoice@ == signed_invoice,
                Err(e) => semantic_check(signed_invoice) == Err::<(), SemanticError>(e),
            },
    {
        check_field_counts(&signed_invoice)?;
        check_signature(&signed_invoice)?;
        Ok(Invoice { signed_invoice })
    }

    /// Like `from_signed`, but also defined where key recovery fails for a valid recovery
    /// id: then it gives `None`.
    pub fn from_signed_checked(signed_invoice: SignedRawInvoice) -> (res: Option<
        Result<Invoice, SemanticError>,
    >)
        ensures
            res is None <==> !checkable(signed_invoice),
            res matches Some(r) ==> match r {
                Ok(invoice) => semantic_check(signed_invoice) is Ok && invoice@ == signed_invoice,
                Err(e) => semantic_check(signed_invoice) == Err::<(), SemanticError>(e),
            },
    {
        if check_field_counts(&signed_invoice).is_ok() {
            match signed_invoice.recover_payee_pub_key() {
                Err(Secp256k1Error::InvalidSignature) => return None,
                _ => {},
            }
        }
        Some(Invoice::from_signed(signed_invoice))
    }

    /// The known tagged fields, in order.  They hold exactly one payment hash and exactly
    /// one description or description hash, and the invoice passed all semantic checks.
    pub fn tagged_fields(&self) -> (res: Vec<&TaggedField>)
        ensures
            derefs(res@) == self@.raw_invoice.known(),
            semantic_check(self@) is Ok,
            payment_hash_count(derefs(res@)) == 1,
            description_count(derefs(res@)) == 1,
    {
        proof {
            use_type_invariant(self);
        }
        self.signed_invoice.raw_invoice.known_tagged_fields()
    }

    /// The payment hash; there is exactly one.
    pub fn payment_hash(&self) -> (res: &Sha256)
        ensures
            payment_hash_of(self@.raw_invoice.known()) == Some(*res),
    {
        proof {
            use_type_invariant(self);
            let fields = self.signed_invoice.raw_invoice.known();
            lemma_count_first(fields, TAG_PAYMENT_HASH);
        }
        self.signed_invoice.raw_invoice.payment_hash().unwrap()
    }

    /// The description, given directly or as a hash; there is exactly one of the two.
    pub fn description(&self) -> (res: InvoiceDescription)
        ensures
            match res {
                InvoiceDescription::Direct(d) => description_of(self@.raw_invoice.known()) == Some(
                    *d,
                ),
                InvoiceDescription::Hash(h) => description_of(self@.raw_invoice.known()) is None
                    && description_hash_of(self@.raw_invoice.known()) == Some(*h),
            },
    {
        proof {
            use_type_invariant(self);
            let fields = self.signed_invoice.raw_invoice.known();
            lemma_count_first(fields, TAG_DESCRIPTION);
            lemma_count_first(fields, TAG_DESCRIPTION_HASH);
        }
        match self.signed_invoice.raw_invoice.description() {
            Some(direct) => InvoiceDescription::Direct(direct),
            None => InvoiceDescription::Hash(
                self.signed_invoice.raw_invoice.description_hash().unwrap(),
            ),
        }
    }

    /// The payee public key field, if any.
    pub fn payee_pub_key(&self) -> (res: Option<&PayeePubKey>)
        ensures
            opt_deref(res) == payee_pub_key_of(self@.raw_invoice.known()),
    {
        self.signed_invoice.raw_invoice.payee_pub_key()
    }

    /// The public key recovered from the signature; recovery always works for an invoice.
    pub fn recover_payee_pub_key(&self) -> (res: PayeePubKey)
        ensures
            self@.recovery() == Ok::<Seq<u8>, Secp256k1Error>(res.0@),
    {
        proof {
            use_type_invariant(self);
        }
        let recovered = self.signed_invoice.recover_payee_pub_key();
        match recovered {
            Ok(pk) => pk,
            Err(_) => {
                proof {
                    assert(false);
                }
                PayeePubKey(recovered.unwrap().0)
            },
        }
    }

    /// The expiry time field, if any.
    pub fn expiry_time(&self) -> (res: Option<&ExpiryTime>)
        ensures
            opt_deref(res) == expiry_time_of(self@.raw_invoice.known()),
    {
        self.signed_invoice.raw_invoice.expiry_time()
    }

    /// The `min_final_cltv_expiry` field, if any.
    pub fn min_final_cltv_expiry(&self) -> (res: Option<&MinFinalCltvExpiry>)
        ensures
            opt_deref(res) == min_final_cltv_expiry_of(self@.raw_invoice.known()),
    {
        self.signed_invoice.raw_invoice.min_final_cltv_expiry()
    }

    /// All fallback address fields, in order.
    pub fn fallbacks(&self) -> (res: Vec<&Fallback>)
        ensures
            derefs(res@) == fallbacks_of(self@.raw_invoice.known()),
    {
        self.signed_invoice.raw_invoice.fallbacks()
    }

    /// All private route fields, in order.
    pub fn routes(&self) -> (res: Vec<&Route>)
        ensures
            derefs(res@) == routes_of(self@.raw_invoice.known()),
    {
        self.signed_invoice.raw_invoice.routes()
    }
}

} // verus!
