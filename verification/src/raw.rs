//! Lookups of `RawInvoice` over its tagged fields.

use vstd::prelude::*;

use crate::constants::{
    TAG_DESCRIPTION, TAG_DESCRIPTION_HASH, TAG_EXPIRY_TIME, TAG_MIN_FINAL_CLTV_EXPIRY,
    TAG_PAYEE_PUB_KEY, TAG_PAYMENT_HASH,
};
use crate::fields::{
    derefs, description_hash_of, description_of, expiry_time_of, fallbacks_of, first_with_tag,
    known_fields, lemma_first_with_tag, min_final_cltv_expiry_of, payee_pub_key_of,
    payment_hash_of, routes_of, tag_of,
};
use crate::types::{
    Description, ExpiryTime, Fallback, MinFinalCltvExpiry, PayeePubKey, RawInvoice, RawTaggedField,
    Route, Sha256, TaggedField,
};

verus! {

/// The value behind an optional reference.
pub open spec fn opt_deref<T>(o: Option<&T>) -> Option<T> {
    match o {
        Some(r) => Some(*r),
        None => None,
    }
}

/// The index of the first field that carries `tag`, if any.
fn first_index_with_tag(fields: &Vec<&TaggedField>, tag: u8) -> (res: Option<usize>)
    ensures
        match res {
            Some(i) => first_with_tag(derefs(fields@), tag) == Some(i as int) && i < fields@.len(),
            None => first_with_tag(derefs(fields@), tag) is None,
        },
{
    let ghost all = derefs(fields@);
    let mut i: usize = 0;
    while i < fields.len()
        invariant
            i <= fields@.len(),
            all == derefs(fields@),
            forall|j: int| 0 <= j < i ==> tag_of(#[trigger] all[j]) != tag,
        decreases fields@.len() - i,
    {
        if fields[i].tag().to_u8() == tag {
            proof {
                lemma_first_with_tag(all, tag, i as int);
            }
            return Some(i);
        }
        i += 1;
    }
    proof {
        lemma_first_with_tag(all, tag, i as int);
    }
    None
}

impl RawInvoice {
    /// The tagged fields of the invoice whose semantics are known.
    pub open spec fn known(&self) -> Seq<TaggedField> {
        known_fields(self.data.tagged_fields@)
    }

    /// The tagged fields whose semantics are known, in order.
    pub fn known_tagged_fields(&self) -> (res: Vec<&TaggedField>)
        ensures
            derefs(res@) == self.known(),
    {
        let fields = &self.data.tagged_fields;
        let mut res: Vec<&TaggedField> = Vec::new();
        let mut i: usize = 0;
        while i < fields.len()
            invariant
                i <= fields@.len(),
                derefs(res@) == known_fields(fields@.take(i as int)),
            decreases fields@.len() - i,
        {
            let ghost before = res@;
            match &fields[i] {
                RawTaggedField::KnownSemantics(tf) => {
                    res.push(tf);
                    assert(derefs(res@) =~= derefs(before).push(*tf));
                },
                RawTaggedField::UnknownSemantics(_) => {},
            }
            assert(fields@.take(i + 1).drop_last() =~= fields@.take(i as int));
            i += 1;
        }
        assert(fields@.take(fields@.len() as int) =~= fields@);
        res
    }

    /// The first payment hash field, if any.
    pub fn payment_hash(&self) -> (res: Option<&Sha256>)
        ensures
            opt_deref(res) == payment_hash_of(self.known()),
    {
        let fields = self.known_tagged_fields();
        match first_index_with_tag(&fields, TAG_PAYMENT_HASH) {
            Some(i) => match fields[i] {
                TaggedField::PaymentHash(h) => Some(h),
                _ => None,
            },
            None => None,
        }
    }

    /// The first description field, if any.
    pub fn description(&self) -> (res: Option<&Description>)
        ensures
            opt_deref(res) == description_of(self.known()),
    {
        let fields = self.known_tagged_fields();
        match first_index_with_tag(&fields, TAG_DESCRIPTION) {
            Some(i) => match fields[i] {
                TaggedField::Description(d) => Some(d),
                _ => None,
            },
            None => None,
        }
    }

    /// The first payee public key field, if any.
    pub fn payee_pub_key(&self) -> (res: Option<&PayeePubKey>)
        ensures
            opt_deref(res) == payee_pub_key_of(self.known()),
    {
        let fields = self.known_tagged_fields();
        match first_index_with_tag(&fields, TAG_PAYEE_PUB_KEY) {
            Some(i) => match fields[i] {
                TaggedField::PayeePubKey(k) => Some(k),
                _ => None,
            },
            None => None,
        }
    }

    /// The first description hash field, if any.
    pub fn description_hash(&self) -> (res: Option<&Sha256>)
        ensures
            opt_deref(res) == description_hash_of(self.known()),
    {
        let fields = self.known_tagged_fields();
        match first_index_with_tag(&fields, TAG_DESCRIPTION_HASH) {
            Some(i) => match fields[i] {
                TaggedField::DescriptionHash(h) => Some(h),
                _ => None,
            },
            None => None,
        }
    }

    /// The first expiry time field, if any.
    pub fn expiry_time(&self) -> (res: Option<&ExpiryTime>)
        ensures
            opt_deref(res) == expiry_time_of(self.known()),
    {
        let fields = self.known_tagged_fields();
        match first_index_with_tag(&fields, TAG_EXPIRY_TIME) {
            Some(i) => match fields[i] {
                TaggedField::ExpiryTime(e) => Some(e),
                _ => None,
            },
            None => None,
        }
    }

    /// The first `min_final_cltv_expiry` field, if any.
    pub fn min_final_cltv_expiry(&self) -> (res: Option<&MinFinalCltvExpiry>)
        ensures
            opt_deref(res) == min_final_cltv_expiry_of(self.known()),
    {
        let fields = self.known_tagged_fields();
        match first_index_with_tag(&fields, TAG_MIN_FINAL_CLTV_EXPIRY) {
            Some(i) => match fields[i] {
                TaggedField::MinFinalCltvExpiry(c) => Some(c),
                _ => None,
            },
            None => None,
        }
    }

    /// All fallback address fields, in order.
    pub fn fallbacks(&self) -> (res: Vec<&Fallback>)
        ensures
            derefs(res@) == fallbacks_of(self.known()),
    {
        let fields = self.known_tagged_fields();
        let ghost all = derefs(fields@);
        let mut res: Vec<&Fallback> = Vec::new();
        let mut i: usize = 0;
        while i < fields.len()
            invariant
                i <= fields@.len(),
                all == derefs(fields@),
                derefs(res@) == fallbacks_of(all.take(i as int)),
            decreases fields@.len() - i,
        {
            let ghost before = res@;
            match fields[i] {
                TaggedField::Fallback(f) => {
                    res.push(f);
                    assert(derefs(res@) =~= derefs(before).push(*f));
                },
                _ => {},
            }
            assert(all.take(i + 1).drop_last() =~= all.take(i as int));
            i += 1;
        }
        assert(all.take(all.len() as int) =~= all);
        res
    }

    /// All private route fields, in order.
    pub fn routes(&self) -> (res: Vec<&Route>)
        ensures
            derefs(res@) == routes_of(self.known()),
    {
        let fields = self.known_tagged_fields();
        let ghost all = derefs(fields@);
        let mut res: Vec<&Route> = Vec::new();
        let mut i: usize = 0;
        while i < fields.len()
            invariant
                i <= fields@.len(),
                all == derefs(fields@),
                derefs(res@) == routes_of(all.take(i as int)),
            decreases fields@.len() - i,
        {
            let ghost before = res@;
            match fields[i] {
                TaggedField::Route(r) => {
                    res.push(r);
                    assert(derefs(res@) =~= derefs(before).push(*r));
                },
                _ => {},
            }
            assert(all.take(i + 1).drop_last() =~= all.take(i as int));
            i += 1;
        }
        assert(all.take(all.len() as int) =~= all);
        res
    }
}

} // verus!
