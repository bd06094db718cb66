//! Tags of tagged fields, and the lookups that `RawInvoice` offers over its
//! known tagged fields.

use vstd::prelude::*;

use crate::constants::{
    TAG_DESCRIPTION, TAG_DESCRIPTION_HASH, TAG_EXPIRY_TIME, TAG_FALLBACK,
    TAG_MIN_FINAL_CLTV_EXPIRY, TAG_PAYEE_PUB_KEY, TAG_PAYMENT_HASH, TAG_ROUTE,
};
use crate::types::{
    Description, ExpiryTime, Fallback, MinFinalCltvExpiry, PayeePubKey, RawTaggedField, Route,
    Sha256, TaggedField,
};
use crate::u5::U5;

verus! {

/// The 5-bit tag of a tagged field, as BOLT #11 assigns it.
pub open spec fn tag_of(tf: TaggedField) -> u8 {
    match tf {
        TaggedField::PaymentHash(_) => TAG_PAYMENT_HASH,
        TaggedField::Description(_) => TAG_DESCRIPTION,
        TaggedField::PayeePubKey(_) => TAG_PAYEE_PUB_KEY,
        TaggedField::DescriptionHash(_) => TAG_DESCRIPTION_HASH,
        TaggedField::ExpiryTime(_) => TAG_EXPIRY_TIME,
        TaggedField::MinFinalCltvExpiry(_) => TAG_MIN_FINAL_CLTV_EXPIRY,
        TaggedField::Fallback(_) => TAG_FALLBACK,
        TaggedField::Route(_) => TAG_ROUTE,
    }
}

/// The fields of `raw` whose semantics are known, in order.
pub open spec fn known_fields(raw: Seq<RawTaggedField>) -> Seq<TaggedField>
    decreases raw.len(),
{
    if raw.len() == 0 {
        seq![]
    } else {
        let rest = known_fields(raw.drop_last());
        match raw.last() {
            RawTaggedField::KnownSemantics(tf) => rest.push(tf),
            RawTaggedField::UnknownSemantics(_) => rest,
        }
    }
}

/// Fields of unknown semantics are not among the known fields: inserting one anywhere
/// leaves the known fields as they are (and so does removing one).
pub proof fn lemma_known_fields_insert_unknown(raw: Seq<RawTaggedField>, i: int, v: Vec<U5>)
    requires
        0 <= i <= raw.len(),
    ensures
        known_fields(raw.insert(i, RawTaggedField::UnknownSemantics(v))) == known_fields(raw),
    decreases raw.len(),
{
    let x = RawTaggedField::UnknownSemantics(v);
    if i == raw.len() {
        assert(raw.insert(i, x).drop_last() =~= raw);
    } else {
        lemma_known_fields_insert_unknown(raw.drop_last(), i, v);
        assert(raw.insert(i, x).drop_last() =~= raw.drop_last().insert(i, x));
        assert(raw.insert(i, x).last() == raw.last());
    }
}

/// The values behind a sequence of references.
pub open spec fn derefs<T>(s: Seq<&T>) -> Seq<T> {
    s.map_values(|r: &T| *r)
}

/// The index of the first field of `fields` that carries `tag`.
pub open spec fn first_with_tag(fields: Seq<TaggedField>, tag: u8) -> Option<int>
    decreases fields.len(),
{
    if fields.len() == 0 {
        None
    } else if tag_of(fields[0]) == tag {
        Some(0)
    } else {
        match first_with_tag(fields.drop_first(), tag) {
            Some(i) => Some(i + 1),
            None => None,
        }
    }
}

/// The number of fields of `fields` that carry `tag`.
pub open spec fn count_tag(fields: Seq<TaggedField>, tag: u8) -> nat
    decreases fields.len(),
{
    if fields.len() == 0 {
        0
    } else {
        (if tag_of(fields[0]) == tag {
            1nat
        } else {
            0nat
        }) + count_tag(fields.drop_first(), tag)
    }
}

/// The first payment hash among `fields`.
pub open spec fn payment_hash_of(fields: Seq<TaggedField>) -> Option<Sha256> {
    match first_with_tag(fields, TAG_PAYMENT_HASH) {
        Some(i) => match fields[i] {
            TaggedField::PaymentHash(h) => Some(h),
            _ => None,
        },
        None => None,
    }
}

/// The first description among `fields`.
pub open spec fn description_of(fields: Seq<TaggedField>) -> Option<Description> {
    match first_with_tag(fields, TAG_DESCRIPTION) {
        Some(i) => match fields[i] {
            TaggedField::Description(d) => Some(d),
            _ => None,
        },
        None => None,
    }
}

/// The first payee public key among `fields`.
pub open spec fn payee_pub_key_of(fields: Seq<TaggedField>) -> Option<PayeePubKey> {
    match first_with_tag(fields, TAG_PAYEE_PUB_KEY) {
        Some(i) => match fields[i] {
            TaggedField::PayeePubKey(k) => Some(k),
            _ => None,
        },
        None => None,
    }
}

/// The first description hash among `fields`.
pub open spec fn description_hash_of(fields: Seq<TaggedField>) -> Option<Sha256> {
    match first_with_tag(fields, TAG_DESCRIPTION_HASH) {
        Some(i) => match fields[i] {
            TaggedField::DescriptionHash(h) => Some(h),
            _ => None,
        },
        None => None,
    }
}

/// The first expiry time among `fields`.
pub open spec fn expiry_time_of(fields: Seq<TaggedField>) -> Option<ExpiryTime> {
    match first_with_tag(fields, TAG_EXPIRY_TIME) {
        Some(i) => match fields[i] {
            TaggedField::ExpiryTime(e) => Some(e),
            _ => None,
        },
        None => None,
    }
}

/// The first `min_final_cltv_expiry` among `fields`.
pub open spec fn min_final_cltv_expiry_of(fields: Seq<TaggedField>) -> Option<MinFinalCltvExpiry> {
    match first_with_tag(fields, TAG_MIN_FINAL_CLTV_EXPIRY) {
        Some(i) => match fields[i] {
            TaggedField::MinFinalCltvExpiry(c) => Some(c),
            _ => None,
        },
        None => None,
    }
}

/// All fallback addresses among `fields`, in order.
pub open spec fn fallbacks_of(fields: Seq<TaggedField>) -> Seq<Fallback>
    decreases fields.len(),
{
    if fields.len() == 0 {
        seq![]
    } else {
        let rest = fallbacks_of(fields.drop_last());
        match fields.last() {
            TaggedField::Fallback(f) => rest.push(f),
            _ => rest,
        }
    }
}

/// All private routes among `fields`, in order.
pub open spec fn routes_of(fields: Seq<TaggedField>) -> Seq<Route>
    decreases fields.len(),
{
    if fields.len() == 0 {
        seq![]
    } else {
        let rest = routes_of(fields.drop_last());
        match fields.last() {
            TaggedField::Route(r) => rest.push(r),
            _ => rest,
        }
    }
}

/// If no field before `i` carries `tag`, the first one that does is at `i` or later;
/// it is at `i` when field `i` carries `tag`, and there is none when `i` is the end.
pub proof fn lemma_first_with_tag(fields: Seq<TaggedField>, tag: u8, i: int)
    requires
        0 <= i <= fields.len(),
        forall|j: int| 0 <= j < i ==> tag_of(#[trigger] fields[j]) != tag,
    ensures
        i == fields.len() ==> first_with_tag(fields, tag) is None,
        i < fields.len() && tag_of(fields[i]) == tag ==> first_with_tag(fields, tag) == Some(i),
    decreases i,
{
    if i > 0 {
        let rest = fields.drop_first();
        assert forall|j: int| 0 <= j < i - 1 implies tag_of(#[trigger] rest[j]) != tag by {
            assert(rest[j] == fields[j + 1]);
        }
        lemma_first_with_tag(rest, tag, i - 1);
    }
}

/// A tag that occurs at least once has a first occurrence, which carries it.
pub proof fn lemma_count_first(fields: Seq<TaggedField>, tag: u8)
    ensures
        count_tag(fields, tag) > 0 <==> first_with_tag(fields, tag) is Some,
        first_with_tag(fields, tag) matches Some(i) ==> 0 <= i < fields.len() && tag_of(fields[i])
            == tag,
    decreases fields.len(),
{
    if fields.len() > 0 {
        lemma_count_first(fields.drop_first(), tag);
    }
}

/// Appending a field adds one to the count of its tag.
pub proof fn lemma_count_push(fields: Seq<TaggedField>, tf: TaggedField, tag: u8)
    ensures
        count_tag(fields.push(tf), tag) == count_tag(fields, tag) + if tag_of(tf) == tag {
            1nat
        } else {
            0nat
        },
    decreases fields.len(),
{
    if fields.len() > 0 {
        lemma_count_push(fields.drop_first(), tf, tag);
        assert(fields.push(tf).drop_first() =~= fields.drop_first().push(tf));
    } else {
        assert(fields.push(tf).drop_first() =~= fields);
    }
}

/// Every tag fits in five bits, and the tag tells the kind of the field.
pub proof fn lemma_tag_identifies(tf: TaggedField)
    ensures
        tag_of(tf) < 32,
        tag_of(tf) == TAG_PAYMENT_HASH <==> tf is PaymentHash,
        tag_of(tf) == TAG_DESCRIPTION <==> tf is Description,
        tag_of(tf) == TAG_PAYEE_PUB_KEY <==> tf is PayeePubKey,
        tag_of(tf) == TAG_DESCRIPTION_HASH <==> tf is DescriptionHash,
        tag_of(tf) == TAG_EXPIRY_TIME <==> tf is ExpiryTime,
        tag_of(tf) == TAG_MIN_FINAL_CLTV_EXPIRY <==> tf is MinFinalCltvExpiry,
        tag_of(tf) == TAG_FALLBACK <==> tf is Fallback,
        tag_of(tf) == TAG_ROUTE <==> tf is Route,
{
}

impl TaggedField {
    /// The tag of the field.
    pub fn tag(&self) -> (res: U5)
        ensures
            res@ == tag_of(*self),
    {
        let tag = match *self {
            TaggedField::PaymentHash(_) => TAG_PAYMENT_HASH,
            TaggedField::Description(_) => TAG_DESCRIPTION,
            TaggedField::PayeePubKey(_) => TAG_PAYEE_PUB_KEY,
            TaggedField::DescriptionHash(_) => TAG_DESCRIPTION_HASH,
            TaggedField::ExpiryTime(_) => TAG_EXPIRY_TIME,
            TaggedField::MinFinalCltvExpiry(_) => TAG_MIN_FINAL_CLTV_EXPIRY,
            TaggedField::Fallback(_) => TAG_FALLBACK,
            TaggedField::Route(_) => TAG_ROUTE,
        };
        U5::from_u8_in_range(tag)
    }
}

} // verus!
