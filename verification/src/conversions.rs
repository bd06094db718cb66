//! Conversions and dereferences of the newtypes of the invoice model.

use vstd::prelude::*;

use crate::types::{
    Description, PayeePubKey, PublicKey, RawInvoice, RawTaggedField, Route, RouteHop,
    SignedRawInvoice, TaggedField,
};

verus! {

impl From<TaggedField> for RawTaggedField {
    fn from(tf: TaggedField) -> (res: RawTaggedField) {
        RawTaggedField::KnownSemantics(tf)
    }
}

impl vstd::std_specs::convert::FromSpecImpl<TaggedField> for RawTaggedField {
    open spec fn obeys_from_spec() -> bool {
        true
    }

    open spec fn from_spec(tf: TaggedField) -> RawTaggedField {
        RawTaggedField::KnownSemantics(tf)
    }
}

impl From<PublicKey> for PayeePubKey {
    fn from(pk: PublicKey) -> (res: PayeePubKey) {
        PayeePubKey(pk)
    }
}

impl vstd::std_specs::convert::FromSpecImpl<PublicKey> for PayeePubKey {
    open spec fn obeys_from_spec() -> bool {
        true
    }

    open spec fn from_spec(pk: PublicKey) -> PayeePubKey {
        PayeePubKey(pk)
    }
}

impl core::ops::Deref for Description {
    type Target = str;

    fn deref(&self) -> (res: &str)
        ensures
            res@ == self@,
    {
        self.as_str()
    }
}

impl core::ops::Deref for Route {
    type Target = Vec<RouteHop>;

    fn deref(&self) -> (res: &Vec<RouteHop>)
        ensures
            res@ == self@,
    {
        self.hops()
    }
}

impl core::ops::Deref for PayeePubKey {
    type Target = PublicKey;

    fn deref(&self) -> (res: &PublicKey)
        ensures
            *res == self.0,
    {
        &self.0
    }
}

impl core::ops::Deref for SignedRawInvoice {
    type Target = RawInvoice;

    fn deref(&self) -> (res: &RawInvoice)
        ensures
            *res == self.raw_invoice,
    {
        &self.raw_invoice
    }
}

} // verus!
