use vstd::prelude::*;

verus! {

/// An integer in the range `0..32`: one character of a bech32 data part.
#[derive(Clone, Copy, PartialEq, Eq, Debug)]
pub struct U5(u8);

impl View for U5 {
    type V = u8;

    closed spec fn view(&self) -> u8 {
        self.0
    }
}

impl U5 {
    #[verifier::type_invariant]
    spec fn in_range(self) -> bool {
        self.0 < 32
    }

    /// Converts `value` into a `U5` if it is smaller than 32.
    pub fn try_from_u8(value: u8) -> (res: Option<U5>)
        ensures
            res is Some <==> value < 32,
            res matches Some(v) ==> v@ == value,
    {
        if value < 32 {
            Some(U5(value))
        } else {
            None
        }
    }

    /// Builds a `U5` from a value known to be in range.
    pub fn from_u8_in_range(value: u8) -> (res: U5)
        requires
            value < 32,
        ensures
            res@ == value,
    {
        U5(value)
    }

    /// The value as a `u8`.
    pub fn to_u8(self) -> (res: u8)
        ensures
            res == self@,
            res < 32,
    {
        proof {
            use_type_invariant(&self);
        }
        self.0
    }
}

/// The values of a sequence of `U5`s.
pub open spec fn u5_values(s: Seq<U5>) -> Seq<u8> {
    s.map_values(|x: U5| x@)
}

/// Every value of `s` fits in five bits.
pub open spec fn all_five_bit(s: Seq<u8>) -> bool {
    forall|i: int| 0 <= i < s.len() ==> #[trigger] s[i] < 32
}

} // verus!
