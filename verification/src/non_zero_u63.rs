use vstd::prelude::*;

verus! {

/// A wrapper type for a `u64` that is both non-zero and less than `2^63`.
///
/// Every value of this type satisfies `1 <= value <= 2^63 - 1`: the payload
/// is never zero and never has its top bit set. The invariant is established
/// at construction and holds for the whole life of the value.
#[derive(Debug, Copy, Clone, Eq, PartialEq, Ord, PartialOrd, Hash)]
pub struct NonZeroU63(u64);

impl NonZeroU63 {
    /// The width of the permitted range: the payload fits in 63 bits.
    pub const BITS: u32 = 63;

    /// The smallest permitted payload.
    pub const MIN: u64 = 1;

    /// The largest permitted payload, `2^63 - 1`.
    pub const MAX: u64 = 0x7fff_ffff_ffff_ffff;

    /// The wrapped payload, for use in specifications.
    pub closed spec fn spec_get(self) -> u64 {
        self.0
    }

    #[verifier::type_invariant]
    spec fn range_invariant(self) -> bool {
        1 <= self.0 <= 0x7fff_ffff_ffff_ffff
    }

    /// Make a new `NonZeroU63`, without a runtime check.
    ///
    /// The caller must establish that the input value is in range
    /// `[1, 2^63 - 1]`; the precondition states exactly that.
    #[must_use]
    pub fn new_unchecked(n: u64) -> (r: Self)
        requires
            1 <= n <= 0x7fff_ffff_ffff_ffff,
        ensures
            r.spec_get() == n,
    {
        Self(n)
    }

    /// Make a new `NonZeroU63`.
    ///
    /// The input value must be in range `[1, 2^63 - 1]`, otherwise `None`
    /// will be returned.
    #[must_use]
    pub fn new(n: u64) -> (r: Option<Self>)
        ensures
            r is Some <==> 1 <= n <= 0x7fff_ffff_ffff_ffff,
            r is Some ==> r.unwrap().spec_get() == n,
    {
        if n >= Self::MIN && n <= Self::MAX {
            Some(Self(n))
        } else {
            None
        }
    }

    /// Return the raw payload, which is always in range `[1, 2^63 - 1]`.
    pub fn get(self) -> (r: u64)
        ensures
            r == self.spec_get(),
            1 <= r <= 0x7fff_ffff_ffff_ffff,
    {
        proof {
            use_type_invariant(&self);
        }
        self.0
    }
}

} // verus!
