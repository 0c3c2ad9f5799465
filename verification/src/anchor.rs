//! The edges and centres a widget can be anchored to, as a set of flags.
use vstd::prelude::*;

verus! {

/// The bits that name a flag: `Left`, `Right`, `Top`, `Bottom`, `Center`,
/// `VerticalCenter` and `HorizontalCenter`, in that order from bit 0.
pub open spec fn known_bits(b: u8) -> bool {
    b < 128
}

/// The bit of each flag, in declaration order.
pub open spec fn flag_bits() -> Seq<u8> {
    seq![1u8, 2u8, 4u8, 8u8, 16u8, 32u8, 64u8]
}

/// A set of anchor flags.
#[derive(Debug, Default, Clone, Copy, PartialEq, Eq, Structural)]
pub struct Anchor {
    bits: u8,
}

impl View for Anchor {
    type V = u8;

    closed spec fn view(&self) -> u8 {
        self.bits
    }
}

pub open spec fn spec_contains(a: u8, b: u8) -> bool {
    a & b == b
}

impl Anchor {
    #[verifier::type_invariant]
    spec fn only_known_bits(self) -> bool {
        known_bits(self.bits)
    }

    /// The anchor holding the flags of `bits`, without bits that name no
    /// flag.
    pub fn from_bits_truncate(bits: u8) -> (r: Anchor)
        ensures
            r@ == bits & 0x7fu8,
    {
        let b = bits & 0x7fu8;
        assert(b < 128) by (bit_vector)
            requires
                b == bits & 0x7fu8,
        ;
        Anchor { bits: b }
    }

    pub fn bits(&self) -> (r: u8)
        ensures
            r == self@,
            known_bits(r),
    {
        proof {
            use_type_invariant(self);
        }
        self.bits
    }

    pub fn empty() -> (r: Anchor)
        ensures
            r@ == 0,
    {
        Anchor { bits: 0 }
    }

    pub fn left() -> (r: Anchor)
        ensures
            r@ == 1,
    {
        Anchor { bits: 1 }
    }

    pub fn right() -> (r: Anchor)
        ensures
            r@ == 2,
    {
        Anchor { bits: 2 }
    }

    pub fn top() -> (r: Anchor)
        ensures
            r@ == 4,
    {
        Anchor { bits: 4 }
    }

    pub fn bottom() -> (r: Anchor)
        ensures
            r@ == 8,
    {
        Anchor { bits: 8 }
    }

    pub fn center() -> (r: Anchor)
        ensures
            r@ == 16,
    {
        Anchor { bits: 16 }
    }

    pub fn vertical_center() -> (r: Anchor)
        ensures
            r@ == 32,
    {
        Anchor { bits: 32 }
    }

    pub fn horizontal_center() -> (r: Anchor)
        ensures
            r@ == 64,
    {
        Anchor { bits: 64 }
    }

    /// Every flag of `other` is set in `self`.
    pub fn contains(&self, other: &Anchor) -> (r: bool)
        ensures
            r == spec_contains(self@, other@),
    {
        self.bits & other.bits == other.bits
    }

    /// The flags set in either anchor.
    pub fn union(&self, other: &Anchor) -> (r: Anchor)
        ensures
            r@ == self@ | other@,
    {
        proof {
            use_type_invariant(self);
            use_type_invariant(other);
        }
        let a = self.bits;
        let b = other.bits;
        let u = a | b;
        assert(u < 128) by (bit_vector)
            requires
                u == a | b,
                a < 128,
                b < 128,
        ;
        Anchor { bits: u }
    }

    /// The flags that are set, one anchor each, in the order the flags are
    /// declared (from bit 0 up).
    pub fn iter(&self) -> (r: Vec<Anchor>)
        ensures
            r@.map_values(|a: Anchor| a@) == set_flags(self@),
    {
        let flags: [u8; 7] = [1u8, 2u8, 4u8, 8u8, 16u8, 32u8, 64u8];
        assert(flags@ =~= flag_bits());
        let ghost pred = |f: u8| spec_contains(self@, f);
        let mut out: Vec<Anchor> = Vec::new();
        let mut k: usize = 0;
        while k < 7
            invariant
                k <= 7,
                flags@ == flag_bits(),
                pred == (|f: u8| spec_contains(self@, f)),
                out@.map_values(|a: Anchor| a@) == flag_bits().take(k as int).filter(pred),
            decreases 7 - k,
        {
            let flag = flags[k];
            let ghost before = out@;
            assert(flag_bits().take(k + 1).drop_last() =~= flag_bits().take(k as int));
            assert(flag_bits().take(k + 1).last() == flag);
            reveal_with_fuel(Seq::filter, 1);
            if self.bits & flag == flag {
                out.push(Anchor { bits: flag });
                assert(out@.map_values(|a: Anchor| a@) =~= before.map_values(|a: Anchor| a@).push(flag));
            } else {
                assert(out@ == before);
            }
            k = k + 1;
        }
        assert(flag_bits().take(7) =~= flag_bits());
        out
    }
}

/// The flags of `bits` that are set, in declaration order.
pub open spec fn set_flags(bits: u8) -> Seq<u8> {
    flag_bits().filter(|f: u8| spec_contains(bits, f))
}


/// The union of two anchors contains each of them.
pub proof fn law_union_contains_both(a: u8, b: u8)
    ensures
        spec_contains(a | b, a),
        spec_contains(a | b, b),
{
    assert((a | b) & a == a) by (bit_vector);
    assert((a | b) & b == b) by (bit_vector);
}

} // verus!
