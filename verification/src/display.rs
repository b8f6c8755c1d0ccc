//! Short textual labels for ports and the color split used to paint typed
//! pins.

use crate::types::{AccessMode, Ty};
use vstd::prelude::*;
use vstd::string::StringExecFns;

verus! {

/// The sigil a value's access mode is written with.
pub open spec fn spec_mode_prefix(mode: AccessMode) -> Seq<char> {
    match mode {
        AccessMode::Owned => ""@,
        AccessMode::SharedRef => "&"@,
        AccessMode::ExclusiveRef => "&mut "@,
    }
}

/// The word a semantic type is written as.
pub open spec fn spec_ty_word(ty: Ty) -> Seq<char> {
    match ty {
        Ty::I32 => "i32"@,
        Ty::Text => "text"@,
        Ty::StructTy(_) => "struct"@,
        Ty::ListTy => "list"@,
        Ty::QueryTy => "query"@,
    }
}

/// A short human-readable representation.
pub trait TraitExtTuple {
    /// What the representation reads.
    spec fn spec_string_rep(&self) -> Seq<char>;

    /// The representation itself.
    fn get_string_rep(&self) -> (r: String)
        ensures
            r@ == self.spec_string_rep(),
    ;
}

impl TraitExtTuple for (Ty, AccessMode) {
    /// A typed port reads as its mode's sigil followed by its type's word.
    open spec fn spec_string_rep(&self) -> Seq<char> {
        spec_mode_prefix(self.1) + spec_ty_word(self.0)
    }

    fn get_string_rep(&self) -> (r: String)
        ensures
            r@ == self.spec_string_rep(),
    {
        let prefix = match self.1 {
            AccessMode::Owned => "",
            AccessMode::SharedRef => "&",
            AccessMode::ExclusiveRef => "&mut ",
        };
        let word = match self.0 {
            Ty::I32 => "i32",
            Ty::Text => "text",
            Ty::StructTy(_) => "struct",
            Ty::ListTy => "list",
            Ty::QueryTy => "query",
        };
        String::from_str(prefix).concat(word)
    }
}

/// Splits a hash into three color channels that together always reach full
/// brightness: the low, middle and high bits of `value` are taken, and if
/// their sum falls short of 255 the channel selected by the high bits is
/// raised to make up exactly the difference.
pub fn split_u64_to_u8s(value: u64) -> (r: (u8, u8, u8))
    ensures
        ({
            let lo = (value & 0xff) as u8;
            let mid = ((value >> 10) & 0xff) as u8;
            let hi = ((value >> 54) & 0xff) as u8;
            if lo + mid + hi >= 255 {
                r == (lo, mid, hi)
            } else if hi % 3 == 0 {
                r == (((255 - mid - hi) as u8, mid, hi))
            } else if hi % 3 == 1 {
                r == ((lo, (255 - lo - hi) as u8, hi))
            } else {
                r == ((lo, mid, (255 - lo - mid) as u8))
            }
        }),
        r.0 + r.1 + r.2 >= 255,
{
    let lo = (value & 0xff) as u8;
    let mid = ((value >> 10) & 0xff) as u8;
    let hi = ((value >> 54) & 0xff) as u8;
    proof {
        assert(value & 0xff <= 0xff) by (bit_vector);
        assert((value >> 10) & 0xff <= 0xff) by (bit_vector);
        assert((value >> 54) & 0xff <= 0xff) by (bit_vector);
    }
    let total: u32 = lo as u32 + mid as u32 + hi as u32;
    if total >= 255 {
        return (lo, mid, hi);
    }
    if hi % 3 == 0 {
        ((255 - mid as u32 - hi as u32) as u8, mid, hi)
    } else if hi % 3 == 1 {
        (lo, (255 - lo as u32 - hi as u32) as u8, hi)
    } else {
        (lo, mid, (255 - lo as u32 - mid as u32) as u8)
    }
}

} // verus!
