//! The parts of a derive input that the derives read: the type's
//! attributes, and its fields or variants with their names and attributes.

use vstd::prelude::*;
use crate::attribute::{AttrDecl, attrs_well_formed};

verus! {

/// A named field of a struct, or a variant of an enum.
pub struct MemberDecl {
    /// The identifier as written (`to_string` of the identifier).
    pub ident: String,
    pub attrs: Vec<AttrDecl>,
}

/// The shape of the type that a derive is applied to.
pub enum DataDecl {
    /// A struct with named fields.
    StructNamed(Vec<MemberDecl>),
    /// A tuple struct.
    StructUnnamed,
    /// A unit struct.
    StructUnit,
    /// An enum, with its variants.
    Enum(Vec<MemberDecl>),
    /// A union.
    Union,
}

/// The input of a derive.
pub struct DeriveInputDecl {
    /// The attributes on the type.
    pub attrs: Vec<AttrDecl>,
    pub data: DataDecl,
}

/// Every member's attributes can be read.
pub open spec fn members_well_formed(ms: Seq<MemberDecl>) -> bool {
    forall|i: int| 0 <= i < ms.len() ==> attrs_well_formed(#[trigger] ms[i].attrs@)
}

/// Whether the attributes of every member can be read.
pub fn members_are_well_formed(ms: &Vec<MemberDecl>) -> (r: bool)
    ensures
        r == members_well_formed(ms@),
{
    let mut i: usize = 0;
    while i < ms.len()
        invariant
            i <= ms@.len(),
            forall|k: int| 0 <= k < i ==> attrs_well_formed(#[trigger] ms@[k].attrs@),
        decreases ms@.len() - i,
    {
        if !crate::attribute::attrs_are_well_formed(&ms[i].attrs) {
            return false;
        }
        i += 1;
    }
    true
}

} // verus!
