//! `CMake`: the `CMakeCommand` implementation that is generated for a struct
//! with named fields (one keyword per field) or for an enum (one keyword per
//! variant).

use vstd::prelude::*;
use crate::attribute::{
    CMakeAttribute, attrs_well_formed, cmake_attribute_or_none, declared_settings, opt_view, pkg_fits,
};
use crate::error::DeriveError;
use crate::input::{DataDecl, DeriveInputDecl, MemberDecl, members_well_formed};
use crate::options::{field_keyword, shape_error};
use crate::text::{constant_case_of, to_constant_case, to_uppercase};

verus! {

/// A field or variant and the keyword that stands for it.
pub struct KeywordEntry {
    pub id: String,
    pub keyword: String,
}

/// The generated `CMakeCommand` implementation.
pub enum CommandPlan {
    /// For a struct: every field is read by its keyword.
    Struct(Vec<KeywordEntry>),
    /// For an enum: a keyword selects its variant.
    Enum(Vec<KeywordEntry>),
}

/// What `CMake` generates for a type.
pub struct DerivePlan {
    /// The path of the crate that the generated code names, when it is not
    /// the default `::cmake_parser`.
    pub pkg: Option<String>,
    pub body: CommandPlan,
}

/// The keyword of an enum variant: the `rename` setting, or else the
/// variant's name in CONSTANT_CASE.
pub open spec fn variant_keyword(id: Seq<char>, rename: Option<Seq<char>>) -> Seq<char> {
    match rename {
        Some(r) => r,
        None => constant_case_of(id),
    }
}

/// The keyword that `CMake` gives a member: a field's as in `field_keyword`,
/// a variant's as in `variant_keyword`.
pub open spec fn member_keyword(m: MemberDecl, is_variant: bool) -> Seq<char> {
    let attr = declared_settings(m.attrs@);
    if is_variant {
        variant_keyword(m.ident@, attr.rename)
    } else {
        field_keyword(m.ident@, attr)
    }
}

/// `es` names the members `ms` in order, each with its keyword.
pub open spec fn entries_for(es: Seq<KeywordEntry>, ms: Seq<MemberDecl>, is_variant: bool) -> bool {
    &&& es.len() == ms.len()
    &&& forall|i: int|
        0 <= i < es.len() ==> {
            &&& (#[trigger] es[i]).id@ == ms[i].ident@
            &&& es[i].keyword@ == member_keyword(ms[i], is_variant)
            &&& (declared_settings(ms[i].attrs@).rename matches Some(r) ==> es[i].keyword@ == r)
        }
}

/// `CMake` reads the attributes of the fields or variants.
pub open spec fn members_readable(d: DataDecl) -> bool {
    match d {
        DataDecl::StructNamed(fs) => members_well_formed(fs@),
        DataDecl::Enum(vs) => members_well_formed(vs@),
        _ => true,
    }
}

/// Whether `CMake` can read the attributes of the fields or variants.
pub fn members_are_readable(d: &DataDecl) -> (r: bool)
    ensures
        r == members_readable(*d),
{
    match d {
        DataDecl::StructNamed(fs) => crate::input::members_are_well_formed(fs),
        DataDecl::Enum(vs) => crate::input::members_are_well_formed(vs),
        _ => true,
    }
}

/// The members with their keywords, in order.
pub fn keyword_entries(members: &Vec<MemberDecl>, is_variant: bool) -> (r: Vec<KeywordEntry>)
    requires
        members_well_formed(members@),
    ensures
        entries_for(r@, members@, is_variant),
{
    let mut r: Vec<KeywordEntry> = Vec::new();
    let mut i: usize = 0;
    while i < members.len()
        invariant
            i <= members@.len(),
            members_well_formed(members@),
            r@.len() == i,
            forall|k: int|
                0 <= k < i ==> {
                    &&& (#[trigger] r@[k]).id@ == members@[k].ident@
                    &&& r@[k].keyword@ == member_keyword(members@[k], is_variant)
                },
        decreases members@.len() - i,
    {
        let m = &members[i];
        let attr = cmake_attribute_or_none(&m.attrs);
        let id = m.ident.clone();
        let keyword = match &attr.rename {
            Some(name) => name.clone(),
            None => if is_variant {
                to_constant_case(id.as_str())
            } else {
                to_uppercase(id.as_str())
            },
        };
        r.push(KeywordEntry { id, keyword });
        i += 1;
    }
    r
}

/// What `CMake` generates for the type's shape: the keyword of every field
/// of a struct, or of every variant of an enum.
pub open spec fn command_plan_for(p: CommandPlan, d: DataDecl) -> bool {
    match d {
        DataDecl::StructNamed(fs) => p matches CommandPlan::Struct(es) && entries_for(es@, fs@, false),
        DataDecl::Enum(vs) => p matches CommandPlan::Enum(es) && entries_for(es@, vs@, true),
        _ => false,
    }
}

/// The implementation for the type's shape, or the refusal that the shape
/// earns.
pub fn impl_cmake(data: &DataDecl) -> (r: Result<CommandPlan, DeriveError>)
    requires
        members_readable(*data),
    ensures
        match r {
            Ok(p) => shape_error(*data) is None && command_plan_for(p, *data),
            Err(e) => shape_error(*data) == Some(e),
        },
{
    match data {
        DataDecl::StructNamed(fields) => Ok(CommandPlan::Struct(keyword_entries(fields, false))),
        DataDecl::StructUnnamed => Err(DeriveError::UnnamedFields),
        DataDecl::StructUnit => Err(DeriveError::UnitFields),
        DataDecl::Enum(variants) => Ok(CommandPlan::Enum(keyword_entries(variants, true))),
        DataDecl::Union => Err(DeriveError::Union),
    }
}

/// What `CMake` generates for a type's shape, given the settings read from
/// the type's attributes: the plan names the settings' crate path; no other
/// setting of the type changes it.
pub fn command_plan(attr: &CMakeAttribute, data: &DataDecl) -> (r: Result<DerivePlan, DeriveError>)
    requires
        members_readable(*data),
    ensures
        match r {
            Ok(p) => {
                &&& shape_error(*data) is None
                &&& opt_view(p.pkg) == attr@.pkg
                &&& command_plan_for(p.body, *data)
            },
            Err(e) => shape_error(*data) == Some(e),
        },
{
    let body = match impl_cmake(data) {
        Ok(b) => b,
        Err(e) => {
            return Err(e);
        },
    };
    let pkg = match &attr.pkg {
        Some(p) => Some(p.clone()),
        None => None,
    };
    Ok(DerivePlan { pkg, body })
}

/// The `CMake` derive: reads the settings of the type's attributes and
/// returns what is generated for the type, or the refusal that its shape
/// earns.
pub fn cmake_derive(input: &DeriveInputDecl) -> (r: Result<DerivePlan, DeriveError>)
    requires
        attrs_well_formed(input.attrs@),
        members_readable(input.data),
    ensures
        match r {
            Ok(p) => {
                &&& shape_error(input.data) is None
                &&& pkg_fits(opt_view(p.pkg), input.attrs@)
                &&& command_plan_for(p.body, input.data)
            },
            Err(e) => shape_error(input.data) == Some(e),
        },
{
    let attr = cmake_attribute_or_none(&input.attrs);
    command_plan(&attr, &input.data)
}

} // verus!
