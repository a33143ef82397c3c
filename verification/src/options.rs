//! The options of a `CMake2` struct: one per named field, with the keyword
//! that introduces it in a CMake command and the name of its parser mode.

use vstd::prelude::*;
use crate::attribute::{CMakeAttribute, CMakeAttributeView, cmake_attribute_or_none, settings_fit};
use crate::error::DeriveError;
use crate::input::{DataDecl, MemberDecl, members_well_formed};
use crate::text::{pascal_case_of, to_pascal_case, to_uppercase, uppercase_of};

verus! {

/// One field of a struct, as the generated parser sees it.
pub struct CMakeOption {
    /// The field's name.
    pub id: String,
    /// The settings of the field's `cmake` attribute.
    pub attr: CMakeAttribute,
    /// The parser-mode variant for the field: the name in PascalCase.
    pub mode: String,
    /// The keyword that introduces the field.
    pub keyword: String,
}

/// The mathematical value of a `CMakeOption`.
pub struct CMakeOptionView {
    pub id: Seq<char>,
    pub attr: CMakeAttributeView,
    pub mode: Seq<char>,
    pub keyword: Seq<char>,
}

impl View for CMakeOption {
    type V = CMakeOptionView;

    open spec fn view(&self) -> CMakeOptionView {
        CMakeOptionView { id: self.id@, attr: self.attr@, mode: self.mode@, keyword: self.keyword@ }
    }
}

pub open spec fn options_view(s: Seq<CMakeOption>) -> Seq<CMakeOptionView> {
    s.map_values(|o: CMakeOption| o@)
}

/// The keyword of a struct field: the `rename` setting, or else the field's
/// name in upper case.
pub open spec fn field_keyword(id: Seq<char>, attr: CMakeAttributeView) -> Seq<char> {
    match attr.rename {
        Some(r) => r,
        None => uppercase_of(id),
    }
}

/// `o` is the option that a named field gives: its name, settings that fit
/// the field's attributes, the PascalCase mode and the field's keyword.
pub open spec fn option_fits(o: CMakeOptionView, m: MemberDecl) -> bool {
    &&& o.id == m.ident@
    &&& settings_fit(o.attr, m.attrs@)
    &&& o.mode == pascal_case_of(m.ident@)
    &&& o.keyword == field_keyword(m.ident@, o.attr)
    &&& (o.attr.rename matches Some(r) ==> o.keyword == r)
    &&& (o.attr.rename is None ==> o.keyword == uppercase_of(m.ident@))
}

/// `opts` are the options of the fields `ms`, in order.
pub open spec fn options_fit(opts: Seq<CMakeOptionView>, ms: Seq<MemberDecl>) -> bool {
    &&& opts.len() == ms.len()
    &&& forall|i: int| 0 <= i < opts.len() ==> option_fits(#[trigger] opts[i], ms[i])
}

/// `CMake2` reads the type's fields: the type must not be an enum (reading
/// an enum's variants is not implemented and panics), and the fields'
/// attributes must be readable.
pub open spec fn fields_readable(d: DataDecl) -> bool {
    match d {
        DataDecl::StructNamed(fs) => members_well_formed(fs@),
        DataDecl::Enum(_) => false,
        _ => true,
    }
}

/// The refusal, if any, that the type's shape earns.
pub open spec fn shape_error(d: DataDecl) -> Option<DeriveError> {
    match d {
        DataDecl::StructUnnamed => Some(DeriveError::UnnamedFields),
        DataDecl::StructUnit => Some(DeriveError::UnitFields),
        DataDecl::Union => Some(DeriveError::Union),
        _ => None,
    }
}

/// Whether the type's shape earns no refusal and its fields can be read:
/// whether `CMake2` accepts it.
pub fn fields_are_readable(d: &DataDecl) -> (r: bool)
    ensures
        r == fields_readable(*d),
{
    match d {
        DataDecl::StructNamed(fs) => crate::input::members_are_well_formed(fs),
        DataDecl::Enum(_) => false,
        _ => true,
    }
}

impl CMakeOption {
    /// The option of one named field.
    pub fn from_field(field: &MemberDecl) -> (r: CMakeOption)
        requires
            crate::attribute::attrs_well_formed(field.attrs@),
        ensures
            option_fits(r@, *field),
    {
        let attr = cmake_attribute_or_none(&field.attrs);
        let id = field.ident.clone();
        let mode = to_pascal_case(id.as_str());
        let keyword = match &attr.rename {
            Some(r) => r.clone(),
            None => to_uppercase(id.as_str()),
        };
        CMakeOption { id, attr, mode, keyword }
    }

    /// The options of a struct's named fields, in the fields' order.
    pub fn from_fields_named(fields: &Vec<MemberDecl>) -> (r: Vec<CMakeOption>)
        requires
            members_well_formed(fields@),
        ensures
            options_fit(options_view(r@), fields@),
    {
        let mut r: Vec<CMakeOption> = Vec::new();
        let mut i: usize = 0;
        while i < fields.len()
            invariant
                i <= fields@.len(),
                members_well_formed(fields@),
                options_fit(options_view(r@), fields@.take(i as int)),
            decreases fields@.len() - i,
        {
            let o = CMakeOption::from_field(&fields[i]);
            proof {
                assert(options_view(r@.push(o)) =~= options_view(r@).push(o@));
                assert forall|k: int| 0 <= k <= i implies option_fits(
                    #[trigger] options_view(r@.push(o))[k],
                    fields@.take(i + 1)[k],
                ) by {
                    if k < i {
                        assert(options_view(r@)[k] == options_view(r@.push(o))[k]);
                        assert(fields@.take(i as int)[k] == fields@.take(i + 1)[k]);
                    }
                }
            }
            r.push(o);
            i += 1;
        }
        assert(fields@.take(fields@.len() as int) =~= fields@);
        r
    }
}

/// The options of a struct with named fields, or the refusal that its shape
/// earns.
pub fn to_cmake_fields(data: &DataDecl) -> (r: Result<Vec<CMakeOption>, DeriveError>)
    requires
        fields_readable(*data),
    ensures
        match *data {
            DataDecl::StructNamed(fs) => r matches Ok(v) && options_fit(options_view(v@), fs@),
            _ => r == Err::<Vec<CMakeOption>, DeriveError>(shape_error(*data).unwrap()),
        },
{
    match data {
        DataDecl::StructNamed(fields) => Ok(CMakeOption::from_fields_named(fields)),
        DataDecl::StructUnnamed => Err(DeriveError::UnnamedFields),
        DataDecl::StructUnit => Err(DeriveError::UnitFields),
        DataDecl::Union => Err(DeriveError::Union),
        DataDecl::Enum(_) => {
            // excluded by the precondition
            assert(false);
            Err(DeriveError::Union)
        },
    }
}

} // verus!
