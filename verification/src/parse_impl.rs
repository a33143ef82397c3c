//! `CMake2`: the `cmake_parse` implementation that is generated for a struct
//! with named fields, either positional (every field read in order) or
//! regular (fields introduced by keywords, positional fields first).

use vstd::prelude::*;
use crate::attribute::{
    CMakeAttribute, CMakeAttributeView, attrs_well_formed, cmake_attribute_or_none, opt_view,
    settings_fit,
};
use crate::error::DeriveError;
use crate::input::{DataDecl, DeriveInputDecl};
use crate::options::{
    CMakeOption, CMakeOptionView, fields_readable, options_fit, options_view, shape_error,
    to_cmake_fields,
};
use crate::text::{pascal_case_of, to_pascal_case};

verus! {

/// The options that are read in order, without a keyword.
pub open spec fn positional_part(s: Seq<CMakeOptionView>) -> Seq<CMakeOptionView>
    decreases s.len(),
{
    if s.len() == 0 {
        Seq::empty()
    } else if s.last().attr.positional {
        positional_part(s.drop_last()).push(s.last())
    } else {
        positional_part(s.drop_last())
    }
}

/// The options that a keyword introduces.
pub open spec fn regular_part(s: Seq<CMakeOptionView>) -> Seq<CMakeOptionView>
    decreases s.len(),
{
    if s.len() == 0 {
        Seq::empty()
    } else if s.last().attr.positional {
        regular_part(s.drop_last())
    } else {
        regular_part(s.drop_last()).push(s.last())
    }
}

/// Splits the options into the positional ones and the regular ones, each
/// in the order given.
pub fn partition_positional(fields: Vec<CMakeOption>) -> (r: (Vec<CMakeOption>, Vec<CMakeOption>))
    ensures
        options_view(r.0@) == positional_part(options_view(fields@)),
        options_view(r.1@) == regular_part(options_view(fields@)),
        options_view(r.0@) == options_view(fields@).filter(|o: CMakeOptionView| o.attr.positional),
        options_view(r.1@) == options_view(fields@).filter(|o: CMakeOptionView| !o.attr.positional),
{
    let ghost orig = options_view(fields@);
    let mut rest = fields;
    let mut pos: Vec<CMakeOption> = Vec::new();
    let mut reg: Vec<CMakeOption> = Vec::new();
    assert(orig.take(0) =~= Seq::<CMakeOptionView>::empty());
    assert(options_view(rest@) =~= orig.skip(0));
    while rest.len() > 0
        invariant
            rest@.len() <= orig.len(),
            options_view(rest@) == orig.skip(orig.len() - rest@.len()),
            options_view(pos@) == positional_part(orig.take(orig.len() - rest@.len())),
            options_view(reg@) == regular_part(orig.take(orig.len() - rest@.len())),
        decreases rest@.len(),
    {
        let ghost k = orig.len() - rest@.len();
        let ghost before = rest@;
        let o = rest.remove(0);
        proof {
            assert(options_view(before)[0] == o@);
            assert(orig[k] == o@);
            assert(orig.take(k + 1) =~= orig.take(k).push(o@));
            assert(orig.take(k + 1).drop_last() =~= orig.take(k));
            assert(rest@ =~= before.drop_first());
            assert(options_view(before.drop_first()) =~= options_view(before).drop_first());
            assert(orig.skip(k).drop_first() =~= orig.skip(k + 1));
            assert(options_view(rest@) =~= orig.skip(k + 1));
        }
        if o.attr.positional {
            proof {
                assert(options_view(pos@.push(o)) =~= options_view(pos@).push(o@));
            }
            pos.push(o);
        } else {
            proof {
                assert(options_view(reg@.push(o)) =~= options_view(reg@).push(o@));
            }
            reg.push(o);
        }
    }
    assert(orig.take(orig.len() as int) =~= orig);
    proof {
        crate::laws::law_partition_keeps_declaration_order(orig);
    }
    (pos, reg)
}

/// One `let` of a positional field in the generated code: the field is read
/// from the tokens by its keyword, and the rest of the tokens is bound to
/// `tokens` again, mutably for the last field only.
pub struct PositionalVarDef {
    pub id: String,
    pub keyword: String,
    /// The rebinding of `tokens` is `mut`.
    pub rebinds_mut: bool,
}

/// `defs` reads the options `opts` in order, and only the last one rebinds
/// `tokens` mutably.
pub open spec fn var_defs_for(defs: Seq<PositionalVarDef>, opts: Seq<CMakeOptionView>) -> bool {
    &&& defs.len() == opts.len()
    &&& forall|i: int|
        0 <= i < defs.len() ==> {
            &&& (#[trigger] defs[i]).id@ == opts[i].id
            &&& defs[i].keyword@ == opts[i].keyword
            &&& defs[i].rebinds_mut == (i == defs.len() - 1)
        }
}

/// The `let`s that read the positional fields, in order.
pub fn positional_var_defs(fields: &Vec<CMakeOption>) -> (r: Vec<PositionalVarDef>)
    ensures
        var_defs_for(r@, options_view(fields@)),
{
    let n = fields.len();
    let mut r: Vec<PositionalVarDef> = Vec::new();
    let mut i: usize = 0;
    while i < n
        invariant
            n == fields@.len(),
            i <= n,
            r@.len() == i,
            forall|k: int|
                0 <= k < i ==> {
                    &&& (#[trigger] r@[k]).id@ == fields@[k].id@
                    &&& r@[k].keyword@ == fields@[k].keyword@
                    &&& r@[k].rebinds_mut == (k == n - 1)
                },
        decreases n - i,
    {
        r.push(
            PositionalVarDef {
                id: fields[i].id.clone(),
                keyword: fields[i].keyword.clone(),
                rebinds_mut: i == n - 1,
            },
        );
        i += 1;
    }
    r
}

/// The generated `cmake_parse` of a positional struct.
pub struct PositionalPlan {
    /// The `let`s that read the fields, in order.
    pub var_defs: Vec<PositionalVarDef>,
    /// The `tokens` parameter is declared `mut`.
    pub tokens_mut: bool,
}

/// The generated `cmake_parse` of a struct whose fields are introduced by
/// keywords.
pub struct RegularPlan {
    /// The `let`s that read the positional fields first, in order.
    pub positional: Vec<PositionalVarDef>,
    /// The fields introduced by keywords, in order; each has a parser mode.
    pub regular: Vec<CMakeOption>,
    /// The parser mode before any keyword has been seen.
    pub mode_default: Option<String>,
    /// The `tokens` parameter is declared `mut`.
    pub tokens_mut: bool,
}

pub enum ParseImplPlan {
    Positional(PositionalPlan),
    Regular(RegularPlan),
}

/// What `CMake2` generates for a type.
pub struct Derive2Plan {
    /// The path of the crate that the generated code names, when it is not
    /// the default `::cmake_parser`.
    pub pkg: Option<String>,
    pub body: ParseImplPlan,
}

/// The parser mode that a `default` setting selects: the setting in PascalCase.
pub open spec fn mode_default_of(attr: CMakeAttributeView) -> Option<Seq<char>> {
    match attr.default {
        Some(d) => Some(pascal_case_of(d)),
        None => None,
    }
}

pub open spec fn positional_plan_for(p: PositionalPlan, opts: Seq<CMakeOptionView>) -> bool {
    &&& var_defs_for(p.var_defs@, opts)
    &&& !p.tokens_mut
}

pub open spec fn regular_plan_for(
    p: RegularPlan,
    attr: CMakeAttributeView,
    opts: Seq<CMakeOptionView>,
) -> bool {
    &&& var_defs_for(p.positional@, positional_part(opts))
    &&& options_view(p.regular@) == regular_part(opts)
    &&& opt_view(p.mode_default) == mode_default_of(attr)
    &&& p.tokens_mut == (positional_part(opts).len() == 0)
    &&& var_defs_for(p.positional@, opts.filter(|o: CMakeOptionView| o.attr.positional))
    &&& options_view(p.regular@) == opts.filter(|o: CMakeOptionView| !o.attr.positional)
    &&& (attr.default matches Some(d) ==> opt_view(p.mode_default) == Some(pascal_case_of(d)))
    &&& (attr.default is None ==> p.mode_default is None)
}

/// The plan of a positional struct with options `fields`.
pub fn impl_cmake_positional(fields: &Vec<CMakeOption>) -> (r: PositionalPlan)
    ensures
        positional_plan_for(r, options_view(fields@)),
{
    PositionalPlan { var_defs: positional_var_defs(fields), tokens_mut: false }
}

/// The plan of a keyword-driven struct with options `fields` and type
/// settings `attr`.
pub fn impl_cmake_regular(fields: Vec<CMakeOption>, attr: &CMakeAttribute) -> (r: RegularPlan)
    ensures
        regular_plan_for(r, attr@, options_view(fields@)),
{
    let (pos, reg) = partition_positional(fields);
    let positional = positional_var_defs(&pos);
    let mode_default = match &attr.default {
        Some(d) => Some(to_pascal_case(d.as_str())),
        None => None,
    };
    let tokens_mut = pos.len() == 0;
    RegularPlan { positional, regular: reg, mode_default, tokens_mut }
}

/// What `CMake2` generates for the type: for a positional type its fields
/// read in order, else its keyword-driven parser.
pub open spec fn derive2_plan_for(
    p: Derive2Plan,
    attr: CMakeAttributeView,
    opts: Seq<CMakeOptionView>,
) -> bool {
    &&& opt_view(p.pkg) == attr.pkg
    &&& if attr.positional {
        p.body matches ParseImplPlan::Positional(pp) && positional_plan_for(pp, opts)
    } else {
        p.body matches ParseImplPlan::Regular(rp) && regular_plan_for(rp, attr, opts)
    }
}

/// What `CMake2` generates for a type's shape, given the settings read from
/// the type's attributes: the plan names the settings' crate path and is
/// positional or keyword-driven as the settings say; a shape without named
/// fields is refused.
pub fn derive2_plan(attr: &CMakeAttribute, data: &DataDecl) -> (r: Result<Derive2Plan, DeriveError>)
    requires
        fields_readable(*data),
    ensures
        match *data {
            DataDecl::StructNamed(fs) => r matches Ok(p) && exists|opts: Seq<CMakeOptionView>|
                #![trigger derive2_plan_for(p, attr@, opts)]
                {
                    &&& options_fit(opts, fs@)
                    &&& derive2_plan_for(p, attr@, opts)
                },
            _ => r == Err::<Derive2Plan, DeriveError>(shape_error(*data).unwrap()),
        },
{
    let fields = match to_cmake_fields(data) {
        Ok(f) => f,
        Err(e) => {
            return Err(e);
        },
    };
    let ghost opts = options_view(fields@);
    let pkg = match &attr.pkg {
        Some(p) => Some(p.clone()),
        None => None,
    };
    let body = if attr.positional {
        ParseImplPlan::Positional(impl_cmake_positional(&fields))
    } else {
        ParseImplPlan::Regular(impl_cmake_regular(fields, attr))
    };
    let plan = Derive2Plan { pkg, body };
    assert(derive2_plan_for(plan, attr@, opts));
    Ok(plan)
}

/// The `CMake2` derive: reads the settings of the type's attributes and
/// returns what is generated for the type, or the refusal that its shape
/// earns.
pub fn cmake_derive2(input: &DeriveInputDecl) -> (r: Result<Derive2Plan, DeriveError>)
    requires
        attrs_well_formed(input.attrs@),
        fields_readable(input.data),
    ensures
        match input.data {
            DataDecl::StructNamed(fs) => r matches Ok(p) && exists|
                attr: CMakeAttributeView,
                opts: Seq<CMakeOptionView>,
            |
                #![trigger derive2_plan_for(p, attr, opts)]
                {
                    &&& settings_fit(attr, input.attrs@)
                    &&& options_fit(opts, fs@)
                    &&& derive2_plan_for(p, attr, opts)
                },
            _ => r == Err::<Derive2Plan, DeriveError>(shape_error(input.data).unwrap()),
        },
{
    let attr = cmake_attribute_or_none(&input.attrs);
    let r = derive2_plan(&attr, &input.data);
    proof {
        if input.data is StructNamed {
            let fs = input.data->StructNamed_0;
            let p = r.unwrap();
            let opts = choose|opts: Seq<CMakeOptionView>|
                #![trigger derive2_plan_for(p, attr@, opts)]
                options_fit(opts, fs@) && derive2_plan_for(p, attr@, opts);
            assert(derive2_plan_for(p, attr@, opts));
        }
    }
    r
}

} // verus!
