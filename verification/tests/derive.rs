use cmake_parser_derive::attribute::{AttrDecl, MetaArg};
use cmake_parser_derive::command_impl::{cmake_derive, CommandPlan};
use cmake_parser_derive::error::DeriveError;
use cmake_parser_derive::input::{DataDecl, DeriveInputDecl, MemberDecl};
use cmake_parser_derive::options::{to_cmake_fields, CMakeOption};
use cmake_parser_derive::parse_impl::{cmake_derive2, partition_positional, ParseImplPlan};

fn cmake(args: Vec<MetaArg>) -> AttrDecl {
    AttrDecl { path: Some("cmake".to_string()), args: Some(args) }
}

fn named(n: &str, v: &str) -> MetaArg {
    MetaArg::Str {
        name: n.to_string(),
        value: v.to_string(),
        suffix: String::new(),
    }
}

fn member(name: &str, attrs: Vec<AttrDecl>) -> MemberDecl {
    MemberDecl { ident: name.to_string(), attrs }
}

fn positional_member(name: &str) -> MemberDecl {
    member(name, vec![cmake(vec![MetaArg::Word("positional".to_string())])])
}

fn input(attrs: Vec<AttrDecl>, data: DataDecl) -> DeriveInputDecl {
    DeriveInputDecl { attrs, data }
}

#[test]
fn field_options_take_keyword_and_mode() {
    let fields = vec![
        member("output_name", vec![]),
        member("target", vec![cmake(vec![named("rename", "TGT")])]),
    ];
    let opts = CMakeOption::from_fields_named(&fields);
    assert_eq!(opts.len(), 2);
    assert_eq!(opts[0].id, "output_name");
    assert_eq!(opts[0].keyword, "OUTPUT_NAME");
    assert_eq!(opts[0].mode, "OutputName");
    assert_eq!(opts[1].keyword, "TGT");
    assert_eq!(opts[1].mode, "Target");
}

#[test]
fn shapes_that_are_refused() {
    assert_eq!(to_cmake_fields(&DataDecl::StructUnnamed).err(), Some(DeriveError::UnnamedFields));
    assert_eq!(to_cmake_fields(&DataDecl::StructUnit).err(), Some(DeriveError::UnitFields));
    assert_eq!(to_cmake_fields(&DataDecl::Union).err(), Some(DeriveError::Union));
    assert_eq!(cmake_derive2(&input(vec![], DataDecl::Union)).err(), Some(DeriveError::Union));
    assert_eq!(cmake_derive(&input(vec![], DataDecl::StructUnit)).err(), Some(DeriveError::UnitFields));
    assert_eq!(cmake_derive(&input(vec![], DataDecl::StructUnnamed)).err(), Some(DeriveError::UnnamedFields));
}

#[test]
fn positional_struct_rebinds_tokens_mut_on_last_field_only() {
    let data = DataDecl::StructNamed(vec![member("a", vec![]), member("b", vec![]), member("c", vec![])]);
    let plan = cmake_derive2(&input(vec![cmake(vec![MetaArg::Word("positional".to_string())])], data)).unwrap();
    assert_eq!(plan.pkg, None);
    match plan.body {
        ParseImplPlan::Positional(p) => {
            assert!(!p.tokens_mut);
            let ids: Vec<&str> = p.var_defs.iter().map(|d| d.id.as_str()).collect();
            assert_eq!(ids, vec!["a", "b", "c"]);
            let muts: Vec<bool> = p.var_defs.iter().map(|d| d.rebinds_mut).collect();
            assert_eq!(muts, vec![false, false, true]);
            assert_eq!(p.var_defs[1].keyword, "B");
        }
        ParseImplPlan::Regular(_) => panic!("expected a positional plan"),
    }
}

#[test]
fn regular_struct_reads_positional_fields_first() {
    let data = DataDecl::StructNamed(vec![
        member("sources", vec![]),
        positional_member("name"),
        member("output_dir", vec![]),
        positional_member("kind"),
    ]);
    let attrs = vec![cmake(vec![
        named("default", "sources"),
        named("pkg", "crate"),
    ])];
    let plan = cmake_derive2(&input(attrs, data)).unwrap();
    assert_eq!(plan.pkg.as_deref(), Some("crate"));
    match plan.body {
        ParseImplPlan::Regular(r) => {
            assert!(!r.tokens_mut);
            assert_eq!(r.mode_default.as_deref(), Some("Sources"));
            let pos: Vec<&str> = r.positional.iter().map(|d| d.id.as_str()).collect();
            assert_eq!(pos, vec!["name", "kind"]);
            let muts: Vec<bool> = r.positional.iter().map(|d| d.rebinds_mut).collect();
            assert_eq!(muts, vec![false, true]);
            let reg: Vec<&str> = r.regular.iter().map(|o| o.id.as_str()).collect();
            assert_eq!(reg, vec!["sources", "output_dir"]);
            assert_eq!(r.regular[1].mode, "OutputDir");
            assert_eq!(r.regular[1].keyword, "OUTPUT_DIR");
        }
        ParseImplPlan::Positional(_) => panic!("expected a regular plan"),
    }
}

#[test]
fn regular_struct_without_positional_fields_has_mut_tokens() {
    let data = DataDecl::StructNamed(vec![member("targets", vec![])]);
    let plan = cmake_derive2(&input(vec![], data)).unwrap();
    match plan.body {
        ParseImplPlan::Regular(r) => {
            assert!(r.tokens_mut);
            assert!(r.positional.is_empty());
            assert_eq!(r.mode_default, None);
            assert_eq!(r.regular.len(), 1);
        }
        ParseImplPlan::Positional(_) => panic!("expected a regular plan"),
    }
}

#[test]
fn partition_keeps_every_option_once() {
    let fields = vec![positional_member("a"), member("b", vec![]), positional_member("c"), member("d", vec![])];
    let opts = CMakeOption::from_fields_named(&fields);
    let (pos, reg) = partition_positional(opts);
    let pos: Vec<&str> = pos.iter().map(|o| o.id.as_str()).collect();
    let reg: Vec<&str> = reg.iter().map(|o| o.id.as_str()).collect();
    assert_eq!(pos, vec!["a", "c"]);
    assert_eq!(reg, vec!["b", "d"]);
}

#[test]
fn command_struct_keywords() {
    let data = DataDecl::StructNamed(vec![
        member("working_directory", vec![]),
        member("cmd", vec![cmake(vec![named("rename", "COMMAND")])]),
    ]);
    let plan = cmake_derive(&input(vec![], data)).unwrap();
    assert_eq!(plan.pkg, None);
    match plan.body {
        CommandPlan::Struct(es) => {
            assert_eq!(es.len(), 2);
            assert_eq!(es[0].id, "working_directory");
            assert_eq!(es[0].keyword, "WORKING_DIRECTORY");
            assert_eq!(es[1].id, "cmd");
            assert_eq!(es[1].keyword, "COMMAND");
        }
        CommandPlan::Enum(_) => panic!("expected a struct plan"),
    }
}

#[test]
fn command_enum_keywords() {
    let data = DataDecl::Enum(vec![
        member("SharedLibrary", vec![]),
        member("Static", vec![]),
        member("Module", vec![cmake(vec![named("rename", "MOD")])]),
    ]);
    let attrs = vec![cmake(vec![named("pkg", "crate")])];
    let plan = cmake_derive(&input(attrs, data)).unwrap();
    assert_eq!(plan.pkg.as_deref(), Some("crate"));
    match plan.body {
        CommandPlan::Enum(es) => {
            let kws: Vec<&str> = es.iter().map(|e| e.keyword.as_str()).collect();
            assert_eq!(kws, vec!["SHARED_LIBRARY", "STATIC", "MOD"]);
        }
        CommandPlan::Struct(_) => panic!("expected an enum plan"),
    }
}

#[test]
fn both_derives_agree_on_field_keywords() {
    let fields = vec![
        member("install_prefix", vec![]),
        member("x", vec![cmake(vec![named("rename", "Y")])]),
    ];
    let opts = CMakeOption::from_fields_named(&fields);
    let plan = cmake_derive(&input(vec![], DataDecl::StructNamed(fields))).unwrap();
    match plan.body {
        CommandPlan::Struct(es) => {
            for (e, o) in es.iter().zip(opts.iter()) {
                assert_eq!(e.keyword, o.keyword);
            }
        }
        CommandPlan::Enum(_) => panic!("expected a struct plan"),
    }
}

#[test]
fn derive2_plan_names_the_settings_crate_path() {
    let mut attr = cmake_parser_derive::attribute::CMakeAttribute::default();
    attr.pkg = Some("crate".to_string());
    attr.positional = true;
    let data = DataDecl::StructNamed(vec![member("a", vec![])]);
    let plan = cmake_parser_derive::parse_impl::derive2_plan(&attr, &data).unwrap();
    assert_eq!(plan.pkg.as_deref(), Some("crate"));
    match plan.body {
        ParseImplPlan::Positional(p) => {
            assert_eq!(p.var_defs.len(), 1);
            assert_eq!(p.var_defs[0].keyword, "A");
            assert!(p.var_defs[0].rebinds_mut);
        }
        ParseImplPlan::Regular(_) => panic!("expected a positional plan"),
    }
    let command = cmake_parser_derive::command_impl::command_plan(&attr, &DataDecl::StructNamed(vec![member("a", vec![])])).unwrap();
    assert_eq!(command.pkg.as_deref(), Some("crate"));
}

#[test]
fn positional_struct_with_crate_path() {
    let attrs = vec![cmake(vec![named("pkg", "crate"), MetaArg::Word("positional".to_string())])];
    let plan = cmake_derive2(&input(attrs, DataDecl::StructNamed(vec![member("a", vec![])]))).unwrap();
    assert_eq!(plan.pkg.as_deref(), Some("crate"));
    assert!(matches!(plan.body, ParseImplPlan::Positional(_)));
}

#[test]
fn two_reads_of_fields_agree() {
    let fields = vec![member("a", vec![]), positional_member("b")];
    let direct = CMakeOption::from_fields_named(&fields);
    let via = to_cmake_fields(&DataDecl::StructNamed(fields)).unwrap();
    assert_eq!(direct.len(), via.len());
    for (x, y) in direct.iter().zip(via.iter()) {
        assert_eq!(x.id, y.id);
        assert_eq!(x.mode, y.mode);
        assert_eq!(x.keyword, y.keyword);
        assert_eq!(x.attr.positional, y.attr.positional);
    }
}
