use cmake_parser_derive::attribute::{attrs_are_well_formed, cmake_attribute, settings_given, AttrDecl, MetaArg};

fn word(w: &str) -> MetaArg {
    MetaArg::Word(w.to_string())
}

fn named(n: &str, v: &str) -> MetaArg {
    MetaArg::Str {
        name: n.to_string(),
        value: v.to_string(),
        suffix: String::new(),
    }
}

fn cmake(args: Vec<MetaArg>) -> AttrDecl {
    AttrDecl { path: Some("cmake".to_string()), args: Some(args) }
}

fn doc() -> AttrDecl {
    AttrDecl { path: Some("doc".to_string()), args: None }
}

#[test]
fn check_def_attr() {
    let attr = cmake(vec![
        named("default", "COMMAND"),
        named("rename", "mmm"),
        named("pkg", "crate"),
        word("list"),
        word("positional"),
    ]);

    let cmake_attr = cmake_attribute(&vec![attr]).expect("attrs");
    assert!(cmake_attr.pkg.is_some());
    assert_eq!(Some("mmm"), cmake_attr.rename.as_deref());
    assert_eq!(Some("COMMAND"), cmake_attr.default.as_deref());
    assert!(cmake_attr.positional);
    assert!(cmake_attr.list);
}

#[test]
fn no_cmake_attribute_gives_none() {
    assert!(cmake_attribute(&vec![]).is_none());
    assert!(cmake_attribute(&vec![doc()]).is_none());
}

#[test]
fn empty_cmake_attribute_sets_nothing() {
    let a = cmake_attribute(&vec![cmake(vec![])]).expect("attrs");
    assert_eq!(a.default, None);
    assert_eq!(a.rename, None);
    assert_eq!(a.pkg, None);
    assert!(!a.positional);
    assert!(!a.list);
}

#[test]
fn only_the_first_cmake_attribute_counts() {
    let attrs = vec![doc(), cmake(vec![named("rename", "first")]), cmake(vec![named("rename", "second"), word("list")])];
    let a = cmake_attribute(&attrs).expect("attrs");
    assert_eq!(a.rename.as_deref(), Some("first"));
    assert!(!a.list);
}

#[test]
fn other_attributes_are_skipped() {
    let with_doc = cmake_attribute(&vec![doc(), cmake(vec![word("positional")])]).expect("attrs");
    let without = cmake_attribute(&vec![cmake(vec![word("positional")])]).expect("attrs");
    assert_eq!(with_doc.positional, without.positional);
    assert!(with_doc.positional);
}

#[test]
fn later_value_overrides_earlier() {
    let a = cmake_attribute(&vec![cmake(vec![
        named("rename", "a"),
        named("default", "x"),
        named("rename", "b"),
        named("default", "y"),
    ])])
    .expect("attrs");
    assert_eq!(a.rename.as_deref(), Some("b"));
    assert_eq!(a.default.as_deref(), Some("y"));
}

#[test]
fn flags_are_set_in_any_order() {
    let a = cmake_attribute(&vec![cmake(vec![word("positional"), word("list"), word("positional")])]).expect("attrs");
    assert!(a.positional);
    assert!(a.list);
}

#[test]
fn unknown_arguments_are_ignored() {
    let a = cmake_attribute(&vec![cmake(vec![
        word("flag"),
        named("list", "yes"),
        named("other", "v"),
        MetaArg::Other,
    ])])
    .expect("attrs");
    assert!(!a.list);
    assert!(!a.positional);
    assert_eq!(a.rename, None);
    assert_eq!(a.default, None);
    assert_eq!(a.pkg, None);
}

#[test]
fn pkg_that_is_no_path_is_dropped() {
    let a = cmake_attribute(&vec![cmake(vec![named("pkg", "not a path!")])]).expect("attrs");
    assert_eq!(a.pkg, None);
    let b = cmake_attribute(&vec![cmake(vec![named("pkg", "my::krate")])]).expect("attrs");
    assert_eq!(b.pkg.as_deref(), Some("my::krate"));
}

#[test]
fn later_bad_pkg_clears_earlier_good_one() {
    let a = cmake_attribute(&vec![cmake(vec![named("pkg", "crate"), named("pkg", "1 + ")])]).expect("attrs");
    assert_eq!(a.pkg, None);
}

#[test]
fn unparsable_cmake_arguments_are_detected() {
    let bad = vec![AttrDecl { path: Some("cmake".to_string()), args: None }];
    assert!(!attrs_are_well_formed(&bad));
    assert!(attrs_are_well_formed(&vec![doc()]));
    assert!(attrs_are_well_formed(&vec![cmake(vec![]), AttrDecl { path: Some("cmake".to_string()), args: None }]));
}

#[test]
fn default_attribute_sets_nothing() {
    let a = cmake_parser_derive::attribute::CMakeAttribute::default();
    assert_eq!(a.default, None);
    assert_eq!(a.rename, None);
    assert_eq!(a.pkg, None);
    assert!(!a.positional);
    assert!(!a.list);
}

#[test]
fn pkg_literal_with_suffix_is_dropped() {
    let arg = MetaArg::Str { name: "pkg".to_string(), value: "crate".to_string(), suffix: "x".to_string() };
    let a = cmake_attribute(&vec![cmake(vec![arg])]).expect("attrs");
    assert_eq!(a.pkg, None);
}

#[test]
fn settings_given_follow_the_path_checks() {
    let args = vec![named("pkg", "first"), named("rename", "r"), named("pkg", "second")];
    let a = settings_given(&args, &vec![true, false, true]);
    assert_eq!(a.pkg.as_deref(), Some("second"));
    assert_eq!(a.rename.as_deref(), Some("r"));
    let b = settings_given(&args, &vec![true, false, false]);
    assert_eq!(b.pkg, None);
}

#[test]
fn order_of_distinct_keys_does_not_matter() {
    let a = cmake_attribute(&vec![cmake(vec![named("rename", "r"), word("list"), named("default", "d")])]).expect("attrs");
    let b = cmake_attribute(&vec![cmake(vec![named("default", "d"), named("rename", "r"), word("list")])]).expect("attrs");
    assert_eq!(a.rename, b.rename);
    assert_eq!(a.default, b.default);
    assert_eq!(a.list, b.list);
    assert_eq!(a.positional, b.positional);
    assert_eq!(a.pkg, b.pkg);
}

fn first_args() -> Vec<MetaArg> {
    vec![named("rename", "x"), word("positional")]
}

#[test]
fn first_cmake_attribute_alone_gives_the_same() {
    let alone = cmake_attribute(&vec![cmake(first_args())]).expect("attrs");
    let among = cmake_attribute(&vec![doc(), cmake(first_args()), cmake(vec![named("rename", "y")])]).expect("attrs");
    assert_eq!(alone.rename, among.rename);
    assert_eq!(alone.positional, among.positional);
}
