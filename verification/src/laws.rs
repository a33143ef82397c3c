use vstd::prelude::*;
use crate::attribute::{
    AttrDecl, CMakeAttributeView, MetaArg, all_paths, apply_arg, arg_suffix, arg_value, cmake_args,
    declared_settings, first_cmake, is_cmake, is_pkg_arg, last_pkg_at, last_pkg_plain,
    last_pkg_suffixed, path_answers_fit, settings_fit, settings_of,
};
use crate::command_impl::{KeywordEntry, entries_for, member_keyword};
use crate::input::MemberDecl;
use crate::options::{CMakeOptionView, option_fits, options_fit};
use crate::parse_impl::{
    PositionalVarDef, mode_default_of, positional_part, regular_part, var_defs_for,
};
use crate::text::{
    constant_case_of, is_ascii_ident, is_plain_path, is_plain_segment, is_reserved_word,
    joined_path, pascal_case_of, uppercase_of,
};

verus! {

broadcast use vstd::seq_lib::group_to_multiset_ensures, vstd::multiset::group_multiset_axioms;

/// Only the first `cmake` attribute counts: attributes after it change
/// nothing.
pub proof fn law_first_cmake_attribute_decides(a: Seq<AttrDecl>, b: Seq<AttrDecl>)
    requires
        first_cmake(a) is Some,
    ensures
        first_cmake(a + b) == first_cmake(a),
    decreases a.len(),
{
    assert(a.len() > 0);
    assert((a + b)[0] == a[0]);
    if !is_cmake(a[0]) {
        assert((a + b).drop_first() =~= a.drop_first() + b);
        law_first_cmake_attribute_decides(a.drop_first(), b);
    }
}

/// The first `cmake` attribute decides alone: the list of attributes
/// declares the same settings as that attribute on its own, and what reading
/// either can give is the same.
pub proof fn law_first_cmake_attribute_decides_alone(attrs: Seq<AttrDecl>, i: int)
    requires
        0 <= i < attrs.len(),
        first_cmake(attrs) == Some(attrs[i]),
    ensures
        first_cmake(seq![attrs[i]]) == first_cmake(attrs),
        declared_settings(seq![attrs[i]]) == declared_settings(attrs),
        forall|a: CMakeAttributeView|
            #[trigger] settings_fit(a, attrs) <==> settings_fit(a, seq![attrs[i]]),
{
    let one = seq![attrs[i]];
    assert(one[0] == attrs[i]);
    assert(is_cmake(attrs[i])) by {
        assert(first_cmake(attrs) is Some);
        lemma_first_cmake_is_cmake(attrs);
    }
}

proof fn lemma_first_cmake_is_cmake(attrs: Seq<AttrDecl>)
    ensures
        first_cmake(attrs) matches Some(a) ==> is_cmake(a),
    decreases attrs.len(),
{
    if attrs.len() > 0 && !is_cmake(attrs[0]) {
        lemma_first_cmake_is_cmake(attrs.drop_first());
    }
}

/// Attributes other than `cmake` are skipped.
pub proof fn law_other_attributes_are_skipped(x: AttrDecl, b: Seq<AttrDecl>)
    requires
        !is_cmake(x),
    ensures
        first_cmake(seq![x] + b) == first_cmake(b),
{
    assert((seq![x] + b).drop_first() =~= b);
}

proof fn lemma_argument_names_differ()
    ensures
        "list"@ != "positional"@,
        "default"@ != "rename"@,
        "default"@ != "pkg"@,
        "rename"@ != "pkg"@,
{
    reveal_strlit("list");
    reveal_strlit("positional");
    reveal_strlit("default");
    reveal_strlit("rename");
    reveal_strlit("pkg");
    assert("list"@.len() != "positional"@.len());
    assert("default"@.len() != "rename"@.len());
    assert("default"@.len() != "pkg"@.len());
    assert("rename"@.len() != "pkg"@.len());
}

pub open spec fn is_word(arg: MetaArg, w: Seq<char>) -> bool {
    arg matches MetaArg::Word(x) && x@ == w
}

pub open spec fn is_named(arg: MetaArg, n: Seq<char>) -> bool {
    arg matches MetaArg::Str { name, .. } && name@ == n
}

/// The name of a `name = "value"` argument.
pub open spec fn arg_name(arg: MetaArg) -> Seq<char> {
    match arg {
        MetaArg::Str { name, .. } => name@,
        _ => Seq::empty(),
    }
}

/// No two `name = "value"` arguments share a name.
pub open spec fn names_distinct(args: Seq<MetaArg>) -> bool {
    forall|i: int, j: int|
        #![trigger args[i], args[j]]
        0 <= i < args.len() && 0 <= j < args.len() && i != j && args[i] is Str && args[j] is Str
            ==> arg_name(args[i]) != arg_name(args[j])
}

/// `p` and `q` are inverse permutations of `0..n`.
pub open spec fn inverse_permutations(p: Seq<int>, q: Seq<int>, n: int) -> bool {
    &&& p.len() == n
    &&& q.len() == n
    &&& forall|i: int| 0 <= i < n ==> 0 <= #[trigger] p[i] < n && q[p[i]] == i
    &&& forall|i: int| 0 <= i < n ==> 0 <= #[trigger] q[i] < n && p[q[i]] == i
}

/// `args2` lists the arguments of `args1` in the order `p`, each with the
/// same path-check answer.
pub open spec fn reordered(
    args1: Seq<MetaArg>,
    ok1: Seq<bool>,
    args2: Seq<MetaArg>,
    ok2: Seq<bool>,
    p: Seq<int>,
    q: Seq<int>,
) -> bool {
    &&& ok1.len() == args1.len()
    &&& args2.len() == args1.len()
    &&& ok2.len() == args1.len()
    &&& inverse_permutations(p, q, args1.len() as int)
    &&& forall|i: int| 0 <= i < args2.len() ==> #[trigger] args2[i] == args1[p[i]] && ok2[i] == ok1[p[i]]
}

/// The `rename` or the `default` setting, by the argument's name.
pub open spec fn named_setting(v: CMakeAttributeView, name: Seq<char>) -> Option<Seq<char>> {
    if name == "rename"@ {
        v.rename
    } else {
        v.default
    }
}

/// A flag is set when it occurs anywhere among the arguments, however often
/// and in whatever order, whatever the path checks answer.
pub proof fn law_flags_are_set_by_any_occurrence(args: Seq<MetaArg>, path_ok: Seq<bool>)
    requires
        path_ok.len() == args.len(),
    ensures
        settings_of(args, path_ok).list <==> exists|i: int|
            0 <= i < args.len() && is_word(#[trigger] args[i], "list"@),
        settings_of(args, path_ok).positional <==> exists|i: int|
            0 <= i < args.len() && is_word(#[trigger] args[i], "positional"@),
    decreases args.len(),
{
    lemma_argument_names_differ();
    if args.len() > 0 {
        let n = args.len() - 1;
        let init = args.drop_last();
        let oks = path_ok.take(n);
        law_flags_are_set_by_any_occurrence(init, oks);
        assert forall|i: int| 0 <= i < init.len() implies init[i] == args[i] by {}
        assert(args.last() == args[n]);
        if exists|i: int| 0 <= i < args.len() && is_word(#[trigger] args[i], "list"@) {
            let i = choose|i: int| 0 <= i < args.len() && is_word(#[trigger] args[i], "list"@);
            if i < n {
                assert(is_word(init[i], "list"@));
            }
        }
        if exists|i: int| 0 <= i < args.len() && is_word(#[trigger] args[i], "positional"@) {
            let i = choose|i: int| 0 <= i < args.len() && is_word(#[trigger] args[i], "positional"@);
            if i < n {
                assert(is_word(init[i], "positional"@));
            }
        }
        if settings_of(init, oks).list {
            let i = choose|i: int| 0 <= i < init.len() && is_word(#[trigger] init[i], "list"@);
            assert(is_word(args[i], "list"@));
        }
        if settings_of(init, oks).positional {
            let i = choose|i: int| 0 <= i < init.len() && is_word(#[trigger] init[i], "positional"@);
            assert(is_word(args[i], "positional"@));
        }
        if is_word(args.last(), "list"@) {
            assert(is_word(args[n], "list"@));
        }
        if is_word(args.last(), "positional"@) {
            assert(is_word(args[n], "positional"@));
        }
    }
}

proof fn lemma_named_step(acc: CMakeAttributeView, arg: MetaArg, ok: bool, name: Seq<char>)
    requires
        name == "rename"@ || name == "default"@,
    ensures
        !is_named(arg, name) ==> named_setting(apply_arg(acc, arg, ok), name) == named_setting(acc, name),
        is_named(arg, name) ==> named_setting(apply_arg(acc, arg, ok), name) == Some(arg_value(arg)),
{
    lemma_argument_names_differ();
}

/// Of several `rename = "..."` (or `default = "..."`) arguments the last one
/// counts; with none, the setting is absent.
pub proof fn law_last_value_wins(args: Seq<MetaArg>, path_ok: Seq<bool>, name: Seq<char>)
    requires
        path_ok.len() == args.len(),
        name == "rename"@ || name == "default"@,
    ensures
        (forall|i: int| 0 <= i < args.len() ==> !is_named(#[trigger] args[i], name))
            ==> named_setting(settings_of(args, path_ok), name) is None,
        forall|k: int|
            0 <= k < args.len() && is_named(#[trigger] args[k], name) && (forall|j: int|
                k < j < args.len() ==> !is_named(#[trigger] args[j], name))
                ==> named_setting(settings_of(args, path_ok), name) == Some(arg_value(args[k])),
    decreases args.len(),
{
    lemma_argument_names_differ();
    if args.len() > 0 {
        let n = args.len() - 1;
        let init = args.drop_last();
        let oks = path_ok.take(n);
        law_last_value_wins(init, oks, name);
        lemma_named_step(settings_of(init, oks), args[n], path_ok[n], name);
        assert(args.last() == args[n]);
        assert forall|i: int| 0 <= i < init.len() implies init[i] == args[i] by {}
        assert forall|k: int|
            0 <= k < args.len() && is_named(#[trigger] args[k], name) && (forall|j: int|
                k < j < args.len() ==> !is_named(#[trigger] args[j], name))
            implies named_setting(settings_of(args, path_ok), name) == Some(arg_value(args[k])) by {
            if k < n {
                assert(!is_named(args[n], name));
                assert(is_named(init[k], name));
                assert forall|j: int| k < j < init.len() implies !is_named(#[trigger] init[j], name) by {
                    assert(init[j] == args[j]);
                }
            }
        }
        if forall|i: int| 0 <= i < args.len() ==> !is_named(#[trigger] args[i], name) {
            assert(!is_named(args[n], name));
        }
    }
}

proof fn lemma_pkg_step(acc: CMakeAttributeView, arg: MetaArg, ok: bool)
    ensures
        !is_named(arg, "pkg"@) ==> apply_arg(acc, arg, ok).pkg == acc.pkg,
        is_named(arg, "pkg"@) ==> apply_arg(acc, arg, ok).pkg == (if ok {
            Some(arg_value(arg))
        } else {
            None
        }),
{
    lemma_argument_names_differ();
}

/// Of several `pkg = "..."` arguments the last one counts, and it sets the
/// crate path only when its literal was found to hold a path; with none,
/// there is no crate path.
pub proof fn law_last_pkg_wins(args: Seq<MetaArg>, path_ok: Seq<bool>)
    requires
        path_ok.len() == args.len(),
    ensures
        (forall|i: int| 0 <= i < args.len() ==> !is_named(#[trigger] args[i], "pkg"@))
            ==> settings_of(args, path_ok).pkg is None,
        forall|k: int|
            0 <= k < args.len() && is_named(#[trigger] args[k], "pkg"@) && (forall|j: int|
                k < j < args.len() ==> !is_named(#[trigger] args[j], "pkg"@))
                ==> settings_of(args, path_ok).pkg == (if path_ok[k] {
                    Some(arg_value(args[k]))
                } else {
                    None
                }),
    decreases args.len(),
{
    if args.len() > 0 {
        let n = args.len() - 1;
        let init = args.drop_last();
        let oks = path_ok.take(n);
        law_last_pkg_wins(init, oks);
        lemma_pkg_step(settings_of(init, oks), args[n], path_ok[n]);
        assert(args.last() == args[n]);
        assert forall|i: int| 0 <= i < init.len() implies init[i] == args[i] && oks[i] == path_ok[i] by {}
        assert forall|k: int|
            0 <= k < args.len() && is_named(#[trigger] args[k], "pkg"@) && (forall|j: int|
                k < j < args.len() ==> !is_named(#[trigger] args[j], "pkg"@))
            implies settings_of(args, path_ok).pkg == (if path_ok[k] {
                Some(arg_value(args[k]))
            } else {
                None
            }) by {
            if k < n {
                assert(!is_named(args[n], "pkg"@));
                assert(is_named(init[k], "pkg"@));
                assert forall|j: int| k < j < init.len() implies !is_named(#[trigger] init[j], "pkg"@) by {
                    assert(init[j] == args[j]);
                }
            }
        }
        if forall|i: int| 0 <= i < args.len() ==> !is_named(#[trigger] args[i], "pkg"@) {
            assert(!is_named(args[n], "pkg"@));
        }
    }
}

proof fn lemma_unique_named(
    args1: Seq<MetaArg>,
    ok1: Seq<bool>,
    args2: Seq<MetaArg>,
    ok2: Seq<bool>,
    p: Seq<int>,
    q: Seq<int>,
    name: Seq<char>,
)
    requires
        reordered(args1, ok1, args2, ok2, p, q),
        names_distinct(args1),
    ensures
        (forall|i: int| 0 <= i < args1.len() ==> !is_named(#[trigger] args1[i], name)) ==> (forall|
            i: int,
        | 0 <= i < args2.len() ==> !is_named(#[trigger] args2[i], name)),
        forall|k: int|
            0 <= k < args1.len() && is_named(#[trigger] args1[k], name) ==> {
                &&& is_named(args2[q[k]], name)
                &&& args2[q[k]] == args1[k]
                &&& ok2[q[k]] == ok1[k]
                &&& forall|j: int| k < j < args1.len() ==> !is_named(#[trigger] args1[j], name)
                &&& forall|j: int| q[k] < j < args2.len() ==> !is_named(#[trigger] args2[j], name)
            },
{
    assert forall|i: int| 0 <= i < args2.len() && is_named(#[trigger] args2[i], name) implies is_named(
        args1[p[i]],
        name,
    ) by {}
    assert forall|k: int| 0 <= k < args1.len() && is_named(#[trigger] args1[k], name) implies {
        &&& is_named(args2[q[k]], name)
        &&& args2[q[k]] == args1[k]
        &&& ok2[q[k]] == ok1[k]
        &&& forall|j: int| k < j < args1.len() ==> !is_named(#[trigger] args1[j], name)
        &&& forall|j: int| q[k] < j < args2.len() ==> !is_named(#[trigger] args2[j], name)
    } by {
        assert(args2[q[k]] == args1[p[q[k]]]);
        assert forall|j: int| k < j < args1.len() implies !is_named(#[trigger] args1[j], name) by {
            if is_named(args1[j], name) {
                assert(arg_name(args1[j]) == arg_name(args1[k]));
            }
        }
        assert forall|j: int| q[k] < j < args2.len() implies !is_named(#[trigger] args2[j], name) by {
            if is_named(args2[j], name) {
                assert(args2[j] == args1[p[j]]);
                if p[j] != k {
                    assert(arg_name(args1[p[j]]) == arg_name(args1[k]));
                }
                assert(q[p[j]] == j);
            }
        }
    }
}

/// When no two `name = "value"` arguments share a name, their order does not
/// matter: reading the arguments in any other order, each with the same
/// path-check answer, gives the same settings.
pub proof fn law_order_of_distinct_keys_does_not_matter(
    args1: Seq<MetaArg>,
    ok1: Seq<bool>,
    args2: Seq<MetaArg>,
    ok2: Seq<bool>,
    p: Seq<int>,
    q: Seq<int>,
)
    requires
        reordered(args1, ok1, args2, ok2, p, q),
        names_distinct(args1),
    ensures
        settings_of(args2, ok2) == settings_of(args1, ok1),
{
    reveal_strlit("rename");
    reveal_strlit("default");
    let s1 = settings_of(args1, ok1);
    let s2 = settings_of(args2, ok2);
    law_flags_are_set_by_any_occurrence(args1, ok1);
    law_flags_are_set_by_any_occurrence(args2, ok2);
    assert forall|i: int| 0 <= i < args1.len() implies #[trigger] args1[i] == args2[q[i]] by {
        assert(args2[q[i]] == args1[p[q[i]]]);
    }
    if s1.list {
        let i = choose|i: int| 0 <= i < args1.len() && is_word(#[trigger] args1[i], "list"@);
        assert(is_word(args2[q[i]], "list"@));
    }
    if s2.list {
        let i = choose|i: int| 0 <= i < args2.len() && is_word(#[trigger] args2[i], "list"@);
        assert(is_word(args1[p[i]], "list"@));
    }
    if s1.positional {
        let i = choose|i: int| 0 <= i < args1.len() && is_word(#[trigger] args1[i], "positional"@);
        assert(is_word(args2[q[i]], "positional"@));
    }
    if s2.positional {
        let i = choose|i: int| 0 <= i < args2.len() && is_word(#[trigger] args2[i], "positional"@);
        assert(is_word(args1[p[i]], "positional"@));
    }
    let names = seq!["rename"@, "default"@];
    assert forall|t: int| 0 <= t < 2 implies named_setting(s1, #[trigger] names[t]) == named_setting(s2, names[t]) by {
        let name = names[t];
        law_last_value_wins(args1, ok1, name);
        law_last_value_wins(args2, ok2, name);
        lemma_unique_named(args1, ok1, args2, ok2, p, q, name);
        if exists|k: int| 0 <= k < args1.len() && is_named(#[trigger] args1[k], name) {
            let k = choose|k: int| 0 <= k < args1.len() && is_named(#[trigger] args1[k], name);
            assert(is_named(args2[q[k]], name));
        }
    }
    assert(named_setting(s1, names[0]) == named_setting(s2, names[0]));
    assert(named_setting(s1, names[1]) == named_setting(s2, names[1]));
    lemma_argument_names_differ();
    law_last_pkg_wins(args1, ok1);
    law_last_pkg_wins(args2, ok2);
    lemma_unique_named(args1, ok1, args2, ok2, p, q, "pkg"@);
    if exists|k: int| 0 <= k < args1.len() && is_named(#[trigger] args1[k], "pkg"@) {
        let k = choose|k: int| 0 <= k < args1.len() && is_named(#[trigger] args1[k], "pkg"@);
        assert(is_named(args2[q[k]], "pkg"@));
    }
    assert(s1.rename == s2.rename);
    assert(s1.default == s2.default);
}

/// Two reads of the same fields give the same options; each field's own
/// crate path rests on the path check, and is the same too where the field's
/// last `pkg` literal is a plain path without suffix.
pub proof fn law_options_of_two_reads_agree(
    opts1: Seq<CMakeOptionView>,
    opts2: Seq<CMakeOptionView>,
    ms: Seq<MemberDecl>,
)
    requires
        options_fit(opts1, ms),
        options_fit(opts2, ms),
    ensures
        opts1.len() == opts2.len(),
        forall|i: int|
            0 <= i < opts1.len() ==> {
                &&& (#[trigger] opts1[i]).id == opts2[i].id
                &&& opts1[i].mode == opts2[i].mode
                &&& opts1[i].keyword == opts2[i].keyword
                &&& opts1[i].attr.default == opts2[i].attr.default
                &&& opts1[i].attr.positional == opts2[i].attr.positional
                &&& opts1[i].attr.list == opts2[i].attr.list
                &&& opts1[i].attr.rename == opts2[i].attr.rename
                &&& (last_pkg_plain(cmake_args(ms[i].attrs@)) ==> opts1[i].attr.pkg
                    == opts2[i].attr.pkg)
            },
{
    assert forall|i: int| 0 <= i < opts1.len() implies {
        &&& (#[trigger] opts1[i]).id == opts2[i].id
        &&& opts1[i].mode == opts2[i].mode
        &&& opts1[i].keyword == opts2[i].keyword
        &&& opts1[i].attr.default == opts2[i].attr.default
        &&& opts1[i].attr.positional == opts2[i].attr.positional
        &&& opts1[i].attr.list == opts2[i].attr.list
        &&& opts1[i].attr.rename == opts2[i].attr.rename
        &&& (last_pkg_plain(cmake_args(ms[i].attrs@)) ==> opts1[i].attr.pkg == opts2[i].attr.pkg)
    } by {
        assert(option_fits(opts1[i], ms[i]));
        assert(option_fits(opts2[i], ms[i]));
    }
}

/// Whatever the path checks answer, a last `pkg` literal without suffix
/// whose value is a plain path sets the crate path to that value, and a
/// last `pkg` literal with a suffix leaves no crate path.
pub proof fn law_plain_pkg_is_kept(args: Seq<MetaArg>, path_ok: Seq<bool>)
    requires
        path_answers_fit(args, path_ok),
    ensures
        last_pkg_plain(args) ==> settings_of(args, path_ok).pkg == settings_of(
            args,
            all_paths(args.len()),
        ).pkg,
        last_pkg_suffixed(args) ==> settings_of(args, path_ok).pkg is None,
{
    let all = all_paths(args.len());
    law_last_pkg_wins(args, path_ok);
    law_last_pkg_wins(args, all);
    if last_pkg_plain(args) {
        let k = choose|k: int|
            #![trigger last_pkg_at(args, k)]
            last_pkg_at(args, k) && arg_suffix(args[k]).len() == 0 && is_plain_path_value(args, k);
        assert(is_named(args[k], "pkg"@));
        assert forall|j: int| k < j < args.len() implies !is_named(#[trigger] args[j], "pkg"@) by {
            assert(!is_pkg_arg(args[j]));
        }
        assert(path_ok[k]);
        assert(all[k]);
    }
    if last_pkg_suffixed(args) {
        let k = choose|k: int|
            #![trigger last_pkg_at(args, k)]
            last_pkg_at(args, k) && arg_suffix(args[k]).len() > 0;
        assert(is_named(args[k], "pkg"@));
        assert forall|j: int| k < j < args.len() implies !is_named(#[trigger] args[j], "pkg"@) by {
            assert(!is_pkg_arg(args[j]));
        }
        assert(!path_ok[k]);
    }
}

spec fn is_plain_path_value(args: Seq<MetaArg>, k: int) -> bool {
    crate::text::is_plain_path(arg_value(args[k]))
}

/// The positional options are exactly those with the `positional` setting,
/// in declaration order, and the regular options exactly the others, in
/// declaration order: the split is a filter, not merely a rearrangement.
pub proof fn law_partition_keeps_declaration_order(s: Seq<CMakeOptionView>)
    ensures
        positional_part(s) == s.filter(|o: CMakeOptionView| o.attr.positional),
        regular_part(s) == s.filter(|o: CMakeOptionView| !o.attr.positional),
    decreases s.len(),
{
    reveal_with_fuel(Seq::<CMakeOptionView>::filter, 1);
    if s.len() > 0 {
        law_partition_keeps_declaration_order(s.drop_last());
    }
}

/// The parser mode before any keyword is decided by the `default` setting
/// alone: the setting in PascalCase, or no mode without it, whatever the
/// crate path, `list`, `rename` and `positional` settings are.
pub proof fn law_mode_default_follows_default_alone(a: CMakeAttributeView, b: CMakeAttributeView)
    ensures
        a.default is None ==> mode_default_of(a) is None,
        a.default matches Some(d) ==> mode_default_of(a) == Some(pascal_case_of(d)),
        a.default == b.default ==> mode_default_of(a) == mode_default_of(b),
{
}

/// A field's keyword is its `rename` setting exactly when it has one, and its
/// name in upper case otherwise; its mode is its name in PascalCase.
pub proof fn law_field_keyword_is_rename_or_upper_name(o: CMakeOptionView, m: MemberDecl)
    requires
        option_fits(o, m),
    ensures
        o.attr.rename == declared_settings(m.attrs@).rename,
        o.attr.rename matches Some(r) ==> o.keyword == r,
        o.attr.rename is None ==> o.keyword == uppercase_of(m.ident@),
        o.mode == pascal_case_of(m.ident@),
{
}

/// `CMake` gives a renamed field or variant its `rename` setting exactly as
/// the keyword; otherwise a field's keyword is its name in upper case and a
/// variant's its name in CONSTANT_CASE.
pub proof fn law_keyword_is_rename_or_converted_name(
    es: Seq<KeywordEntry>,
    ms: Seq<MemberDecl>,
    is_variant: bool,
)
    requires
        entries_for(es, ms, is_variant),
    ensures
        es.len() == ms.len(),
        forall|i: int|
            0 <= i < es.len() ==> {
                &&& (#[trigger] es[i]).id@ == ms[i].ident@
                &&& (declared_settings(ms[i].attrs@).rename matches Some(r) ==> es[i].keyword@ == r)
                &&& (declared_settings(ms[i].attrs@).rename is None && is_variant ==> es[i].keyword@
                    == constant_case_of(ms[i].ident@))
                &&& (declared_settings(ms[i].attrs@).rename is None && !is_variant
                    ==> es[i].keyword@ == uppercase_of(ms[i].ident@))
            },
{
    assert forall|i: int| 0 <= i < es.len() implies {
        &&& (#[trigger] es[i]).id@ == ms[i].ident@
        &&& (declared_settings(ms[i].attrs@).rename matches Some(r) ==> es[i].keyword@ == r)
        &&& (declared_settings(ms[i].attrs@).rename is None && is_variant ==> es[i].keyword@
            == constant_case_of(ms[i].ident@))
        &&& (declared_settings(ms[i].attrs@).rename is None && !is_variant ==> es[i].keyword@
            == uppercase_of(ms[i].ident@))
    } by {
        assert(es[i].keyword@ == member_keyword(ms[i], is_variant));
    }
}

/// Any ASCII identifier that is no reserved word, and `crate`, `self`,
/// `super` and `Self`, is on its own a plain path, which every path check
/// accepts.
pub proof fn law_identifier_is_plain_path(s: Seq<char>)
    requires
        (is_ascii_ident(s) && !is_reserved_word(s)) || s == "crate"@ || s == "self"@ || s
            == "super"@ || s == "Self"@,
    ensures
        is_plain_path(s),
{
    let segs = seq![s];
    assert(is_plain_segment(segs[0]));
    assert(joined_path(segs) == s);
}

/// A suffix-free `pkg` literal whose value is an identifier that is no
/// reserved word (such as `cmake` or `crate`) is found to be a path by every
/// fitting path check.
pub proof fn law_identifier_pkg_is_a_path(args: Seq<MetaArg>, path_ok: Seq<bool>, j: int)
    requires
        path_answers_fit(args, path_ok),
        0 <= j < args.len(),
        is_pkg_arg(args[j]),
        arg_suffix(args[j]).len() == 0,
        (is_ascii_ident(arg_value(args[j])) && !is_reserved_word(arg_value(args[j])))
            || arg_value(args[j]) == "crate"@,
    ensures
        path_ok[j],
{
    law_identifier_is_plain_path(arg_value(args[j]));
}

/// Splitting the options into positional and regular ones keeps every option
/// exactly once: the positional part holds only positional options, the
/// regular part only the others, and together they hold the options given.
pub proof fn law_partition_keeps_every_option(s: Seq<CMakeOptionView>)
    ensures
        positional_part(s).to_multiset().add(regular_part(s).to_multiset()) =~= s.to_multiset(),
        forall|i: int| 0 <= i < positional_part(s).len() ==> (#[trigger] positional_part(s)[i]).attr.positional,
        forall|i: int| 0 <= i < regular_part(s).len() ==> !(#[trigger] regular_part(s)[i]).attr.positional,
    decreases s.len(),
{
    if s.len() > 0 {
        let init = s.drop_last();
        let x = s.last();
        law_partition_keeps_every_option(init);
        assert(s =~= init.push(x));
        if x.attr.positional {
            assert(positional_part(s) == positional_part(init).push(x));
            assert forall|i: int| 0 <= i < positional_part(s).len() implies (#[trigger] positional_part(s)[i]).attr.positional by {
                if i < positional_part(init).len() {
                    assert(positional_part(s)[i] == positional_part(init)[i]);
                }
            }
        } else {
            assert(regular_part(s) == regular_part(init).push(x));
            assert forall|i: int| 0 <= i < regular_part(s).len() implies !(#[trigger] regular_part(s)[i]).attr.positional by {
                if i < regular_part(init).len() {
                    assert(regular_part(s)[i] == regular_part(init)[i]);
                }
            }
        }
    } else {
        assert(positional_part(s) =~= Seq::<CMakeOptionView>::empty());
        assert(regular_part(s) =~= Seq::<CMakeOptionView>::empty());
    }
}

/// Among the `let`s that read positional fields, exactly the last one
/// rebinds `tokens` mutably.
pub proof fn law_only_last_positional_rebinds_mut(
    defs: Seq<PositionalVarDef>,
    opts: Seq<CMakeOptionView>,
)
    requires
        var_defs_for(defs, opts),
        opts.len() > 0,
    ensures
        defs.last().rebinds_mut,
        forall|i: int| 0 <= i < defs.len() - 1 ==> !(#[trigger] defs[i]).rebinds_mut,
{
    assert(defs[defs.len() - 1].rebinds_mut);
}

/// Both derives give a named field the same keyword: its `rename` setting,
/// or else its name in upper case.
pub proof fn law_derives_agree_on_field_keywords(m: MemberDecl, o: CMakeOptionView)
    requires
        option_fits(o, m),
    ensures
        member_keyword(m, false) == o.keyword,
{
}

} // verus!
