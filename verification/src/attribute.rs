//! The `#[cmake(...)]` attribute: which of a list of attributes it is, and
//! what its arguments set.

use vstd::prelude::*;
use crate::text::{is_plain_path, parses_as_path};

verus! {

/// One argument in an attribute's comma-separated argument list.
pub enum MetaArg {
    /// A path made of one identifier, such as `list`.
    Word(String),
    /// `name = "value"`: a one-identifier path and a string literal, with the
    /// literal's value and its suffix (empty for `"value"`, `x` for
    /// `"value"x`).
    Str { name: String, value: String, suffix: String },
    /// Any other argument: a longer path, a list, a non-string value.
    Other,
}

/// An attribute on a type, a field or a variant.
pub struct AttrDecl {
    /// The attribute's path, when it is one identifier.
    pub path: Option<String>,
    /// The arguments, when they parse as a comma-separated list; `None` when
    /// they do not.
    pub args: Option<Vec<MetaArg>>,
}

/// The settings that a `#[cmake(...)]` attribute carries.
pub struct CMakeAttribute {
    /// `default = "..."`: the option that collects tokens before any keyword.
    pub default: Option<String>,
    /// `positional`: fields are read in order, without keywords.
    pub positional: bool,
    /// `list`
    pub list: bool,
    /// `pkg = "..."`: the path of the crate that the generated code names.
    pub pkg: Option<String>,
    /// `rename = "..."`: the keyword in place of the derived one.
    pub rename: Option<String>,
}

/// The mathematical value of a `CMakeAttribute`.
pub struct CMakeAttributeView {
    pub default: Option<Seq<char>>,
    pub positional: bool,
    pub list: bool,
    pub pkg: Option<Seq<char>>,
    pub rename: Option<Seq<char>>,
}

pub open spec fn opt_view(o: Option<String>) -> Option<Seq<char>> {
    match o {
        Some(s) => Some(s@),
        None => None,
    }
}

impl View for CMakeAttribute {
    type V = CMakeAttributeView;

    open spec fn view(&self) -> CMakeAttributeView {
        CMakeAttributeView {
            default: opt_view(self.default),
            positional: self.positional,
            list: self.list,
            pkg: opt_view(self.pkg),
            rename: opt_view(self.rename),
        }
    }
}

/// The settings when no argument sets anything.
pub open spec fn no_settings() -> CMakeAttributeView {
    CMakeAttributeView { default: None, positional: false, list: false, pkg: None, rename: None }
}

/// Whether the attribute's path is the identifier `cmake`.
pub open spec fn is_cmake(a: AttrDecl) -> bool {
    a.path matches Some(p) && p@ == "cmake"@
}

/// The first attribute of the list whose path is `cmake`.
pub open spec fn first_cmake(attrs: Seq<AttrDecl>) -> Option<AttrDecl>
    decreases attrs.len(),
{
    if attrs.len() == 0 {
        None
    } else if is_cmake(attrs[0]) {
        Some(attrs[0])
    } else {
        first_cmake(attrs.drop_first())
    }
}

/// The settings after one more argument has been read, where `path_ok`
/// tells whether the argument's literal parsed as a path: a later argument
/// overrides an earlier one of the same name; unknown arguments change
/// nothing.
pub open spec fn apply_arg(acc: CMakeAttributeView, arg: MetaArg, path_ok: bool) -> CMakeAttributeView {
    match arg {
        MetaArg::Word(w) => {
            if w@ == "list"@ {
                CMakeAttributeView { list: true, ..acc }
            } else if w@ == "positional"@ {
                CMakeAttributeView { positional: true, ..acc }
            } else {
                acc
            }
        },
        MetaArg::Str { name, value, .. } => {
            if name@ == "default"@ {
                CMakeAttributeView { default: Some(value@), ..acc }
            } else if name@ == "rename"@ {
                CMakeAttributeView { rename: Some(value@), ..acc }
            } else if name@ == "pkg"@ {
                CMakeAttributeView { pkg: if path_ok { Some(value@) } else { None }, ..acc }
            } else {
                acc
            }
        },
        MetaArg::Other => acc,
    }
}

/// The settings that a list of arguments carries, read from left to right,
/// where `path_ok[i]` tells whether the literal of argument `i` parsed as a
/// path.
pub open spec fn settings_of(args: Seq<MetaArg>, path_ok: Seq<bool>) -> CMakeAttributeView
    decreases args.len(),
{
    if args.len() == 0 {
        no_settings()
    } else {
        apply_arg(
            settings_of(args.drop_last(), path_ok.take(args.len() - 1)),
            args.last(),
            path_ok[args.len() - 1],
        )
    }
}

/// Every literal taken as a path.
pub open spec fn all_paths(n: nat) -> Seq<bool> {
    Seq::new(n, |_i: int| true)
}

/// The settings that a list of attributes declares: those of its first
/// `cmake` attribute, with every `pkg` literal taken as a path; no settings
/// where it has no `cmake` attribute.
pub open spec fn declared_settings(attrs: Seq<AttrDecl>) -> CMakeAttributeView {
    match first_cmake(attrs) {
        Some(a) => settings_of(a.args.unwrap()@, all_paths(a.args.unwrap()@.len())),
        None => no_settings(),
    }
}

/// The value of a `name = "value"` argument.
pub open spec fn arg_value(arg: MetaArg) -> Seq<char> {
    match arg {
        MetaArg::Str { value, .. } => value@,
        _ => Seq::empty(),
    }
}

/// The suffix of a `name = "value"` argument's literal.
pub open spec fn arg_suffix(arg: MetaArg) -> Seq<char> {
    match arg {
        MetaArg::Str { suffix, .. } => suffix@,
        _ => Seq::empty(),
    }
}

/// Whether the argument is `pkg = "..."`.
pub open spec fn is_pkg_arg(arg: MetaArg) -> bool {
    arg matches MetaArg::Str { name, .. } && name@ == "pkg"@
}

/// Argument `k` is the last `pkg` argument.
pub open spec fn last_pkg_at(args: Seq<MetaArg>, k: int) -> bool {
    &&& 0 <= k < args.len()
    &&& is_pkg_arg(args[k])
    &&& forall|j: int| k < j < args.len() ==> !is_pkg_arg(#[trigger] args[j])
}

/// The last `pkg` argument is a suffix-free literal whose value is a plain
/// path, so every environment finds it to be a path.
pub open spec fn last_pkg_plain(args: Seq<MetaArg>) -> bool {
    exists|k: int|
        #![trigger last_pkg_at(args, k)]
        last_pkg_at(args, k) && arg_suffix(args[k]).len() == 0 && is_plain_path(arg_value(args[k]))
}

/// The last `pkg` argument's literal has a suffix, which no environment
/// accepts.
pub open spec fn last_pkg_suffixed(args: Seq<MetaArg>) -> bool {
    exists|k: int|
        #![trigger last_pkg_at(args, k)]
        last_pkg_at(args, k) && arg_suffix(args[k]).len() > 0
}

/// What the path checks can answer: `true` only for a `pkg` literal without
/// suffix, and `true` for every such literal whose value is a plain path.
pub open spec fn path_answers_fit(args: Seq<MetaArg>, path_ok: Seq<bool>) -> bool {
    &&& path_ok.len() == args.len()
    &&& forall|j: int|
        0 <= j < args.len() ==> {
            &&& (#[trigger] path_ok[j] ==> is_pkg_arg(args[j]) && arg_suffix(args[j]).len() == 0)
            &&& (is_pkg_arg(args[j]) && arg_suffix(args[j]).len() == 0 && is_plain_path(
                arg_value(args[j]),
            ) ==> path_ok[j])
        }
}

/// The arguments of the first `cmake` attribute, if any.
pub open spec fn cmake_args(attrs: Seq<AttrDecl>) -> Seq<MetaArg> {
    match first_cmake(attrs) {
        Some(a) => a.args.unwrap()@,
        None => Seq::empty(),
    }
}

/// `a` is what reading the attributes can give: the settings of the first
/// `cmake` attribute for some answers of the path checks.
pub open spec fn settings_read(a: CMakeAttributeView, attrs: Seq<AttrDecl>) -> bool {
    match first_cmake(attrs) {
        Some(c) => exists|path_ok: Seq<bool>|
            #![trigger settings_of(c.args.unwrap()@, path_ok)]
            path_answers_fit(c.args.unwrap()@, path_ok) && a == settings_of(c.args.unwrap()@, path_ok),
        None => a == no_settings(),
    }
}

/// A crate path that reading the attributes can give: the declared one or
/// none; the declared one where the last `pkg` literal is a plain path
/// without suffix, and none where it has a suffix.
pub open spec fn pkg_fits(pkg: Option<Seq<char>>, attrs: Seq<AttrDecl>) -> bool {
    let d = declared_settings(attrs).pkg;
    &&& (pkg is None || pkg == d)
    &&& (last_pkg_plain(cmake_args(attrs)) ==> pkg == d)
    &&& (last_pkg_suffixed(cmake_args(attrs)) ==> pkg is None)
}

/// `a` is what reading the attributes can give, said field by field: every
/// setting as declared, and a crate path that fits.
pub open spec fn settings_fit(a: CMakeAttributeView, attrs: Seq<AttrDecl>) -> bool {
    let d = declared_settings(attrs);
    &&& a.default == d.default
    &&& a.positional == d.positional
    &&& a.list == d.list
    &&& a.rename == d.rename
    &&& pkg_fits(a.pkg, attrs)
}

/// The `cmake` attribute that decides, when there is one, has arguments that
/// parse as a list (reading them otherwise panics).
pub open spec fn attrs_well_formed(attrs: Seq<AttrDecl>) -> bool {
    first_cmake(attrs) matches Some(a) ==> a.args is Some
}

impl Default for CMakeAttribute {
    /// The settings when no argument sets anything.
    fn default() -> (r: CMakeAttribute)
        ensures
            r@ == no_settings(),
    {
        CMakeAttribute { default: None, positional: false, list: false, pkg: None, rename: None }
    }
}

/// The position of the first `cmake` attribute.
fn find_cmake(attrs: &Vec<AttrDecl>) -> (r: Option<usize>)
    ensures
        match r {
            Some(i) => i < attrs@.len() && first_cmake(attrs@) == Some(attrs@[i as int]),
            None => first_cmake(attrs@) is None,
        },
{
    let cmake = String::from_str("cmake");
    let mut i: usize = 0;
    assert(attrs@.skip(0) =~= attrs@);
    while i < attrs.len()
        invariant
            i <= attrs@.len(),
            cmake@ == "cmake"@,
            first_cmake(attrs@) == first_cmake(attrs@.skip(i as int)),
        decreases attrs@.len() - i,
    {
        assert(attrs@.skip(i as int).drop_first() =~= attrs@.skip(i + 1));
        assert(attrs@.skip(i as int)[0] == attrs@[i as int]);
        let is_it = match &attrs[i].path {
            Some(p) => *p == cmake,
            None => false,
        };
        if is_it {
            return Some(i);
        }
        i += 1;
    }
    assert(attrs@.skip(i as int) =~= Seq::<AttrDecl>::empty());
    None
}

/// Reads a list of arguments, given for each argument whether its literal
/// parsed as a path (`path_ok`, which matters for `pkg` arguments only).
pub fn settings_given(args: &Vec<MetaArg>, path_ok: &Vec<bool>) -> (r: CMakeAttribute)
    requires
        path_ok@.len() == args@.len(),
    ensures
        r@ == settings_of(args@, path_ok@),
{
    let w_list = String::from_str("list");
    let w_positional = String::from_str("positional");
    let n_default = String::from_str("default");
    let n_rename = String::from_str("rename");
    let n_pkg = String::from_str("pkg");

    let mut res = CMakeAttribute::default();
    let mut j: usize = 0;
    assert(args@.take(0) =~= Seq::<MetaArg>::empty());
    while j < args.len()
        invariant
            j <= args@.len(),
            path_ok@.len() == args@.len(),
            w_list@ == "list"@,
            w_positional@ == "positional"@,
            n_default@ == "default"@,
            n_rename@ == "rename"@,
            n_pkg@ == "pkg"@,
            res@ == settings_of(args@.take(j as int), path_ok@.take(j as int)),
        decreases args@.len() - j,
    {
        assert(args@.take(j + 1).drop_last() =~= args@.take(j as int));
        assert(path_ok@.take(j + 1).take(j as int) =~= path_ok@.take(j as int));
        match &args[j] {
            MetaArg::Word(w) => {
                if *w == w_list {
                    res.list = true;
                } else if *w == w_positional {
                    res.positional = true;
                }
            },
            MetaArg::Str { name, value, .. } => {
                if *name == n_default {
                    res.default = Some(value.clone());
                } else if *name == n_rename {
                    res.rename = Some(value.clone());
                } else if *name == n_pkg {
                    res.pkg = if path_ok[j] {
                        Some(value.clone())
                    } else {
                        None
                    };
                }
            },
            MetaArg::Other => {},
        }
        j += 1;
    }
    assert(args@.take(args@.len() as int) =~= args@);
    assert(path_ok@.take(args@.len() as int) =~= path_ok@);
    res
}

/// For each `pkg` argument, whether its string literal holds a path, as
/// `syn::LitStr::parse` decides it: the literal must have no suffix and its
/// value must parse as a path (asked of `syn`). The other arguments get
/// `false`, which nothing reads.
pub fn path_checks(args: &Vec<MetaArg>) -> (r: Vec<bool>)
    ensures
        path_answers_fit(args@, r@),
{
    let n_pkg = String::from_str("pkg");
    let mut r: Vec<bool> = Vec::new();
    let mut j: usize = 0;
    while j < args.len()
        invariant
            j <= args@.len(),
            r@.len() == j,
            n_pkg@ == "pkg"@,
            forall|k: int|
                0 <= k < j ==> {
                    &&& (#[trigger] r@[k] ==> is_pkg_arg(args@[k]) && arg_suffix(args@[k]).len() == 0)
                    &&& (is_pkg_arg(args@[k]) && arg_suffix(args@[k]).len() == 0 && is_plain_path(
                        arg_value(args@[k]),
                    ) ==> r@[k])
                },
        decreases args@.len() - j,
    {
        let ok = match &args[j] {
            MetaArg::Str { name, value, suffix } => *name == n_pkg && suffix.as_str().is_empty()
                && parses_as_path(value.as_str()),
            _ => false,
        };
        r.push(ok);
        j += 1;
    }
    r
}

/// Whatever the path checks answer, the settings read fit the declared ones.
pub proof fn lemma_settings_fit(args: Seq<MetaArg>, path_ok: Seq<bool>)
    requires
        path_ok.len() == args.len(),
    ensures
        ({
            let a = settings_of(args, path_ok);
            let d = settings_of(args, all_paths(args.len()));
            &&& a.default == d.default
            &&& a.positional == d.positional
            &&& a.list == d.list
            &&& a.rename == d.rename
            &&& (a.pkg is None || a.pkg == d.pkg)
        }),
    decreases args.len(),
{
    if args.len() > 0 {
        let n = args.len() - 1;
        lemma_settings_fit(args.drop_last(), path_ok.take(n));
        assert(all_paths(args.len()).take(n) =~= all_paths(n as nat));
    }
}

/// Settings read with fitting path-check answers fit the declared settings
/// field by field.
pub proof fn lemma_read_settings_fit(attrs: Seq<AttrDecl>, a: CMakeAttributeView)
    requires
        attrs_well_formed(attrs),
        settings_read(a, attrs),
    ensures
        settings_fit(a, attrs),
{
    match first_cmake(attrs) {
        Some(c) => {
            let args = c.args.unwrap()@;
            let path_ok = choose|path_ok: Seq<bool>|
                #![trigger settings_of(args, path_ok)]
                path_answers_fit(args, path_ok) && a == settings_of(args, path_ok);
            lemma_settings_fit(args, path_ok);
            crate::laws::law_plain_pkg_is_kept(args, path_ok);
        },
        None => {
            assert(cmake_args(attrs) =~= Seq::<MetaArg>::empty());
        },
    }
}

/// Reads the settings of the first `cmake` attribute in `attrs`, or returns
/// `None` when there is none. The crate path is the declared one when `syn`
/// finds it to be a path, and none otherwise.
pub fn cmake_attribute(attrs: &Vec<AttrDecl>) -> (r: Option<CMakeAttribute>)
    requires
        attrs_well_formed(attrs@),
    ensures
        r is Some <==> first_cmake(attrs@) is Some,
        r matches Some(a) ==> settings_read(a@, attrs@) && settings_fit(a@, attrs@),
{
    let i = match find_cmake(attrs) {
        Some(i) => i,
        None => {
            return None;
        },
    };
    let args = match &attrs[i].args {
        Some(a) => a,
        None => {
            // excluded by the precondition
            assert(false);
            return None;
        },
    };
    let path_ok = path_checks(args);
    let res = settings_given(args, &path_ok);
    proof {
        assert(settings_read(res@, attrs@));
        lemma_read_settings_fit(attrs@, res@);
    }
    Some(res)
}

/// Whether reading the settings of `attrs` succeeds: the first `cmake`
/// attribute, if any, has arguments that parse as a list.
pub fn attrs_are_well_formed(attrs: &Vec<AttrDecl>) -> (r: bool)
    ensures
        r == attrs_well_formed(attrs@),
{
    match find_cmake(attrs) {
        Some(i) => attrs[i].args.is_some(),
        None => true,
    }
}

/// The settings of `attrs`, with no settings where there is no `cmake`
/// attribute.
pub fn cmake_attribute_or_none(attrs: &Vec<AttrDecl>) -> (r: CMakeAttribute)
    requires
        attrs_well_formed(attrs@),
    ensures
        settings_read(r@, attrs@),
        settings_fit(r@, attrs@),
{
    match cmake_attribute(attrs) {
        Some(a) => a,
        None => {
            let r = CMakeAttribute::default();
            proof {
                lemma_read_settings_fit(attrs@, r@);
            }
            r
        },
    }
}

} // verus!
