//! Text transformations that this library takes from `std`, `inflections`
//! and `syn`: the case conversions that turn a Rust name into a CMake
//! keyword or an enum variant name, and the test whether a text is a path.

use vstd::prelude::*;
use inflections::Inflect;

verus! {

/// What `str::to_uppercase` returns for a text (Unicode uppercase mapping).
pub uninterp spec fn uppercase_of(s: Seq<char>) -> Seq<char>;

/// What `inflections::Inflect::to_pascal_case` returns for a text.
pub uninterp spec fn pascal_case_of(s: Seq<char>) -> Seq<char>;

/// What `inflections::Inflect::to_constant_case` returns for a text.
pub uninterp spec fn constant_case_of(s: Seq<char>) -> Seq<char>;

/// Calls `str::to_uppercase`. The contract claims only that the result is a
/// function of the text's characters, named `uppercase_of`; the Unicode
/// mapping itself is left unsaid.
#[verifier::external_body]
pub(crate) fn to_uppercase(s: &str) -> (r: String)
    ensures
        r@ == uppercase_of(s@),
{
    s.to_uppercase()
}

/// Calls `inflections::Inflect::to_pascal_case` (which forwards to
/// `inflections::case::to_pascal_case`). The contract claims only that the
/// result is a function of the text, named `pascal_case_of`.
#[verifier::external_body]
pub(crate) fn to_pascal_case(s: &str) -> (r: String)
    ensures
        r@ == pascal_case_of(s@),
{
    s.to_pascal_case()
}

/// Calls `inflections::Inflect::to_constant_case` (which forwards to
/// `inflections::case::to_constant_case`). The contract claims only that the
/// result is a function of the text, named `constant_case_of`.
#[verifier::external_body]
pub(crate) fn to_constant_case(s: &str) -> (r: String)
    ensures
        r@ == constant_case_of(s@),
{
    s.to_constant_case()
}

/// A character of an ASCII identifier.
pub open spec fn is_ident_char(c: char) -> bool {
    ('a' <= c <= 'z') || ('A' <= c <= 'Z') || ('0' <= c <= '9') || c == '_'
}

/// A character that no keyword holds: Rust's keywords are lower-case letters
/// only, but for `Self`.
pub open spec fn marks_non_keyword(c: char) -> bool {
    ('A' <= c <= 'Z') || ('0' <= c <= '9') || c == '_'
}

/// The words that `syn` refuses as an identifier in a path segment (its
/// `accept_as_ident`), other than `_`, `crate`, `self`, `super` and `Self`.
pub open spec fn is_reserved_word(s: Seq<char>) -> bool {
    ||| s == "abstract"@
    ||| s == "as"@
    ||| s == "async"@
    ||| s == "await"@
    ||| s == "become"@
    ||| s == "box"@
    ||| s == "break"@
    ||| s == "const"@
    ||| s == "continue"@
    ||| s == "do"@
    ||| s == "dyn"@
    ||| s == "else"@
    ||| s == "enum"@
    ||| s == seq!['e', 'x', 't', 'e', 'r', 'n']
    ||| s == "false"@
    ||| s == "final"@
    ||| s == "fn"@
    ||| s == "for"@
    ||| s == "if"@
    ||| s == "impl"@
    ||| s == "in"@
    ||| s == "let"@
    ||| s == "loop"@
    ||| s == "macro"@
    ||| s == "match"@
    ||| s == "mod"@
    ||| s == "move"@
    ||| s == "mut"@
    ||| s == "override"@
    ||| s == "priv"@
    ||| s == "pub"@
    ||| s == "ref"@
    ||| s == "return"@
    ||| s == "static"@
    ||| s == "struct"@
    ||| s == "trait"@
    ||| s == "true"@
    ||| s == "try"@
    ||| s == "type"@
    ||| s == "typeof"@
    ||| s == "unsafe"@
    ||| s == "unsized"@
    ||| s == "use"@
    ||| s == "virtual"@
    ||| s == "where"@
    ||| s == "while"@
    ||| s == "yield"@
}

/// An ASCII identifier: a letter or `_` first, then letters, digits and `_`,
/// and not `_` alone.
pub open spec fn is_ascii_ident(s: Seq<char>) -> bool {
    &&& s.len() > 0
    &&& !('0' <= s[0] <= '9')
    &&& s != "_"@
    &&& forall|i: int| 0 <= i < s.len() ==> is_ident_char(#[trigger] s[i])
}

/// A path segment that `syn` accepts whichever lexer reads it: `crate`,
/// `self`, `super`, `Self`, or an ASCII identifier that is no reserved word.
pub open spec fn is_plain_segment(s: Seq<char>) -> bool {
    ||| s == "crate"@
    ||| s == "self"@
    ||| s == "super"@
    ||| s == "Self"@
    ||| (is_ascii_ident(s) && !is_reserved_word(s))
}

/// Segments joined by `::`.
pub open spec fn joined_path(segs: Seq<Seq<char>>) -> Seq<char>
    decreases segs.len(),
{
    if segs.len() == 0 {
        Seq::empty()
    } else if segs.len() == 1 {
        segs[0]
    } else {
        joined_path(segs.drop_last()) + "::"@ + segs.last()
    }
}

/// A text made of plain segments joined by `::`, with no space and no
/// leading `::`: a path that `syn` parses in every environment.
pub open spec fn is_plain_path(s: Seq<char>) -> bool {
    exists|segs: Seq<Seq<char>>|
        #![trigger joined_path(segs)]
        segs.len() > 0 && (forall|i: int| 0 <= i < segs.len() ==> is_plain_segment(#[trigger] segs[i]))
            && joined_path(segs) == s
}

/// Calls `syn::parse_str::<syn::Path>` and reports whether it succeeded.
/// `syn` lexes the text with the compiler's lexer inside a procedural macro
/// and with `proc_macro2`'s own lexer elsewhere, and the two can disagree;
/// the contract claims only what holds under both: a plain path (ASCII
/// identifiers other than reserved words, or `crate`, `self`, `super` and
/// `Self`, joined by `::`, with no space) parses.
#[verifier::external_body]
pub(crate) fn parses_as_path(s: &str) -> (r: bool)
    ensures
        is_plain_path(s@) ==> r,
{
    syn::parse_str::<syn::Path>(s).is_ok()
}

} // verus!

verus! {

/// What `format!("{:?}", s)` gives for a text: `Debug` of `str`, the text
/// quoted and escaped.
pub uninterp spec fn debug_text_of(s: Seq<char>) -> Seq<char>;

/// Formats the text with `Debug` of `str` (`format!("{:?}", s)`). The
/// contract claims only that the result is a function of the text, named
/// `debug_text_of`; the quoting and escaping rules are left unsaid.
#[verifier::external_body]
pub(crate) fn debug_text(s: &str) -> (r: String)
    ensures
        r@ == debug_text_of(s@),
{
    format!("{:?}", s)
}

} // verus!
