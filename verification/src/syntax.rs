//! The syntax tree of `syn` and the token streams of `proc_macro2`, as far as
//! the renamer reads and writes them.
//!
//! The types that the renamer walks through or builds are declared with their
//! fields, so the verifier reads their real definitions and nothing is
//! assumed of them. The others are opaque. What is assumed of the two crates
//! is stated in the contracts of the private functions at the end of this
//! file, each of which makes one value or reads one, and decides nothing.

use vstd::prelude::*;
use proc_macro2::{Delimiter, Ident, Literal, Punct, Spacing, Span, TokenStream, TokenTree};
use quote::ToTokens;
use syn::punctuated::Punctuated;
use syn::token::{Bracket, Comma, Paren, Pound};
use syn::{DeriveInput, Field, Path};

verus! {

/// `syn::DeriveInput`, with its fields: the tags, visibility, name, generics
/// and body of a struct, an enum or a union.
#[verifier::external_type_specification]
pub struct ExDeriveInput(syn::DeriveInput);

/// `syn::Data`, with its variants: the body of a struct, an enum or a union.
#[verifier::external_type_specification]
pub struct ExData(syn::Data);

/// `syn::DataStruct`, with its fields.
#[verifier::external_type_specification]
pub struct ExDataStruct(syn::DataStruct);

/// `syn::Fields`, with its variants: named, unnamed, or none at all.
#[verifier::external_type_specification]
pub struct ExFields(syn::Fields);

/// `syn::FieldsNamed`, with its fields: the braces and what stands between
/// them.
#[verifier::external_type_specification]
pub struct ExFieldsNamed(syn::FieldsNamed);

/// `syn::Field`, with its fields: the tags, visibility, name and type of one
/// field of a struct.
#[verifier::external_type_specification]
pub struct ExField(syn::Field);

/// `syn::DataEnum`, opaque.
#[verifier::external_type_specification]
#[verifier::external_body]
pub struct ExDataEnum(syn::DataEnum);

/// `syn::DataUnion`, opaque.
#[verifier::external_type_specification]
#[verifier::external_body]
pub struct ExDataUnion(syn::DataUnion);

/// `syn::FieldsUnnamed`, opaque.
#[verifier::external_type_specification]
#[verifier::external_body]
pub struct ExFieldsUnnamed(syn::FieldsUnnamed);

/// `syn::Attribute`, with its fields: one tag, on an item or on a field.
#[verifier::external_type_specification]
pub struct ExAttribute(syn::Attribute);

/// `syn::AttrStyle`, with its variants: a tag is outer, `#[..]`, or inner,
/// `#![..]`.
#[verifier::external_type_specification]
pub struct ExAttrStyle(syn::AttrStyle);

/// `syn::Meta`, with its variants: what stands between the brackets of a tag.
#[verifier::external_type_specification]
pub struct ExMeta(syn::Meta);

/// `syn::MetaList`, with its fields: a path, and tokens between delimiters.
#[verifier::external_type_specification]
pub struct ExMetaList(syn::MetaList);

/// `syn::MacroDelimiter`, with its variants: parentheses, braces or brackets.
#[verifier::external_type_specification]
pub struct ExMacroDelimiter(syn::MacroDelimiter);

/// `proc_macro2::Spacing`, with its variants: whether a punctuation token is
/// joined to the next.
#[verifier::external_type_specification]
pub struct ExSpacing(proc_macro2::Spacing);

/// `proc_macro2::Delimiter`, with its variants: what a group of tokens
/// stands between.
#[verifier::external_type_specification]
pub struct ExDelimiter(proc_macro2::Delimiter);

/// `syn::Path`, opaque.
#[verifier::external_type_specification]
#[verifier::external_body]
pub struct ExPath(syn::Path);

/// `syn::MetaNameValue`, opaque.
#[verifier::external_type_specification]
#[verifier::external_body]
pub struct ExMetaNameValue(syn::MetaNameValue);

/// `syn::token::Pound`, opaque.
#[verifier::external_type_specification]
#[verifier::external_body]
pub struct ExPoundToken(syn::token::Pound);

/// `syn::token::Bracket`, opaque.
#[verifier::external_type_specification]
#[verifier::external_body]
pub struct ExBracketToken(syn::token::Bracket);

/// `syn::token::Not`, opaque.
#[verifier::external_type_specification]
#[verifier::external_body]
pub struct ExNotToken(syn::token::Not);

/// `syn::token::Paren`, opaque.
#[verifier::external_type_specification]
#[verifier::external_body]
pub struct ExParenToken(syn::token::Paren);

/// `proc_macro2::TokenTree`, opaque: one token, or a group of them between
/// delimiters.
#[verifier::external_type_specification]
#[verifier::external_body]
pub struct ExTokenTree(proc_macro2::TokenTree);

/// `syn::Visibility`, opaque.
#[verifier::external_type_specification]
#[verifier::external_body]
pub struct ExVisibility(syn::Visibility);

/// `syn::FieldMutability`, opaque.
#[verifier::external_type_specification]
#[verifier::external_body]
pub struct ExFieldMutability(syn::FieldMutability);

/// `syn::Type`, opaque.
#[verifier::external_type_specification]
#[verifier::external_body]
pub struct ExType(syn::Type);

/// `syn::Generics`, opaque: type, lifetime and const parameters, and the
/// `where` clause.
#[verifier::external_type_specification]
#[verifier::external_body]
pub struct ExGenerics(syn::Generics);

/// `syn::Error`, opaque.
#[verifier::external_type_specification]
#[verifier::external_body]
pub struct ExError(syn::Error);

/// `syn::token::Struct`, opaque.
#[verifier::external_type_specification]
#[verifier::external_body]
pub struct ExStructToken(syn::token::Struct);

/// `syn::token::Semi`, opaque.
#[verifier::external_type_specification]
#[verifier::external_body]
pub struct ExSemiToken(syn::token::Semi);

/// `syn::token::Brace`, opaque.
#[verifier::external_type_specification]
#[verifier::external_body]
pub struct ExBraceToken(syn::token::Brace);

/// `syn::token::Colon`, opaque.
#[verifier::external_type_specification]
#[verifier::external_body]
pub struct ExColonToken(syn::token::Colon);

/// `syn::token::Comma`, opaque.
#[verifier::external_type_specification]
#[verifier::external_body]
pub struct ExCommaToken(syn::token::Comma);

/// `syn::punctuated::Punctuated`, opaque: items of type `T` separated by
/// punctuation of type `P`.
#[verifier::external_type_specification]
#[verifier::external_body]
#[verifier::reject_recursive_types(T)]
#[verifier::reject_recursive_types(P)]
pub struct ExPunctuated<T, P>(syn::punctuated::Punctuated<T, P>);

/// `proc_macro2::Ident`, opaque.
#[verifier::external_type_specification]
#[verifier::external_body]
pub struct ExIdent(proc_macro2::Ident);

/// `proc_macro2::TokenStream`, opaque.
#[verifier::external_type_specification]
#[verifier::external_body]
pub struct ExTokenStream(proc_macro2::TokenStream);

/// The fields that a comma-separated list of fields holds, in order, without
/// the commas.
pub uninterp spec fn fields_of(fields: Punctuated<Field, Comma>) -> Seq<Field>;

/// The commas that a comma-separated list of fields holds, in order, the
/// trailing one among them where there is one.
pub uninterp spec fn separators_of(fields: Punctuated<Field, Comma>) -> Seq<Comma>;

/// The text of an identifier, as its `Display` impl writes it.
pub uninterp spec fn ident_text(ident: Ident) -> Seq<char>;

/// The text of a path, as its tokens are written.
pub uninterp spec fn path_text(path: Path) -> Seq<char>;

/// The token trees that a token stream holds, in order.
pub uninterp spec fn trees_of(tokens: TokenStream) -> Seq<TokenTree>;

/// The text of a token tree, as its `Display` impl writes it.
pub uninterp spec fn tree_text(tree: TokenTree) -> Seq<char>;

/// How a punctuation token stands to the token after it; `None` for a token
/// tree of another kind.
pub uninterp spec fn spacing_of(tree: TokenTree) -> Option<Spacing>;

/// The text that a string literal stands for, with its escapes resolved;
/// `None` for a token tree that is no string literal.
pub uninterp spec fn string_value_of(tree: TokenTree) -> Option<Seq<char>>;

/// The delimiter of a group of tokens; `None` for a token tree that is no
/// group.
pub uninterp spec fn delimiter_of(tree: TokenTree) -> Option<Delimiter>;

/// The tokens that stand between the delimiters of a group; `None` for a
/// token tree that is no group.
pub uninterp spec fn inner_of(tree: TokenTree) -> Option<TokenStream>;

/// The text of a token stream, as its `Display` impl writes it.
pub uninterp spec fn stream_text(tokens: TokenStream) -> Seq<char>;

/// The text of the tokens that an item is written as.
pub uninterp spec fn item_text(item: DeriveInput) -> Seq<char>;

/// The item that `syn::parse2` reads from a token stream, where it reads
/// one.
pub uninterp spec fn parsed_item(tokens: TokenStream) -> Option<DeriveInput>;

/// Whether `c` is one of the letters `a` to `z` and `A` to `Z`.
pub open spec fn is_ascii_letter(c: char) -> bool {
    ('a' <= c && c <= 'z') || ('A' <= c && c <= 'Z')
}

/// Whether `s` is a word: a letter of ASCII, then letters and digits of ASCII
/// and underscores. Every word is an identifier or a keyword of Rust.
pub open spec fn is_word(s: Seq<char>) -> bool {
    &&& s.len() > 0
    &&& is_ascii_letter(s[0])
    &&& forall|i: int|
        0 < i < s.len() ==> is_ascii_letter(#[trigger] s[i]) || ('0' <= s[i] && s[i] <= '9')
            || s[i] == '_'
}

/// Whether `c` is a character that a punctuation token can hold.
pub open spec fn is_punctuation(c: char) -> bool {
    c == '!' || c == '#' || c == '$' || c == '%' || c == '&' || c == '\'' || c == '*' || c == '+'
        || c == ',' || c == '-' || c == '.' || c == '/' || c == ':' || c == ';' || c == '<' || c
        == '=' || c == '>' || c == '?' || c == '@' || c == '^' || c == '|' || c == '~'
}

/// Whether the text `t` starts with a minus sign.
pub open spec fn starts_with_minus(t: Seq<char>) -> bool {
    t.len() > 0 && t[0] == '-'
}

/// Whether `tree` is the punctuation token of the character `c` with the
/// spacing `spacing`.
pub open spec fn is_punct(tree: TokenTree, c: char, spacing: Spacing) -> bool {
    tree_text(tree) == seq![c] && spacing_of(tree) == Some(spacing)
}

/// Calls `Punctuated::len`.
///
/// Trusted: it counts the items, not the punctuation.
#[verifier::external_body]
pub(crate) fn field_count(fields: &Punctuated<Field, Comma>) -> (n: usize)
    ensures
        n == fields_of(*fields).len(),
{
    fields.len()
}

/// Calls `Index::index` of `Punctuated`, which panics past the end.
///
/// Trusted: it borrows the item at that place.
#[verifier::external_body]
pub(crate) fn field_at(fields: &Punctuated<Field, Comma>, i: usize) -> (field: &Field)
    requires
        i < fields_of(*fields).len(),
    ensures
        *field == fields_of(*fields)[i as int],
{
    &fields[i]
}

/// Calls `IndexMut::index_mut` of `Punctuated`, which panics past the end.
///
/// Trusted: it borrows the item at that place, and what the borrower leaves
/// there is all that changes in the list: the other items and the commas
/// stay.
#[verifier::external_body]
pub(crate) fn field_at_mut(fields: &mut Punctuated<Field, Comma>, i: usize) -> (field: &mut Field)
    requires
        i < fields_of(*old(fields)).len(),
    ensures
        *field == fields_of(*old(fields))[i as int],
        fields_of(*final(fields)) == fields_of(*old(fields)).update(i as int, *final(field)),
        separators_of(*final(fields)) == separators_of(*old(fields)),
{
    &mut fields[i]
}

/// Calls `to_string` on a `proc_macro2::Ident`, which goes by its `Display`
/// impl.
///
/// Trusted: the text is a function of the identifier alone.
#[verifier::external_body]
pub(crate) fn ident_string(ident: &Ident) -> (text: String)
    ensures
        text@ == ident_text(*ident),
{
    ident.to_string()
}

/// Calls `Ident::new`, which panics on what is no identifier, with the span
/// `Span::call_site()`, and makes a `syn::Path` of the identifier with
/// `Path::from`.
///
/// Trusted: the path is that one identifier, so its text is `name`.
#[verifier::external_body]
pub(crate) fn ident_path(name: &str) -> (path: Path)
    requires
        is_word(name@),
    ensures
        path_text(path) == name@,
{
    Path::from(Ident::new(name, Span::call_site()))
}

/// Calls `Ident::new`, which panics on what is no identifier, with the span
/// `Span::call_site()`, and makes a token tree of the identifier.
///
/// Trusted: the text of the token is `name`.
#[verifier::external_body]
pub(crate) fn ident_token(name: &str) -> (tree: TokenTree)
    requires
        is_word(name@),
    ensures
        tree_text(tree) == name@,
{
    TokenTree::from(Ident::new(name, Span::call_site()))
}

/// Calls `Punct::new`, which panics on what is no punctuation character, and
/// makes a token tree of the token.
///
/// Trusted: the text of the token is that one character, and its spacing
/// the one given.
#[verifier::external_body]
pub(crate) fn punct_token(c: char, spacing: Spacing) -> (tree: TokenTree)
    requires
        is_punctuation(c),
    ensures
        tree_text(tree) == seq![c],
        spacing_of(tree) == Some(spacing),
{
    TokenTree::from(Punct::new(c, spacing))
}

/// Calls `Literal::string` and makes a token tree of the literal.
///
/// Trusted: the token is a string literal that stands for `value`, however
/// it is escaped, and its text starts with a double quote, so with no minus
/// sign.
#[verifier::external_body]
pub(crate) fn string_token(value: &str) -> (tree: TokenTree)
    ensures
        string_value_of(tree) == Some(value@),
        !starts_with_minus(tree_text(tree)),
{
    TokenTree::from(Literal::string(value))
}

/// Calls `TokenStream::from_iter` on token trees.
///
/// Trusted: the stream holds those trees, in their order. A literal whose
/// text starts with a minus sign would be split in two on the way, so none
/// is let in.
#[verifier::external_body]
pub(crate) fn stream_of(trees: Vec<TokenTree>) -> (tokens: TokenStream)
    requires
        forall|i: int|
            0 <= i < trees@.len() ==> !starts_with_minus(#[trigger] tree_text(trees@[i])),
    ensures
        trees_of(tokens) == trees@,
{
    TokenStream::from_iter(trees)
}

/// Makes a `syn::token::Pound` by its `Default` impl, which gives it the span
/// `Span::call_site()`.
#[verifier::external_body]
pub(crate) fn pound_token() -> Pound {
    Default::default()
}

/// Makes a `syn::token::Bracket` by its `Default` impl, which gives it the
/// span `Span::call_site()`.
#[verifier::external_body]
pub(crate) fn bracket_token() -> Bracket {
    Default::default()
}

/// Makes a `syn::token::Paren` by its `Default` impl, which gives it the span
/// `Span::call_site()`.
#[verifier::external_body]
pub(crate) fn paren_token() -> Paren {
    Default::default()
}

/// Calls `ToTokens::to_token_stream` on a `syn::DeriveInput`.
///
/// Trusted: the text of the tokens is a function of the item alone.
#[verifier::external_body]
pub(crate) fn item_tokens(item: &DeriveInput) -> (tokens: TokenStream)
    ensures
        stream_text(tokens) == item_text(*item),
{
    item.to_token_stream()
}

/// Calls `syn::parse2` for a `syn::DeriveInput`.
///
/// Trusted: whether an item is read, and which, is a function of the token
/// stream alone.
#[verifier::external_body]
pub(crate) fn parse_item(tokens: TokenStream) -> (parsed: Result<DeriveInput, syn::Error>)
    ensures
        parsed matches Ok(item) ==> parsed_item(tokens) == Some(item),
        parsed is Err ==> parsed_item(tokens) is None,
{
    syn::parse2(tokens)
}

/// Makes a `syn::Error` of `message` at `Span::call_site()` and calls
/// `to_compile_error` on it.
///
/// Trusted: for an error of one message the tokens are eight, those of the
/// call `::core::compile_error!{ "message" }`: the path of the macro token by
/// token, the exclamation mark, and a group in braces that holds one string
/// literal, which stands for `message`.
#[verifier::external_body]
pub(crate) fn error_tokens(message: &str) -> (tokens: TokenStream)
    ensures
        trees_of(tokens).len() == 8,
        is_punct(trees_of(tokens)[0], ':', Spacing::Joint),
        is_punct(trees_of(tokens)[1], ':', Spacing::Alone),
        tree_text(trees_of(tokens)[2]) == "core"@,
        is_punct(trees_of(tokens)[3], ':', Spacing::Joint),
        is_punct(trees_of(tokens)[4], ':', Spacing::Alone),
        tree_text(trees_of(tokens)[5]) == "compile_error"@,
        is_punct(trees_of(tokens)[6], '!', Spacing::Alone),
        delimiter_of(trees_of(tokens)[7]) == Some(Delimiter::Brace),
        inner_of(trees_of(tokens)[7]) is Some,
        trees_of(inner_of(trees_of(tokens)[7])->0).len() == 1,
        string_value_of(trees_of(inner_of(trees_of(tokens)[7])->0)[0]) == Some(message@),
{
    syn::Error::new(Span::call_site(), message).to_compile_error()
}

} // verus!
