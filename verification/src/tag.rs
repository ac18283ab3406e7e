//! The tag that the renamer adds, built part by part.

use vstd::prelude::*;
use proc_macro2::{Spacing, TokenTree};
use syn::{AttrStyle, Attribute, MacroDelimiter, Meta, MetaList};
use crate::syntax::{
    bracket_token, ident_path, ident_token, is_punct, is_word, paren_token, path_text,
    pound_token, punct_token, stream_of, string_token, string_value_of, tree_text, trees_of,
};

verus! {

/// Whether `attr` is the outer tag `#[path(key = "value")]`: a list in
/// parentheses under the path `path`, which holds three tokens, the word
/// `key`, an equals sign that stands alone, and a string literal that stands
/// for `value`.
pub open spec fn is_name_value_tag(
    attr: Attribute,
    path: Seq<char>,
    key: Seq<char>,
    value: Seq<char>,
) -> bool {
    &&& attr.style is Outer
    &&& attr.meta matches Meta::List(list) && {
        &&& path_text(list.path) == path
        &&& list.delimiter is Paren
        &&& trees_of(list.tokens).len() == 3
        &&& tree_text(trees_of(list.tokens)[0]) == key
        &&& is_punct(trees_of(list.tokens)[1], '=', Spacing::Alone)
        &&& string_value_of(trees_of(list.tokens)[2]) == Some(value)
    }
}

/// Builds the outer tag `#[path(key = "value")]`.
///
/// `path` and `key` have to be words, since they become identifiers; `value`
/// may be any text.
pub fn outer_list_attribute(path: &str, key: &str, value: &str) -> (attr: Attribute)
    requires
        is_word(path@),
        is_word(key@),
    ensures
        is_name_value_tag(attr, path@, key@, value@),
{
    let mut trees: Vec<TokenTree> = Vec::new();
    trees.push(ident_token(key));
    trees.push(punct_token('=', Spacing::Alone));
    trees.push(string_token(value));
    let tokens = stream_of(trees);
    let list = MetaList {
        path: ident_path(path),
        delimiter: MacroDelimiter::Paren(paren_token()),
        tokens,
    };
    Attribute {
        pound_token: pound_token(),
        style: AttrStyle::Outer,
        bracket_token: bracket_token(),
        meta: Meta::List(list),
    }
}

} // verus!
