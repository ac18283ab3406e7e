//! The field renamer: every named field of a struct gets one more tag, which
//! tells the serializer to use the field's alias in place of its name.

use vstd::prelude::*;
use proc_macro2::{Delimiter, Spacing, TokenStream};
use syn::punctuated::Punctuated;
use syn::token::Comma;
use syn::{Attribute, Data, DeriveInput, Field, Fields};
use crate::naming::{alias_of, computed_alias};
use crate::syntax::{
    delimiter_of, error_tokens, field_at, field_at_mut, field_count, fields_of, ident_string,
    ident_text, inner_of, is_punct, is_word, item_text, item_tokens, parse_item, parsed_item,
    separators_of, stream_text, string_value_of, tree_text, trees_of,
};
use crate::tag::{is_name_value_tag, outer_list_attribute};

verus! {

/// The path of the tag that the renamer adds.
pub const TAG_PATH: &'static str = "serde";

/// The key under which that tag holds the alias.
pub const TAG_KEY: &'static str = "rename";

/// Why an input is refused.
#[derive(Debug, Clone, Copy, PartialEq, Eq, Structural)]
pub enum RenameError {
    /// The input is no struct.
    UnsupportedInputKind,
    /// The input is a struct, but its fields are not all named.
    UnsupportedFieldKind,
}

impl RenameError {
    /// The message of this error.
    pub open spec fn message_of(self) -> Seq<char> {
        match self {
            RenameError::UnsupportedInputKind => "Only Structs are allowed"@,
            RenameError::UnsupportedFieldKind => "Only Named fields are allowed"@,
        }
    }

    /// The message of this error, for a reader.
    pub fn message(&self) -> (text: &'static str)
        ensures
            text@ == self.message_of(),
    {
        match self {
            RenameError::UnsupportedInputKind => "Only Structs are allowed",
            RenameError::UnsupportedFieldKind => "Only Named fields are allowed",
        }
    }
}

/// The named fields of `item`, in the order in which it declares them; none
/// where it is no struct with named fields.
pub open spec fn named_fields(item: DeriveInput) -> Seq<Field> {
    match item.data {
        Data::Struct(data) => match data.fields {
            Fields::Named(named) => fields_of(named.named),
            _ => Seq::empty(),
        },
        _ => Seq::empty(),
    }
}

/// Whether each of `fields` has a name.
pub open spec fn all_named(fields: Seq<Field>) -> bool {
    forall|i: int| 0 <= i < fields.len() ==> (#[trigger] fields[i]).ident is Some
}

/// Why `item` is refused, or `None` where it is accepted: a struct whose
/// fields stand in braces, each with a name. A struct with empty braces is
/// accepted.
pub open spec fn rejection(item: DeriveInput) -> Option<RenameError> {
    match item.data {
        Data::Struct(data) => match data.fields {
            Fields::Named(named) => if all_named(fields_of(named.named)) {
                None
            } else {
                Some(RenameError::UnsupportedFieldKind)
            },
            _ => Some(RenameError::UnsupportedFieldKind),
        },
        _ => Some(RenameError::UnsupportedInputKind),
    }
}

/// Whether `attr` is the tag that renames a field to `alias`:
/// `#[serde(rename = "..")]` with `alias` as the string.
pub open spec fn is_rename_tag(attr: Attribute, alias: Seq<char>) -> bool {
    is_name_value_tag(attr, TAG_PATH@, TAG_KEY@, alias)
}

/// Whether `after` is the field `before` with one more tag, behind those it
/// had, which renames it to `alias`.
pub open spec fn field_tagged(before: Field, after: Field, alias: Seq<char>) -> bool {
    &&& after.vis == before.vis
    &&& after.mutability == before.mutability
    &&& after.ident == before.ident
    &&& after.colon_token == before.colon_token
    &&& after.ty == before.ty
    &&& after.attrs@.len() == before.attrs@.len() + 1
    &&& after.attrs@.take(before.attrs@.len() as int) == before.attrs@
    &&& is_rename_tag(after.attrs@.last(), alias)
}

/// Whether `after` holds the fields `before`, each tagged with the alias at
/// its place in `aliases`.
pub open spec fn fields_tagged(
    before: Seq<Field>,
    after: Seq<Field>,
    aliases: Seq<Seq<char>>,
) -> bool {
    &&& after.len() == before.len()
    &&& aliases.len() == before.len()
    &&& forall|i: int|
        0 <= i < before.len() ==> field_tagged(before[i], #[trigger] after[i], aliases[i])
}

/// The aliases of `fields`, in their order.
pub open spec fn aliases_of(fields: Seq<Field>) -> Seq<Seq<char>> {
    Seq::new(fields.len(), |i: int| alias_of(ident_text(fields[i].ident->0)))
}

/// Whether `after` is the struct `before` with every field tagged with its
/// alias, and nothing else changed: not the tags, visibility, name and
/// generics of the struct itself, nor the number and order of its fields, nor
/// the commas between them. A struct without fields is left as it was.
pub open spec fn renamed(before: DeriveInput, after: DeriveInput) -> bool {
    &&& after.attrs == before.attrs
    &&& after.vis == before.vis
    &&& after.ident == before.ident
    &&& after.generics == before.generics
    &&& before.data matches Data::Struct(b) && after.data matches Data::Struct(a) && {
        &&& a.struct_token == b.struct_token
        &&& a.semi_token == b.semi_token
        &&& b.fields matches Fields::Named(bn) && a.fields matches Fields::Named(an) && {
            &&& an.brace_token == bn.brace_token
            &&& separators_of(an.named) == separators_of(bn.named)
        }
    }
    &&& fields_tagged(named_fields(before), named_fields(after), aliases_of(named_fields(before)))
    &&& named_fields(before).len() == 0 ==> after == before
}

/// The texts that the strings of `v` hold.
pub open spec fn string_texts(v: Seq<String>) -> Seq<Seq<char>> {
    Seq::new(v.len(), |i: int| v[i]@)
}

/// Computes the alias of each of `fields`, or refuses them where one has no
/// name.
fn aliases_of_fields(fields: &Punctuated<Field, Comma>) -> (result: Result<
    Vec<String>,
    RenameError,
>)
    ensures
        match result {
            Ok(aliases) => {
                &&& all_named(fields_of(*fields))
                &&& aliases@.len() == fields_of(*fields).len()
                &&& string_texts(aliases@) == aliases_of(fields_of(*fields))
            },
            Err(e) => !all_named(fields_of(*fields)) && e == RenameError::UnsupportedFieldKind,
        },
{
    let n = field_count(fields);
    let mut aliases: Vec<String> = Vec::new();
    let mut i: usize = 0;
    while i < n
        invariant
            i <= n,
            n == fields_of(*fields).len(),
            aliases@.len() == i,
            forall|j: int| 0 <= j < i ==> (#[trigger] fields_of(*fields)[j]).ident is Some,
            forall|j: int|
                0 <= j < i ==> (#[trigger] aliases@[j])@ == alias_of(
                    ident_text(fields_of(*fields)[j].ident->0),
                ),
        decreases n - i,
    {
        let field = field_at(fields, i);
        match &field.ident {
            Some(ident) => {
                let name = ident_string(ident);
                let alias = computed_alias(&name);
                aliases.push(alias);
            },
            None => {
                return Err(RenameError::UnsupportedFieldKind);
            },
        }
        i += 1;
    }
    assert(string_texts(aliases@) =~= aliases_of(fields_of(*fields)));
    Ok(aliases)
}

/// Decides whether `item` is accepted and, where it is, computes the alias
/// of each of its fields, in their order.
pub fn field_aliases(item: &DeriveInput) -> (result: Result<Vec<String>, RenameError>)
    ensures
        match result {
            Ok(aliases) => {
                &&& rejection(*item) is None
                &&& aliases@.len() == named_fields(*item).len()
                &&& string_texts(aliases@) == aliases_of(named_fields(*item))
            },
            Err(e) => rejection(*item) == Some(e),
        },
{
    match &item.data {
        Data::Struct(data) => match &data.fields {
            Fields::Named(named) => aliases_of_fields(&named.named),
            _ => Err(RenameError::UnsupportedFieldKind),
        },
        _ => Err(RenameError::UnsupportedInputKind),
    }
}

/// Adds to each of `fields` the tag that renames it to the alias at its
/// place in `aliases`.
fn tag_fields(fields: &mut Punctuated<Field, Comma>, aliases: &Vec<String>)
    requires
        aliases@.len() == fields_of(*old(fields)).len(),
    ensures
        fields_tagged(fields_of(*old(fields)), fields_of(*final(fields)), string_texts(aliases@)),
        separators_of(*final(fields)) == separators_of(*old(fields)),
        fields_of(*old(fields)).len() == 0 ==> *final(fields) == *old(fields),
{
    let n = aliases.len();
    let mut i: usize = 0;
    proof {
        reveal_strlit("serde");
        reveal_strlit("rename");
        assert(is_word(TAG_PATH@));
        assert(is_word(TAG_KEY@));
    }
    while i < n
        invariant
            i <= n,
            n == aliases@.len(),
            is_word(TAG_PATH@),
            is_word(TAG_KEY@),
            fields_of(*fields).len() == n,
            fields_of(*old(fields)).len() == n,
            separators_of(*fields) == separators_of(*old(fields)),
            i == 0 ==> *fields == *old(fields),
            forall|j: int| i <= j < n ==> fields_of(*fields)[j] == fields_of(*old(fields))[j],
            forall|j: int|
                0 <= j < i ==> field_tagged(
                    fields_of(*old(fields))[j],
                    #[trigger] fields_of(*fields)[j],
                    aliases@[j]@,
                ),
        decreases n - i,
    {
        let tag = outer_list_attribute(TAG_PATH, TAG_KEY, aliases[i].as_str());
        let field = field_at_mut(fields, i);
        let ghost had = field.attrs@;
        field.attrs.push(tag);
        assert(field.attrs@.take(had.len() as int) == had);
        i += 1;
    }
}

/// Tags the fields of `input` in place and returns its tokens.
///
/// An input that is no struct, or a struct whose fields are not all named,
/// is refused and left as it was. In an accepted one every field gets, behind
/// the tags it has, the tag `#[serde(rename = "..")]` with its alias, and
/// nothing else changes; where there is no field, nothing changes at all.
/// Fields that carry such a tag already get one more.
pub fn todo_app_impl(input: &mut DeriveInput) -> (result: Result<TokenStream, RenameError>)
    ensures
        match result {
            Ok(tokens) => {
                &&& rejection(*old(input)) is None
                &&& renamed(*old(input), *final(input))
                &&& named_fields(*old(input)).len() == 0 ==> *final(input) == *old(input)
                &&& stream_text(tokens) == item_text(*final(input))
            },
            Err(e) => rejection(*old(input)) == Some(e) && *final(input) == *old(input),
        },
{
    let aliases = match field_aliases(input) {
        Ok(aliases) => aliases,
        Err(e) => {
            return Err(e);
        },
    };
    match &mut input.data {
        Data::Struct(data) => match &mut data.fields {
            Fields::Named(named) => {
                tag_fields(&mut named.named, &aliases);
            },
            _ => {},
        },
        _ => {},
    }
    Ok(item_tokens(input))
}

/// Whether `tokens` report `message` as an error at compile time: they are
/// the call `::core::compile_error!{ "message" }`, with the message as one
/// string literal.
pub open spec fn is_error_report(tokens: TokenStream, message: Seq<char>) -> bool {
    let trees = trees_of(tokens);
    &&& trees.len() == 8
    &&& is_punct(trees[0], ':', Spacing::Joint) && is_punct(trees[1], ':', Spacing::Alone)
    &&& tree_text(trees[2]) == "core"@
    &&& is_punct(trees[3], ':', Spacing::Joint) && is_punct(trees[4], ':', Spacing::Alone)
    &&& tree_text(trees[5]) == "compile_error"@
    &&& is_punct(trees[6], '!', Spacing::Alone)
    &&& delimiter_of(trees[7]) == Some(Delimiter::Brace)
    &&& inner_of(trees[7]) matches Some(inner) && {
        &&& trees_of(inner).len() == 1
        &&& string_value_of(trees_of(inner)[0]) == Some(message)
    }
}

/// Whether `output` is what the macro hands back for an input that was read
/// as `parsed`: the tokens of the item with its fields tagged, where an item
/// was read and is accepted, and else the tokens that report the message of
/// the refusal as an error. What cannot be read as a struct, an enum or a
/// union is no struct.
pub open spec fn expands_to(parsed: Option<DeriveInput>, output: TokenStream) -> bool {
    match parsed {
        Some(item) => match rejection(item) {
            None => exists|after: DeriveInput|
                #[trigger] renamed(item, after) && stream_text(output) == item_text(after),
            Some(e) => is_error_report(output, e.message_of()),
        },
        None => is_error_report(output, RenameError::UnsupportedInputKind.message_of()),
    }
}

/// The item that the parser returned, where it returned one.
pub open spec fn read_item(parsed: Result<DeriveInput, syn::Error>) -> Option<DeriveInput> {
    match parsed {
        Ok(item) => Some(item),
        Err(_) => None,
    }
}

/// Expands an input that the parser has been through: tags its fields and
/// hands back its tokens, or the tokens of a compile error.
pub fn expand(parsed: Result<DeriveInput, syn::Error>) -> (output: TokenStream)
    ensures
        expands_to(read_item(parsed), output),
{
    let outcome = match parsed {
        Ok(item) => {
            let mut item = item;
            todo_app_impl(&mut item)
        },
        Err(_) => Err(RenameError::UnsupportedInputKind),
    };
    match outcome {
        Ok(tokens) => tokens,
        Err(e) => error_tokens(e.message()),
    }
}

/// The attribute macro, on token streams: reads `input` as an item and
/// expands it. The arguments of the attribute are not looked at.
pub fn todo_app(_args: TokenStream, input: TokenStream) -> (output: TokenStream)
    ensures
        expands_to(parsed_item(input), output),
{
    expand(parse_item(input))
}

} // verus!
