//! An attribute macro's working parts: for a struct with named fields, give
//! every field the tag `#[serde(rename = "..")]`, whose value is the prefix
//! `TodoApp` followed by the field's name in Pascal case.
//!
//! `naming` computes the alias of a name, `syntax` states what is taken on
//! trust of the syntax tree and of token streams, `tag` builds the tag,
//! `rename` tags the fields of a struct, and `laws` states what holds of
//! every struct that went through.

pub mod laws;
pub mod naming;
pub mod rename;
pub mod syntax;
pub mod tag;

pub use naming::{capitalize, computed_alias, split_words, to_pascal_case, PREFIX};
pub use rename::{expand, field_aliases, todo_app, todo_app_impl, RenameError, TAG_KEY, TAG_PATH};
pub use tag::outer_list_attribute;
