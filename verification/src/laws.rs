//! What holds of every struct that the renamer accepts, and of every input
//! that it refuses, stated over the relation in which `todo_app_impl` leaves
//! its input.

use vstd::prelude::*;
use syn::{Data, DeriveInput, Fields};
use crate::naming::{pascal_case, PREFIX};
use crate::rename::{named_fields, rejection, renamed, RenameError, TAG_KEY, TAG_PATH};
use crate::tag::is_name_value_tag;
use crate::syntax::{fields_of, ident_text};

verus! {

/// A struct comes out with as many fields as it had, and each stands where it
/// stood: at every place the name, the type and the visibility are those of
/// the field that was there.
pub proof fn lemma_fields_keep_number_and_order(before: DeriveInput, after: DeriveInput)
    requires
        renamed(before, after),
    ensures
        named_fields(after).len() == named_fields(before).len(),
        forall|i: int|
            0 <= i < named_fields(before).len() ==> {
                &&& (#[trigger] named_fields(after)[i]).ident == named_fields(before)[i].ident
                &&& named_fields(after)[i].ty == named_fields(before)[i].ty
                &&& named_fields(after)[i].vis == named_fields(before)[i].vis
            },
{
}

/// The last tag of a field that comes out is `#[serde(rename = "..")]` with
/// the field's alias: the prefix, then the field's name in Pascal case.
pub proof fn lemma_new_tag_carries_alias(before: DeriveInput, after: DeriveInput, i: int)
    requires
        renamed(before, after),
        0 <= i < named_fields(before).len(),
    ensures
        is_name_value_tag(
            named_fields(after)[i].attrs@.last(),
            TAG_PATH@,
            TAG_KEY@,
            PREFIX@ + pascal_case(ident_text(named_fields(before)[i].ident->0)),
        ),
{
}

/// A field comes out with one tag more than it had, and the tags that it had
/// stand in front of the new one, in the order in which they stood.
pub proof fn lemma_existing_tags_stay_in_front(before: DeriveInput, after: DeriveInput, i: int)
    requires
        renamed(before, after),
        0 <= i < named_fields(before).len(),
    ensures
        named_fields(after)[i].attrs@.len() == named_fields(before)[i].attrs@.len() + 1,
        forall|k: int|
            0 <= k < named_fields(before)[i].attrs@.len() ==> named_fields(after)[i].attrs@[k]
                == #[trigger] named_fields(before)[i].attrs@[k],
{
    let had = named_fields(before)[i].attrs@;
    let has = named_fields(after)[i].attrs@;
    assert(has.take(had.len() as int) == had);
    assert forall|k: int| 0 <= k < had.len() implies has[k] == #[trigger] had[k] by {
        assert(has.take(had.len() as int)[k] == has[k]);
    }
}

/// The tags of the struct itself, its visibility, its name and its generics,
/// which hold its lifetime parameters and its `where` clause, are unchanged.
pub proof fn lemma_struct_header_unchanged(before: DeriveInput, after: DeriveInput)
    requires
        renamed(before, after),
    ensures
        after.attrs == before.attrs,
        after.vis == before.vis,
        after.ident == before.ident,
        after.generics == before.generics,
{
}

/// A struct with nothing between its braces is accepted, and comes out as
/// it was: without a field, so that no tag is added anywhere.
pub proof fn lemma_empty_braces_are_accepted(before: DeriveInput, after: DeriveInput)
    requires
        before.data matches Data::Struct(data) && data.fields matches Fields::Named(named)
            && fields_of(named.named).len() == 0,
    ensures
        rejection(before) is None,
        renamed(before, after) ==> named_fields(after).len() == 0 && after == before,
{
}

/// A tuple struct and a unit struct are refused for the kind of their
/// fields.
pub proof fn lemma_unnamed_fields_are_refused(item: DeriveInput)
    requires
        item.data matches Data::Struct(data) && !(data.fields is Named),
    ensures
        rejection(item) == Some(RenameError::UnsupportedFieldKind),
{
}

/// An enum and a union are refused for their kind.
pub proof fn lemma_other_kinds_are_refused(item: DeriveInput)
    requires
        !(item.data is Struct),
    ensures
        rejection(item) == Some(RenameError::UnsupportedInputKind),
{
}

} // verus!
