//! What the store expects of the engine beneath it: a map from places to
//! values that changes by atomic commits only.
//!
//! Nothing here runs. The functions say which contents a commit leaves, and
//! the guarantees of the store are stated and proved over them.

use crate::column::{CompressionType, DbColumn};
use crate::operation::{target, LocationView, OpView, OperationView};
use vstd::prelude::*;

verus! {

/// The contents of the engine: the value at each place that has one.
pub type Contents = Map<LocationView, Seq<u8>>;

/// Whether the column with the given number holds values that determine
/// their keys, so that an entry that is present is not written again.
pub open spec fn keeps_values(column: u8) -> bool {
    DbColumn::spec_from_repr(column) matches Some(c) && c.options(
        CompressionType::NoCompression,
    ).preimage
}

/// The contents after one operation. A `Put` puts the value at its place,
/// unless the column keeps its values and the place has one. A
/// `Dereference` empties its place.
pub open spec fn apply_operation(contents: Contents, op: OpView) -> Contents {
    match op.1 {
        OperationView::Put(key, value) => if keeps_values(op.0) && contents.contains_key(
            (op.0, key),
        ) {
            contents
        } else {
            contents.insert((op.0, key), value)
        },
        OperationView::Dereference(key) => contents.remove((op.0, key)),
    }
}

/// The contents after all operations of a commit, applied in their order.
pub open spec fn apply_commit(contents: Contents, ops: Seq<OpView>) -> Contents
    decreases ops.len(),
{
    if ops.len() == 0 {
        contents
    } else {
        apply_operation(apply_commit(contents, ops.drop_last()), ops.last())
    }
}

/// The contents after a commit was handed to the engine: all of its
/// operations are applied, or none is.
pub open spec fn commit_outcome(contents: Contents, ops: Seq<OpView>, succeeded: bool) -> Contents {
    if succeeded {
        apply_commit(contents, ops)
    } else {
        contents
    }
}

/// What a point lookup at `place` gives.
pub open spec fn lookup(contents: Contents, place: LocationView) -> Option<Seq<u8>> {
    if contents.contains_key(place) {
        Some(contents[place])
    } else {
        None
    }
}

/// Whether `keys` is what an enumeration of the keys of `column` gives while
/// nothing is committed: each key of the column, and no other.
pub open spec fn enumerates_keys(contents: Contents, column: u8, keys: Seq<Seq<u8>>) -> bool {
    forall|key: Seq<u8>| #[trigger] keys.contains(key) <==> contents.contains_key((column, key))
}

/// Whether `values` is what an enumeration of the values of `column` gives
/// while nothing is committed: the value of each entry of the column, and no
/// other.
pub open spec fn enumerates_values(contents: Contents, column: u8, values: Seq<Seq<u8>>) -> bool {
    forall|value: Seq<u8>| #[trigger]
        values.contains(value) <==> exists|key: Seq<u8>| #[trigger]
            contents.contains_key((column, key)) && contents[(column, key)] == value
}

/// A commit of one operation is that operation.
pub proof fn lemma_commit_one(contents: Contents, op: OpView)
    ensures
        apply_commit(contents, seq![op]) == apply_operation(contents, op),
{
    let ops = seq![op];
    assert(ops.drop_last() =~= Seq::<OpView>::empty());
    assert(apply_commit(contents, ops.drop_last()) == contents);
}

/// A commit with one more operation applies that operation last.
pub proof fn lemma_commit_push(contents: Contents, ops: Seq<OpView>, op: OpView)
    ensures
        apply_commit(contents, ops.push(op)) == apply_operation(apply_commit(contents, ops), op),
{
    assert(ops.push(op).drop_last() =~= ops);
}

/// A commit changes nothing but the places that its operations name.
pub proof fn lemma_commit_frame(contents: Contents, ops: Seq<OpView>, place: LocationView)
    requires
        forall|i: int| 0 <= i < ops.len() ==> target(#[trigger] ops[i]) != place,
    ensures
        lookup(apply_commit(contents, ops), place) == lookup(contents, place),
    decreases ops.len(),
{
    if ops.len() > 0 {
        lemma_commit_frame(contents, ops.drop_last(), place);
        assert(target(ops[ops.len() - 1]) != place);
    }
}

} // verus!
