//! The requests that the store hands to the engine: point lookups and the
//! operations of a commit.

use vstd::prelude::*;

verus! {

/// One change to the entry under a key.
#[derive(Debug)]
pub enum Operation {
    /// Puts the value under the key.
    Put(Vec<u8>, Vec<u8>),
    /// Removes the entry under the key, if there is one.
    Dereference(Vec<u8>),
}

/// What an [`Operation`] is, over sequences of bytes.
pub enum OperationView {
    Put(Seq<u8>, Seq<u8>),
    Dereference(Seq<u8>),
}

impl OperationView {
    /// The key that the operation changes.
    pub open spec fn key(self) -> Seq<u8> {
        match self {
            OperationView::Put(key, _) => key,
            OperationView::Dereference(key) => key,
        }
    }
}

impl View for Operation {
    type V = OperationView;

    open spec fn view(&self) -> OperationView {
        match self {
            Operation::Put(key, value) => OperationView::Put(key@, value@),
            Operation::Dereference(key) => OperationView::Dereference(key@),
        }
    }
}

impl Operation {
    /// The key that the operation changes.
    pub fn key(&self) -> (r: &[u8])
        ensures
            r@ == self@.key(),
    {
        match self {
            Operation::Put(key, _) => key.as_slice(),
            Operation::Dereference(key) => key.as_slice(),
        }
    }
}

impl Clone for Operation {
    fn clone(&self) -> (r: Self)
        ensures
            r@ == self@,
    {
        match self {
            Operation::Put(key, value) => Operation::Put(key.clone(), value.clone()),
            Operation::Dereference(key) => Operation::Dereference(key.clone()),
        }
    }
}

/// An operation with the number of the column it applies to.
pub type Op = (u8, Operation);

/// What an [`Op`] is.
pub type OpView = (u8, OperationView);

/// The place of an entry: the number of its column, and its key.
pub type Location = (u8, Vec<u8>);

/// What a [`Location`] is.
pub type LocationView = (u8, Seq<u8>);

/// The place that an operation changes.
pub open spec fn target(op: OpView) -> LocationView {
    (op.0, op.1.key())
}

/// The operations of a commit, in their order, as plain values.
pub open spec fn plan(ops: Seq<Op>) -> Seq<OpView> {
    ops.map_values(|op: Op| op@)
}

} // verus!
