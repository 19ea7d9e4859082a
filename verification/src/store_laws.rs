//! What holds of the store over any engine that behaves as [`crate::engine`]
//! says.

use crate::column::{column_of, DbColumn};
use crate::content::{canonical_cid, cid_parse, CidView, BLAKE2B_256, DAG_CBOR};
use crate::engine::{
    apply_commit, apply_operation, commit_outcome, keeps_values, lemma_commit_one, lookup,
    Contents,
};
use crate::operation::OpView;
use crate::store::{
    place_of, place_of_setting, put_operation, put_operations, search_step, setting_operation,
    ProbeView,
};
use vstd::prelude::*;

verus! {

/// Whether `cid` may name `block`: an identifier of the canonical column
/// names only the block that hashes to it. Of the other identifiers the
/// store takes the caller's word.
pub open spec fn names(cid: CidView, block: Seq<u8>) -> bool {
    column_of(cid) == DbColumn::GraphDagCborBlake2b256 ==> cid == canonical_cid(block)
}

/// Whether an identifier is one that the store was given: well formed, and
/// read back from its key.
pub open spec fn stored_cid(cid: CidView) -> bool {
    cid.wf() && cid.key_reads_back()
}

/// Whether the entry `value` under `key` in the column with the number
/// `column` is a block: the key is that of an identifier of this column
/// which may name the value.
pub open spec fn is_block_entry(column: u8, key: Seq<u8>, value: Seq<u8>) -> bool {
    cid_parse(key) matches Some(cid) && stored_cid(cid) && cid.key() == key && column_of(
        cid,
    ).spec_id() == column && names(cid, value)
}

/// Whether the column with the number `column` is one of the two that hold
/// blocks.
pub open spec fn is_graph_column(column: u8) -> bool {
    column == DbColumn::GraphDagCborBlake2b256.spec_id() || column == DbColumn::GraphFull.spec_id()
}

/// Whether every entry of the graph columns is a block: what holds of
/// contents into which blocks came by the store's own operations only.
pub open spec fn holds_blocks(contents: Contents) -> bool {
    forall|column: u8, key: Seq<u8>|
        is_graph_column(column) && #[trigger] contents.contains_key((column, key))
            ==> is_block_entry(column, key, contents[(column, key)])
}

/// Every identifier belongs to exactly one column, which is a graph column:
/// the canonical one where codec and hash function are the canonical ones,
/// the indexed one for every other combination.
pub proof fn lemma_column_partition(cid: CidView)
    ensures
        is_graph_column(column_of(cid).spec_id()),
        column_of(cid) != DbColumn::Settings,
        column_of(cid) == DbColumn::GraphDagCborBlake2b256 <==> cid.codec == DAG_CBOR
            && cid.hash.code == BLAKE2B_256,
        column_of(cid) == DbColumn::GraphFull <==> !(cid.codec == DAG_CBOR && cid.hash.code
            == BLAKE2B_256),
{
}

/// Two identifiers that the store was given have the same place only if
/// they are the same identifier.
pub proof fn lemma_places_differ(a: CidView, b: CidView)
    requires
        stored_cid(a),
        stored_cid(b),
        a != b,
    ensures
        a.key() != b.key(),
        place_of(a) != place_of(b),
{
}

/// Where every entry of the graph columns is a block, no key lies in both
/// of them.
pub proof fn lemma_graph_columns_disjoint(contents: Contents, key: Seq<u8>)
    requires
        holds_blocks(contents),
    ensures
        !(contents.contains_key((DbColumn::GraphDagCborBlake2b256.spec_id(), key))
            && contents.contains_key((DbColumn::GraphFull.spec_id(), key))),
{
    let canonical = DbColumn::GraphDagCborBlake2b256.spec_id();
    let full = DbColumn::GraphFull.spec_id();
    if contents.contains_key((canonical, key)) && contents.contains_key((full, key)) {
        assert(is_block_entry(canonical, key, contents[(canonical, key)]));
        assert(is_block_entry(full, key, contents[(full, key)]));
    }
}

/// Storing a block under an identifier that may name it leaves every entry
/// of the graph columns a block.
pub proof fn lemma_put_keeps_blocks(contents: Contents, cid: CidView, block: Seq<u8>)
    requires
        holds_blocks(contents),
        stored_cid(cid),
        names(cid, block),
    ensures
        holds_blocks(apply_commit(contents, seq![put_operation(cid, block)])),
{
    lemma_commit_one(contents, put_operation(cid, block));
    let after = apply_commit(contents, seq![put_operation(cid, block)]);
    assert forall|column: u8, key: Seq<u8>|
        is_graph_column(column) && #[trigger] after.contains_key((column, key)) implies is_block_entry(
        column,
        key,
        after[(column, key)],
    ) by {
        if (column, key) == place_of(cid) {
            if contents.contains_key((column, key)) {
                assert(keeps_values(column));
            }
        } else {
            assert(contents.contains_key((column, key)));
        }
    }
}

/// After the commit of `put_keyed` for an identifier, the lookup of `get`
/// for it finds the block, provided the store held no other bytes under the
/// identifier before. Every other place is as it was.
pub proof fn lemma_put_then_get(contents: Contents, cid: CidView, block: Seq<u8>)
    requires
        lookup(contents, place_of(cid)) is None || lookup(contents, place_of(cid)) == Some(block),
    ensures
        lookup(apply_commit(contents, seq![put_operation(cid, block)]), place_of(cid)) == Some(
            block,
        ),
        forall|place: (u8, Seq<u8>)|
            place != place_of(cid) ==> #[trigger] lookup(
                apply_commit(contents, seq![put_operation(cid, block)]),
                place,
            ) == lookup(contents, place),
{
    lemma_commit_one(contents, put_operation(cid, block));
}

/// After the commit of `put_keyed` for an identifier, a lookup under its key
/// in the graph column that is not its own finds nothing, where every entry
/// of the graph columns was a block before.
pub proof fn lemma_put_leaves_other_column(
    contents: Contents,
    cid: CidView,
    block: Seq<u8>,
    other: DbColumn,
)
    requires
        holds_blocks(contents),
        stored_cid(cid),
        other.is_graph(),
        other != column_of(cid),
    ensures
        lookup(
            apply_commit(contents, seq![put_operation(cid, block)]),
            (other.spec_id(), cid.key()),
        ) is None,
{
    lemma_commit_one(contents, put_operation(cid, block));
    if contents.contains_key((other.spec_id(), cid.key())) {
        assert(is_graph_column(other.spec_id()));
        assert(is_block_entry(other.spec_id(), cid.key(), contents[(other.spec_id(), cid.key())]));
    }
}

/// Whether the contents and a batch of blocks agree: no place of the batch
/// holds other bytes than the batch brings for it, and the batch brings no
/// two different blocks for one place.
pub open spec fn agrees(contents: Contents, blocks: Seq<(CidView, Seq<u8>)>) -> bool {
    &&& forall|i: int|
        0 <= i < blocks.len() ==> lookup(contents, place_of((#[trigger] blocks[i]).0)) is None
            || lookup(contents, place_of(blocks[i].0)) == Some(blocks[i].1)
    &&& forall|i: int, j: int|
        0 <= i < blocks.len() && 0 <= j < blocks.len() && place_of((#[trigger] blocks[i]).0)
            == place_of((#[trigger] blocks[j]).0) ==> blocks[i].1 == blocks[j].1
}

/// The first `n` blocks of a batch that agrees with the contents are found
/// after the commit of their operations, and the contents still agree with
/// the batch.
proof fn lemma_batch_prefix(contents: Contents, blocks: Seq<(CidView, Seq<u8>)>, n: int)
    requires
        agrees(contents, blocks),
        0 <= n <= blocks.len(),
    ensures
        agrees(apply_commit(contents, put_operations(blocks).take(n)), blocks),
        forall|i: int|
            0 <= i < n ==> lookup(
                apply_commit(contents, put_operations(blocks).take(n)),
                place_of((#[trigger] blocks[i]).0),
            ) == Some(blocks[i].1),
    decreases n,
{
    let ops = put_operations(blocks);
    if n == 0 {
        assert(ops.take(0) =~= Seq::<OpView>::empty());
    } else {
        lemma_batch_prefix(contents, blocks, n - 1);
        let before = apply_commit(contents, ops.take(n - 1));
        assert(ops.take(n).drop_last() =~= ops.take(n - 1));
        assert(ops.take(n).last() == put_operation(blocks[n - 1].0, blocks[n - 1].1));
        let after = apply_commit(contents, ops.take(n));
        assert(after == apply_operation(before, put_operation(blocks[n - 1].0, blocks[n - 1].1)));
        let here = place_of(blocks[n - 1].0);
        assert(lookup(before, here) is None || lookup(before, here) == Some(blocks[n - 1].1));
        assert(lookup(after, here) == Some(blocks[n - 1].1));
        assert forall|i: int| 0 <= i < blocks.len() implies lookup(
            after,
            place_of((#[trigger] blocks[i]).0),
        ) is None || lookup(after, place_of(blocks[i].0)) == Some(blocks[i].1) by {
            if place_of(blocks[i].0) == here {
                assert(blocks[i].1 == blocks[n - 1].1);
            }
        }
        assert forall|i: int| 0 <= i < n implies lookup(after, place_of((#[trigger] blocks[i]).0))
            == Some(blocks[i].1) by {
            if place_of(blocks[i].0) == here {
                assert(blocks[i].1 == blocks[n - 1].1);
            } else {
                assert(lookup(before, place_of(blocks[i].0)) == Some(blocks[i].1));
            }
        }
    }
}

/// The one commit of `put_many_keyed` makes every block of the batch
/// readable where the engine takes it, and changes nothing where the engine
/// fails it: no part of a batch is ever visible alone. The batch may span
/// both graph columns. It has to agree with the contents.
pub proof fn lemma_batch_all_or_nothing(
    contents: Contents,
    blocks: Seq<(CidView, Seq<u8>)>,
    succeeded: bool,
)
    requires
        agrees(contents, blocks),
    ensures
        succeeded ==> forall|i: int|
            0 <= i < blocks.len() ==> lookup(
                commit_outcome(contents, put_operations(blocks), succeeded),
                place_of((#[trigger] blocks[i]).0),
            ) == Some(blocks[i].1),
        !succeeded ==> commit_outcome(contents, put_operations(blocks), succeeded) == contents,
{
    lemma_batch_prefix(contents, blocks, blocks.len() as int);
    assert(put_operations(blocks).take(blocks.len() as int) =~= put_operations(blocks));
}

/// A setting that is written twice holds the value that was written last,
/// whatever it held before.
pub proof fn lemma_setting_overwritten(
    contents: Contents,
    key: Seq<char>,
    first: Seq<u8>,
    second: Seq<u8>,
)
    ensures
        lookup(
            apply_commit(
                apply_commit(contents, seq![setting_operation(key, first)]),
                seq![setting_operation(key, second)],
            ),
            place_of_setting(key),
        ) == Some(second),
{
    lemma_commit_one(contents, setting_operation(key, first));
    lemma_commit_one(
        apply_commit(contents, seq![setting_operation(key, first)]),
        setting_operation(key, second),
    );
}

/// A block that is stored again under its identifier is not overwritten:
/// the second commit is taken and changes nothing, whatever bytes it brings.
/// Where the place was empty at first, it holds the bytes stored first.
pub proof fn lemma_block_kept(contents: Contents, cid: CidView, first: Seq<u8>, second: Seq<u8>)
    ensures
        apply_commit(
            apply_commit(contents, seq![put_operation(cid, first)]),
            seq![put_operation(cid, second)],
        ) == apply_commit(contents, seq![put_operation(cid, first)]),
        lookup(contents, place_of(cid)) is None ==> lookup(
            apply_commit(
                apply_commit(contents, seq![put_operation(cid, first)]),
                seq![put_operation(cid, second)],
            ),
            place_of(cid),
        ) == Some(first),
{
    lemma_commit_one(contents, put_operation(cid, first));
    lemma_commit_one(
        apply_commit(contents, seq![put_operation(cid, first)]),
        put_operation(cid, second),
    );
}

/// Whether `op` is an operation that the store makes: it stores a block
/// under an identifier that may name it, or it writes to the settings
/// column, or it removes an entry.
pub open spec fn store_operation(op: OpView) -> bool {
    ||| exists|cid: CidView, block: Seq<u8>|
        stored_cid(cid) && names(cid, block) && op == #[trigger] put_operation(cid, block)
    ||| op.0 == DbColumn::Settings.spec_id()
    ||| op.1 is Dereference
}

/// An engine that holds nothing holds blocks only.
pub proof fn lemma_empty_holds_blocks()
    ensures
        holds_blocks(Map::empty()),
{
}

/// A commit of operations that the store makes leaves every entry of the
/// graph columns a block.
pub proof fn lemma_commit_keeps_blocks(contents: Contents, ops: Seq<OpView>)
    requires
        holds_blocks(contents),
        forall|i: int| 0 <= i < ops.len() ==> store_operation(#[trigger] ops[i]),
    ensures
        holds_blocks(apply_commit(contents, ops)),
    decreases ops.len(),
{
    if ops.len() > 0 {
        let before = apply_commit(contents, ops.drop_last());
        let op = ops.last();
        let after = apply_operation(before, op);
        assert forall|i: int| 0 <= i < ops.drop_last().len() implies store_operation(
            #[trigger] ops.drop_last()[i],
        ) by {
            assert(ops.drop_last()[i] == ops[i]);
        }
        lemma_commit_keeps_blocks(contents, ops.drop_last());
        assert(store_operation(op));
        assert forall|column: u8, key: Seq<u8>|
            is_graph_column(column) && #[trigger] after.contains_key(
                (column, key),
            ) implies is_block_entry(column, key, after[(column, key)]) by {
            if before.contains_key((column, key)) {
                assert(is_block_entry(column, key, before[(column, key)]));
                assert(keeps_values(column));
            }
        }
    }
}

/// The search of `contains` asks the canonical column first and the indexed
/// column only where the first holds nothing, and it ends with whether one
/// of the two holds an entry under the key of the identifier.
pub proof fn lemma_search_finds(
    contents: Contents,
    cid: CidView,
    first: Option<u32>,
    second: Option<u32>,
)
    requires
        first is Some <==> contents.contains_key(
            (DbColumn::GraphDagCborBlake2b256.spec_id(), cid.key()),
        ),
        second is Some <==> contents.contains_key((DbColumn::GraphFull.spec_id(), cid.key())),
    ensures
        search_step(cid, seq![]) == ProbeView::Ask(
            (DbColumn::GraphDagCborBlake2b256.spec_id(), cid.key()),
        ),
        first is Some ==> search_step(cid, seq![first]) == ProbeView::Done(true),
        first is None ==> search_step(cid, seq![first]) == ProbeView::Ask(
            (DbColumn::GraphFull.spec_id(), cid.key()),
        ),
        first is None ==> search_step(cid, seq![first, second]) == ProbeView::Done(
            contents.contains_key((DbColumn::GraphDagCborBlake2b256.spec_id(), cid.key()))
                || contents.contains_key((DbColumn::GraphFull.spec_id(), cid.key())),
        ),
{
    let one = seq![first];
    let two = seq![first, second];
    if first is Some {
        assert(one[0] is Some);
    }
    if first is None && second is Some {
        assert(two[1] is Some);
    }
}

} // verus!
