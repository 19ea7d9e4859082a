//! What holds of garbage collection while nothing else is committed: a
//! sweep removes the blocks whose mark is a target, every one of them and no
//! other.

use crate::column::{column_of, DbColumn};
use crate::content::{canonical_cid, cid_parse, CidView};
use crate::engine::{apply_commit, enumerates_keys, enumerates_values, lookup, Contents};
use crate::gc::{
    key_mark, lemma_readable_keys, live_set, readable_keys, sweep, sweep_key, sweep_keys,
    sweep_value, sweep_values, truncate, value_mark,
};
use crate::store_laws::{
    holds_blocks, is_block_entry, is_graph_column, lemma_commit_keeps_blocks, store_operation,
    stored_cid,
};
use crate::operation::{target, LocationView, OpView};
use crate::store::place_of;
use vstd::prelude::*;

verus! {

/// Whether the store is at rest with the given enumerations: every entry
/// of the graph columns is a block, and the enumerations are those of the
/// two graph columns.
pub open spec fn at_rest(contents: Contents, keys: Seq<Seq<u8>>, values: Seq<Seq<u8>>) -> bool {
    &&& holds_blocks(contents)
    &&& enumerates_keys(contents, DbColumn::GraphFull.spec_id(), keys)
    &&& enumerates_values(contents, DbColumn::GraphDagCborBlake2b256.spec_id(), values)
}

/// After a commit of removals, a place that one of them names is empty, and
/// every other place is as it was.
pub proof fn lemma_removals(contents: Contents, ops: Seq<OpView>, place: LocationView)
    requires
        forall|i: int| 0 <= i < ops.len() ==> (#[trigger] ops[i]).1 is Dereference,
    ensures
        (exists|i: int| 0 <= i < ops.len() && target(#[trigger] ops[i]) == place) ==> lookup(
            apply_commit(contents, ops),
            place,
        ) is None,
        !(exists|i: int| 0 <= i < ops.len() && target(#[trigger] ops[i]) == place) ==> lookup(
            apply_commit(contents, ops),
            place,
        ) == lookup(contents, place),
    decreases ops.len(),
{
    if ops.len() > 0 {
        let front = ops.drop_last();
        let last = ops.last();
        lemma_removals(contents, front, place);
        assert(last.1 is Dereference);
        if exists|i: int| 0 <= i < ops.len() && target(#[trigger] ops[i]) == place {
            let i = choose|i: int| 0 <= i < ops.len() && target(#[trigger] ops[i]) == place;
            if i < ops.len() - 1 {
                assert(target(front[i]) == place);
            }
        } else {
            assert forall|i: int| 0 <= i < front.len() implies target(#[trigger] front[i])
                != place by {
                assert(front[i] == ops[i]);
            }
            assert(target(ops[ops.len() - 1]) != place);
        }
    }
}

/// The marks can be collected entry by entry: one more key adds the mark of
/// its identifier, if it holds one, and one more value adds its mark.
pub proof fn lemma_live_set_by_entry(keys: Seq<Seq<u8>>, values: Seq<Seq<u8>>, entry: Seq<u8>)
    ensures
        live_set(Seq::empty(), Seq::empty()) == Set::<u32>::empty(),
        live_set(keys.push(entry), values) == match key_mark(entry) {
            Some(mark) => live_set(keys, values).insert(mark),
            None => live_set(keys, values),
        },
        live_set(keys, values.push(entry)) == live_set(keys, values).insert(value_mark(entry)),
{
    let none = Seq::<Seq<u8>>::empty();
    assert(live_set(none, none) =~= Set::<u32>::empty());
    let more_keys = keys.push(entry);
    let more_values = values.push(entry);
    let with_key = match key_mark(entry) {
        Some(mark) => live_set(keys, values).insert(mark),
        None => live_set(keys, values),
    };
    assert forall|mark: u32| live_set(more_keys, values).contains(mark) implies with_key.contains(
        mark,
    ) by {
        if exists|i: int|
            0 <= i < more_keys.len() && key_mark(#[trigger] more_keys[i]) == Some(mark) {
            let i = choose|i: int|
                0 <= i < more_keys.len() && key_mark(#[trigger] more_keys[i]) == Some(mark);
            if i < keys.len() {
                assert(key_mark(keys[i]) == Some(mark));
            }
        }
    }
    assert forall|mark: u32| with_key.contains(mark) implies live_set(more_keys, values).contains(
        mark,
    ) by {
        if live_set(keys, values).contains(mark) {
            if exists|i: int| 0 <= i < keys.len() && key_mark(#[trigger] keys[i]) == Some(mark) {
                let i = choose|i: int|
                    0 <= i < keys.len() && key_mark(#[trigger] keys[i]) == Some(mark);
                assert(key_mark(more_keys[i]) == Some(mark));
            }
        } else {
            assert(key_mark(more_keys[keys.len() as int]) == Some(mark));
        }
    }
    assert(live_set(more_keys, values) =~= with_key);
    let with_value = live_set(keys, values).insert(value_mark(entry));
    assert forall|mark: u32|
        live_set(keys, more_values).contains(mark) implies with_value.contains(mark) by {
        if !(exists|i: int| 0 <= i < keys.len() && key_mark(#[trigger] keys[i]) == Some(mark)) {
            let i = choose|i: int|
                0 <= i < more_values.len() && value_mark(#[trigger] more_values[i]) == mark;
            if i < values.len() {
                assert(value_mark(values[i]) == mark);
            }
        }
    }
    assert forall|mark: u32| with_value.contains(mark) implies live_set(
        keys,
        more_values,
    ).contains(mark) by {
        if live_set(keys, values).contains(mark) {
            if !(exists|i: int| 0 <= i < keys.len() && key_mark(#[trigger] keys[i]) == Some(mark)) {
                let i = choose|i: int|
                    0 <= i < values.len() && value_mark(#[trigger] values[i]) == mark;
                assert(value_mark(more_values[i]) == mark);
            }
        } else {
            assert(value_mark(more_values[values.len() as int]) == mark);
        }
    }
    assert(live_set(keys, more_values) =~= with_value);
}

/// A sweep can be made entry by entry: the removals for one more key, or
/// one more value, are those found so far and then the removal of that
/// entry, if it has one.
pub proof fn lemma_sweep_by_entry(
    keys: Seq<Seq<u8>>,
    values: Seq<Seq<u8>>,
    targets: Set<u32>,
    entry: Seq<u8>,
)
    ensures
        sweep_keys(keys.push(entry), targets) == match sweep_key(entry, targets) {
            Some(op) => sweep_keys(keys, targets).push(op),
            None => sweep_keys(keys, targets),
        },
        sweep_values(values.push(entry), targets) == match sweep_value(entry, targets) {
            Some(op) => sweep_values(values, targets).push(op),
            None => sweep_values(values, targets),
        },
        sweep(keys, values.push(entry), targets) == match sweep_value(entry, targets) {
            Some(op) => sweep(keys, values, targets).push(op),
            None => sweep(keys, values, targets),
        },
{
    assert(keys.push(entry).drop_last() =~= keys);
    assert(values.push(entry).drop_last() =~= values);
    match sweep_value(entry, targets) {
        Some(op) => {
            assert(sweep(keys, values.push(entry), targets) =~= sweep(keys, values, targets).push(
                op,
            ));
        },
        None => {},
    }
}

/// Each removal of a sweep over keys is that of one of the keys, and each
/// key that the sweep removes has its removal among them.
pub proof fn lemma_sweep_keys(keys: Seq<Seq<u8>>, targets: Set<u32>)
    ensures
        forall|j: int|
            0 <= j < sweep_keys(keys, targets).len() ==> exists|i: int|
                0 <= i < keys.len() && sweep_key(#[trigger] keys[i], targets) == Some(
                    #[trigger] sweep_keys(keys, targets)[j],
                ),
        forall|i: int|
            0 <= i < keys.len() && sweep_key(#[trigger] keys[i], targets) is Some ==> exists|j: int|
                0 <= j < sweep_keys(keys, targets).len() && #[trigger] sweep_keys(keys, targets)[j]
                    == sweep_key(keys[i], targets)->Some_0,
    decreases keys.len(),
{
    if keys.len() > 0 {
        let front = keys.drop_last();
        let all = sweep_keys(keys, targets);
        let before = sweep_keys(front, targets);
        lemma_sweep_keys(front, targets);
        assert forall|j: int| 0 <= j < all.len() implies exists|i: int|
            0 <= i < keys.len() && sweep_key(#[trigger] keys[i], targets) == Some(
                #[trigger] all[j],
            ) by {
            if j < before.len() {
                assert(all[j] == before[j]);
                let i = choose|i: int|
                    0 <= i < front.len() && sweep_key(#[trigger] front[i], targets) == Some(
                        before[j],
                    );
                assert(keys[i] == front[i]);
            } else {
                assert(sweep_key(keys[keys.len() - 1], targets) == Some(all[j]));
            }
        }
        assert forall|i: int|
            0 <= i < keys.len() && sweep_key(#[trigger] keys[i], targets) is Some implies exists|
            j: int,
        |
            0 <= j < all.len() && #[trigger] all[j] == sweep_key(keys[i], targets)->Some_0 by {
            if i < keys.len() - 1 {
                assert(keys[i] == front[i]);
                let j = choose|j: int|
                    0 <= j < before.len() && #[trigger] before[j] == sweep_key(
                        front[i],
                        targets,
                    )->Some_0;
                assert(all[j] == before[j]);
            } else {
                assert(all[all.len() - 1] == sweep_key(keys[i], targets)->Some_0);
            }
        }
    }
}

/// Each removal of a sweep over values is that of one of the values, and
/// each value that the sweep removes has its removal among them.
pub proof fn lemma_sweep_values(values: Seq<Seq<u8>>, targets: Set<u32>)
    ensures
        forall|j: int|
            0 <= j < sweep_values(values, targets).len() ==> exists|i: int|
                0 <= i < values.len() && sweep_value(#[trigger] values[i], targets) == Some(
                    #[trigger] sweep_values(values, targets)[j],
                ),
        forall|i: int|
            0 <= i < values.len() && sweep_value(#[trigger] values[i], targets) is Some ==> exists|
                j: int,
            |
                0 <= j < sweep_values(values, targets).len() && #[trigger] sweep_values(
                    values,
                    targets,
                )[j] == sweep_value(values[i], targets)->Some_0,
    decreases values.len(),
{
    if values.len() > 0 {
        let front = values.drop_last();
        let all = sweep_values(values, targets);
        let before = sweep_values(front, targets);
        lemma_sweep_values(front, targets);
        assert forall|j: int| 0 <= j < all.len() implies exists|i: int|
            0 <= i < values.len() && sweep_value(#[trigger] values[i], targets) == Some(
                #[trigger] all[j],
            ) by {
            if j < before.len() {
                assert(all[j] == before[j]);
                let i = choose|i: int|
                    0 <= i < front.len() && sweep_value(#[trigger] front[i], targets) == Some(
                        before[j],
                    );
                assert(values[i] == front[i]);
            } else {
                assert(sweep_value(values[values.len() - 1], targets) == Some(all[j]));
            }
        }
        assert forall|i: int|
            0 <= i < values.len() && sweep_value(
                #[trigger] values[i],
                targets,
            ) is Some implies exists|j: int|
            0 <= j < all.len() && #[trigger] all[j] == sweep_value(values[i], targets)->Some_0 by {
            if i < values.len() - 1 {
                assert(values[i] == front[i]);
                let j = choose|j: int|
                    0 <= j < before.len() && #[trigger] before[j] == sweep_value(
                        front[i],
                        targets,
                    )->Some_0;
                assert(all[j] == before[j]);
            } else {
                assert(all[all.len() - 1] == sweep_value(values[i], targets)->Some_0);
            }
        }
    }
}

/// Every removal of a sweep over a store at rest removes a block that is
/// there and whose mark is a target: it names the place of an identifier
/// that the store was given, under which the store holds a block.
pub proof fn lemma_sweep_aims(
    contents: Contents,
    keys: Seq<Seq<u8>>,
    values: Seq<Seq<u8>>,
    targets: Set<u32>,
    j: int,
)
    requires
        at_rest(contents, keys, values),
        0 <= j < sweep(keys, values, targets).len(),
    ensures
        sweep(keys, values, targets)[j].1 is Dereference,
        contents.contains_key(target(sweep(keys, values, targets)[j])),
        is_graph_column(sweep(keys, values, targets)[j].0),
        cid_parse(sweep(keys, values, targets)[j].1.key()) matches Some(cid) && stored_cid(cid)
            && targets.contains(truncate(cid.hash.digest)) && place_of(cid) == target(
            sweep(keys, values, targets)[j],
        ),
{
    let of_keys = sweep_keys(keys, targets);
    let of_values = sweep_values(values, targets);
    let op = sweep(keys, values, targets)[j];
    lemma_sweep_keys(keys, targets);
    lemma_sweep_values(values, targets);
    if j < of_keys.len() {
        assert(op == of_keys[j]);
        let i = choose|i: int|
            0 <= i < keys.len() && sweep_key(#[trigger] keys[i], targets) == Some(of_keys[j]);
        assert(keys.contains(keys[i]));
        let full = DbColumn::GraphFull.spec_id();
        assert(contents.contains_key((full, keys[i])));
        assert(is_block_entry(full, keys[i], contents[(full, keys[i])]));
    } else {
        assert(op == of_values[j - of_keys.len()]);
        let i = choose|i: int|
            0 <= i < values.len() && sweep_value(#[trigger] values[i], targets) == Some(
                of_values[j - of_keys.len()],
            );
        assert(values.contains(values[i]));
        let canonical = DbColumn::GraphDagCborBlake2b256.spec_id();
        let key = choose|key: Seq<u8>| #[trigger]
            contents.contains_key((canonical, key)) && contents[(canonical, key)] == values[i];
        assert(is_block_entry(canonical, key, contents[(canonical, key)]));
    }
}

/// Over a store at rest the garbage collector meets no key that holds no
/// identifier, so neither the marks nor a sweep fail.
pub proof fn lemma_keys_readable(contents: Contents, keys: Seq<Seq<u8>>, values: Seq<Seq<u8>>)
    requires
        at_rest(contents, keys, values),
    ensures
        readable_keys(keys) == keys.len(),
{
    lemma_readable_keys(keys);
    if readable_keys(keys) < keys.len() {
        let i = readable_keys(keys);
        let full = DbColumn::GraphFull.spec_id();
        assert(keys.contains(keys[i]));
        assert(contents.contains_key((full, keys[i])));
        assert(is_block_entry(full, keys[i], contents[(full, keys[i])]));
    }
}

/// The marks that are collected over a store at rest are those of the
/// blocks in the store: a mark is among them exactly when a graph column
/// holds an entry under the key of an identifier with that mark.
pub proof fn lemma_live_set(
    contents: Contents,
    keys: Seq<Seq<u8>>,
    values: Seq<Seq<u8>>,
    mark: u32,
)
    requires
        at_rest(contents, keys, values),
    ensures
        live_set(keys, values).contains(mark) <==> exists|column: u8, key: Seq<u8>|
            is_graph_column(column) && #[trigger] contents.contains_key((column, key)) && key_mark(
                key,
            ) == Some(mark),
{
    let full = DbColumn::GraphFull.spec_id();
    let canonical = DbColumn::GraphDagCborBlake2b256.spec_id();
    if live_set(keys, values).contains(mark) {
        if exists|i: int| 0 <= i < keys.len() && key_mark(#[trigger] keys[i]) == Some(mark) {
            let i = choose|i: int| 0 <= i < keys.len() && key_mark(#[trigger] keys[i]) == Some(mark);
            assert(keys.contains(keys[i]));
            assert(contents.contains_key((full, keys[i])));
        } else {
            let i = choose|i: int| 0 <= i < values.len() && value_mark(#[trigger] values[i]) == mark;
            assert(values.contains(values[i]));
            let key = choose|key: Seq<u8>| #[trigger]
                contents.contains_key((canonical, key)) && contents[(canonical, key)] == values[i];
            assert(is_block_entry(canonical, key, contents[(canonical, key)]));
            assert(contents.contains_key((canonical, key)) && key_mark(key) == Some(mark));
        }
    }
    if exists|column: u8, key: Seq<u8>|
        is_graph_column(column) && #[trigger] contents.contains_key((column, key)) && key_mark(key)
            == Some(mark) {
        let (column, key) = choose|column: u8, key: Seq<u8>|
            is_graph_column(column) && #[trigger] contents.contains_key((column, key)) && key_mark(
                key,
            ) == Some(mark);
        assert(is_block_entry(column, key, contents[(column, key)]));
        if column == full {
            assert(keys.contains(key));
            let i = choose|i: int| 0 <= i < keys.len() && keys[i] == key;
            assert(key_mark(keys[i]) == Some(mark));
        } else {
            let value = contents[(column, key)];
            assert(values.contains(value));
            let i = choose|i: int| 0 <= i < values.len() && values[i] == value;
            assert(value_mark(values[i]) == mark);
        }
    }
}

/// A sweep over a store at rest has a removal for each block of the indexed
/// column whose mark is a target.
proof fn lemma_sweep_hits_key(
    contents: Contents,
    keys: Seq<Seq<u8>>,
    values: Seq<Seq<u8>>,
    targets: Set<u32>,
    cid: CidView,
)
    requires
        at_rest(contents, keys, values),
        stored_cid(cid),
        contents.contains_key(place_of(cid)),
        column_of(cid) == DbColumn::GraphFull,
        targets.contains(truncate(cid.hash.digest)),
    ensures
        exists|j: int|
            0 <= j < sweep(keys, values, targets).len() && target(
                #[trigger] sweep(keys, values, targets)[j],
            ) == place_of(cid),
{
    let ops = sweep(keys, values, targets);
    let of_keys = sweep_keys(keys, targets);
    lemma_sweep_keys(keys, targets);
    assert(keys.contains(cid.key()));
    let i = choose|i: int| 0 <= i < keys.len() && keys[i] == cid.key();
    assert(sweep_key(keys[i], targets) is Some);
    let j = choose|j: int|
        0 <= j < of_keys.len() && #[trigger] of_keys[j] == sweep_key(keys[i], targets)->Some_0;
    assert(ops[j] == of_keys[j]);
    assert(target(ops[j]) == place_of(cid));
}

/// A sweep over a store at rest has a removal for each block of the
/// canonical column whose mark is a target.
proof fn lemma_sweep_hits_value(
    contents: Contents,
    keys: Seq<Seq<u8>>,
    values: Seq<Seq<u8>>,
    targets: Set<u32>,
    cid: CidView,
)
    requires
        at_rest(contents, keys, values),
        stored_cid(cid),
        contents.contains_key(place_of(cid)),
        column_of(cid) == DbColumn::GraphDagCborBlake2b256,
        targets.contains(truncate(cid.hash.digest)),
    ensures
        exists|j: int|
            0 <= j < sweep(keys, values, targets).len() && target(
                #[trigger] sweep(keys, values, targets)[j],
            ) == place_of(cid),
{
    let ops = sweep(keys, values, targets);
    let of_keys = sweep_keys(keys, targets);
    let of_values = sweep_values(values, targets);
    let place = place_of(cid);
    lemma_sweep_values(values, targets);
    let value = contents[place];
    assert(is_graph_column(place.0));
    assert(is_block_entry(place.0, place.1, value));
    assert(cid == canonical_cid(value));
    assert(values.contains(value));
    let i = choose|i: int| 0 <= i < values.len() && values[i] == value;
    assert(sweep_value(values[i], targets) is Some);
    let j = choose|j: int|
        0 <= j < of_values.len() && #[trigger] of_values[j] == sweep_value(
            values[i],
            targets,
        )->Some_0;
    assert(ops[of_keys.len() + j] == of_values[j]);
    assert(target(ops[of_keys.len() + j]) == place);
}

/// A sweep over a store at rest has no removal for a block whose mark is no
/// target.
proof fn lemma_sweep_misses(
    contents: Contents,
    keys: Seq<Seq<u8>>,
    values: Seq<Seq<u8>>,
    targets: Set<u32>,
    cid: CidView,
)
    requires
        at_rest(contents, keys, values),
        stored_cid(cid),
        !targets.contains(truncate(cid.hash.digest)),
    ensures
        forall|j: int|
            0 <= j < sweep(keys, values, targets).len() ==> target(
                #[trigger] sweep(keys, values, targets)[j],
            ) != place_of(cid),
{
    let ops = sweep(keys, values, targets);
    assert forall|j: int| 0 <= j < ops.len() implies target(#[trigger] ops[j]) != place_of(
        cid,
    ) by {
        lemma_sweep_aims(contents, keys, values, targets, j);
    }
}

/// A sweep over a store at rest removes the block under an identifier where
/// the mark of the identifier is a target, and leaves it as it is where the
/// mark is none.
pub proof fn lemma_sweep_sound(
    contents: Contents,
    keys: Seq<Seq<u8>>,
    values: Seq<Seq<u8>>,
    targets: Set<u32>,
    cid: CidView,
)
    requires
        at_rest(contents, keys, values),
        stored_cid(cid),
        contents.contains_key(place_of(cid)),
    ensures
        targets.contains(truncate(cid.hash.digest)) ==> lookup(
            apply_commit(contents, sweep(keys, values, targets)),
            place_of(cid),
        ) is None,
        !targets.contains(truncate(cid.hash.digest)) ==> lookup(
            apply_commit(contents, sweep(keys, values, targets)),
            place_of(cid),
        ) == lookup(contents, place_of(cid)),
{
    let ops = sweep(keys, values, targets);
    assert forall|j: int| 0 <= j < ops.len() implies (#[trigger] ops[j]).1 is Dereference by {
        lemma_sweep_aims(contents, keys, values, targets, j);
    }
    lemma_removals(contents, ops, place_of(cid));
    if targets.contains(truncate(cid.hash.digest)) {
        if column_of(cid) == DbColumn::GraphFull {
            lemma_sweep_hits_key(contents, keys, values, targets, cid);
        } else {
            lemma_sweep_hits_value(contents, keys, values, targets, cid);
        }
    } else {
        lemma_sweep_misses(contents, keys, values, targets, cid);
    }
}

/// A sweep over a store at rest puts nothing into the store and changes no
/// value: what a place holds afterwards, it held before. The settings are as
/// they were.
pub proof fn lemma_sweep_only_removes(
    contents: Contents,
    keys: Seq<Seq<u8>>,
    values: Seq<Seq<u8>>,
    targets: Set<u32>,
    place: LocationView,
)
    requires
        at_rest(contents, keys, values),
    ensures
        lookup(apply_commit(contents, sweep(keys, values, targets)), place) is None || lookup(
            apply_commit(contents, sweep(keys, values, targets)),
            place,
        ) == lookup(contents, place),
        !is_graph_column(place.0) ==> lookup(
            apply_commit(contents, sweep(keys, values, targets)),
            place,
        ) == lookup(contents, place),
{
    let ops = sweep(keys, values, targets);
    assert forall|j: int| 0 <= j < ops.len() implies (#[trigger] ops[j]).1 is Dereference by {
        lemma_sweep_aims(contents, keys, values, targets, j);
    }
    lemma_removals(contents, ops, place);
    if !is_graph_column(place.0) {
        assert forall|j: int| 0 <= j < ops.len() implies target(#[trigger] ops[j]) != place by {
            lemma_sweep_aims(contents, keys, values, targets, j);
        }
    }
}

/// A sweep over a store at rest that ends early, after any number of its
/// removals, has lost no block whose mark is no target and has put nothing
/// into the store: the removals that were made stand, and what is left can
/// be swept again.
pub proof fn lemma_sweep_cut_short(
    contents: Contents,
    keys: Seq<Seq<u8>>,
    values: Seq<Seq<u8>>,
    targets: Set<u32>,
    made: int,
    cid: CidView,
)
    requires
        at_rest(contents, keys, values),
        0 <= made <= sweep(keys, values, targets).len(),
        stored_cid(cid),
        contents.contains_key(place_of(cid)),
    ensures
        !targets.contains(truncate(cid.hash.digest)) ==> lookup(
            apply_commit(contents, sweep(keys, values, targets).take(made)),
            place_of(cid),
        ) == lookup(contents, place_of(cid)),
        lookup(apply_commit(contents, sweep(keys, values, targets).take(made)), place_of(cid))
            is None || lookup(
            apply_commit(contents, sweep(keys, values, targets).take(made)),
            place_of(cid),
        ) == lookup(contents, place_of(cid)),
{
    let ops = sweep(keys, values, targets);
    let front = ops.take(made);
    assert forall|j: int| 0 <= j < front.len() implies (#[trigger] front[j]).1 is Dereference by {
        lemma_sweep_aims(contents, keys, values, targets, j);
    }
    lemma_removals(contents, front, place_of(cid));
    if !targets.contains(truncate(cid.hash.digest)) {
        lemma_sweep_misses(contents, keys, values, targets, cid);
        assert forall|j: int| 0 <= j < front.len() implies target(#[trigger] front[j])
            != place_of(cid) by {
            assert(front[j] == ops[j]);
        }
    }
}

/// A sweep over a store at rest leaves every entry of the graph columns a
/// block.
pub proof fn lemma_sweep_keeps_blocks(
    contents: Contents,
    keys: Seq<Seq<u8>>,
    values: Seq<Seq<u8>>,
    targets: Set<u32>,
)
    requires
        at_rest(contents, keys, values),
    ensures
        holds_blocks(apply_commit(contents, sweep(keys, values, targets))),
{
    let ops = sweep(keys, values, targets);
    assert forall|j: int| 0 <= j < ops.len() implies store_operation(#[trigger] ops[j]) by {
        lemma_sweep_aims(contents, keys, values, targets, j);
    }
    lemma_commit_keeps_blocks(contents, ops);
}

/// A sweep that is made again with the same targets, over the store as the
/// first sweep left it, finds nothing to remove: garbage collection keeps no
/// state of its own and can be run again at any time.
pub proof fn lemma_sweep_again(
    contents: Contents,
    keys: Seq<Seq<u8>>,
    values: Seq<Seq<u8>>,
    targets: Set<u32>,
    keys_after: Seq<Seq<u8>>,
    values_after: Seq<Seq<u8>>,
)
    requires
        at_rest(contents, keys, values),
        enumerates_keys(
            apply_commit(contents, sweep(keys, values, targets)),
            DbColumn::GraphFull.spec_id(),
            keys_after,
        ),
        enumerates_values(
            apply_commit(contents, sweep(keys, values, targets)),
            DbColumn::GraphDagCborBlake2b256.spec_id(),
            values_after,
        ),
    ensures
        sweep(keys_after, values_after, targets) == Seq::<OpView>::empty(),
{
    let after = apply_commit(contents, sweep(keys, values, targets));
    let again = sweep(keys_after, values_after, targets);
    lemma_sweep_keeps_blocks(contents, keys, values, targets);
    if again.len() > 0 {
        lemma_sweep_aims(after, keys_after, values_after, targets, 0);
        let cid = cid_parse(again[0].1.key())->Some_0;
        assert(after.contains_key(place_of(cid)));
        lemma_sweep_only_removes(contents, keys, values, targets, place_of(cid));
        lemma_sweep_sound(contents, keys, values, targets, cid);
    }
    assert(again =~= Seq::<OpView>::empty());
}

/// Two blocks that share a mark share their fate. Where the caller leaves
/// the marks of the blocks it still needs out of the targets, a sweep over
/// a store at rest keeps each of those blocks, and with it every other block
/// that happens to carry the same mark: a collision keeps too much and never
/// loses a block that is needed.
pub proof fn lemma_collision_keeps(
    contents: Contents,
    keys: Seq<Seq<u8>>,
    values: Seq<Seq<u8>>,
    needed: Set<u32>,
    a: CidView,
    b: CidView,
)
    requires
        at_rest(contents, keys, values),
        stored_cid(a),
        stored_cid(b),
        contents.contains_key(place_of(a)),
        contents.contains_key(place_of(b)),
        truncate(a.hash.digest) == truncate(b.hash.digest),
        needed.contains(truncate(b.hash.digest)),
    ensures
        lookup(
            apply_commit(
                contents,
                sweep(keys, values, live_set(keys, values).difference(needed)),
            ),
            place_of(b),
        ) == lookup(contents, place_of(b)),
        lookup(
            apply_commit(
                contents,
                sweep(keys, values, live_set(keys, values).difference(needed)),
            ),
            place_of(a),
        ) == lookup(contents, place_of(a)),
{
    let targets = live_set(keys, values).difference(needed);
    lemma_sweep_sound(contents, keys, values, targets, a);
    lemma_sweep_sound(contents, keys, values, targets, b);
}

} // verus!
