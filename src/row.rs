//! The reserved attributes of node, relation and constraint rows, shared by
//! both dialects.
use vstd::prelude::*;
use crate::attrs::{
    AttrMap, AttrPairs, AttrView, AttributeValue, pairs_insert, pairs_or_insert, pairs_remove,
};
use crate::names::{
    CREATED_AT, INVERTED_INDEX_PK, INVERTED_INDEX_SK, PK, SK, TYPE, TYPE_INDEX_PK, TYPE_INDEX_SK,
    UPDATED_AT,
};

verus! {

pub open spec fn text(s: Seq<char>) -> AttrView {
    AttrView::S(s)
}

/// A node row: keys and both indexes point at the node id; both times are now.
pub open spec fn node_row(p: AttrPairs, ty: Seq<char>, nid: Seq<char>, now: Seq<char>) -> AttrPairs {
    let p = pairs_insert(p, PK@, text(nid));
    let p = pairs_insert(p, SK@, text(nid));
    let p = pairs_insert(p, TYPE@, text(ty));
    let p = pairs_insert(p, CREATED_AT@, text(now));
    let p = pairs_insert(p, UPDATED_AT@, text(now));
    let p = pairs_insert(p, TYPE_INDEX_PK@, text(ty));
    let p = pairs_insert(p, TYPE_INDEX_SK@, text(nid));
    let p = pairs_insert(p, INVERTED_INDEX_PK@, text(nid));
    pairs_insert(p, INVERTED_INDEX_SK@, text(nid))
}

/// A relation row over a copy of the target node: its creation time is kept
/// when present, its update time is now, and the indexes point from the
/// source `pk` to the target `sk`.
pub open spec fn relation_row(
    p: AttrPairs,
    pk: Seq<char>,
    sk: Seq<char>,
    from_ty: Seq<char>,
    to_ty: Seq<char>,
    now: Seq<char>,
) -> AttrPairs {
    let p = pairs_or_insert(p, CREATED_AT@, text(now));
    let p = pairs_insert(p, UPDATED_AT@, text(now));
    let p = pairs_insert(p, TYPE@, text(to_ty));
    let p = pairs_insert(p, TYPE_INDEX_PK@, text(from_ty));
    let p = pairs_insert(p, TYPE_INDEX_SK@, text(pk));
    let p = pairs_insert(p, INVERTED_INDEX_PK@, text(sk));
    pairs_insert(p, INVERTED_INDEX_SK@, text(pk))
}

/// A constraint row: keyed by the constraint id, inverted index to the node
/// holding the value, outside the type index.
pub open spec fn constraint_row(p: AttrPairs, id: Seq<char>, target: Seq<char>, now: Seq<char>) -> AttrPairs {
    let p = pairs_insert(p, PK@, text(id));
    let p = pairs_insert(p, SK@, text(id));
    let p = pairs_insert(p, INVERTED_INDEX_PK@, text(target));
    let p = pairs_insert(p, INVERTED_INDEX_SK@, text(id));
    let p = pairs_insert(p, CREATED_AT@, text(now));
    let p = pairs_insert(p, UPDATED_AT@, text(now));
    let p = pairs_remove(p, TYPE_INDEX_PK@);
    pairs_remove(p, TYPE_INDEX_SK@)
}

fn put_text(item: &mut AttrMap, k: &str, v: &str)
    requires
        old(item).wf(),
    ensures
        final(item).wf(),
        final(item).pairs() == pairs_insert(old(item).pairs(), k@, text(v@)),
{
    item.insert(String::from_str(k), AttributeValue::S(String::from_str(v)));
}

/// Sets the reserved attributes of a node row.
pub fn stamp_node(item: &mut AttrMap, ty: &str, nid: &str, now: &str)
    requires
        old(item).wf(),
    ensures
        final(item).wf(),
        final(item).pairs() == node_row(old(item).pairs(), ty@, nid@, now@),
{
    put_text(item, PK, nid);
    put_text(item, SK, nid);
    put_text(item, TYPE, ty);
    put_text(item, CREATED_AT, now);
    put_text(item, UPDATED_AT, now);
    put_text(item, TYPE_INDEX_PK, ty);
    put_text(item, TYPE_INDEX_SK, nid);
    put_text(item, INVERTED_INDEX_PK, nid);
    put_text(item, INVERTED_INDEX_SK, nid);
}

/// Sets the reserved attributes of a relation row.
pub fn stamp_relation(item: &mut AttrMap, pk: &str, sk: &str, from_ty: &str, to_ty: &str, now: &str)
    requires
        old(item).wf(),
    ensures
        final(item).wf(),
        final(item).pairs() == relation_row(old(item).pairs(), pk@, sk@, from_ty@, to_ty@, now@),
{
    item.or_insert(String::from_str(CREATED_AT), AttributeValue::S(String::from_str(now)));
    put_text(item, UPDATED_AT, now);
    put_text(item, TYPE, to_ty);
    put_text(item, TYPE_INDEX_PK, from_ty);
    put_text(item, TYPE_INDEX_SK, pk);
    put_text(item, INVERTED_INDEX_PK, sk);
    put_text(item, INVERTED_INDEX_SK, pk);
}

/// Sets the reserved attributes of a constraint row.
pub fn stamp_constraint(item: &mut AttrMap, id: &str, target: &str, now: &str)
    requires
        old(item).wf(),
    ensures
        final(item).wf(),
        final(item).pairs() == constraint_row(old(item).pairs(), id@, target@, now@),
{
    put_text(item, PK, id);
    put_text(item, SK, id);
    put_text(item, INVERTED_INDEX_PK, target);
    put_text(item, INVERTED_INDEX_SK, id);
    put_text(item, CREATED_AT, now);
    put_text(item, UPDATED_AT, now);
    item.remove(TYPE_INDEX_PK);
    item.remove(TYPE_INDEX_SK);
}

} // verus!
