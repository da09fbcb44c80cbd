//! Properties that relate the compilers' results across inputs.
use vstd::prelude::*;
use crate::attrs::{
    AttrPairs, AttrView, lemma_lookup_insert, lemma_lookup_or_insert, lemma_lookup_remove, lookup,
    pairs_insert, pairs_remove, unique_keys, compatible, pairs_map, lemma_pairs_union_map,
};
use crate::change::{ChangeView, merge_view};
use crate::auth::{
    existing_owners, lemma_owners_with, owners_with, with_owner, EXISTS_CONDITION, OWNER_CONDITION, OWNER_NAME_PLACEHOLDER, OWNER_VALUE_PLACEHOLDER,
};
use crate::change::{InsertNodeInternalInput, InsertRelationInternalInput, UpdateNodeInternalInput};
use crate::dynamo::{
    insert_node_tx, insert_relation_tx, relation_base, relation_item, relation_owners, update_node_tx,
    WriteView,
};
use crate::expr::OWNERS_PLACEHOLDER;
use crate::local::{
    created_column, insert_node_statement, relation_document, update_statement, SqlValueView,
};
use crate::names::{
    lemma_reserved_names_distinct, CREATED_AT, INVERTED_INDEX_PK, INVERTED_INDEX_SK, OWNED_BY, PK,
    RELATION_NAMES, SK, TYPE, TYPE_INDEX_PK, TYPE_INDEX_SK, UPDATED_AT,
};
use crate::row::{node_row, relation_row, text};
use crate::ids::node_id_text;

verus! {

/// Reading a node row: reserved names hold the stamped values, other names
/// what the input held.
pub proof fn lemma_node_row_lookup(p: AttrPairs, ty: Seq<char>, nid: Seq<char>, now: Seq<char>, k: Seq<char>)
    requires
        unique_keys(p),
    ensures
        unique_keys(node_row(p, ty, nid, now)),
        lookup(node_row(p, ty, nid, now), k) == if k == INVERTED_INDEX_SK@ || k == INVERTED_INDEX_PK@
            || k == TYPE_INDEX_SK@ {
            Some(text(nid))
        } else if k == TYPE_INDEX_PK@ {
            Some(text(ty))
        } else if k == UPDATED_AT@ || k == CREATED_AT@ {
            Some(text(now))
        } else if k == TYPE@ {
            Some(text(ty))
        } else if k == SK@ || k == PK@ {
            Some(text(nid))
        } else {
            lookup(p, k)
        },
{
    let p1 = pairs_insert(p, PK@, text(nid));
    let p2 = pairs_insert(p1, SK@, text(nid));
    let p3 = pairs_insert(p2, TYPE@, text(ty));
    let p4 = pairs_insert(p3, CREATED_AT@, text(now));
    let p5 = pairs_insert(p4, UPDATED_AT@, text(now));
    let p6 = pairs_insert(p5, TYPE_INDEX_PK@, text(ty));
    let p7 = pairs_insert(p6, TYPE_INDEX_SK@, text(nid));
    let p8 = pairs_insert(p7, INVERTED_INDEX_PK@, text(nid));
    lemma_lookup_insert(p, PK@, text(nid), k);
    lemma_lookup_insert(p1, SK@, text(nid), k);
    lemma_lookup_insert(p2, TYPE@, text(ty), k);
    lemma_lookup_insert(p3, CREATED_AT@, text(now), k);
    lemma_lookup_insert(p4, UPDATED_AT@, text(now), k);
    lemma_lookup_insert(p5, TYPE_INDEX_PK@, text(ty), k);
    lemma_lookup_insert(p6, TYPE_INDEX_SK@, text(nid), k);
    lemma_lookup_insert(p7, INVERTED_INDEX_PK@, text(nid), k);
    lemma_lookup_insert(p8, INVERTED_INDEX_SK@, text(nid), k);
}

pub proof fn lemma_with_owner_lookup(p: AttrPairs, owner: Option<Seq<char>>, k: Seq<char>)
    requires
        unique_keys(p),
    ensures
        unique_keys(with_owner(p, owner)),
        lookup(with_owner(p, owner), k) == match owner {
            Some(u) => if k == OWNED_BY@ {
                Some(AttrView::Ss(owners_with(p, u)))
            } else {
                lookup(p, k)
            },
            None => lookup(p, k),
        },
{
    if let Some(u) = owner {
        lemma_lookup_insert(p, OWNED_BY@, AttrView::Ss(owners_with(p, u)), k);
    }
}

/// Compiling a node insert depends on its input alone: identical inputs give
/// identical writes, and inputs that differ only in their timestamp give
/// items that agree on every attribute but the creation and update times.
pub proof fn lemma_insert_node_reserved_fields(
    a: InsertNodeInternalInput,
    b: InsertNodeInternalInput,
    table: Seq<char>,
    owner: Option<Seq<char>>,
    pk: Seq<char>,
    sk: Seq<char>,
)
    requires
        a.user_defined_item.wf(),
        a.id@ == b.id@,
        a.ty@ == b.ty@,
        a.user_defined_item.pairs() == b.user_defined_item.pairs(),
    ensures
        a.current_datetime@ == b.current_datetime@ ==> insert_node_tx(a, table, owner, pk, sk)
            == insert_node_tx(b, table, owner, pk, sk) && insert_node_statement(a, owner, pk, sk)
            == insert_node_statement(b, owner, pk, sk),
        insert_node_tx(a, table, owner, pk, sk).write matches WriteView::Put { item: ia, .. }
            && insert_node_tx(b, table, owner, pk, sk).write matches WriteView::Put { item: ib, .. }
            && forall|k: Seq<char>|
            k != CREATED_AT@ && k != UPDATED_AT@ ==> #[trigger] lookup(ia, k) == lookup(ib, k),
{
    let nid = node_id_text(a.ty@, a.id@);
    let p = a.user_defined_item.pairs();
    assert forall|k: Seq<char>| k != CREATED_AT@ && k != UPDATED_AT@ implies #[trigger] lookup(
        with_owner(node_row(p, a.ty@, nid, a.current_datetime@), owner),
        k,
    ) == lookup(with_owner(node_row(p, a.ty@, nid, b.current_datetime@), owner), k) by {
        lemma_node_row_lookup(p, a.ty@, nid, a.current_datetime@, k);
        lemma_node_row_lookup(p, a.ty@, nid, b.current_datetime@, k);
        lemma_with_owner_lookup(node_row(p, a.ty@, nid, a.current_datetime@), owner, k);
        lemma_with_owner_lookup(node_row(p, a.ty@, nid, b.current_datetime@), owner, k);
    }
}

/// A relation row copies the node: an existing creation time `t0` is kept,
/// and the update time is the change's own timestamp, in both dialects.
pub proof fn lemma_relation_keeps_created_at(
    c: InsertRelationInternalInput,
    owner: Option<Seq<char>>,
    pk: Seq<char>,
    sk: Seq<char>,
    t0: Seq<char>,
)
    requires
        c.fields.wf(),
        lookup(c.fields.pairs(), CREATED_AT@) == Some(text(t0)),
    ensures
        lookup(relation_item(c, owner, pk, sk), CREATED_AT@) == Some(text(t0)),
        lookup(relation_item(c, owner, pk, sk), UPDATED_AT@) == Some(text(c.current_datetime@)),
        lookup(relation_document(c, owner, pk, sk), CREATED_AT@) == Some(text(t0)),
        lookup(relation_document(c, owner, pk, sk), UPDATED_AT@) == Some(
            text(c.current_datetime@),
        ),
        created_column(relation_document(c, owner, pk, sk), c.current_datetime@) == t0,
{
    lemma_reserved_names_distinct();
    let p = c.fields.pairs();
    let now = c.current_datetime@;
    let q = pairs_remove(pairs_remove(p, PK@), SK@);
    lemma_lookup_remove(p, PK@, CREATED_AT@);
    lemma_lookup_remove(pairs_remove(p, PK@), SK@, CREATED_AT@);
    lemma_relation_row_lookup(q, pk, sk, c.from_ty@, c.to_ty@, now, t0);
    let base = relation_row(q, pk, sk, c.from_ty@, c.to_ty@, now);
    lemma_lookup_remove(base, OWNED_BY@, CREATED_AT@);
    lemma_lookup_remove(base, OWNED_BY@, UPDATED_AT@);
    let d0 = pairs_insert(pairs_insert(p, PK@, text(pk)), SK@, text(sk));
    lemma_lookup_insert(p, PK@, text(pk), CREATED_AT@);
    lemma_lookup_insert(pairs_insert(p, PK@, text(pk)), SK@, text(sk), CREATED_AT@);
    lemma_relation_row_lookup(d0, pk, sk, c.from_ty@, c.to_ty@, now, t0);
    let d1 = relation_row(d0, pk, sk, c.from_ty@, c.to_ty@, now);
    let names = AttrView::Ss(crate::attrs::strings_view(c.relation_names@));
    lemma_lookup_insert(d1, RELATION_NAMES@, names, CREATED_AT@);
    lemma_lookup_insert(d1, RELATION_NAMES@, names, UPDATED_AT@);
    let d2 = pairs_insert(d1, RELATION_NAMES@, names);
    lemma_with_owner_lookup(d2, owner, CREATED_AT@);
    lemma_with_owner_lookup(d2, owner, UPDATED_AT@);
}

/// The relation row keeps a creation time and sets the update time.
pub proof fn lemma_relation_row_lookup(
    p: AttrPairs,
    pk: Seq<char>,
    sk: Seq<char>,
    from_ty: Seq<char>,
    to_ty: Seq<char>,
    now: Seq<char>,
    t0: Seq<char>,
)
    requires
        unique_keys(p),
        lookup(p, CREATED_AT@) == Some(text(t0)),
    ensures
        unique_keys(relation_row(p, pk, sk, from_ty, to_ty, now)),
        lookup(relation_row(p, pk, sk, from_ty, to_ty, now), CREATED_AT@) == Some(text(t0)),
        lookup(relation_row(p, pk, sk, from_ty, to_ty, now), UPDATED_AT@) == Some(text(now)),
{
    lemma_reserved_names_distinct();
    lemma_lookup_or_insert(p, CREATED_AT@, text(now), CREATED_AT@);
    lemma_relation_row_step(p, pk, sk, from_ty, to_ty, now, CREATED_AT@);
    lemma_relation_row_step(p, pk, sk, from_ty, to_ty, now, UPDATED_AT@);
}

/// Reading a relation row at a key that only the time stamps touch.
pub proof fn lemma_relation_row_step(
    p: AttrPairs,
    pk: Seq<char>,
    sk: Seq<char>,
    from_ty: Seq<char>,
    to_ty: Seq<char>,
    now: Seq<char>,
    k: Seq<char>,
)
    requires
        unique_keys(p),
        k == CREATED_AT@ || k == UPDATED_AT@,
    ensures
        unique_keys(relation_row(p, pk, sk, from_ty, to_ty, now)),
        lookup(relation_row(p, pk, sk, from_ty, to_ty, now), k) == if k == UPDATED_AT@ {
            Some(text(now))
        } else {
            lookup(crate::attrs::pairs_or_insert(p, CREATED_AT@, text(now)), k)
        },
{
    lemma_reserved_names_distinct();
    let p1 = crate::attrs::pairs_or_insert(p, CREATED_AT@, text(now));
    let p2 = pairs_insert(p1, UPDATED_AT@, text(now));
    let p3 = pairs_insert(p2, TYPE@, text(to_ty));
    let p4 = pairs_insert(p3, TYPE_INDEX_PK@, text(from_ty));
    let p5 = pairs_insert(p4, TYPE_INDEX_SK@, text(pk));
    let p6 = pairs_insert(p5, INVERTED_INDEX_PK@, text(sk));
    lemma_lookup_or_insert(p, CREATED_AT@, text(now), k);
    lemma_lookup_insert(p1, UPDATED_AT@, text(now), k);
    lemma_lookup_insert(p2, TYPE@, text(to_ty), k);
    lemma_lookup_insert(p3, TYPE_INDEX_PK@, text(from_ty), k);
    lemma_lookup_insert(p4, TYPE_INDEX_SK@, text(pk), k);
    lemma_lookup_insert(p5, INVERTED_INDEX_PK@, text(sk), k);
    lemma_lookup_insert(p6, INVERTED_INDEX_SK@, text(pk), k);
}

/// Under owner-based authorization an update is conditioned on the owner set
/// containing the user, whose id is bound to the condition's placeholder;
/// without it, the condition is existence alone and nothing is bound for an
/// owner. The embedded dialect filters by owner in the same two cases.
pub proof fn lemma_owner_predicate(
    c: UpdateNodeInternalInput,
    table: Seq<char>,
    owner: Option<Seq<char>>,
    pk: Seq<char>,
    sk: Seq<char>,
)
    ensures
        update_node_tx(c, table, owner, pk, sk).write matches WriteView::Update {
            condition,
            names,
            values,
            ..
        } && match owner {
            Some(u) => condition == Some(EXISTS_CONDITION@ + OWNER_CONDITION@) && names.last() == (
            OWNER_NAME_PLACEHOLDER@, OWNED_BY@) && values.last() == (OWNER_VALUE_PLACEHOLDER@, text(u)),
            None => condition == Some(EXISTS_CONDITION@),
        },
        forall|d: AttrPairs, inc: AttrPairs, now: Seq<char>|
            #[trigger] update_statement(d, inc, owner, pk, sk, now).values.last() == match owner {
                Some(u) => ("owned_by"@, SqlValueView::Text(u)),
                None => ("increments"@, SqlValueView::List(crate::local::increment_numbers(inc))),
            },
{
}

/// A relation row keeps the copied owner set.
pub proof fn lemma_relation_row_owners(
    p: AttrPairs,
    pk: Seq<char>,
    sk: Seq<char>,
    from_ty: Seq<char>,
    to_ty: Seq<char>,
    now: Seq<char>,
)
    requires
        unique_keys(p),
    ensures
        unique_keys(relation_row(p, pk, sk, from_ty, to_ty, now)),
        lookup(relation_row(p, pk, sk, from_ty, to_ty, now), OWNED_BY@) == lookup(p, OWNED_BY@),
{
    lemma_reserved_names_distinct();
    let k = OWNED_BY@;
    let p1 = crate::attrs::pairs_or_insert(p, CREATED_AT@, text(now));
    let p2 = pairs_insert(p1, UPDATED_AT@, text(now));
    let p3 = pairs_insert(p2, TYPE@, text(to_ty));
    let p4 = pairs_insert(p3, TYPE_INDEX_PK@, text(from_ty));
    let p5 = pairs_insert(p4, TYPE_INDEX_SK@, text(pk));
    let p6 = pairs_insert(p5, INVERTED_INDEX_PK@, text(sk));
    lemma_lookup_or_insert(p, CREATED_AT@, text(now), k);
    lemma_lookup_insert(p1, UPDATED_AT@, text(now), k);
    lemma_lookup_insert(p2, TYPE@, text(to_ty), k);
    lemma_lookup_insert(p3, TYPE_INDEX_PK@, text(from_ty), k);
    lemma_lookup_insert(p4, TYPE_INDEX_SK@, text(pk), k);
    lemma_lookup_insert(p5, INVERTED_INDEX_PK@, text(sk), k);
    lemma_lookup_insert(p6, INVERTED_INDEX_SK@, text(pk), k);
}

/// Under owner-based authorization a relation insert adds the user to the
/// owner set that the node copy holds: the row ends with the copied owners and
/// the user, each once. The distributed store adds that set to the row's
/// stored owners rather than assigning it; the embedded document holds it.
pub proof fn lemma_relation_owner_union(
    c: InsertRelationInternalInput,
    u: Seq<char>,
    table: Seq<char>,
    pk: Seq<char>,
    sk: Seq<char>,
)
    requires
        c.fields.wf(),
    ensures
        relation_owners(c, Some(u), pk, sk).to_set() == existing_owners(c.fields.pairs()).to_set().insert(u),
        relation_owners(c, Some(u), pk, sk).no_duplicates(),
        lookup(relation_item(c, Some(u), pk, sk), OWNED_BY@) is None,
        insert_relation_tx(c, table, Some(u), pk, sk).write matches WriteView::Update { values, .. }
            && values.last() == (OWNERS_PLACEHOLDER@, AttrView::Ss(relation_owners(c, Some(u), pk, sk))),
        lookup(relation_document(c, Some(u), pk, sk), OWNED_BY@) matches Some(AttrView::Ss(s))
            && s.to_set() == existing_owners(c.fields.pairs()).to_set().insert(u) && s.no_duplicates(),
{
    lemma_reserved_names_distinct();
    let p = c.fields.pairs();
    let now = c.current_datetime@;
    let q = pairs_remove(pairs_remove(p, PK@), SK@);
    lemma_lookup_remove(p, PK@, OWNED_BY@);
    lemma_lookup_remove(pairs_remove(p, PK@), SK@, OWNED_BY@);
    lemma_relation_row_owners(q, pk, sk, c.from_ty@, c.to_ty@, now);
    let base = relation_base(c, pk, sk);
    assert(existing_owners(base) == existing_owners(p));
    lemma_owners_with(base, u);
    lemma_lookup_remove(base, OWNED_BY@, OWNED_BY@);
    let d0 = pairs_insert(pairs_insert(p, PK@, text(pk)), SK@, text(sk));
    lemma_lookup_insert(p, PK@, text(pk), OWNED_BY@);
    lemma_lookup_insert(pairs_insert(p, PK@, text(pk)), SK@, text(sk), OWNED_BY@);
    lemma_relation_row_owners(d0, pk, sk, c.from_ty@, c.to_ty@, now);
    let d1 = relation_row(d0, pk, sk, c.from_ty@, c.to_ty@, now);
    let names = AttrView::Ss(crate::attrs::strings_view(c.relation_names@));
    lemma_lookup_insert(d1, RELATION_NAMES@, names, OWNED_BY@);
    let d2 = pairs_insert(d1, RELATION_NAMES@, names);
    assert(existing_owners(d2) == existing_owners(p));
    lemma_owners_with(d2, u);
    lemma_with_owner_lookup(d2, Some(u), OWNED_BY@);
}

/// Merging two updates of one node is insensitive to their order, up to
/// the order of entries: with one shared timestamp, both orders succeed or
/// fail together and give the same attribute and increment maps.
pub proof fn lemma_merge_order(a: ChangeView, b: ChangeView)
    requires
        a matches ChangeView::UpdateNode { item, increments, .. } && unique_keys(item) && unique_keys(increments),
        b matches ChangeView::UpdateNode { item, increments, .. } && unique_keys(item) && unique_keys(increments),
        a->UpdateNode_now == b->UpdateNode_now,
    ensures
        merge_view(a, b) is Some <==> merge_view(b, a) is Some,
        merge_view(a, b) matches Some(ChangeView::UpdateNode { item: i1, increments: n1, now: t1, .. })
            ==> merge_view(b, a) matches Some(ChangeView::UpdateNode { item: i2, increments: n2, now: t2, .. })
            && pairs_map(i1) == pairs_map(i2) && pairs_map(n1) == pairs_map(n2) && t1 == t2,
{
    let (ia, na) = (a->UpdateNode_item, a->UpdateNode_increments);
    let (ib, nb) = (b->UpdateNode_item, b->UpdateNode_increments);
    assert(compatible(pairs_map(ia), pairs_map(ib)) == compatible(pairs_map(ib), pairs_map(ia)));
    assert(compatible(pairs_map(na), pairs_map(nb)) == compatible(pairs_map(nb), pairs_map(na)));
    if compatible(pairs_map(ia), pairs_map(ib)) && compatible(pairs_map(na), pairs_map(nb)) {
        lemma_pairs_union_map(ia, ib);
        lemma_pairs_union_map(ib, ia);
        lemma_pairs_union_map(na, nb);
        lemma_pairs_union_map(nb, na);
        assert(pairs_map(ia).union_prefer_right(pairs_map(ib)) =~= pairs_map(ib).union_prefer_right(pairs_map(ia)));
        assert(pairs_map(na).union_prefer_right(pairs_map(nb)) =~= pairs_map(nb).union_prefer_right(pairs_map(na)));
    }
}

} // verus!
