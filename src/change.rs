//! Pending changes, and the combinator that merges the changes aimed at one row.
use vstd::prelude::*;
use crate::attrs::{
    AttrMap, AttrPairs, compatible, pairs_map, pairs_union, seq_union, strings_view,
    union_strings,
};

verus! {

/// Creates a node.
pub struct InsertNodeInternalInput {
    pub id: String,
    pub ty: String,
    pub user_defined_item: AttrMap,
    pub current_datetime: String,
}

/// Changes attributes of a node and adds to its numeric attributes.
pub struct UpdateNodeInternalInput {
    pub id: String,
    pub ty: String,
    pub user_defined_item: AttrMap,
    /// Attribute name to the number added to it.
    pub increments: AttrMap,
    pub current_datetime: String,
}

/// Deletes a node.
pub struct DeleteNodeInternalInput {
    pub id: String,
    pub ty: String,
}

/// Writes a relation row: a copy of the target node's attributes under the
/// edge's own key, labelled with relation names.
pub struct InsertRelationInternalInput {
    pub fields: AttrMap,
    pub relation_names: Vec<String>,
    pub from_ty: String,
    pub to_ty: String,
    pub current_datetime: String,
}

/// Deletes a relation row.
pub struct DeleteAllRelationsInternalInput {}

/// Takes names off a relation row, keeping the row.
pub struct DeleteMultipleRelationsInternalInput {
    pub relation_names: Vec<String>,
    pub current_datetime: String,
}

/// A relation name to add to or remove from a relation row.
pub enum UpdateRelation {
    Add(String),
    Remove(String),
}

impl View for UpdateRelation {
    /// Whether the name is added, and the name.
    type V = (bool, Seq<char>);

    open spec fn view(&self) -> (bool, Seq<char>) {
        match self {
            UpdateRelation::Add(n) => (true, n@),
            UpdateRelation::Remove(n) => (false, n@),
        }
    }
}

/// Changes attributes and relation names of a relation row.
pub struct UpdateRelationInternalInput {
    pub user_defined_item: AttrMap,
    pub relation_names: Vec<UpdateRelation>,
    pub current_datetime: String,
}

/// Claims a unique value: the row of the constraint may be written once.
pub struct InsertUniqueConstraint {
    pub ty: String,
    /// The node that holds the unique value.
    pub target: String,
    pub user_defined_item: AttrMap,
    pub current_datetime: String,
    pub constraint_fields: Vec<String>,
    pub constraint_values: Vec<String>,
}

/// Changes the row of a unique constraint.
pub struct UpdateUniqueConstraint {
    pub target: String,
    pub user_defined_item: AttrMap,
    pub increments: AttrMap,
    pub current_datetime: String,
}

/// Deletes the row of a unique constraint.
pub struct DeleteUnitNodeConstraintInput {}

/// One pending change of one row.
pub enum InternalChanges {
    InsertNode(InsertNodeInternalInput),
    UpdateNode(UpdateNodeInternalInput),
    DeleteNode(DeleteNodeInternalInput),
    InsertRelation(InsertRelationInternalInput),
    DeleteAllRelations(DeleteAllRelationsInternalInput),
    DeleteMultipleRelations(DeleteMultipleRelationsInternalInput),
    UpdateRelation(UpdateRelationInternalInput),
    InsertUniqueConstraint(InsertUniqueConstraint),
    UpdateUniqueConstraint(UpdateUniqueConstraint),
    DeleteUnitConstraint(DeleteUnitNodeConstraintInput),
}

/// Merging failed: the changes cannot be made one.
#[derive(Debug, PartialEq, Eq, Structural)]
pub enum MergeError {
    /// The changes aim at different rows or kinds, or set one attribute to two
    /// values.
    ConflictingChange,
}

/// A change as a mathematical value: attribute maps as their entries in
/// storage order, relation names as sequences without repeats added by merging.
#[allow(inconsistent_fields)]
pub enum ChangeView {
    InsertNode { id: Seq<char>, ty: Seq<char>, item: AttrPairs, now: Seq<char> },
    UpdateNode {
        id: Seq<char>,
        ty: Seq<char>,
        item: AttrPairs,
        increments: AttrPairs,
        now: Seq<char>,
    },
    DeleteNode { id: Seq<char>, ty: Seq<char> },
    InsertRelation {
        fields: AttrPairs,
        names: Seq<Seq<char>>,
        from_ty: Seq<char>,
        to_ty: Seq<char>,
        now: Seq<char>,
    },
    DeleteAllRelations,
    DeleteMultipleRelations { names: Seq<Seq<char>>, now: Seq<char> },
    UpdateRelation { item: AttrPairs, names: Seq<(bool, Seq<char>)>, now: Seq<char> },
    InsertUniqueConstraint {
        ty: Seq<char>,
        target: Seq<char>,
        item: AttrPairs,
        now: Seq<char>,
        fields: Seq<Seq<char>>,
        values: Seq<Seq<char>>,
    },
    UpdateUniqueConstraint {
        target: Seq<char>,
        item: AttrPairs,
        increments: AttrPairs,
        now: Seq<char>,
    },
    DeleteUnitConstraint,
}

pub open spec fn updates_view(v: Seq<UpdateRelation>) -> Seq<(bool, Seq<char>)> {
    v.map_values(|u: UpdateRelation| u@)
}

impl View for InternalChanges {
    type V = ChangeView;

    open spec fn view(&self) -> ChangeView {
        match self {
            InternalChanges::InsertNode(c) => ChangeView::InsertNode {
                id: c.id@,
                ty: c.ty@,
                item: c.user_defined_item.pairs(),
                now: c.current_datetime@,
            },
            InternalChanges::UpdateNode(c) => ChangeView::UpdateNode {
                id: c.id@,
                ty: c.ty@,
                item: c.user_defined_item.pairs(),
                increments: c.increments.pairs(),
                now: c.current_datetime@,
            },
            InternalChanges::DeleteNode(c) => ChangeView::DeleteNode { id: c.id@, ty: c.ty@ },
            InternalChanges::InsertRelation(c) => ChangeView::InsertRelation {
                fields: c.fields.pairs(),
                names: strings_view(c.relation_names@),
                from_ty: c.from_ty@,
                to_ty: c.to_ty@,
                now: c.current_datetime@,
            },
            InternalChanges::DeleteAllRelations(_) => ChangeView::DeleteAllRelations,
            InternalChanges::DeleteMultipleRelations(c) => ChangeView::DeleteMultipleRelations {
                names: strings_view(c.relation_names@),
                now: c.current_datetime@,
            },
            InternalChanges::UpdateRelation(c) => ChangeView::UpdateRelation {
                item: c.user_defined_item.pairs(),
                names: updates_view(c.relation_names@),
                now: c.current_datetime@,
            },
            InternalChanges::InsertUniqueConstraint(c) => ChangeView::InsertUniqueConstraint {
                ty: c.ty@,
                target: c.target@,
                item: c.user_defined_item.pairs(),
                now: c.current_datetime@,
                fields: strings_view(c.constraint_fields@),
                values: strings_view(c.constraint_values@),
            },
            InternalChanges::UpdateUniqueConstraint(c) => ChangeView::UpdateUniqueConstraint {
                target: c.target@,
                item: c.user_defined_item.pairs(),
                increments: c.increments.pairs(),
                now: c.current_datetime@,
            },
            InternalChanges::DeleteUnitConstraint(_) => ChangeView::DeleteUnitConstraint,
        }
    }
}

impl InternalChanges {
    /// Every attribute map of the change holds each key once.
    pub open spec fn wf(&self) -> bool {
        match self {
            InternalChanges::InsertNode(c) => c.user_defined_item.wf(),
            InternalChanges::UpdateNode(c) => c.user_defined_item.wf() && c.increments.wf(),
            InternalChanges::InsertRelation(c) => c.fields.wf(),
            InternalChanges::UpdateRelation(c) => c.user_defined_item.wf(),
            InternalChanges::InsertUniqueConstraint(c) => c.user_defined_item.wf(),
            InternalChanges::UpdateUniqueConstraint(c) => c.user_defined_item.wf()
                && c.increments.wf(),
            _ => true,
        }
    }
}

/// The two attribute lists agree on their shared keys.
pub open spec fn agree(a: AttrPairs, b: AttrPairs) -> bool {
    compatible(pairs_map(a), pairs_map(b))
}

/// The merge of two changes of one row, if they can be merged. Updates of the
/// same node or constraint, relation inserts and updates, and relation-name
/// removals merge; attribute maps must agree on shared keys and are united,
/// the first change's entries first; relation names are united without
/// repeats. The first change's timestamp is kept. An added and a removed name
/// stay side by side: the row is then touched, not pruned.
pub open spec fn merge_view(a: ChangeView, b: ChangeView) -> Option<ChangeView> {
    match (a, b) {
        (
            ChangeView::UpdateNode { id, ty, item, increments, now },
            ChangeView::UpdateNode { id: id2, ty: ty2, item: item2, increments: inc2, now: _ },
        ) => if id == id2 && ty == ty2 && agree(item, item2) && agree(increments, inc2) {
            Some(
                ChangeView::UpdateNode {
                    id,
                    ty,
                    item: pairs_union(item, item2),
                    increments: pairs_union(increments, inc2),
                    now,
                },
            )
        } else {
            None
        },
        (
            ChangeView::UpdateUniqueConstraint { target, item, increments, now },
            ChangeView::UpdateUniqueConstraint { target: t2, item: item2, increments: inc2, now: _ },
        ) => if target == t2 && agree(item, item2) && agree(increments, inc2) {
            Some(
                ChangeView::UpdateUniqueConstraint {
                    target,
                    item: pairs_union(item, item2),
                    increments: pairs_union(increments, inc2),
                    now,
                },
            )
        } else {
            None
        },
        (
            ChangeView::InsertRelation { fields, names, from_ty, to_ty, now },
            ChangeView::InsertRelation {
                fields: fields2,
                names: names2,
                from_ty: from2,
                to_ty: to2,
                now: _,
            },
        ) => if from_ty == from2 && to_ty == to2 && agree(fields, fields2) {
            Some(
                ChangeView::InsertRelation {
                    fields: pairs_union(fields, fields2),
                    names: seq_union(names, names2),
                    from_ty,
                    to_ty,
                    now,
                },
            )
        } else {
            None
        },
        (
            ChangeView::DeleteMultipleRelations { names, now },
            ChangeView::DeleteMultipleRelations { names: names2, now: _ },
        ) => Some(ChangeView::DeleteMultipleRelations { names: seq_union(names, names2), now }),
        (
            ChangeView::UpdateRelation { item, names, now },
            ChangeView::UpdateRelation { item: item2, names: names2, now: _ },
        ) => if agree(item, item2) {
            Some(
                ChangeView::UpdateRelation {
                    item: pairs_union(item, item2),
                    names: seq_union(names, names2),
                    now,
                },
            )
        } else {
            None
        },
        _ => None,
    }
}

/// Left-to-right merge of `first` with each of `rest`.
pub open spec fn fold_view(first: ChangeView, rest: Seq<ChangeView>) -> Option<ChangeView>
    decreases rest.len(),
{
    if rest.len() == 0 {
        Some(first)
    } else {
        match fold_view(first, rest.drop_last()) {
            Some(acc) => merge_view(acc, rest.last()),
            None => None,
        }
    }
}

} // verus!

verus! {

impl UpdateRelation {
    /// A copy of this relation-name update.
    pub fn duplicate(&self) -> (r: UpdateRelation)
        ensures
            r@ == self@,
    {
        match self {
            UpdateRelation::Add(n) => UpdateRelation::Add(n.clone()),
            UpdateRelation::Remove(n) => UpdateRelation::Remove(n.clone()),
        }
    }

    /// Whether two updates add, or remove, the same name.
    pub fn same_as(&self, other: &UpdateRelation) -> (r: bool)
        ensures
            r == (self@ == other@),
    {
        match self {
            UpdateRelation::Add(a) => match other {
                UpdateRelation::Add(b) => *a == *b,
                _ => false,
            },
            UpdateRelation::Remove(a) => match other {
                UpdateRelation::Remove(b) => *a == *b,
                _ => false,
            },
        }
    }
}

/// Whether `v` holds an update equal to `u`.
pub fn contains_update(v: &Vec<UpdateRelation>, u: &UpdateRelation) -> (r: bool)
    ensures
        r == updates_view(v@).contains(u@),
{
    let mut i: usize = 0;
    while i < v.len()
        invariant
            i <= v@.len(),
            forall|j: int| 0 <= j < i ==> (#[trigger] v@[j])@ != u@,
        decreases v@.len() - i,
    {
        if v[i].same_as(u) {
            assert(updates_view(v@)[i as int] == u@);
            return true;
        }
        i = i + 1;
    }
    proof {
        if updates_view(v@).contains(u@) {
            let j = choose|j: int| 0 <= j < v@.len() && updates_view(v@)[j] == u@;
            assert(v@[j]@ == u@);
        }
    }
    false
}

/// Appends to `a` each update of `b` that it does not hold yet.
pub fn union_updates(a: &mut Vec<UpdateRelation>, b: Vec<UpdateRelation>)
    ensures
        updates_view(final(a)@) == seq_union(updates_view(old(a)@), updates_view(b@)),
{
    let ghost start = updates_view(a@);
    let mut i: usize = 0;
    while i < b.len()
        invariant
            i <= b@.len(),
            start == updates_view(old(a)@),
            updates_view(a@) == seq_union(start, updates_view(b@.subrange(0, i as int))),
        decreases b@.len() - i,
    {
        let ghost before = a@;
        proof {
            let s = updates_view(b@.subrange(0, i as int + 1));
            assert(s.drop_last() =~= updates_view(b@.subrange(0, i as int)));
            assert(s.last() == b@[i as int]@);
        }
        if !contains_update(a, &b[i]) {
            a.push(b[i].duplicate());
            assert(updates_view(a@) =~= updates_view(before).push(b@[i as int]@));
        }
        i = i + 1;
    }
    assert(b@.subrange(0, i as int) =~= b@);
}

impl InternalChanges {
    /// Merges `other`, a change of the same row, into this change.
    pub fn with(self, other: InternalChanges) -> (r: Result<InternalChanges, MergeError>)
        requires
            self.wf(),
            other.wf(),
        ensures
            match merge_view(self@, other@) {
                Some(v) => r matches Ok(c) && c@ == v && c.wf(),
                None => r == Err::<InternalChanges, MergeError>(MergeError::ConflictingChange),
            },
    {
        match self {
            InternalChanges::UpdateNode(mut a) => match other {
                InternalChanges::UpdateNode(b) => {
                    if a.id != b.id || a.ty != b.ty {
                        return Err(MergeError::ConflictingChange);
                    }
                    if !a.user_defined_item.merge_compatible(&b.user_defined_item) {
                        return Err(MergeError::ConflictingChange);
                    }
                    if !a.increments.merge_compatible(&b.increments) {
                        return Err(MergeError::ConflictingChange);
                    }
                    Ok(InternalChanges::UpdateNode(a))
                },
                _ => Err(MergeError::ConflictingChange),
            },
            InternalChanges::UpdateUniqueConstraint(mut a) => match other {
                InternalChanges::UpdateUniqueConstraint(b) => {
                    if a.target != b.target {
                        return Err(MergeError::ConflictingChange);
                    }
                    if !a.user_defined_item.merge_compatible(&b.user_defined_item) {
                        return Err(MergeError::ConflictingChange);
                    }
                    if !a.increments.merge_compatible(&b.increments) {
                        return Err(MergeError::ConflictingChange);
                    }
                    Ok(InternalChanges::UpdateUniqueConstraint(a))
                },
                _ => Err(MergeError::ConflictingChange),
            },
            InternalChanges::InsertRelation(mut a) => match other {
                InternalChanges::InsertRelation(b) => {
                    if a.from_ty != b.from_ty || a.to_ty != b.to_ty {
                        return Err(MergeError::ConflictingChange);
                    }
                    if !a.fields.merge_compatible(&b.fields) {
                        return Err(MergeError::ConflictingChange);
                    }
                    union_strings(&mut a.relation_names, b.relation_names);
                    Ok(InternalChanges::InsertRelation(a))
                },
                _ => Err(MergeError::ConflictingChange),
            },
            InternalChanges::DeleteMultipleRelations(mut a) => match other {
                InternalChanges::DeleteMultipleRelations(b) => {
                    union_strings(&mut a.relation_names, b.relation_names);
                    Ok(InternalChanges::DeleteMultipleRelations(a))
                },
                _ => Err(MergeError::ConflictingChange),
            },
            InternalChanges::UpdateRelation(mut a) => match other {
                InternalChanges::UpdateRelation(b) => {
                    if !a.user_defined_item.merge_compatible(&b.user_defined_item) {
                        return Err(MergeError::ConflictingChange);
                    }
                    union_updates(&mut a.relation_names, b.relation_names);
                    Ok(InternalChanges::UpdateRelation(a))
                },
                _ => Err(MergeError::ConflictingChange),
            },
            _ => Err(MergeError::ConflictingChange),
        }
    }
}

/// Why a list of changes could not become one change.
#[derive(Debug, PartialEq, Eq, Structural)]
pub enum FoldError {
    /// The list is empty: there is nothing to compile.
    Unknown,
    /// Two changes could not be merged.
    ConflictingChange,
}

pub open spec fn changes_view(v: Seq<InternalChanges>) -> Seq<ChangeView> {
    v.map_values(|c: InternalChanges| c@)
}

/// Merges a list of changes of one row, left to right, into one change.
pub fn merge_all(list: Vec<InternalChanges>) -> (r: Result<InternalChanges, FoldError>)
    requires
        forall|i: int| 0 <= i < list@.len() ==> (#[trigger] list@[i]).wf(),
    ensures
        list@.len() == 0 ==> r == Err::<InternalChanges, FoldError>(FoldError::Unknown),
        list@.len() > 0 ==> match fold_view(list@[0]@, changes_view(list@.drop_first())) {
            Some(v) => r matches Ok(c) && c@ == v && c.wf(),
            None => r == Err::<InternalChanges, FoldError>(FoldError::ConflictingChange),
        },
{
    let mut changes = list;
    if changes.len() == 0 {
        return Err(FoldError::Unknown);
    }
    let ghost all = changes@;
    let ghost rest = changes_view(all.drop_first());
    let mut acc = changes.remove(0);
    assert(acc == all[0]);
    let mut k: usize = 0;
    while changes.len() > 0
        invariant
            0 < all.len() <= usize::MAX,
            all == list@,
            rest == changes_view(all.drop_first()),
            k + changes@.len() + 1 == all.len(),
            changes@ == all.subrange(k as int + 1, all.len() as int),
            forall|i: int| 0 <= i < all.len() ==> (#[trigger] all[i]).wf(),
            acc.wf(),
            fold_view(all[0]@, rest.subrange(0, k as int)) == Some(acc@),
        decreases changes@.len(),
    {
        let next = changes.remove(0);
        assert(next == all[k + 1]);
        proof {
            let s = rest.subrange(0, k as int + 1);
            assert(s.drop_last() =~= rest.subrange(0, k as int));
            assert(s.last() == next@);
        }
        match acc.with(next) {
            Ok(merged) => {
                acc = merged;
            },
            Err(_) => {
                proof {
                    lemma_fold_stays_none(all[0]@, rest, k as int + 1);
                    assert(rest.subrange(0, rest.len() as int) =~= rest);
                }
                return Err(FoldError::ConflictingChange);
            },
        }
        k = k + 1;
    }
    assert(rest.subrange(0, k as int) =~= rest);
    Ok(acc)
}

/// Once a fold has failed, it stays failed.
pub proof fn lemma_fold_stays_none(first: ChangeView, rest: Seq<ChangeView>, k: int)
    requires
        0 <= k <= rest.len(),
        fold_view(first, rest.subrange(0, k)) is None,
    ensures
        fold_view(first, rest) is None,
    decreases rest.len() - k,
{
    if k < rest.len() {
        let s = rest.subrange(0, k + 1);
        assert(s.drop_last() =~= rest.subrange(0, k));
        lemma_fold_stays_none(first, rest, k + 1);
    } else {
        assert(rest.subrange(0, k) =~= rest);
    }
}

} // verus!
