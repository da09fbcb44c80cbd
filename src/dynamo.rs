//! Compiler for the distributed transactional store: each change becomes one
//! conditional put, update or delete of one row.
use vstd::prelude::*;
use crate::attrs::{AttrMap, AttrPairs, AttrView, AttributeValue, pairs_insert, pairs_remove, strings_view};
use crate::auth::{
    guarded_condition, inject_owner, owner_condition, owners_with, owners_with_user, with_owner,
    OperationAuthorization,
    EXISTS_CONDITION, OWNER_NAME_PLACEHOLDER, OWNER_VALUE_PLACEHOLDER,
};
use crate::change::{
    DeleteMultipleRelationsInternalInput, DeleteNodeInternalInput, InsertNodeInternalInput, InsertRelationInternalInput, InsertUniqueConstraint, InternalChanges, UpdateNodeInternalInput, FoldError, changes_view, fold_view, merge_all, UpdateRelation, UpdateRelationInternalInput, UpdateUniqueConstraint, updates_view,
};
use crate::expr::{
    names_view, to_update_expression, update_expression, update_names, update_values, values_view,
};
use crate::ids::{decode_node_id, encode_node_id, is_identifier, node_id_text};
use crate::names::{OWNED_BY, PK, SK, TYPE, UPDATED_AT};
use crate::row::{
    constraint_row, node_row, relation_row, stamp_constraint, stamp_node, stamp_relation, text,
};

verus! {

/// Condition of a write that must create its row.
pub const NOT_EXISTS_CONDITION: &'static str = "attribute_not_exists(#pk)";

/// Placeholder of the partition key attribute.
pub const PK_PLACEHOLDER: &'static str = "#pk";

/// Placeholder of the sort key attribute.
pub const SK_PLACEHOLDER: &'static str = "#sk";

/// Writes a whole row.
pub struct Put {
    pub table_name: String,
    pub item: AttrMap,
    pub condition_expression: Option<String>,
    pub expression_attribute_names: Vec<(String, String)>,
}

/// Changes attributes of a row.
pub struct Update {
    pub table_name: String,
    pub key: Vec<(String, AttributeValue)>,
    pub condition_expression: Option<String>,
    pub update_expression: String,
    pub expression_attribute_names: Vec<(String, String)>,
    pub expression_attribute_values: Vec<(String, AttributeValue)>,
}

/// Deletes a row.
pub struct Delete {
    pub table_name: String,
    pub key: Vec<(String, AttributeValue)>,
    pub condition_expression: Option<String>,
    pub expression_attribute_names: Vec<(String, String)>,
    /// Absent when no value is bound.
    pub expression_attribute_values: Option<Vec<(String, AttributeValue)>>,
}

/// One write of a transaction.
pub enum TransactWriteItem {
    Put(Put),
    Update(Update),
    Delete(Delete),
}

/// What a failure of the write means to the caller.
pub enum TxItemMetadata {
    /// A failure is a plain transaction error.
    Plain,
    /// The write claims these unique values.
    Unique { fields: Vec<String>, values: Vec<String> },
}

/// A compiled write, addressed by its row.
pub struct TxItem {
    pub pk: String,
    pub sk: String,
    pub relation_name: Option<String>,
    pub metadata: TxItemMetadata,
    pub transaction: TransactWriteItem,
}

pub enum WriteView {
    Put { table: Seq<char>, item: AttrPairs, condition: Option<Seq<char>>, names: Seq<(Seq<char>, Seq<char>)> },
    Update {
        table: Seq<char>,
        key: AttrPairs,
        condition: Option<Seq<char>>,
        expression: Seq<char>,
        names: Seq<(Seq<char>, Seq<char>)>,
        values: AttrPairs,
    },
    Delete {
        table: Seq<char>,
        key: AttrPairs,
        condition: Option<Seq<char>>,
        names: Seq<(Seq<char>, Seq<char>)>,
        values: Option<AttrPairs>,
    },
}

pub enum MetadataView {
    Plain,
    Unique { fields: Seq<Seq<char>>, values: Seq<Seq<char>> },
}

pub struct TxItemView {
    pub pk: Seq<char>,
    pub sk: Seq<char>,
    pub relation_name: Option<Seq<char>>,
    pub metadata: MetadataView,
    pub write: WriteView,
}

pub open spec fn opt_text(o: Option<String>) -> Option<Seq<char>> {
    match o {
        Some(s) => Some(s@),
        None => None,
    }
}

impl View for TxItem {
    type V = TxItemView;

    open spec fn view(&self) -> TxItemView {
        TxItemView {
            pk: self.pk@,
            sk: self.sk@,
            relation_name: opt_text(self.relation_name),
            metadata: match self.metadata {
                TxItemMetadata::Plain => MetadataView::Plain,
                TxItemMetadata::Unique { fields, values } => MetadataView::Unique {
                    fields: strings_view(fields@),
                    values: strings_view(values@),
                },
            },
            write: match self.transaction {
                TransactWriteItem::Put(p) => WriteView::Put {
                    table: p.table_name@,
                    item: p.item.pairs(),
                    condition: opt_text(p.condition_expression),
                    names: names_view(p.expression_attribute_names@),
                },
                TransactWriteItem::Update(u) => WriteView::Update {
                    table: u.table_name@,
                    key: values_view(u.key@),
                    condition: opt_text(u.condition_expression),
                    expression: u.update_expression@,
                    names: names_view(u.expression_attribute_names@),
                    values: values_view(u.expression_attribute_values@),
                },
                TransactWriteItem::Delete(d) => WriteView::Delete {
                    table: d.table_name@,
                    key: values_view(d.key@),
                    condition: opt_text(d.condition_expression),
                    names: names_view(d.expression_attribute_names@),
                    values: match d.expression_attribute_values {
                        Some(v) => Some(values_view(v@)),
                        None => None,
                    },
                },
            },
        }
    }
}

impl TxItem {
    /// A put item holds each attribute once.
    pub open spec fn wf(&self) -> bool {
        self.transaction matches TransactWriteItem::Put(p) ==> p.item.wf()
    }
}

/// The key of row `(pk, sk)`.
pub open spec fn key_view(pk: Seq<char>, sk: Seq<char>) -> AttrPairs {
    seq![(PK@, text(pk)), (SK@, text(sk))]
}

/// The bindings of the key placeholders of an existence condition.
pub open spec fn key_names() -> Seq<(Seq<char>, Seq<char>)> {
    seq![(PK_PLACEHOLDER@, PK@), (SK_PLACEHOLDER@, SK@)]
}

/// The name binding that an ownership conjunct needs.
pub open spec fn owner_names(owner: Option<Seq<char>>) -> Seq<(Seq<char>, Seq<char>)> {
    match owner {
        Some(_) => seq![(OWNER_NAME_PLACEHOLDER@, OWNED_BY@)],
        None => Seq::empty(),
    }
}

/// The value binding that an ownership conjunct needs.
pub open spec fn owner_values(owner: Option<Seq<char>>) -> AttrPairs {
    match owner {
        Some(u) => seq![(OWNER_VALUE_PLACEHOLDER@, text(u))],
        None => Seq::empty(),
    }
}

/// A write of one row with no special failure meaning.
pub open spec fn plain(pk: Seq<char>, sk: Seq<char>, write: WriteView) -> TxItemView {
    TxItemView { pk, sk, relation_name: None, metadata: MetadataView::Plain, write }
}

/// The row keys of a node are both its id.
pub open spec fn node_keys(ty: Seq<char>, id: Seq<char>, pk: Seq<char>, sk: Seq<char>) -> bool {
    pk == node_id_text(ty, id) && sk == pk
}

/// A node insert: an unconditional put of the stamped row.
pub open spec fn insert_node_tx(
    c: InsertNodeInternalInput,
    table: Seq<char>,
    owner: Option<Seq<char>>,
    pk: Seq<char>,
    sk: Seq<char>,
) -> TxItemView {
    let nid = node_id_text(c.ty@, c.id@);
    let item = with_owner(node_row(c.user_defined_item.pairs(), c.ty@, nid, c.current_datetime@), owner);
    plain(pk, sk, WriteView::Put { table, item, condition: None, names: Seq::empty() })
}

/// A node update: the stamped attributes assigned, increments added, under
/// the existence (and ownership) condition.
pub open spec fn update_node_tx(
    c: UpdateNodeInternalInput,
    table: Seq<char>,
    owner: Option<Seq<char>>,
    pk: Seq<char>,
    sk: Seq<char>,
) -> TxItemView {
    let nid = node_id_text(c.ty@, c.id@);
    let item = node_row(c.user_defined_item.pairs(), c.ty@, nid, c.current_datetime@);
    let inc = c.increments.pairs();
    let none = Seq::<Seq<char>>::empty();
    plain(
        pk,
        sk,
        WriteView::Update {
            table,
            key: key_view(pk, sk),
            condition: Some(guarded_condition(owner)),
            expression: update_expression(item, inc, none, none, none),
            names: key_names() + update_names(item, inc, none, none, none) + owner_names(owner),
            values: update_values(item, inc, none, none, none) + owner_values(owner),
        },
    )
}

/// A delete guarded by existence and, when owner-restricted, ownership.
pub open spec fn guarded_delete_tx(
    table: Seq<char>,
    owner: Option<Seq<char>>,
    pk: Seq<char>,
    sk: Seq<char>,
) -> TxItemView {
    plain(
        pk,
        sk,
        WriteView::Delete {
            table,
            key: key_view(pk, sk),
            condition: Some(guarded_condition(owner)),
            names: key_names() + owner_names(owner),
            values: match owner {
                Some(_) => Some(owner_values(owner)),
                None => None,
            },
        },
    )
}

/// A relation row over the node copy, without the copy's own keys.
pub open spec fn relation_base(c: InsertRelationInternalInput, pk: Seq<char>, sk: Seq<char>) -> AttrPairs {
    let p = pairs_remove(pairs_remove(c.fields.pairs(), PK@), SK@);
    relation_row(p, pk, sk, c.from_ty@, c.to_ty@, c.current_datetime@)
}

/// The attributes assigned to a relation row. When owner-restricted the owner
/// set is not assigned but added to.
pub open spec fn relation_item(
    c: InsertRelationInternalInput,
    owner: Option<Seq<char>>,
    pk: Seq<char>,
    sk: Seq<char>,
) -> AttrPairs {
    match owner {
        Some(_) => pairs_remove(relation_base(c, pk, sk), OWNED_BY@),
        None => relation_base(c, pk, sk),
    }
}

/// The owners added to a relation row: those of the copy and the user.
pub open spec fn relation_owners(
    c: InsertRelationInternalInput,
    owner: Option<Seq<char>>,
    pk: Seq<char>,
    sk: Seq<char>,
) -> Seq<Seq<char>> {
    match owner {
        Some(u) => owners_with(relation_base(c, pk, sk), u),
        None => Seq::empty(),
    }
}

/// added, without condition.
pub open spec fn insert_relation_tx(
    c: InsertRelationInternalInput,
    table: Seq<char>,
    owner: Option<Seq<char>>,
    pk: Seq<char>,
    sk: Seq<char>,
) -> TxItemView {
    let item = relation_item(c, owner, pk, sk);
    let owners = relation_owners(c, owner, pk, sk);
    let none = Seq::<(Seq<char>, AttrView)>::empty();
    let added = strings_view(c.relation_names@);
    let removed = Seq::<Seq<char>>::empty();
    plain(
        pk,
        sk,
        WriteView::Update {
            table,
            key: key_view(pk, sk),
            condition: None,
            expression: update_expression(item, none, added, removed, owners),
            names: update_names(item, none, added, removed, owners),
            values: update_values(item, none, added, removed, owners),
        },
    )
}

/// A delete guarded by existence alone.
pub open spec fn delete_existing_tx(table: Seq<char>, pk: Seq<char>, sk: Seq<char>) -> TxItemView {
    plain(
        pk,
        sk,
        WriteView::Delete {
            table,
            key: key_view(pk, sk),
            condition: Some(EXISTS_CONDITION@),
            names: key_names(),
            values: None,
        },
    )
}

/// An update of a relation row: its attributes, its update time, and names.
pub open spec fn relation_update_tx(
    item: AttrPairs,
    added: Seq<Seq<char>>,
    removed: Seq<Seq<char>>,
    table: Seq<char>,
    pk: Seq<char>,
    sk: Seq<char>,
) -> TxItemView {
    let none = Seq::<(Seq<char>, AttrView)>::empty();
    let owners = Seq::<Seq<char>>::empty();
    plain(
        pk,
        sk,
        WriteView::Update {
            table,
            key: key_view(pk, sk),
            condition: None,
            expression: update_expression(item, none, added, removed, owners),
            names: update_names(item, none, added, removed, owners),
            values: update_values(item, none, added, removed, owners),
        },
    )
}

/// The names that a list of relation-name updates adds.
pub open spec fn added_names(u: Seq<(bool, Seq<char>)>) -> Seq<Seq<char>>
    decreases u.len(),
{
    if u.len() == 0 {
        Seq::empty()
    } else if u.last().0 {
        added_names(u.drop_last()).push(u.last().1)
    } else {
        added_names(u.drop_last())
    }
}

/// The names that a list of relation-name updates removes.
pub open spec fn removed_names(u: Seq<(bool, Seq<char>)>) -> Seq<Seq<char>>
    decreases u.len(),
{
    if u.len() == 0 {
        Seq::empty()
    } else if !u.last().0 {
        removed_names(u.drop_last()).push(u.last().1)
    } else {
        removed_names(u.drop_last())
    }
}

/// A unique-constraint insert: a put of the constraint row that only
/// succeeds when no row holds the constraint id.
pub open spec fn constraint_insert_tx(
    c: InsertUniqueConstraint,
    table: Seq<char>,
    owner: Option<Seq<char>>,
    id: Seq<char>,
) -> TxItemView {
    let p = constraint_row(c.user_defined_item.pairs(), id, c.target@, c.current_datetime@);
    let item = with_owner(pairs_insert(p, TYPE@, text(c.ty@)), owner);
    TxItemView {
        pk: id,
        sk: id,
        relation_name: None,
        metadata: MetadataView::Unique {
            fields: strings_view(c.constraint_fields@),
            values: strings_view(c.constraint_values@),
        },
        write: WriteView::Put {
            table,
            item,
            condition: Some(NOT_EXISTS_CONDITION@),
            names: seq![(PK_PLACEHOLDER@, PK@)],
        },
    }
}

/// A constraint-row update, guarded like a node update.
pub open spec fn constraint_update_tx(
    c: UpdateUniqueConstraint,
    table: Seq<char>,
    owner: Option<Seq<char>>,
    pk: Seq<char>,
    sk: Seq<char>,
) -> TxItemView {
    let item = constraint_row(c.user_defined_item.pairs(), pk, c.target@, c.current_datetime@);
    let inc = c.increments.pairs();
    let none = Seq::<Seq<char>>::empty();
    plain(
        pk,
        sk,
        WriteView::Update {
            table,
            key: key_view(pk, sk),
            condition: Some(guarded_condition(owner)),
            expression: update_expression(item, inc, none, none, none),
            names: key_names() + update_names(item, inc, none, none, none) + owner_names(owner),
            values: update_values(item, inc, none, none, none) + owner_values(owner),
        },
    )
}

} // verus!

verus! {

/// The key of row `(pk, sk)`.
fn row_key(pk: &String, sk: &String) -> (r: Vec<(String, AttributeValue)>)
    ensures
        values_view(r@) == key_view(pk@, sk@),
{
    let r = vec![
        (String::from_str(PK), AttributeValue::S(pk.clone())),
        (String::from_str(SK), AttributeValue::S(sk.clone())),
    ];
    assert(values_view(r@) =~= key_view(pk@, sk@));
    r
}

/// The key placeholders of an existence condition.
fn key_name_bindings() -> (r: Vec<(String, String)>)
    ensures
        names_view(r@) == key_names(),
{
    let r = vec![
        (String::from_str(PK_PLACEHOLDER), String::from_str(PK)),
        (String::from_str(SK_PLACEHOLDER), String::from_str(SK)),
    ];
    assert(names_view(r@) =~= key_names());
    r
}

/// No bound values, as an absent map.
pub fn sanitize_expression_attribute_values(values: Vec<(String, AttributeValue)>) -> (r: Option<
    Vec<(String, AttributeValue)>,
>)
    ensures
        values@.len() == 0 ==> r is None,
        values@.len() > 0 ==> r == Some(values),
{
    if values.len() == 0 {
        None
    } else {
        Some(values)
    }
}

/// Compiles a node insert: an unconditional put of the whole row.
pub fn insert_node(
    input: InsertNodeInternalInput,
    table: &str,
    auth: &OperationAuthorization,
    pk: String,
    sk: String,
) -> (r: Result<TxItem, ToTransactionError>)
    requires
        input.user_defined_item.wf(),
    ensures
        node_keys(input.ty@, input.id@, pk@, sk@) ==> (r matches Ok(t) && t.wf() && t@
            == insert_node_tx(input, table@, auth.owner(), pk@, sk@)),
        !node_keys(input.ty@, input.id@, pk@, sk@) ==> r matches Err(
            ToTransactionError::InvalidIdentifier,
        ),
{
    let ghost c = input;
    let InsertNodeInternalInput { id, ty, user_defined_item, current_datetime } = input;
    let mut item = user_defined_item;
    let nid = encode_node_id(ty.as_str(), id.as_str());
    if !(pk == nid && sk == nid) {
        return Err(ToTransactionError::InvalidIdentifier);
    }
    stamp_node(&mut item, ty.as_str(), nid.as_str(), current_datetime.as_str());
    inject_owner(auth, &mut item);
    let names: Vec<(String, String)> = Vec::new();
    assert(names_view(names@) =~= Seq::empty());
    let r = TxItem {
        pk,
        sk,
        relation_name: None,
        metadata: TxItemMetadata::Plain,
        transaction: TransactWriteItem::Put(
            Put {
                table_name: String::from_str(table),
                item,
                condition_expression: None,
                expression_attribute_names: names,
            },
        ),
    };
    assert(r@ =~= insert_node_tx(c, table@, auth.owner(), pk@, sk@));
    Ok(r)
}

/// Compiles a node update: guarded by the row's existence and, when
/// owner-restricted, by ownership.
pub fn update_node(
    input: UpdateNodeInternalInput,
    table: &str,
    auth: &OperationAuthorization,
    pk: String,
    sk: String,
) -> (r: Result<TxItem, ToTransactionError>)
    requires
        input.user_defined_item.wf(),
    ensures
        node_keys(input.ty@, input.id@, pk@, sk@) ==> (r matches Ok(t) && t.wf() && t@
            == update_node_tx(input, table@, auth.owner(), pk@, sk@)),
        !node_keys(input.ty@, input.id@, pk@, sk@) ==> r matches Err(
            ToTransactionError::InvalidIdentifier,
        ),
{
    let ghost c = input;
    let UpdateNodeInternalInput { id, ty, user_defined_item, increments, current_datetime } = input;
    let mut item = user_defined_item;
    let nid = encode_node_id(ty.as_str(), id.as_str());
    if !(pk == nid && sk == nid) {
        return Err(ToTransactionError::InvalidIdentifier);
    }
    stamp_node(&mut item, ty.as_str(), nid.as_str(), current_datetime.as_str());
    let mut names = key_name_bindings();
    let mut values: Vec<(String, AttributeValue)> = Vec::new();
    assert(values_view(values@) =~= Seq::empty());
    let no_added: Vec<String> = Vec::new();
    let no_removed: Vec<String> = Vec::new();
    let no_owners: Vec<String> = Vec::new();
    assert(strings_view(no_added@) =~= Seq::empty());
    assert(strings_view(no_removed@) =~= Seq::empty());
    assert(strings_view(no_owners@) =~= Seq::empty());
    let expression = to_update_expression(
        &item,
        &increments,
        no_added,
        no_removed,
        no_owners,
        &mut names,
        &mut values,
    );
    let ghost n1 = names@;
    let ghost v1 = values@;
    let cond = owner_condition(auth, &mut names, &mut values);
    proof {
        assert(names_view(names@) =~= names_view(n1) + owner_names(auth.owner()));
        assert(values_view(values@) =~= values_view(v1) + owner_values(auth.owner()));
    }
    let key = row_key(&pk, &sk);
    let r = TxItem {
        pk,
        sk,
        relation_name: None,
        metadata: TxItemMetadata::Plain,
        transaction: TransactWriteItem::Update(
            Update {
                table_name: String::from_str(table),
                key,
                condition_expression: Some(cond),
                update_expression: expression,
                expression_attribute_names: names,
                expression_attribute_values: values,
            },
        ),
    };
    assert(r@ =~= update_node_tx(c, table@, auth.owner(), pk@, sk@));
    Ok(r)
}

/// Compiles a node delete: guarded like an update.
pub fn delete_node(
    _input: DeleteNodeInternalInput,
    table: &str,
    auth: &OperationAuthorization,
    pk: String,
    sk: String,
) -> (r: TxItem)
    ensures
        r.wf(),
        r@ == guarded_delete_tx(table@, auth.owner(), pk@, sk@),
{
    guarded_delete(table, auth, pk, sk)
}

/// Compiles the delete of a node or constraint row: guarded like an update.
pub fn guarded_delete(table: &str, auth: &OperationAuthorization, pk: String, sk: String) -> (r: TxItem)
    ensures
        r.wf(),
        r@ == guarded_delete_tx(table@, auth.owner(), pk@, sk@),
{
    let mut names = key_name_bindings();
    let mut values: Vec<(String, AttributeValue)> = Vec::new();
    let ghost n1 = names@;
    let cond = owner_condition(auth, &mut names, &mut values);
    proof {
        assert(names_view(names@) =~= names_view(n1) + owner_names(auth.owner()));
        assert(values_view(values@) =~= owner_values(auth.owner()));
    }
    let key = row_key(&pk, &sk);
    let r = TxItem {
        pk,
        sk,
        relation_name: None,
        metadata: TxItemMetadata::Plain,
        transaction: TransactWriteItem::Delete(
            Delete {
                table_name: String::from_str(table),
                key,
                condition_expression: Some(cond),
                expression_attribute_names: names,
                expression_attribute_values: sanitize_expression_attribute_values(values),
            },
        ),
    };
    assert(r@ =~= guarded_delete_tx(table@, auth.owner(), pk@, sk@));
    r
}

/// Compiles a relation insert: the relation row receives the node copy, its
/// reserved attributes, and the relation names.
pub fn insert_relation(
    input: InsertRelationInternalInput,
    table: &str,
    auth: &OperationAuthorization,
    pk: String,
    sk: String,
) -> (r: TxItem)
    requires
        input.fields.wf(),
    ensures
        r.wf(),
        r@ == insert_relation_tx(input, table@, auth.owner(), pk@, sk@),
{
    let ghost c = input;
    let InsertRelationInternalInput { fields, relation_names, from_ty, to_ty, current_datetime } =
        input;
    let mut item = fields;
    item.remove(PK);
    item.remove(SK);
    stamp_relation(
        &mut item,
        pk.as_str(),
        sk.as_str(),
        from_ty.as_str(),
        to_ty.as_str(),
        current_datetime.as_str(),
    );
    let owners = match auth {
        OperationAuthorization::Unrestricted => Vec::new(),
        OperationAuthorization::OwnerBased(user) => {
            let owners = owners_with_user(&item, user);
            item.remove(OWNED_BY);
            owners
        },
    };
    assert(strings_view(owners@) == relation_owners(c, auth.owner(), pk@, sk@)) by {
        if auth.owner() is None {
            assert(strings_view(owners@) =~= Seq::<Seq<char>>::empty());
        }
    }
    let mut names: Vec<(String, String)> = Vec::new();
    let mut values: Vec<(String, AttributeValue)> = Vec::new();
    assert(names_view(names@) =~= Seq::empty());
    assert(values_view(values@) =~= Seq::empty());
    let no_increments = AttrMap::new();
    let no_removed: Vec<String> = Vec::new();
    assert(strings_view(no_removed@) =~= Seq::empty());
    let expression = to_update_expression(
        &item,
        &no_increments,
        relation_names,
        no_removed,
        owners,
        &mut names,
        &mut values,
    );
    let key = row_key(&pk, &sk);
    let r = TxItem {
        pk,
        sk,
        relation_name: None,
        metadata: TxItemMetadata::Plain,
        transaction: TransactWriteItem::Update(
            Update {
                table_name: String::from_str(table),
                key,
                condition_expression: None,
                update_expression: expression,
                expression_attribute_names: names,
                expression_attribute_values: values,
            },
        ),
    };
    assert(r@ =~= insert_relation_tx(c, table@, auth.owner(), pk@, sk@));
    r
}

/// Compiles the delete of a relation row: guarded by existence.
pub fn delete_existing(table: &str, pk: String, sk: String) -> (r: TxItem)
    ensures
        r.wf(),
        r@ == delete_existing_tx(table@, pk@, sk@),
{
    let names = key_name_bindings();
    let key = row_key(&pk, &sk);
    let r = TxItem {
        pk,
        sk,
        relation_name: None,
        metadata: TxItemMetadata::Plain,
        transaction: TransactWriteItem::Delete(
            Delete {
                table_name: String::from_str(table),
                key,
                condition_expression: Some(String::from_str(EXISTS_CONDITION)),
                expression_attribute_names: names,
                expression_attribute_values: None,
            },
        ),
    };
    assert(r@ =~= delete_existing_tx(table@, pk@, sk@));
    r
}

/// Compiles an update of a relation row with its attributes and names.
fn relation_update(
    item: AttrMap,
    added: Vec<String>,
    removed: Vec<String>,
    table: &str,
    pk: String,
    sk: String,
) -> (r: TxItem)
    ensures
        r.wf(),
        r@ == relation_update_tx(
            item.pairs(),
            strings_view(added@),
            strings_view(removed@),
            table@,
            pk@,
            sk@,
        ),
{
    let ghost av = strings_view(added@);
    let ghost rv = strings_view(removed@);
    let mut names: Vec<(String, String)> = Vec::new();
    let mut values: Vec<(String, AttributeValue)> = Vec::new();
    assert(names_view(names@) =~= Seq::empty());
    assert(values_view(values@) =~= Seq::empty());
    let no_increments = AttrMap::new();
    let no_owners: Vec<String> = Vec::new();
    assert(strings_view(no_owners@) =~= Seq::empty());
    let expression = to_update_expression(
        &item,
        &no_increments,
        added,
        removed,
        no_owners,
        &mut names,
        &mut values,
    );
    let key = row_key(&pk, &sk);
    let r = TxItem {
        pk,
        sk,
        relation_name: None,
        metadata: TxItemMetadata::Plain,
        transaction: TransactWriteItem::Update(
            Update {
                table_name: String::from_str(table),
                key,
                condition_expression: None,
                update_expression: expression,
                expression_attribute_names: names,
                expression_attribute_values: values,
            },
        ),
    };
    assert(r@ =~= relation_update_tx(item.pairs(), av, rv, table@, pk@, sk@));
    r
}

/// The update time alone, as attributes.
pub open spec fn touched(now: Seq<char>) -> AttrPairs {
    pairs_insert(Seq::empty(), UPDATED_AT@, text(now))
}

/// Compiles the removal of names from a relation row; the row stays.
pub fn delete_multiple_relations(
    input: DeleteMultipleRelationsInternalInput,
    table: &str,
    pk: String,
    sk: String,
) -> (r: TxItem)
    ensures
        r.wf(),
        r@ == relation_update_tx(
            touched(input.current_datetime@),
            Seq::empty(),
            strings_view(input.relation_names@),
            table@,
            pk@,
            sk@,
        ),
{
    let DeleteMultipleRelationsInternalInput { relation_names, current_datetime } = input;
    let mut item = AttrMap::new();
    item.insert(String::from_str(UPDATED_AT), AttributeValue::S(current_datetime));
    let no_added: Vec<String> = Vec::new();
    assert(strings_view(no_added@) =~= Seq::empty());
    relation_update(item, no_added, relation_names, table, pk, sk)
}

/// Splits relation-name updates into added and removed names.
pub fn partition_updates(updates: Vec<UpdateRelation>) -> (r: (Vec<String>, Vec<String>))
    ensures
        strings_view(r.0@) == added_names(updates_view(updates@)),
        strings_view(r.1@) == removed_names(updates_view(updates@)),
{
    let ghost all = updates_view(updates@);
    let mut added: Vec<String> = Vec::new();
    let mut removed: Vec<String> = Vec::new();
    let mut rest = updates;
    let ghost k: int = 0;
    assert(strings_view(added@) =~= Seq::empty());
    assert(strings_view(removed@) =~= Seq::empty());
    while rest.len() > 0
        invariant
            0 <= k <= all.len(),
            updates_view(rest@) == all.subrange(k, all.len() as int),
            strings_view(added@) == added_names(all.subrange(0, k)),
            strings_view(removed@) == removed_names(all.subrange(0, k)),
        decreases rest@.len(),
    {
        let ghost before = rest@;
        assert(updates_view(before).len() == before.len());
        assert(k < all.len());
        let u = rest.remove(0);
        let ghost ga = added@;
        let ghost gr = removed@;
        proof {
            assert(u == before[0]);
            assert(updates_view(before)[0] == u@);
            assert(all.subrange(k, all.len() as int)[0] == u@);
            assert(all[k] == u@);
            let s = all.subrange(0, k + 1);
            assert(s.drop_last() =~= all.subrange(0, k));
            assert(s.last() == u@);
        }
        match u {
            UpdateRelation::Add(n) => {
                added.push(n);
                assert(strings_view(added@) =~= strings_view(ga).push(u@.1));
            },
            UpdateRelation::Remove(n) => {
                removed.push(n);
                assert(strings_view(removed@) =~= strings_view(gr).push(u@.1));
            },
        }
        proof {
            assert(rest@ =~= before.subrange(1, before.len() as int));
            assert forall|j: int| 0 <= j < rest@.len() implies #[trigger] updates_view(rest@)[j]
                == all[k + 1 + j] by {
                assert(rest@[j] == before[j + 1]);
                assert(updates_view(before)[j + 1] == all.subrange(k, all.len() as int)[j + 1]);
            }
            assert(updates_view(rest@) =~= all.subrange(k + 1, all.len() as int));
            k = k + 1;
        }
    }
    assert(all.subrange(0, k) =~= all);
    (added, removed)
}

/// Compiles an update of a relation row: attributes, update time, names.
pub fn update_relation(
    input: UpdateRelationInternalInput,
    table: &str,
    pk: String,
    sk: String,
) -> (r: TxItem)
    requires
        input.user_defined_item.wf(),
    ensures
        r.wf(),
        r@ == relation_update_tx(
            pairs_insert(
                input.user_defined_item.pairs(),
                UPDATED_AT@,
                text(input.current_datetime@),
            ),
            added_names(updates_view(input.relation_names@)),
            removed_names(updates_view(input.relation_names@)),
            table@,
            pk@,
            sk@,
        ),
{
    let UpdateRelationInternalInput { user_defined_item, relation_names, current_datetime } =
        input;
    let mut item = user_defined_item;
    item.insert(String::from_str(UPDATED_AT), AttributeValue::S(current_datetime));
    let (added, removed) = partition_updates(relation_names);
    relation_update(item, added, removed, table, pk, sk)
}

/// Compiles a unique-constraint insert: a put that succeeds only where no
/// row holds the constraint id yet. A failure means the value is taken.
pub fn insert_unique_constraint(
    input: InsertUniqueConstraint,
    table: &str,
    auth: &OperationAuthorization,
    pk: String,
) -> (r: Result<TxItem, ToTransactionError>)
    requires
        input.user_defined_item.wf(),
    ensures
        is_identifier(pk@) ==> (r matches Ok(t) && t.wf() && t@ == constraint_insert_tx(
            input,
            table@,
            auth.owner(),
            pk@,
        )),
        !is_identifier(pk@) ==> r matches Err(ToTransactionError::InvalidIdentifier),
{
    if decode_node_id(pk.as_str()).is_err() {
        return Err(ToTransactionError::InvalidIdentifier);
    }
    let ghost c = input;
    let InsertUniqueConstraint {
        ty,
        target,
        user_defined_item,
        current_datetime,
        constraint_fields,
        constraint_values,
    } = input;
    let mut item = user_defined_item;
    stamp_constraint(&mut item, pk.as_str(), target.as_str(), current_datetime.as_str());
    item.insert(String::from_str(TYPE), AttributeValue::S(ty));
    inject_owner(auth, &mut item);
    let names = vec![(String::from_str(PK_PLACEHOLDER), String::from_str(PK))];
    assert(names_view(names@) =~= seq![(PK_PLACEHOLDER@, PK@)]);
    let r = TxItem {
        pk: pk.clone(),
        sk: pk,
        relation_name: None,
        metadata: TxItemMetadata::Unique { fields: constraint_fields, values: constraint_values },
        transaction: TransactWriteItem::Put(
            Put {
                table_name: String::from_str(table),
                item,
                condition_expression: Some(String::from_str(NOT_EXISTS_CONDITION)),
                expression_attribute_names: names,
            },
        ),
    };
    assert(r@ =~= constraint_insert_tx(c, table@, auth.owner(), pk@));
    Ok(r)
}

/// Compiles an update of a constraint row: guarded like a node update.
pub fn update_unique_constraint(
    input: UpdateUniqueConstraint,
    table: &str,
    auth: &OperationAuthorization,
    pk: String,
    sk: String,
) -> (r: Result<TxItem, ToTransactionError>)
    requires
        input.user_defined_item.wf(),
    ensures
        is_identifier(pk@) ==> (r matches Ok(t) && t.wf() && t@ == constraint_update_tx(
            input,
            table@,
            auth.owner(),
            pk@,
            sk@,
        )),
        !is_identifier(pk@) ==> r matches Err(ToTransactionError::InvalidIdentifier),
{
    if decode_node_id(pk.as_str()).is_err() {
        return Err(ToTransactionError::InvalidIdentifier);
    }
    let ghost c = input;
    let UpdateUniqueConstraint { target, user_defined_item, increments, current_datetime } = input;
    let mut item = user_defined_item;
    stamp_constraint(&mut item, pk.as_str(), target.as_str(), current_datetime.as_str());
    let mut names = key_name_bindings();
    let mut values: Vec<(String, AttributeValue)> = Vec::new();
    assert(values_view(values@) =~= Seq::empty());
    let no_added: Vec<String> = Vec::new();
    let no_removed: Vec<String> = Vec::new();
    let no_owners: Vec<String> = Vec::new();
    assert(strings_view(no_added@) =~= Seq::empty());
    assert(strings_view(no_removed@) =~= Seq::empty());
    assert(strings_view(no_owners@) =~= Seq::empty());
    let expression = to_update_expression(
        &item,
        &increments,
        no_added,
        no_removed,
        no_owners,
        &mut names,
        &mut values,
    );
    let ghost n1 = names@;
    let ghost v1 = values@;
    let cond = owner_condition(auth, &mut names, &mut values);
    proof {
        assert(names_view(names@) =~= names_view(n1) + owner_names(auth.owner()));
        assert(values_view(values@) =~= values_view(v1) + owner_values(auth.owner()));
    }
    let key = row_key(&pk, &sk);
    let r = TxItem {
        pk,
        sk,
        relation_name: None,
        metadata: TxItemMetadata::Plain,
        transaction: TransactWriteItem::Update(
            Update {
                table_name: String::from_str(table),
                key,
                condition_expression: Some(cond),
                update_expression: expression,
                expression_attribute_names: names,
                expression_attribute_values: values,
            },
        ),
    };
    assert(r@ =~= constraint_update_tx(c, table@, auth.owner(), pk@, sk@));
    Ok(r)
}

/// Why the backend rejected a transaction.
#[derive(Debug)]
pub enum BackendFailure {
    /// A condition of one of the writes did not hold.
    ConditionalCheckFailed,
    /// Any other failure: network, throttling, validation.
    Other(String),
}

/// Failures of compiling or running a change.
#[derive(Debug)]
pub enum ToTransactionError {
    /// A constraint id could not be decoded, or a node's row keys are not
    /// its id.
    InvalidIdentifier,
    /// Two changes of one row could not be merged.
    ConflictingChange,
    /// The backend rejected the transaction.
    TransactionError(BackendFailure),
    /// The unique values are held by another row.
    UniqueConstraintViolation { fields: Vec<String>, values: Vec<String> },
    /// There was no change to compile.
    Unknown,
}

} // verus!

verus! {

/// What a change compiles to; `None` when its keys are malformed: a
/// constraint id that does not decode, or node keys other than the node id.
pub open spec fn change_tx(
    c: InternalChanges,
    table: Seq<char>,
    owner: Option<Seq<char>>,
    pk: Seq<char>,
    sk: Seq<char>,
) -> Option<TxItemView> {
    match c {
        InternalChanges::InsertNode(x) => if node_keys(x.ty@, x.id@, pk, sk) {
            Some(insert_node_tx(x, table, owner, pk, sk))
        } else {
            None
        },
        InternalChanges::UpdateNode(x) => if node_keys(x.ty@, x.id@, pk, sk) {
            Some(update_node_tx(x, table, owner, pk, sk))
        } else {
            None
        },
        InternalChanges::DeleteNode(_) => Some(guarded_delete_tx(table, owner, pk, sk)),
        InternalChanges::InsertRelation(x) => Some(insert_relation_tx(x, table, owner, pk, sk)),
        InternalChanges::DeleteAllRelations(_) => Some(delete_existing_tx(table, pk, sk)),
        InternalChanges::DeleteMultipleRelations(x) => Some(
            relation_update_tx(
                touched(x.current_datetime@),
                Seq::empty(),
                strings_view(x.relation_names@),
                table,
                pk,
                sk,
            ),
        ),
        InternalChanges::UpdateRelation(x) => Some(
            relation_update_tx(
                pairs_insert(x.user_defined_item.pairs(), UPDATED_AT@, text(x.current_datetime@)),
                added_names(updates_view(x.relation_names@)),
                removed_names(updates_view(x.relation_names@)),
                table,
                pk,
                sk,
            ),
        ),
        InternalChanges::InsertUniqueConstraint(x) => if is_identifier(pk) {
            Some(constraint_insert_tx(x, table, owner, pk))
        } else {
            None
        },
        InternalChanges::UpdateUniqueConstraint(x) => if is_identifier(pk) {
            Some(constraint_update_tx(x, table, owner, pk, sk))
        } else {
            None
        },
        InternalChanges::DeleteUnitConstraint(_) => Some(guarded_delete_tx(table, owner, pk, sk)),
    }
}

/// The compiled write meets `change_tx`.
pub open spec fn compiled_as(
    r: Result<TxItem, ToTransactionError>,
    c: InternalChanges,
    table: Seq<char>,
    owner: Option<Seq<char>>,
    pk: Seq<char>,
    sk: Seq<char>,
) -> bool {
    match change_tx(c, table, owner, pk, sk) {
        Some(v) => r matches Ok(t) && t@ == v && t.wf(),
        None => r matches Err(ToTransactionError::InvalidIdentifier),
    }
}

/// What a change compiles to depends on its view alone.
pub proof fn lemma_tx_depends_on_view(
    a: InternalChanges,
    b: InternalChanges,
    table: Seq<char>,
    owner: Option<Seq<char>>,
    pk: Seq<char>,
    sk: Seq<char>,
)
    requires
        a@ == b@,
    ensures
        change_tx(a, table, owner, pk, sk) == change_tx(b, table, owner, pk, sk),
{
}

/// Compiles one change of row `(pk, sk)`.
pub fn compile_change(
    change: InternalChanges,
    table: &str,
    auth: &OperationAuthorization,
    pk: String,
    sk: String,
) -> (r: Result<TxItem, ToTransactionError>)
    requires
        change.wf(),
    ensures
        compiled_as(r, change, table@, auth.owner(), pk@, sk@),
{
    match change {
        InternalChanges::InsertNode(x) => insert_node(x, table, auth, pk, sk),
        InternalChanges::UpdateNode(x) => update_node(x, table, auth, pk, sk),
        InternalChanges::DeleteNode(x) => Ok(delete_node(x, table, auth, pk, sk)),
        InternalChanges::InsertRelation(x) => Ok(insert_relation(x, table, auth, pk, sk)),
        InternalChanges::DeleteAllRelations(_) => Ok(delete_existing(table, pk, sk)),
        InternalChanges::DeleteMultipleRelations(x) => Ok(
            delete_multiple_relations(x, table, pk, sk),
        ),
        InternalChanges::UpdateRelation(x) => Ok(update_relation(x, table, pk, sk)),
        InternalChanges::InsertUniqueConstraint(x) => insert_unique_constraint(x, table, auth, pk),
        InternalChanges::UpdateUniqueConstraint(x) => update_unique_constraint(
            x,
            table,
            auth,
            pk,
            sk,
        ),
        InternalChanges::DeleteUnitConstraint(_) => Ok(guarded_delete(table, auth, pk, sk)),
    }
}

/// Merges the changes of row `(pk, sk)` and compiles the result.
pub fn to_transaction(
    changes: Vec<InternalChanges>,
    table: &str,
    auth: &OperationAuthorization,
    pk: String,
    sk: String,
) -> (r: Result<TxItem, ToTransactionError>)
    requires
        forall|i: int| 0 <= i < changes@.len() ==> (#[trigger] changes@[i]).wf(),
    ensures
        changes@.len() == 0 ==> r matches Err(ToTransactionError::Unknown),
        changes@.len() > 0 ==> match fold_view(changes@[0]@, changes_view(changes@.drop_first())) {
            Some(v) => (exists|c: InternalChanges| c@ == v && c.wf()) && forall|c: InternalChanges|
                c@ == v ==> #[trigger] compiled_as(r, c, table@, auth.owner(), pk@, sk@),
            None => r matches Err(ToTransactionError::ConflictingChange),
        },
{
    match merge_all(changes) {
        Ok(c) => {
            let ghost gc = c;
            let r = compile_change(c, table, auth, pk, sk);
            proof {
                assert forall|c2: InternalChanges| c2@ == gc@ implies #[trigger] compiled_as(
                    r,
                    c2,
                    table@,
                    auth.owner(),
                    pk@,
                    sk@,
                ) by {
                    lemma_tx_depends_on_view(gc, c2, table@, auth.owner(), pk@, sk@);
                }
            }
            r
        },
        Err(FoldError::Unknown) => Err(ToTransactionError::Unknown),
        Err(FoldError::ConflictingChange) => Err(ToTransactionError::ConflictingChange),
    }
}

/// What the caller learns from the backend's answer to a compiled write: a
/// failed condition of a unique-constraint write means the value is taken.
pub fn transaction_outcome(metadata: TxItemMetadata, result: Result<(), BackendFailure>) -> (r:
    Result<(), ToTransactionError>)
    ensures
        result is Ok ==> r is Ok,
        result matches Err(BackendFailure::ConditionalCheckFailed) ==> match metadata {
            TxItemMetadata::Unique { fields, values } => r matches Err(
                ToTransactionError::UniqueConstraintViolation { fields: f, values: v },
            ) && strings_view(f@) == strings_view(fields@) && strings_view(v@) == strings_view(
                values@,
            ),
            TxItemMetadata::Plain => r matches Err(
                ToTransactionError::TransactionError(BackendFailure::ConditionalCheckFailed),
            ),
        },
        result matches Err(BackendFailure::Other(m)) ==> r matches Err(
            ToTransactionError::TransactionError(BackendFailure::Other(m2)),
        ) && m2@ == m@,
{
    match result {
        Ok(()) => Ok(()),
        Err(BackendFailure::ConditionalCheckFailed) => match metadata {
            TxItemMetadata::Unique { fields, values } => Err(
                ToTransactionError::UniqueConstraintViolation { fields, values },
            ),
            TxItemMetadata::Plain => Err(
                ToTransactionError::TransactionError(BackendFailure::ConditionalCheckFailed),
            ),
        },
        Err(BackendFailure::Other(m)) => Err(
            ToTransactionError::TransactionError(BackendFailure::Other(m)),
        ),
    }
}

} // verus!
