//! Compiler for the embedded relational dialect: each change becomes one
//! parameterized statement over the row's document and indexed columns.
use vstd::prelude::*;
use crate::attrs::{
    AttrMap, AttrPairs, AttrView, AttributeValue, has_key, lookup, pairs_insert,
    pairs_union, strings_view,
};
use crate::auth::{inject_owner, with_owner, OperationAuthorization};
use crate::change::{
    ChangeView, DeleteMultipleRelationsInternalInput, FoldError, InsertNodeInternalInput, merge_view,
    InsertRelationInternalInput, InsertUniqueConstraint, InternalChanges, UpdateNodeInternalInput,
    UpdateRelationInternalInput, UpdateUniqueConstraint, changes_view, fold_view, merge_all,
    updates_view,
};
use crate::dynamo::{
    added_names, node_keys, partition_updates, removed_names, touched, BackendFailure,
    ToTransactionError,
};
use crate::ids::{decode_node_id, encode_node_id, is_identifier, node_id_text};
use crate::names::{CREATED_AT, PK, RELATION_NAMES, SK, TYPE, UPDATED_AT};
use crate::row::{
    constraint_row, node_row, relation_row, stamp_constraint, stamp_node, stamp_relation, text,
};
use crate::sql::{
    delete_query, insert_relation_query, relations_update_query, update_query,
    write_delete_query, write_insert_relation_query, write_relations_update_query,
    write_update_query, SqlValue, INSERT_QUERY,
};

verus! {

/// A constraint that a statement enforces through a uniqueness index.
pub enum Constraint {
    Unique { values: Vec<String>, fields: Vec<String> },
}

/// What a failure of a statement means to the caller.
pub enum OperationKind {
    /// A uniqueness violation is this constraint's violation.
    Constraint(Constraint),
}

/// A compiled statement with its bound values.
pub struct Statement {
    pub query: String,
    pub values: Vec<(String, SqlValue)>,
    pub marker: Option<OperationKind>,
}

pub enum SqlValueView {
    Text(Seq<char>),
    Null,
    List(Seq<Seq<char>>),
    Document(AttrPairs),
}

impl View for SqlValue {
    type V = SqlValueView;

    open spec fn view(&self) -> SqlValueView {
        match self {
            SqlValue::Text(s) => SqlValueView::Text(s@),
            SqlValue::Null => SqlValueView::Null,
            SqlValue::List(v) => SqlValueView::List(strings_view(v@)),
            SqlValue::Document(d) => SqlValueView::Document(d.pairs()),
        }
    }
}

pub type Bindings = Seq<(Seq<char>, SqlValueView)>;

impl SqlValue {
    /// Whether this is the text `t`.
    pub fn is_text(&self, t: &str) -> (r: bool)
        ensures
            r == (self@ == SqlValueView::Text(t@)),
    {
        match self {
            SqlValue::Text(s) => *s == String::from_str(t),
            _ => false,
        }
    }
}

pub struct StatementView {
    pub query: Seq<char>,
    pub values: Bindings,
    /// The unique constraint's fields and values.
    pub marker: Option<(Seq<Seq<char>>, Seq<Seq<char>>)>,
}

pub open spec fn bindings_view(v: Seq<(String, SqlValue)>) -> Bindings {
    v.map_values(|e: (String, SqlValue)| (e.0@, e.1@))
}

impl View for Statement {
    type V = StatementView;

    open spec fn view(&self) -> StatementView {
        StatementView {
            query: self.query@,
            values: bindings_view(self.values@),
            marker: match self.marker {
                Some(OperationKind::Constraint(Constraint::Unique { values, fields })) => Some(
                    (strings_view(fields@), strings_view(values@)),
                ),
                None => None,
            },
        }
    }
}

/// A row as columns and document.
pub struct Record {
    pub pk: String,
    pub sk: String,
    pub entity_type: Option<String>,
    pub created_at: String,
    pub updated_at: String,
    pub gsi1pk: Option<String>,
    pub gsi1sk: Option<String>,
    pub gsi2pk: Option<String>,
    pub gsi2sk: Option<String>,
    pub relation_names: Vec<String>,
    pub document: AttrMap,
}

pub open spec fn opt_value(o: Option<Seq<char>>) -> SqlValueView {
    match o {
        Some(s) => SqlValueView::Text(s),
        None => SqlValueView::Null,
    }
}

/// The bindings of a row's columns, in column order.
pub open spec fn record_bindings(
    pk: Seq<char>,
    sk: Seq<char>,
    entity_type: Option<Seq<char>>,
    created_at: Seq<char>,
    updated_at: Seq<char>,
    gsi1pk: Option<Seq<char>>,
    gsi1sk: Option<Seq<char>>,
    gsi2pk: Option<Seq<char>>,
    gsi2sk: Option<Seq<char>>,
    relation_names: Seq<Seq<char>>,
    document: AttrPairs,
) -> Bindings {
    seq![
        ("pk"@, SqlValueView::Text(pk)),
        ("sk"@, SqlValueView::Text(sk)),
        ("entity_type"@, opt_value(entity_type)),
        ("created_at"@, SqlValueView::Text(created_at)),
        ("updated_at"@, SqlValueView::Text(updated_at)),
        ("gsi1pk"@, opt_value(gsi1pk)),
        ("gsi1sk"@, opt_value(gsi1sk)),
        ("gsi2pk"@, opt_value(gsi2pk)),
        ("gsi2sk"@, opt_value(gsi2sk)),
        ("relation_names"@, SqlValueView::List(relation_names)),
        ("document"@, SqlValueView::Document(document)),
    ]
}

pub open spec fn opt_text(o: Option<String>) -> Option<Seq<char>> {
    match o {
        Some(s) => Some(s@),
        None => None,
    }
}

impl Record {
    pub open spec fn bindings(&self) -> Bindings {
        record_bindings(
            self.pk@,
            self.sk@,
            opt_text(self.entity_type),
            self.created_at@,
            self.updated_at@,
            opt_text(self.gsi1pk),
            opt_text(self.gsi1sk),
            opt_text(self.gsi2pk),
            opt_text(self.gsi2sk),
            strings_view(self.relation_names@),
            self.document.pairs(),
        )
    }

    /// The row's columns as bound values.
    pub fn into_values(self) -> (r: Vec<(String, SqlValue)>)
        ensures
            bindings_view(r@) == self.bindings(),
    {
        let ghost b = self.bindings();
        let r = vec![
            (String::from_str("pk"), SqlValue::Text(self.pk)),
            (String::from_str("sk"), SqlValue::Text(self.sk)),
            (String::from_str("entity_type"), opt_sql(self.entity_type)),
            (String::from_str("created_at"), SqlValue::Text(self.created_at)),
            (String::from_str("updated_at"), SqlValue::Text(self.updated_at)),
            (String::from_str("gsi1pk"), opt_sql(self.gsi1pk)),
            (String::from_str("gsi1sk"), opt_sql(self.gsi1sk)),
            (String::from_str("gsi2pk"), opt_sql(self.gsi2pk)),
            (String::from_str("gsi2sk"), opt_sql(self.gsi2sk)),
            (String::from_str("relation_names"), SqlValue::List(self.relation_names)),
            (String::from_str("document"), SqlValue::Document(self.document)),
        ];
        assert(bindings_view(r@) =~= b);
        r
    }
}

fn opt_sql(o: Option<String>) -> (r: SqlValue)
    ensures
        r@ == opt_value(opt_text(o)),
{
    match o {
        Some(s) => SqlValue::Text(s),
        None => SqlValue::Null,
    }
}

/// The owner binding of a filtered statement.
pub open spec fn owner_binding(owner: Option<Seq<char>>) -> Bindings {
    match owner {
        Some(u) => seq![("owned_by"@, SqlValueView::Text(u))],
        None => Seq::empty(),
    }
}

fn push_owner(auth: &OperationAuthorization, values: &mut Vec<(String, SqlValue)>)
    ensures
        bindings_view(final(values)@) == bindings_view(old(values)@) + owner_binding(auth.owner()),
{
    let ghost v0 = bindings_view(values@);
    match auth {
        OperationAuthorization::Unrestricted => {},
        OperationAuthorization::OwnerBased(user) => {
            values.push((String::from_str("owned_by"), SqlValue::Text(user.clone())));
        },
    }
    assert(bindings_view(values@) =~= v0 + owner_binding(auth.owner()));
}

/// Every increment is a number.
pub open spec fn numeric(m: Map<Seq<char>, AttrView>) -> bool {
    forall|k: Seq<char>| #[trigger] m.contains_key(k) ==> m[k] is N
}

pub open spec fn increment_fields(p: AttrPairs) -> Seq<Seq<char>> {
    p.map_values(|e: (Seq<char>, AttrView)| e.0)
}

pub open spec fn increment_numbers(p: AttrPairs) -> Seq<Seq<char>> {
    p.map_values(
        |e: (Seq<char>, AttrView)|
            match e.1 {
                AttrView::N(n) => n,
                _ => Seq::empty(),
            },
    )
}

/// An update statement: new document, update time, and increments.
pub open spec fn update_statement(
    document: AttrPairs,
    increments: AttrPairs,
    owner: Option<Seq<char>>,
    pk: Seq<char>,
    sk: Seq<char>,
    now: Seq<char>,
) -> StatementView {
    StatementView {
        query: update_query(increment_fields(increments), owner is Some),
        values: seq![
            ("pk"@, SqlValueView::Text(pk)),
            ("sk"@, SqlValueView::Text(sk)),
            ("document"@, SqlValueView::Document(document)),
            ("updated_at"@, SqlValueView::Text(now)),
            ("increments"@, SqlValueView::List(increment_numbers(increments))),
        ] + owner_binding(owner),
        marker: None,
    }
}

/// A delete statement.
pub open spec fn delete_statement(owner: Option<Seq<char>>, pk: Seq<char>, sk: Seq<char>) -> StatementView {
    StatementView {
        query: delete_query(owner is Some),
        values: seq![("pk"@, SqlValueView::Text(pk)), ("sk"@, SqlValueView::Text(sk))]
            + owner_binding(owner),
        marker: None,
    }
}

/// An update of a relation row's names and document.
pub open spec fn relations_statement(
    document: AttrPairs,
    added: Seq<Seq<char>>,
    removed: Seq<Seq<char>>,
    pk: Seq<char>,
    sk: Seq<char>,
    now: Seq<char>,
) -> StatementView {
    StatementView {
        query: relations_update_query(removed.len(), added.len()),
        values: seq![
            ("pk"@, SqlValueView::Text(pk)),
            ("sk"@, SqlValueView::Text(sk)),
            ("to_remove"@, SqlValueView::List(removed)),
            ("to_add"@, SqlValueView::List(added)),
            ("document"@, SqlValueView::Document(document)),
            ("updated_at"@, SqlValueView::Text(now)),
        ],
        marker: None,
    }
}

pub open spec fn insert_node_statement(
    c: InsertNodeInternalInput,
    owner: Option<Seq<char>>,
    pk: Seq<char>,
    sk: Seq<char>,
) -> StatementView {
    let ty = c.ty@;
    let nid = node_id_text(ty, c.id@);
    let now = c.current_datetime@;
    let doc = with_owner(node_row(c.user_defined_item.pairs(), ty, nid, now), owner);
    StatementView {
        query: INSERT_QUERY@,
        values: record_bindings(
            pk,
            sk,
            Some(ty),
            now,
            now,
            Some(ty),
            Some(nid),
            Some(nid),
            Some(nid),
            Seq::empty(),
            doc,
        ),
        marker: None,
    }
}

/// The document of a relation row.
pub open spec fn relation_document(
    c: InsertRelationInternalInput,
    owner: Option<Seq<char>>,
    pk: Seq<char>,
    sk: Seq<char>,
) -> AttrPairs {
    let p = pairs_insert(pairs_insert(c.fields.pairs(), PK@, text(pk)), SK@, text(sk));
    let p = relation_row(p, pk, sk, c.from_ty@, c.to_ty@, c.current_datetime@);
    let p = pairs_insert(p, RELATION_NAMES@, AttrView::Ss(strings_view(c.relation_names@)));
    with_owner(p, owner)
}

/// The creation time column of a relation row: its document's, which the
/// copy carried or which was set to now.
pub open spec fn created_column(doc: AttrPairs, now: Seq<char>) -> Seq<char> {
    match lookup(doc, CREATED_AT@) {
        Some(AttrView::S(t)) => t,
        _ => now,
    }
}

pub open spec fn insert_relation_statement(
    c: InsertRelationInternalInput,
    owner: Option<Seq<char>>,
    pk: Seq<char>,
    sk: Seq<char>,
) -> StatementView {
    let doc = relation_document(c, owner, pk, sk);
    let names = strings_view(c.relation_names@);
    let now = c.current_datetime@;
    StatementView {
        query: insert_relation_query(names.len()),
        values: record_bindings(
            pk,
            sk,
            Some(c.to_ty@),
            created_column(doc, now),
            now,
            Some(c.from_ty@),
            Some(pk),
            Some(sk),
            Some(pk),
            names,
            doc,
        ) + seq![("to_add"@, SqlValueView::List(names))],
        marker: None,
    }
}

pub open spec fn insert_constraint_statement(
    c: InsertUniqueConstraint,
    owner: Option<Seq<char>>,
    pk: Seq<char>,
    sk: Seq<char>,
) -> StatementView {
    let now = c.current_datetime@;
    let p = constraint_row(c.user_defined_item.pairs(), pk, c.target@, now);
    let doc = with_owner(pairs_insert(p, TYPE@, text(c.ty@)), owner);
    StatementView {
        query: INSERT_QUERY@,
        values: record_bindings(
            pk,
            sk,
            None,
            now,
            now,
            None,
            None,
            Some(c.target@),
            Some(pk),
            Seq::empty(),
            doc,
        ),
        marker: Some((strings_view(c.constraint_fields@), strings_view(c.constraint_values@))),
    }
}

} // verus!

verus! {

/// The increment fields and their numbers, in order.
fn split_increments(increments: &AttrMap) -> (r: (Vec<String>, Vec<String>))
    requires
        increments.wf(),
        numeric(increments@),
    ensures
        strings_view(r.0@) == increment_fields(increments.pairs()),
        strings_view(r.1@) == increment_numbers(increments.pairs()),
{
    let ghost p = increments.pairs();
    let mut fields: Vec<String> = Vec::new();
    let mut numbers: Vec<String> = Vec::new();
    let mut i: usize = 0;
    while i < increments.len()
        invariant
            p == increments.pairs(),
            increments.wf(),
            numeric(increments@),
            i <= p.len(),
            strings_view(fields@) == increment_fields(p.subrange(0, i as int)),
            strings_view(numbers@) == increment_numbers(p.subrange(0, i as int)),
        decreases p.len() - i,
    {
        let ghost f0 = fields@;
        let ghost n0 = numbers@;
        proof {
            crate::attrs::lemma_index_of(p, i as int);
            assert(increments@.contains_key(p[i as int].0));
        }
        fields.push(increments.key_at(i).clone());
        match increments.value_at(i) {
            AttributeValue::N(n) => numbers.push(n.clone()),
            _ => {
                assert(p[i as int].1 is N);
            },
        }
        proof {
            let s = p.subrange(0, i as int + 1);
            assert(increment_fields(s) =~= increment_fields(p.subrange(0, i as int)).push(p[i as int].0));
            assert(strings_view(fields@) =~= strings_view(f0).push(p[i as int].0));
            assert(increment_numbers(s) =~= increment_numbers(p.subrange(0, i as int)).push(
                increment_numbers(p)[i as int],
            ));
            assert(strings_view(numbers@) =~= strings_view(n0).push(increment_numbers(p)[i as int]));
        }
        i = i + 1;
    }
    assert(p.subrange(0, i as int) =~= p);
    (fields, numbers)
}

/// An update statement for the given document and increments.
fn update_statement_of(
    document: AttrMap,
    increments: &AttrMap,
    auth: &OperationAuthorization,
    pk: String,
    sk: String,
    now: String,
) -> (r: Statement)
    requires
        increments.wf(),
        numeric(increments@),
    ensures
        r@ == update_statement(document.pairs(), increments.pairs(), auth.owner(), pk@, sk@, now@),
{
    let ghost d = document.pairs();
    let (fields, numbers) = split_increments(increments);
    assert(fields@.map_values(|f: String| f@) =~= strings_view(fields@));
    let query = write_update_query(&fields, auth.is_owner_based());
    let mut values = vec![
        (String::from_str("pk"), SqlValue::Text(pk)),
        (String::from_str("sk"), SqlValue::Text(sk)),
        (String::from_str("document"), SqlValue::Document(document)),
        (String::from_str("updated_at"), SqlValue::Text(now)),
        (String::from_str("increments"), SqlValue::List(numbers)),
    ];
    let ghost spec = update_statement(d, increments.pairs(), auth.owner(), pk@, sk@, now@);
    assert(bindings_view(values@) =~= seq![
        ("pk"@, SqlValueView::Text(pk@)),
        ("sk"@, SqlValueView::Text(sk@)),
        ("document"@, SqlValueView::Document(d)),
        ("updated_at"@, SqlValueView::Text(now@)),
        ("increments"@, SqlValueView::List(increment_numbers(increments.pairs()))),
    ]);
    push_owner(auth, &mut values);
    assert(bindings_view(values@) =~= spec.values);
    assert(query@ == spec.query);
    let r = Statement { query, values, marker: None };
    r
}

} // verus!

verus! {

/// Compiles a node insert: one insert statement of the whole row.
pub fn insert_node(input: InsertNodeInternalInput, auth: &OperationAuthorization, pk: String, sk: String) -> (r: Result<Statement, ToTransactionError>)
    requires
        input.user_defined_item.wf(),
    ensures
        node_keys(input.ty@, input.id@, pk@, sk@) ==> (r matches Ok(s) && s@ == insert_node_statement(
            input,
            auth.owner(),
            pk@,
            sk@,
        )),
        !node_keys(input.ty@, input.id@, pk@, sk@) ==> r matches Err(
            ToTransactionError::InvalidIdentifier,
        ),
{
    let ghost c = input;
    let InsertNodeInternalInput { id, ty, user_defined_item, current_datetime } = input;
    let nid = encode_node_id(ty.as_str(), id.as_str());
    if !(pk == nid && sk == nid) {
        return Err(ToTransactionError::InvalidIdentifier);
    }
    let mut document = user_defined_item;
    stamp_node(&mut document, ty.as_str(), nid.as_str(), current_datetime.as_str());
    inject_owner(auth, &mut document);
    let record = Record {
        pk,
        sk,
        entity_type: Some(ty.clone()),
        created_at: current_datetime.clone(),
        updated_at: current_datetime,
        gsi1pk: Some(ty),
        gsi1sk: Some(nid.clone()),
        gsi2pk: Some(nid.clone()),
        gsi2sk: Some(nid),
        relation_names: Vec::new(),
        document,
    };
    assert(strings_view(record.relation_names@) =~= Seq::empty());
    let values = record.into_values();
    Ok(Statement { query: String::from_str(INSERT_QUERY), values, marker: None })
}

/// Compiles a node update: document, update time and increments, filtered by
/// owner when owner-restricted.
pub fn update_node(input: UpdateNodeInternalInput, auth: &OperationAuthorization, pk: String, sk: String) -> (r: Result<Statement, ToTransactionError>)
    requires
        input.user_defined_item.wf(),
        input.increments.wf(),
        numeric(input.increments@),
    ensures
        !node_keys(input.ty@, input.id@, pk@, sk@) ==> r matches Err(
            ToTransactionError::InvalidIdentifier,
        ),
        node_keys(input.ty@, input.id@, pk@, sk@) ==> (r matches Ok(s) && s@ == update_statement(
            node_row(
                input.user_defined_item.pairs(),
                input.ty@,
                node_id_text(input.ty@, input.id@),
                input.current_datetime@,
            ),
            input.increments.pairs(),
            auth.owner(),
            pk@,
            sk@,
            input.current_datetime@,
        )),
{
    let UpdateNodeInternalInput { id, ty, user_defined_item, increments, current_datetime } = input;
    let nid = encode_node_id(ty.as_str(), id.as_str());
    if !(pk == nid && sk == nid) {
        return Err(ToTransactionError::InvalidIdentifier);
    }
    let mut document = user_defined_item;
    stamp_node(&mut document, ty.as_str(), nid.as_str(), current_datetime.as_str());
    Ok(update_statement_of(document, &increments, auth, pk, sk, current_datetime))
}

/// Compiles a constraint-row update.
pub fn update_unique_constraint(
    input: UpdateUniqueConstraint,
    auth: &OperationAuthorization,
    pk: String,
    sk: String,
) -> (r: Result<Statement, ToTransactionError>)
    requires
        input.user_defined_item.wf(),
        input.increments.wf(),
        numeric(input.increments@),
    ensures
        is_identifier(pk@) ==> (r matches Ok(s) && s@ == update_statement(
            constraint_row(
                input.user_defined_item.pairs(),
                pk@,
                input.target@,
                input.current_datetime@,
            ),
            input.increments.pairs(),
            auth.owner(),
            pk@,
            sk@,
            input.current_datetime@,
        )),
        !is_identifier(pk@) ==> r matches Err(ToTransactionError::InvalidIdentifier),
{
    if decode_node_id(pk.as_str()).is_err() {
        return Err(ToTransactionError::InvalidIdentifier);
    }
    let UpdateUniqueConstraint { target, user_defined_item, increments, current_datetime } = input;
    let mut document = user_defined_item;
    stamp_constraint(&mut document, pk.as_str(), target.as_str(), current_datetime.as_str());
    Ok(update_statement_of(document, &increments, auth, pk, sk, current_datetime))
}

/// Compiles the delete of a node, relation or constraint row.
pub fn delete_by_ids(auth: &OperationAuthorization, pk: String, sk: String) -> (r: Statement)
    ensures
        r@ == delete_statement(auth.owner(), pk@, sk@),
{
    let query = write_delete_query(auth.is_owner_based());
    let mut values = vec![
        (String::from_str("pk"), SqlValue::Text(pk)),
        (String::from_str("sk"), SqlValue::Text(sk)),
    ];
    let ghost spec = delete_statement(auth.owner(), pk@, sk@);
    assert(bindings_view(values@) =~= seq![
        ("pk"@, SqlValueView::Text(pk@)),
        ("sk"@, SqlValueView::Text(sk@)),
    ]);
    push_owner(auth, &mut values);
    assert(bindings_view(values@) =~= spec.values);
    Statement { query, values, marker: None }
}

/// The creation time column of a relation row.
fn created_value(document: &AttrMap, now: &String) -> (r: String)
    requires
        document.wf(),
    ensures
        r@ == created_column(document.pairs(), now@),
{
    match document.get(CREATED_AT) {
        Some(AttributeValue::S(t)) => t.clone(),
        _ => now.clone(),
    }
}

/// Compiles a relation insert: the relation row is written, or its names are
/// extended when it exists.
pub fn insert_relation(
    input: InsertRelationInternalInput,
    auth: &OperationAuthorization,
    pk: String,
    sk: String,
) -> (r: Statement)
    requires
        input.fields.wf(),
        times_are_text(input.fields.pairs()),
    ensures
        r@ == insert_relation_statement(input, auth.owner(), pk@, sk@),
{
    let ghost c = input;
    let InsertRelationInternalInput { fields, relation_names, from_ty, to_ty, current_datetime } =
        input;
    let mut document = fields;
    document.insert(String::from_str(PK), AttributeValue::S(pk.clone()));
    document.insert(String::from_str(SK), AttributeValue::S(sk.clone()));
    stamp_relation(
        &mut document,
        pk.as_str(),
        sk.as_str(),
        from_ty.as_str(),
        to_ty.as_str(),
        current_datetime.as_str(),
    );
    document.insert(
        String::from_str(RELATION_NAMES),
        AttributeValue::Ss(crate::attrs::copy_strings(&relation_names)),
    );
    inject_owner(auth, &mut document);
    let created_at = created_value(&document, &current_datetime);
    let count = relation_names.len();
    let to_add = crate::attrs::copy_strings(&relation_names);
    let record = Record {
        pk: pk.clone(),
        sk: sk.clone(),
        entity_type: Some(to_ty),
        created_at,
        updated_at: current_datetime,
        gsi1pk: Some(from_ty),
        gsi1sk: Some(pk.clone()),
        gsi2pk: Some(sk),
        gsi2sk: Some(pk),
        relation_names,
        document,
    };
    let mut values = record.into_values();
    let ghost v0 = bindings_view(values@);
    values.push((String::from_str("to_add"), SqlValue::List(to_add)));
    let query = write_insert_relation_query(count);
    let ghost spec = insert_relation_statement(c, auth.owner(), pk@, sk@);
    assert(bindings_view(values@) =~= v0.push(("to_add"@, SqlValueView::List(strings_view(c.relation_names@)))));
    assert(bindings_view(values@) =~= spec.values);
    Statement { query, values, marker: None }
}

/// A statement changing a relation row's names and document.
fn relations_statement_of(
    document: AttrMap,
    added: Vec<String>,
    removed: Vec<String>,
    pk: String,
    sk: String,
    now: String,
) -> (r: Statement)
    ensures
        r@ == relations_statement(
            document.pairs(),
            strings_view(added@),
            strings_view(removed@),
            pk@,
            sk@,
            now@,
        ),
{
    let ghost spec = relations_statement(
        document.pairs(),
        strings_view(added@),
        strings_view(removed@),
        pk@,
        sk@,
        now@,
    );
    let query = write_relations_update_query(removed.len(), added.len());
    let values = vec![
        (String::from_str("pk"), SqlValue::Text(pk)),
        (String::from_str("sk"), SqlValue::Text(sk)),
        (String::from_str("to_remove"), SqlValue::List(removed)),
        (String::from_str("to_add"), SqlValue::List(added)),
        (String::from_str("document"), SqlValue::Document(document)),
        (String::from_str("updated_at"), SqlValue::Text(now)),
    ];
    assert(bindings_view(values@) =~= spec.values);
    Statement { query, values, marker: None }
}

/// Compiles the removal of names from a relation row.
pub fn delete_multiple_relations(input: DeleteMultipleRelationsInternalInput, pk: String, sk: String) -> (r: Statement)
    ensures
        r@ == relations_statement(
            touched(input.current_datetime@),
            Seq::empty(),
            strings_view(input.relation_names@),
            pk@,
            sk@,
            input.current_datetime@,
        ),
{
    let DeleteMultipleRelationsInternalInput { relation_names, current_datetime } = input;
    let mut document = AttrMap::new();
    document.insert(String::from_str(UPDATED_AT), AttributeValue::S(current_datetime.clone()));
    let added: Vec<String> = Vec::new();
    assert(strings_view(added@) =~= Seq::empty());
    relations_statement_of(document, added, relation_names, pk, sk, current_datetime)
}

/// Compiles an update of a relation row: attributes, update time, names.
pub fn update_relation(input: UpdateRelationInternalInput, pk: String, sk: String) -> (r: Statement)
    requires
        input.user_defined_item.wf(),
    ensures
        r@ == relations_statement(
            pairs_insert(
                input.user_defined_item.pairs(),
                UPDATED_AT@,
                text(input.current_datetime@),
            ),
            added_names(updates_view(input.relation_names@)),
            removed_names(updates_view(input.relation_names@)),
            pk@,
            sk@,
            input.current_datetime@,
        ),
{
    let UpdateRelationInternalInput { user_defined_item, relation_names, current_datetime } =
        input;
    let (added, removed) = partition_updates(relation_names);
    let mut document = user_defined_item;
    document.insert(String::from_str(UPDATED_AT), AttributeValue::S(current_datetime.clone()));
    relations_statement_of(document, added, removed, pk, sk, current_datetime)
}

/// Compiles a unique-constraint insert. This dialect cannot make the insert
/// conditional: the statement carries the constraint, so that a uniqueness
/// violation reported when it runs is read as this constraint's violation.
pub fn insert_unique_constraint(
    input: InsertUniqueConstraint,
    auth: &OperationAuthorization,
    pk: String,
    sk: String,
) -> (r: Result<Statement, ToTransactionError>)
    requires
        input.user_defined_item.wf(),
    ensures
        is_identifier(pk@) ==> (r matches Ok(s) && s@ == insert_constraint_statement(
            input,
            auth.owner(),
            pk@,
            sk@,
        )),
        !is_identifier(pk@) ==> r matches Err(ToTransactionError::InvalidIdentifier),
{
    if decode_node_id(pk.as_str()).is_err() {
        return Err(ToTransactionError::InvalidIdentifier);
    }
    let ghost c = input;
    let InsertUniqueConstraint {
        ty,
        target,
        user_defined_item,
        current_datetime,
        constraint_fields,
        constraint_values,
    } = input;
    let mut document = user_defined_item;
    stamp_constraint(&mut document, pk.as_str(), target.as_str(), current_datetime.as_str());
    document.insert(String::from_str(TYPE), AttributeValue::S(ty));
    inject_owner(auth, &mut document);
    let record = Record {
        pk: pk.clone(),
        sk,
        entity_type: None,
        created_at: current_datetime.clone(),
        updated_at: current_datetime,
        gsi1pk: None,
        gsi1sk: None,
        gsi2pk: Some(target),
        gsi2sk: Some(pk),
        relation_names: Vec::new(),
        document,
    };
    assert(strings_view(record.relation_names@) =~= Seq::empty());
    let values = record.into_values();
    Ok(
        Statement {
            query: String::from_str(INSERT_QUERY),
            values,
            marker: Some(
                OperationKind::Constraint(
                    Constraint::Unique { values: constraint_values, fields: constraint_fields },
                ),
            ),
        },
    )
}

} // verus!

verus! {

/// Every entry under `k` holds a string.
pub open spec fn text_at(p: AttrPairs, k: Seq<char>) -> bool {
    forall|i: int| 0 <= i < p.len() && p[i].0 == k ==> (#[trigger] p[i]).1 is S
}

/// The creation and update times that a node copy carries, if any, are
/// strings.
pub open spec fn times_are_text(p: AttrPairs) -> bool {
    text_at(p, CREATED_AT@) && text_at(p, UPDATED_AT@)
}

/// Every entry holds a number.
pub open spec fn numeric_pairs(p: AttrPairs) -> bool {
    forall|i: int| 0 <= i < p.len() ==> (#[trigger] p[i]).1 is N
}

/// The embedded dialect can compile the change: its increments are numbers
/// and the times of a node copy are strings.
pub open spec fn embedded_ready(c: ChangeView) -> bool {
    match c {
        ChangeView::UpdateNode { increments, .. } => numeric_pairs(increments),
        ChangeView::UpdateUniqueConstraint { increments, .. } => numeric_pairs(increments),
        ChangeView::InsertRelation { fields, .. } => times_are_text(fields),
        _ => true,
    }
}

/// A union of entries that hold strings under `k` holds strings under `k`.
pub proof fn lemma_union_text(a: AttrPairs, b: AttrPairs, k: Seq<char>)
    requires
        text_at(a, k),
        text_at(b, k),
    ensures
        text_at(pairs_union(a, b), k),
    decreases b.len(),
{
    if b.len() > 0 {
        lemma_union_text(a, b.drop_last(), k);
        let u = pairs_union(a, b.drop_last());
        if !has_key(u, b.last().0) {
            assert forall|i: int| 0 <= i < u.push(b.last()).len() && u.push(b.last())[i].0 == k implies (
            #[trigger] u.push(b.last())[i]).1 is S by {
                if i < u.len() {
                    assert(u.push(b.last())[i] == u[i]);
                } else {
                    assert(b[b.len() - 1] == b.last());
                }
            }
        }
    }
}

/// A union of numeric entries is numeric.
pub proof fn lemma_union_numeric(a: AttrPairs, b: AttrPairs)
    requires
        numeric_pairs(a),
        numeric_pairs(b),
    ensures
        numeric_pairs(pairs_union(a, b)),
    decreases b.len(),
{
    if b.len() > 0 {
        lemma_union_numeric(a, b.drop_last());
        let u = pairs_union(a, b.drop_last());
        assert(b.last().1 is N);
        if !has_key(u, b.last().0) {
            assert forall|i: int| 0 <= i < u.push(b.last()).len() implies (#[trigger] u.push(
                b.last(),
            )[i]).1 is N by {
                if i < u.len() {
                    assert(u.push(b.last())[i] == u[i]);
                }
            }
        }
    }
}

/// Merging keeps increments numeric.
pub proof fn lemma_merge_numeric(a: ChangeView, b: ChangeView)
    requires
        embedded_ready(a),
        embedded_ready(b),
    ensures
        merge_view(a, b) matches Some(v) ==> embedded_ready(v),
{
    match (a, b) {
        (
            ChangeView::UpdateNode { increments: x, .. },
            ChangeView::UpdateNode { increments: y, .. },
        ) => {
            lemma_union_numeric(x, y);
        },
        (
            ChangeView::UpdateUniqueConstraint { increments: x, .. },
            ChangeView::UpdateUniqueConstraint { increments: y, .. },
        ) => {
            lemma_union_numeric(x, y);
        },
        (ChangeView::InsertRelation { fields: x, .. }, ChangeView::InsertRelation { fields: y, .. }) => {
            lemma_union_text(x, y, CREATED_AT@);
            lemma_union_text(x, y, UPDATED_AT@);
        },
        _ => {},
    }
}

/// Folding keeps increments numeric.
pub proof fn lemma_fold_numeric(first: ChangeView, rest: Seq<ChangeView>)
    requires
        embedded_ready(first),
        forall|i: int| 0 <= i < rest.len() ==> embedded_ready(#[trigger] rest[i]),
    ensures
        fold_view(first, rest) matches Some(v) ==> embedded_ready(v),
    decreases rest.len(),
{
    if rest.len() > 0 {
        lemma_fold_numeric(first, rest.drop_last());
        if let Some(acc) = fold_view(first, rest.drop_last()) {
            lemma_merge_numeric(acc, rest.last());
        }
    }
}

/// What a change compiles to; `None` when its constraint id is malformed.
pub open spec fn change_statement(
    c: InternalChanges,
    owner: Option<Seq<char>>,
    pk: Seq<char>,
    sk: Seq<char>,
) -> Option<StatementView> {
    match c {
        InternalChanges::InsertNode(x) => if node_keys(x.ty@, x.id@, pk, sk) {
            Some(insert_node_statement(x, owner, pk, sk))
        } else {
            None
        },
        InternalChanges::UpdateNode(x) => if !node_keys(x.ty@, x.id@, pk, sk) {
            None
        } else {
            Some(
            update_statement(
                node_row(
                    x.user_defined_item.pairs(),
                    x.ty@,
                    node_id_text(x.ty@, x.id@),
                    x.current_datetime@,
                ),
                x.increments.pairs(),
                owner,
                pk,
                sk,
                x.current_datetime@,
            ),
        )
        },
        InternalChanges::DeleteNode(_) => Some(delete_statement(owner, pk, sk)),
        InternalChanges::InsertRelation(x) => Some(insert_relation_statement(x, owner, pk, sk)),
        InternalChanges::DeleteAllRelations(_) => Some(delete_statement(owner, pk, sk)),
        InternalChanges::DeleteMultipleRelations(x) => Some(
            relations_statement(
                touched(x.current_datetime@),
                Seq::empty(),
                strings_view(x.relation_names@),
                pk,
                sk,
                x.current_datetime@,
            ),
        ),
        InternalChanges::UpdateRelation(x) => Some(
            relations_statement(
                pairs_insert(x.user_defined_item.pairs(), UPDATED_AT@, text(x.current_datetime@)),
                added_names(updates_view(x.relation_names@)),
                removed_names(updates_view(x.relation_names@)),
                pk,
                sk,
                x.current_datetime@,
            ),
        ),
        InternalChanges::InsertUniqueConstraint(x) => if is_identifier(pk) {
            Some(insert_constraint_statement(x, owner, pk, sk))
        } else {
            None
        },
        InternalChanges::UpdateUniqueConstraint(x) => if is_identifier(pk) {
            Some(
                update_statement(
                    constraint_row(x.user_defined_item.pairs(), pk, x.target@, x.current_datetime@),
                    x.increments.pairs(),
                    owner,
                    pk,
                    sk,
                    x.current_datetime@,
                ),
            )
        } else {
            None
        },
        InternalChanges::DeleteUnitConstraint(_) => Some(delete_statement(owner, pk, sk)),
    }
}

/// The compiled statement meets `change_statement`.
pub open spec fn compiled_as(
    r: Result<Statement, ToTransactionError>,
    c: InternalChanges,
    owner: Option<Seq<char>>,
    pk: Seq<char>,
    sk: Seq<char>,
) -> bool {
    match change_statement(c, owner, pk, sk) {
        Some(v) => r matches Ok(s) && s@ == v,
        None => r matches Err(ToTransactionError::InvalidIdentifier),
    }
}

/// What a change compiles to depends on its view alone.
pub proof fn lemma_statement_depends_on_view(
    a: InternalChanges,
    b: InternalChanges,
    owner: Option<Seq<char>>,
    pk: Seq<char>,
    sk: Seq<char>,
)
    requires
        a@ == b@,
    ensures
        change_statement(a, owner, pk, sk) == change_statement(b, owner, pk, sk),
{
}

/// Compiles one change of row `(pk, sk)`.
pub fn compile_change(
    change: InternalChanges,
    auth: &OperationAuthorization,
    pk: String,
    sk: String,
) -> (r: Result<Statement, ToTransactionError>)
    requires
        change.wf(),
        embedded_ready(change@),
    ensures
        compiled_as(r, change, auth.owner(), pk@, sk@),
{
    match change {
        InternalChanges::InsertNode(x) => insert_node(x, auth, pk, sk),
        InternalChanges::UpdateNode(x) => update_node(x, auth, pk, sk),
        InternalChanges::DeleteNode(_) => Ok(delete_by_ids(auth, pk, sk)),
        InternalChanges::InsertRelation(x) => Ok(insert_relation(x, auth, pk, sk)),
        InternalChanges::DeleteAllRelations(_) => Ok(delete_by_ids(auth, pk, sk)),
        InternalChanges::DeleteMultipleRelations(x) => Ok(delete_multiple_relations(x, pk, sk)),
        InternalChanges::UpdateRelation(x) => Ok(update_relation(x, pk, sk)),
        InternalChanges::InsertUniqueConstraint(x) => insert_unique_constraint(x, auth, pk, sk),
        InternalChanges::UpdateUniqueConstraint(x) => update_unique_constraint(x, auth, pk, sk),
        InternalChanges::DeleteUnitConstraint(_) => Ok(delete_by_ids(auth, pk, sk)),
    }
}

/// Merges the changes of row `(pk, sk)` and compiles the result.
pub fn to_transaction(
    changes: Vec<InternalChanges>,
    auth: &OperationAuthorization,
    pk: String,
    sk: String,
) -> (r: Result<Statement, ToTransactionError>)
    requires
        forall|i: int| 0 <= i < changes@.len() ==> (#[trigger] changes@[i]).wf(),
        forall|i: int| 0 <= i < changes@.len() ==> embedded_ready(#[trigger] changes@[i]@),
    ensures
        changes@.len() == 0 ==> r matches Err(ToTransactionError::Unknown),
        changes@.len() > 0 ==> match fold_view(changes@[0]@, changes_view(changes@.drop_first())) {
            Some(v) => (exists|c: InternalChanges| c@ == v && c.wf()) && forall|c: InternalChanges|
                c@ == v ==> #[trigger] compiled_as(r, c, auth.owner(), pk@, sk@),
            None => r matches Err(ToTransactionError::ConflictingChange),
        },
{
    proof {
        if changes@.len() > 0 {
            let rest = changes_view(changes@.drop_first());
            assert forall|i: int| 0 <= i < rest.len() implies embedded_ready(#[trigger] rest[i]) by {
                assert(rest[i] == changes@[i + 1]@);
            }
            lemma_fold_numeric(changes@[0]@, rest);
        }
    }
    match merge_all(changes) {
        Ok(c) => {
            let ghost gc = c;
            let r = compile_change(c, auth, pk, sk);
            proof {
                assert forall|c2: InternalChanges| c2@ == gc@ implies #[trigger] compiled_as(
                    r,
                    c2,
                    auth.owner(),
                    pk@,
                    sk@,
                ) by {
                    lemma_statement_depends_on_view(gc, c2, auth.owner(), pk@, sk@);
                }
            }
            r
        },
        Err(FoldError::Unknown) => Err(ToTransactionError::Unknown),
        Err(FoldError::ConflictingChange) => Err(ToTransactionError::ConflictingChange),
    }
}

/// What the caller learns from running a statement: a uniqueness violation
/// of a statement that carries a constraint is that constraint's violation.
/// The engine reports a violated uniqueness index as `ConditionalCheckFailed`.
pub fn statement_outcome(marker: Option<OperationKind>, result: Result<(), BackendFailure>) -> (r:
    Result<(), ToTransactionError>)
    ensures
        result is Ok ==> r is Ok,
        result matches Err(BackendFailure::ConditionalCheckFailed) ==> match marker {
            Some(OperationKind::Constraint(Constraint::Unique { values, fields })) => r matches Err(
                ToTransactionError::UniqueConstraintViolation { fields: f, values: v },
            ) && strings_view(f@) == strings_view(fields@) && strings_view(v@) == strings_view(
                values@,
            ),
            None => r matches Err(
                ToTransactionError::TransactionError(BackendFailure::ConditionalCheckFailed),
            ),
        },
        result matches Err(BackendFailure::Other(m)) ==> r matches Err(
            ToTransactionError::TransactionError(BackendFailure::Other(m2)),
        ) && m2@ == m@,
{
    match result {
        Ok(()) => Ok(()),
        Err(BackendFailure::ConditionalCheckFailed) => match marker {
            Some(OperationKind::Constraint(Constraint::Unique { values, fields })) => Err(
                ToTransactionError::UniqueConstraintViolation { fields, values },
            ),
            None => Err(ToTransactionError::TransactionError(BackendFailure::ConditionalCheckFailed)),
        },
        Err(BackendFailure::Other(m)) => Err(
            ToTransactionError::TransactionError(BackendFailure::Other(m)),
        ),
    }
}

} // verus!
