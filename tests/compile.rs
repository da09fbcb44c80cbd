use graph_transaction::attrs::{AttrMap, AttributeValue};
use graph_transaction::auth::OperationAuthorization;
use graph_transaction::change::{
    merge_all, DeleteAllRelationsInternalInput, DeleteMultipleRelationsInternalInput,
    DeleteNodeInternalInput, FoldError, InsertNodeInternalInput, InsertRelationInternalInput,
    InsertUniqueConstraint, InternalChanges, MergeError, UpdateNodeInternalInput, UpdateRelation,
    UpdateRelationInternalInput,
};
use graph_transaction::dynamo::{
    self, BackendFailure, ToTransactionError, TransactWriteItem, TxItem, TxItemMetadata,
};
use graph_transaction::ids::{decode_node_id, encode_constraint_id, encode_node_id, IdentifierError};
use graph_transaction::local;
use graph_transaction::sql::SqlValue;
use std::collections::HashSet;

fn s(v: &str) -> AttributeValue {
    AttributeValue::S(v.to_string())
}

fn text_of(v: Option<&AttributeValue>) -> Option<String> {
    match v {
        Some(AttributeValue::S(t)) => Some(t.clone()),
        _ => None,
    }
}

fn item(pairs: &[(&str, AttributeValue)]) -> AttrMap {
    let mut m = AttrMap::new();
    for (k, v) in pairs {
        m.insert(k.to_string(), v.duplicate());
    }
    m
}

fn update_node(id: &str, pairs: &[(&str, AttributeValue)]) -> InternalChanges {
    InternalChanges::UpdateNode(UpdateNodeInternalInput {
        id: id.to_string(),
        ty: "Todo".to_string(),
        user_defined_item: item(pairs),
        increments: AttrMap::new(),
        current_datetime: "2023-01-01T00:00:00Z".to_string(),
    })
}

fn put_item(t: &TxItem) -> &AttrMap {
    match &t.transaction {
        TransactWriteItem::Put(p) => &p.item,
        _ => panic!("expected a put"),
    }
}

#[test]
fn node_id_round_trip() {
    let id = encode_node_id("Todo", "01H#x");
    assert_eq!(id, "Todo#01H#x");
    let (ty, rest) = decode_node_id(&id).unwrap();
    assert_eq!(ty, "Todo");
    assert_eq!(rest, "01H#x");
}

#[test]
fn malformed_node_ids_are_rejected() {
    assert_eq!(decode_node_id("no-separator"), Err(IdentifierError::InvalidIdentifier));
    assert_eq!(decode_node_id("#missing-type"), Err(IdentifierError::InvalidIdentifier));
    assert_eq!(decode_node_id(""), Err(IdentifierError::InvalidIdentifier));
}

#[test]
fn constraint_id_keeps_field_order() {
    let a = encode_constraint_id("User", &vec![("email".to_string(), "a@b".to_string())]);
    assert_eq!(a, "User#email#a@b");
    let b = encode_constraint_id(
        "User",
        &vec![("first".to_string(), "x".to_string()), ("last".to_string(), "y".to_string())],
    );
    let c = encode_constraint_id(
        "User",
        &vec![("last".to_string(), "y".to_string()), ("first".to_string(), "x".to_string())],
    );
    assert_eq!(b, "User#first#x#last#y");
    assert_ne!(b, c);
}

#[test]
fn attr_map_insert_replaces_and_or_insert_keeps() {
    let mut m = AttrMap::new();
    m.insert("a".to_string(), s("1"));
    m.insert("a".to_string(), s("2"));
    m.or_insert("a".to_string(), s("3"));
    m.or_insert("b".to_string(), s("4"));
    assert_eq!(m.len(), 2);
    assert_eq!(text_of(m.get("a")), Some("2".to_string()));
    assert_eq!(text_of(m.get("b")), Some("4".to_string()));
    m.remove("a");
    assert!(!m.contains("a"));
}

#[test]
fn merge_conflicting_updates_fails() {
    let a = update_node("X", &[("a", AttributeValue::N("1".to_string()))]);
    let b = update_node("X", &[("a", AttributeValue::N("2".to_string()))]);
    assert!(matches!(a.with(b), Err(MergeError::ConflictingChange)));
}

#[test]
fn merge_disjoint_updates_unites_fields() {
    let a = update_node("X", &[("a", AttributeValue::N("1".to_string()))]);
    let b = update_node("X", &[("b", AttributeValue::N("3".to_string()))]);
    match a.with(b) {
        Ok(InternalChanges::UpdateNode(c)) => {
            assert_eq!(c.user_defined_item.len(), 2);
            assert!(c.user_defined_item.get("a").unwrap().same_as(&AttributeValue::N("1".to_string())));
            assert!(c.user_defined_item.get("b").unwrap().same_as(&AttributeValue::N("3".to_string())));
        }
        _ => panic!("expected a merged update"),
    }
}

#[test]
fn merge_of_different_rows_or_kinds_fails() {
    let a = update_node("X", &[]);
    let b = update_node("Y", &[]);
    assert!(matches!(a.with(b), Err(MergeError::ConflictingChange)));
    let c = update_node("X", &[]);
    let d = InternalChanges::DeleteNode(DeleteNodeInternalInput { id: "X".to_string(), ty: "Todo".to_string() });
    assert!(matches!(c.with(d), Err(MergeError::ConflictingChange)));
}

#[test]
fn merged_relation_names_are_a_set_union() {
    let a = InternalChanges::DeleteMultipleRelations(DeleteMultipleRelationsInternalInput {
        relation_names: vec!["r1".to_string(), "r2".to_string()],
        current_datetime: "t".to_string(),
    });
    let b = InternalChanges::DeleteMultipleRelations(DeleteMultipleRelationsInternalInput {
        relation_names: vec!["r2".to_string(), "r3".to_string()],
        current_datetime: "t".to_string(),
    });
    match a.with(b) {
        Ok(InternalChanges::DeleteMultipleRelations(c)) => {
            assert_eq!(c.relation_names, vec!["r1".to_string(), "r2".to_string(), "r3".to_string()]);
        }
        _ => panic!("expected merged removals"),
    }
}

#[test]
fn empty_batch_is_unknown() {
    assert!(matches!(merge_all(vec![]), Err(FoldError::Unknown)));
    let r = dynamo::to_transaction(vec![], "table", &OperationAuthorization::Unrestricted, "p".to_string(), "s".to_string());
    assert!(matches!(r, Err(ToTransactionError::Unknown)));
    let r = local::to_transaction(vec![], &OperationAuthorization::Unrestricted, "p".to_string(), "s".to_string());
    assert!(matches!(r, Err(ToTransactionError::Unknown)));
}

#[test]
fn conflicting_batch_is_conflicting_change() {
    let changes = vec![
        update_node("X", &[("a", AttributeValue::N("1".to_string()))]),
        update_node("X", &[("a", AttributeValue::N("2".to_string()))]),
    ];
    let r = dynamo::to_transaction(changes, "table", &OperationAuthorization::Unrestricted, "Todo#X".to_string(), "Todo#X".to_string());
    assert!(matches!(r, Err(ToTransactionError::ConflictingChange)));
}

fn insert_node_input(now: &str) -> InsertNodeInternalInput {
    InsertNodeInternalInput {
        id: "01H".to_string(),
        ty: "Todo".to_string(),
        user_defined_item: item(&[("title", s("milk"))]),
        current_datetime: now.to_string(),
    }
}

#[test]
fn insert_node_sets_reserved_fields() {
    let auth = OperationAuthorization::OwnerBased("user1".to_string());
    let t = dynamo::insert_node(insert_node_input("T1"), "table", &auth, "Todo#01H".to_string(), "Todo#01H".to_string()).unwrap();
    let it = put_item(&t);
    assert_eq!(text_of(it.get("__pk")), Some("Todo#01H".to_string()));
    assert_eq!(text_of(it.get("__sk")), Some("Todo#01H".to_string()));
    assert_eq!(text_of(it.get("__type")), Some("Todo".to_string()));
    assert_eq!(text_of(it.get("__created_at")), Some("T1".to_string()));
    assert_eq!(text_of(it.get("__updated_at")), Some("T1".to_string()));
    assert_eq!(text_of(it.get("__gsi1pk")), Some("Todo".to_string()));
    assert_eq!(text_of(it.get("__gsi1sk")), Some("Todo#01H".to_string()));
    assert_eq!(text_of(it.get("__gsi2pk")), Some("Todo#01H".to_string()));
    assert_eq!(text_of(it.get("__gsi2sk")), Some("Todo#01H".to_string()));
    assert_eq!(text_of(it.get("title")), Some("milk".to_string()));
    assert!(it.get("__owned_by").unwrap().same_as(&AttributeValue::Ss(vec!["user1".to_string()])));
    match &t.transaction {
        TransactWriteItem::Put(p) => assert!(p.condition_expression.is_none()),
        _ => panic!("expected a put"),
    }
}

#[test]
fn insert_node_twice_gives_the_same_item() {
    let auth = OperationAuthorization::Unrestricted;
    let a = dynamo::insert_node(insert_node_input("T1"), "table", &auth, "Todo#01H".to_string(), "Todo#01H".to_string()).unwrap();
    let b = dynamo::insert_node(insert_node_input("T1"), "table", &auth, "Todo#01H".to_string(), "Todo#01H".to_string()).unwrap();
    let (ia, ib) = (put_item(&a), put_item(&b));
    assert_eq!(ia.len(), ib.len());
    for i in 0..ia.len() {
        assert_eq!(ia.key_at(i), ib.key_at(i));
        assert!(ia.value_at(i).same_as(ib.value_at(i)));
    }
    let c = dynamo::insert_node(insert_node_input("T2"), "table", &auth, "Todo#01H".to_string(), "Todo#01H".to_string()).unwrap();
    let ic = put_item(&c);
    for i in 0..ia.len() {
        let k = ia.key_at(i).as_str();
        let same = ia.value_at(i).same_as(ic.get(k).unwrap());
        assert_eq!(same, k != "__created_at" && k != "__updated_at");
    }
}

fn relation_input(now: &str) -> InsertRelationInternalInput {
    InsertRelationInternalInput {
        fields: item(&[("__created_at", s("T0")), ("__updated_at", s("T0")), ("__pk", s("Todo#1")), ("title", s("milk"))]),
        relation_names: vec!["list_todos".to_string()],
        from_ty: "List".to_string(),
        to_ty: "Todo".to_string(),
        current_datetime: now.to_string(),
    }
}

#[test]
fn relation_copy_keeps_created_at() {
    let auth = OperationAuthorization::Unrestricted;
    let t = dynamo::insert_relation(relation_input("T1"), "table", &auth, "List#1".to_string(), "Todo#1".to_string());
    match &t.transaction {
        TransactWriteItem::Update(u) => {
            let value = |p: &str| u.expression_attribute_values.iter().find(|(k, _)| k == p).map(|(_, v)| v);
            assert_eq!(text_of(value(":s__created_at")), Some("T0".to_string()));
            assert_eq!(text_of(value(":s__updated_at")), Some("T1".to_string()));
            assert!(value(":s__pk").is_none());
            assert!(u.update_expression.ends_with(" ADD #relation_names :r_add"));
        }
        _ => panic!("expected an update"),
    }
    let st = local::insert_relation(relation_input("T1"), &auth, "List#1".to_string(), "Todo#1".to_string());
    let value = |k: &str| st.values.iter().find(|(n, _)| n == k).map(|(_, v)| v);
    assert!(value("created_at").unwrap().is_text("T0"));
    assert!(value("updated_at").unwrap().is_text("T1"));
    match value("document") {
        Some(SqlValue::Document(d)) => {
            assert_eq!(text_of(d.get("__created_at")), Some("T0".to_string()));
            assert_eq!(text_of(d.get("__updated_at")), Some("T1".to_string()));
            assert_eq!(text_of(d.get("__pk")), Some("List#1".to_string()));
        }
        _ => panic!("expected a document"),
    }
}

#[test]
fn owner_predicate_only_when_owner_based() {
    let owner = OperationAuthorization::OwnerBased("user1".to_string());
    let t = dynamo::update_node(
        UpdateNodeInternalInput {
            id: "1".to_string(),
            ty: "Todo".to_string(),
            user_defined_item: AttrMap::new(),
            increments: AttrMap::new(),
            current_datetime: "T".to_string(),
        },
        "table",
        &owner,
        "Todo#1".to_string(),
        "Todo#1".to_string(),
    )
    .unwrap();
    match &t.transaction {
        TransactWriteItem::Update(u) => {
            assert_eq!(
                u.condition_expression.as_deref(),
                Some("attribute_exists(#pk) AND attribute_exists(#sk) AND contains(#owner_attr_name, :owner_val_name)")
            );
            let bound = u.expression_attribute_values.iter().find(|(k, _)| k == ":owner_val_name");
            assert_eq!(text_of(bound.map(|(_, v)| v)), Some("user1".to_string()));
            assert!(u.expression_attribute_names.iter().any(|(k, v)| k == "#owner_attr_name" && v == "__owned_by"));
        }
        _ => panic!("expected an update"),
    }
    let t = dynamo::delete_node(
        DeleteNodeInternalInput { id: "1".to_string(), ty: "Todo".to_string() },
        "table",
        &OperationAuthorization::Unrestricted,
        "Todo#1".to_string(),
        "Todo#1".to_string(),
    );
    match &t.transaction {
        TransactWriteItem::Delete(d) => {
            assert_eq!(d.condition_expression.as_deref(), Some("attribute_exists(#pk) AND attribute_exists(#sk)"));
            assert!(d.expression_attribute_values.is_none());
        }
        _ => panic!("expected a delete"),
    }
}

#[test]
fn relation_update_expression_is_exact() {
    let input = UpdateRelationInternalInput {
        user_defined_item: AttrMap::new(),
        relation_names: vec![UpdateRelation::Add("a".to_string()), UpdateRelation::Remove("b".to_string())],
        current_datetime: "T".to_string(),
    };
    let t = dynamo::update_relation(input, "table", "List#1".to_string(), "Todo#1".to_string());
    match &t.transaction {
        TransactWriteItem::Update(u) => {
            assert_eq!(
                u.update_expression,
                "SET #f__updated_at = :s__updated_at ADD #relation_names :r_add DELETE #relation_names :r_remove"
            );
            assert!(u.condition_expression.is_none());
            assert_eq!(u.expression_attribute_values.len(), 3);
        }
        _ => panic!("expected an update"),
    }
}

fn constraint_input(value: &str) -> InsertUniqueConstraint {
    InsertUniqueConstraint {
        ty: "User".to_string(),
        target: "User#1".to_string(),
        user_defined_item: AttrMap::new(),
        current_datetime: "T".to_string(),
        constraint_fields: vec!["email".to_string()],
        constraint_values: vec![value.to_string()],
    }
}

/// Applies a put as the store would: a condition on a taken key fails.
fn run(store: &mut HashSet<String>, t: &TxItem) -> Result<(), BackendFailure> {
    match &t.transaction {
        TransactWriteItem::Put(p) => {
            let taken = store.contains(&t.pk);
            if p.condition_expression.as_deref() == Some("attribute_not_exists(#pk)") && taken {
                return Err(BackendFailure::ConditionalCheckFailed);
            }
            store.insert(t.pk.clone());
            Ok(())
        }
        _ => Err(BackendFailure::Other("unsupported".to_string())),
    }
}

#[test]
fn unique_constraint_race_has_one_winner() {
    let auth = OperationAuthorization::Unrestricted;
    let id = encode_constraint_id("User", &vec![("email".to_string(), "a@b".to_string())]);
    let first = dynamo::insert_unique_constraint(constraint_input("a@b"), "table", &auth, id.clone()).unwrap();
    let second = dynamo::insert_unique_constraint(constraint_input("a@b"), "table", &auth, id).unwrap();
    let mut store = HashSet::new();
    let r1 = run(&mut store, &first);
    let r2 = run(&mut store, &second);
    assert!(dynamo::transaction_outcome(first.metadata, r1).is_ok());
    match dynamo::transaction_outcome(second.metadata, r2) {
        Err(ToTransactionError::UniqueConstraintViolation { fields, values }) => {
            assert_eq!(fields, vec!["email".to_string()]);
            assert_eq!(values, vec!["a@b".to_string()]);
        }
        _ => panic!("expected a violation"),
    }
}

#[test]
fn other_failures_are_transaction_errors() {
    let r = dynamo::transaction_outcome(TxItemMetadata::Plain, Err(BackendFailure::Other("throttled".to_string())));
    assert!(matches!(r, Err(ToTransactionError::TransactionError(BackendFailure::Other(m))) if m == "throttled"));
    let r = dynamo::transaction_outcome(TxItemMetadata::Plain, Err(BackendFailure::ConditionalCheckFailed));
    assert!(matches!(r, Err(ToTransactionError::TransactionError(BackendFailure::ConditionalCheckFailed))));
}

#[test]
fn malformed_constraint_id_is_invalid_identifier() {
    let auth = OperationAuthorization::Unrestricted;
    let r = dynamo::insert_unique_constraint(constraint_input("x"), "table", &auth, "no-separator".to_string());
    assert!(matches!(r, Err(ToTransactionError::InvalidIdentifier)));
    let r = local::insert_unique_constraint(constraint_input("x"), &auth, "no-separator".to_string(), "no-separator".to_string());
    assert!(matches!(r, Err(ToTransactionError::InvalidIdentifier)));
}

#[test]
fn embedded_constraint_insert_carries_its_marker() {
    let auth = OperationAuthorization::Unrestricted;
    let st = local::insert_unique_constraint(constraint_input("a@b"), &auth, "User#email#a@b".to_string(), "User#email#a@b".to_string()).unwrap();
    match st.marker {
        Some(local::OperationKind::Constraint(local::Constraint::Unique { values, fields })) => {
            assert_eq!(fields, vec!["email".to_string()]);
            assert_eq!(values, vec!["a@b".to_string()]);
        }
        None => panic!("expected a marker"),
    }
}

#[test]
fn embedded_delete_filters_by_owner() {
    let st = local::delete_by_ids(&OperationAuthorization::Unrestricted, "p".to_string(), "s".to_string());
    assert_eq!(st.query, "DELETE FROM records WHERE pk = ?pk AND sk = ?sk");
    assert_eq!(st.values.len(), 2);
    let st = local::delete_by_ids(&OperationAuthorization::OwnerBased("u".to_string()), "p".to_string(), "s".to_string());
    assert_eq!(
        st.query,
        "DELETE FROM records WHERE pk = ?pk AND sk = ?sk AND EXISTS (SELECT 1 FROM json_each(document, '$.__owned_by.SS') WHERE value = ?owned_by)"
    );
    assert_eq!(st.values[2].0, "owned_by");
    assert!(st.values[2].1.is_text("u"));
}

#[test]
fn embedded_statement_shape_follows_name_counts() {
    let st = local::update_relation(
        UpdateRelationInternalInput {
            user_defined_item: AttrMap::new(),
            relation_names: vec![
                UpdateRelation::Remove("a".to_string()),
                UpdateRelation::Remove("b".to_string()),
                UpdateRelation::Add("c".to_string()),
            ],
            current_datetime: "T".to_string(),
        },
        "p".to_string(),
        "s".to_string(),
    );
    assert_eq!(
        st.query,
        "UPDATE records SET updated_at = ?updated_at, document = json_patch(document, ?document), relation_names = json_insert((SELECT json_group_array(value) FROM json_each(relation_names) WHERE value NOT IN (?, ?)), '$[#]', ?) WHERE pk = ?pk AND sk = ?sk"
    );
    let st = local::insert_relation(relation_input("T1"), &OperationAuthorization::Unrestricted, "List#1".to_string(), "Todo#1".to_string());
    assert!(st.query.ends_with("relation_names = json_insert(relation_names, '$[#]', ?)"));
}

#[test]
fn embedded_update_binds_increments() {
    let mut increments = AttrMap::new();
    increments.insert("count".to_string(), AttributeValue::N("2".to_string()));
    let st = local::update_node(
        UpdateNodeInternalInput {
            id: "1".to_string(),
            ty: "Todo".to_string(),
            user_defined_item: AttrMap::new(),
            increments,
            current_datetime: "T".to_string(),
        },
        &OperationAuthorization::Unrestricted,
        "Todo#1".to_string(),
        "Todo#1".to_string(),
    )
    .unwrap();
    assert_eq!(
        st.query,
        "UPDATE records SET updated_at = ?updated_at, document = json_set(json_patch(document, ?document), '$.count.N', json_extract(document, '$.count.N') + ?) WHERE pk = ?pk AND sk = ?sk"
    );
    match &st.values[4].1 {
        SqlValue::List(v) => assert_eq!(v, &vec!["2".to_string()]),
        _ => panic!("expected the increments"),
    }
}

#[test]
fn every_change_kind_compiles_in_both_dialects() {
    let auth = OperationAuthorization::Unrestricted;
    let changes = || {
        vec![
            InternalChanges::InsertNode(InsertNodeInternalInput { id: "1".to_string(), ..insert_node_input("T") }),
            update_node("1", &[]),
            InternalChanges::DeleteNode(DeleteNodeInternalInput { id: "1".to_string(), ty: "Todo".to_string() }),
            InternalChanges::InsertRelation(relation_input("T")),
            InternalChanges::DeleteAllRelations(DeleteAllRelationsInternalInput {}),
            InternalChanges::DeleteUnitConstraint(graph_transaction::change::DeleteUnitNodeConstraintInput {}),
        ]
    };
    for c in changes() {
        assert!(dynamo::compile_change(c, "table", &auth, "Todo#1".to_string(), "Todo#1".to_string()).is_ok());
    }
    for c in changes() {
        assert!(local::compile_change(c, &auth, "Todo#1".to_string(), "Todo#1".to_string()).is_ok());
    }
}

#[test]
fn embedded_unique_violation_uses_the_marker() {
    let auth = OperationAuthorization::Unrestricted;
    let id = "User#email#a@b".to_string();
    let st = local::insert_unique_constraint(constraint_input("a@b"), &auth, id.clone(), id).unwrap();
    match local::statement_outcome(st.marker, Err(BackendFailure::ConditionalCheckFailed)) {
        Err(ToTransactionError::UniqueConstraintViolation { fields, values }) => {
            assert_eq!(fields, vec!["email".to_string()]);
            assert_eq!(values, vec!["a@b".to_string()]);
        }
        _ => panic!("expected a violation"),
    }
    let r = local::statement_outcome(None, Err(BackendFailure::ConditionalCheckFailed));
    assert!(matches!(r, Err(ToTransactionError::TransactionError(BackendFailure::ConditionalCheckFailed))));
    assert!(local::statement_outcome(None, Ok(())).is_ok());
}

#[test]
fn node_keys_must_be_the_node_id() {
    let auth = OperationAuthorization::Unrestricted;
    let r = dynamo::insert_node(insert_node_input("T"), "table", &auth, "Todo#other".to_string(), "Todo#other".to_string());
    assert!(matches!(r, Err(ToTransactionError::InvalidIdentifier)));
    let r = local::insert_node(insert_node_input("T"), &auth, "Todo#01H".to_string(), "Todo#x".to_string());
    assert!(matches!(r, Err(ToTransactionError::InvalidIdentifier)));
    assert!(local::insert_node(insert_node_input("T"), &auth, "Todo#01H".to_string(), "Todo#01H".to_string()).is_ok());
}

#[test]
fn relation_insert_adds_the_user_to_the_owner_set() {
    let auth = OperationAuthorization::OwnerBased("u".to_string());
    let mut input = relation_input("T1");
    input.fields.insert("__owned_by".to_string(), AttributeValue::Ss(vec!["o".to_string(), "u".to_string(), "o".to_string()]));
    let t = dynamo::insert_relation(input, "table", &auth, "List#1".to_string(), "Todo#1".to_string());
    match &t.transaction {
        TransactWriteItem::Update(u) => {
            assert!(u.update_expression.ends_with(" ADD #relation_names :r_add, #owner_attr_name :owners"));
            let owners = u.expression_attribute_values.iter().find(|(k, _)| k == ":owners").map(|(_, v)| v);
            assert!(owners.unwrap().same_as(&AttributeValue::Ss(vec!["o".to_string(), "u".to_string()])));
            assert!(!u.expression_attribute_values.iter().any(|(k, _)| k == ":s__owned_by"));
        }
        _ => panic!("expected an update"),
    }
    let mut input = relation_input("T1");
    input.fields.insert("__owned_by".to_string(), AttributeValue::Ss(vec!["o".to_string()]));
    let st = local::insert_relation(input, &auth, "List#1".to_string(), "Todo#1".to_string());
    match st.values.iter().find(|(n, _)| n == "document").map(|(_, v)| v) {
        Some(SqlValue::Document(d)) => {
            assert!(d.get("__owned_by").unwrap().same_as(&AttributeValue::Ss(vec!["o".to_string(), "u".to_string()])));
        }
        _ => panic!("expected a document"),
    }
}

#[test]
fn merged_attributes_keep_the_first_change_first() {
    let a = update_node("X", &[("a", AttributeValue::N("1".to_string()))]);
    let b = update_node("X", &[("b", AttributeValue::N("3".to_string())), ("a", AttributeValue::N("1".to_string()))]);
    match a.with(b) {
        Ok(InternalChanges::UpdateNode(c)) => {
            assert_eq!(c.user_defined_item.key_at(0), "a");
            assert_eq!(c.user_defined_item.key_at(1), "b");
            assert_eq!(c.user_defined_item.len(), 2);
        }
        _ => panic!("expected a merged update"),
    }
}

#[test]
fn nested_and_binary_values_copy_and_compare() {
    let v = AttributeValue::M(vec![
        ("tags".to_string(), AttributeValue::L(vec![s("a"), AttributeValue::N("2".to_string())])),
        ("raw".to_string(), AttributeValue::B(vec![1, 2, 3])),
        ("nums".to_string(), AttributeValue::Ns(vec!["1".to_string()])),
        ("blobs".to_string(), AttributeValue::Bs(vec![vec![9]])),
    ]);
    let w = v.duplicate();
    assert!(v.same_as(&w));
    let other = AttributeValue::M(vec![("tags".to_string(), AttributeValue::L(vec![s("b")]))]);
    assert!(!v.same_as(&other));
    assert!(!AttributeValue::L(vec![s("a")]).same_as(&AttributeValue::L(vec![s("b")])));
    assert!(!AttributeValue::B(vec![1]).same_as(&AttributeValue::B(vec![2])));
    let a = update_node("X", &[("list", AttributeValue::L(vec![s("a")]))]);
    let b = update_node("X", &[("list", AttributeValue::L(vec![s("b")]))]);
    assert!(matches!(a.with(b), Err(MergeError::ConflictingChange)));
}
