use graph_transaction::definitions::{DefinitionKind, DefinitionWalker, DirectiveSiteId, StringId, SubgraphId, SubgraphWalker, Subgraphs};
use graph_transaction::directive::{Directive, Directives, ResolverDirective, RESOLVER_DEFINITION};
use graph_transaction::field::{
    DirectiveId, EntityId, FieldDefinition, FieldDefinitionId, FieldDefinitionRecord, FieldProvides,
    FieldRequires, FieldResolverWalker, InputValueDefinitionId, InputValueDefinitionRecord,
    ProvidableFieldSet, RequiredFieldSet, RequiredFieldSetId, ResolverId, Schema, TypeId,
    TypeSystemDirectiveRecord,
};
use graph_transaction::pagination::{PaginatedCursor, ResolvedPaginationDirection};

#[test]
fn directives_join_declarations_by_newlines() {
    let d = Directives::new();
    assert_eq!(d.to_definition(), "");
    let d = d.with_definition("directive @a on FIELD".to_string()).with_definition("directive @b on FIELD".to_string());
    assert_eq!(d.to_definition(), "directive @a on FIELD\ndirective @b on FIELD");
    let d = Directives::new().with(ResolverDirective);
    assert_eq!(d.to_definition(), RESOLVER_DEFINITION);
    let d = Directives::new().with(ResolverDirective).with(ResolverDirective);
    assert_eq!(d.to_definition(), format!("{}\n{}", RESOLVER_DEFINITION, RESOLVER_DEFINITION));
    assert!(ResolverDirective.definition().contains("directive @resolver(name: String) on FIELD_DEFINITION"));
}

#[test]
fn pagination_direction_follows_cursor() {
    assert_eq!(
        ResolvedPaginationDirection::from_paginated_cursor(&PaginatedCursor::Forward { first: 10 }),
        ResolvedPaginationDirection::Forward
    );
    assert_eq!(
        ResolvedPaginationDirection::from_paginated_cursor(&PaginatedCursor::Backward { last: 3 }),
        ResolvedPaginationDirection::Backward
    );
}

fn subgraphs() -> Subgraphs {
    let mut s = Subgraphs::new();
    s.push_definition(SubgraphId(0), "Query", DefinitionKind::Object, None, DirectiveSiteId(0));
    s.push_definition(SubgraphId(0), "Node", DefinitionKind::Interface, None, DirectiveSiteId(1));
    let desc = s.intern("A user");
    s.push_definition(SubgraphId(1), "User", DefinitionKind::Object, Some(desc), DirectiveSiteId(2));
    s.push_definition(SubgraphId(1), "Node", DefinitionKind::Interface, None, DirectiveSiteId(3));
    let node = s.intern("Node");
    let user = s.intern("User");
    s.push_interface_impl(user, node);
    s.push_interface_impl(user, node);
    s
}

#[test]
fn definitions_are_found_by_name_and_subgraph() {
    let mut s = subgraphs();
    let node = s.intern("Node");
    assert_eq!(s.definition_by_name_id(node, SubgraphId(0)).map(|d| d.0), Some(1));
    assert_eq!(s.definition_by_name_id(node, SubgraphId(1)).map(|d| d.0), Some(3));
    assert_eq!(s.definition_by_name_id(node, SubgraphId(2)), None);
    assert_eq!(s.definition_by_name("User", SubgraphId(1)).0, 2);
    let found = s.iter_definitions_with_name(node);
    assert_eq!(found.iter().map(|(g, d)| (g.0, d.0)).collect::<Vec<_>>(), vec![(0, 1), (1, 3)]);
    assert_eq!(s.iter_interface_impls().len(), 1);
    let user = s.intern("User");
    assert_eq!(s.iter_implementers_for_interface(node), vec![user]);
    assert_eq!(s.iter_implementers_for_interface(StringId(99)), vec![]);
}

#[test]
fn definition_walker_reads_its_definition() {
    let s = subgraphs();
    let w = DefinitionWalker { subgraphs: &s, id: graph_transaction::definitions::DefinitionId(2) };
    assert_eq!(w.name(), "User");
    assert_eq!(w.kind(), DefinitionKind::Object);
    assert_eq!(w.description().map(|d| d.as_str()), Some("A user"));
    assert_eq!(w.subgraph_id(), SubgraphId(1));
    assert_eq!(w.directives(), DirectiveSiteId(2));
    let q = DefinitionWalker { subgraphs: &s, id: graph_transaction::definitions::DefinitionId(0) };
    assert_eq!(q.description(), None);
}

#[test]
fn subgraph_walker_lists_its_definitions() {
    let mut s = subgraphs();
    let node = s.intern("Node");
    let g = SubgraphWalker { subgraphs: &s, id: SubgraphId(1) };
    assert_eq!(g.definitions().iter().map(|d| d.id.0).collect::<Vec<_>>(), vec![2, 3]);
    assert_eq!(g.interface_implementers(node).iter().map(|d| d.id.0).collect::<Vec<_>>(), vec![2]);
    let g0 = SubgraphWalker { subgraphs: &s, id: SubgraphId(0) };
    assert!(g0.interface_implementers(node).is_empty());
}

fn schema() -> Schema {
    Schema {
        strings: vec!["user".to_string(), "id".to_string(), "name".to_string()],
        field_definitions: vec![
            FieldDefinitionRecord {
                name_id: StringId(0),
                resolver_ids: vec![ResolverId(4), ResolverId(7)],
                only_resolvable_in_ids: vec![SubgraphId(2)],
                parent_entity_id: EntityId(5),
                argument_ids: vec![InputValueDefinitionId(0), InputValueDefinitionId(1)],
                ty: TypeId(9),
                provides: vec![FieldProvides {
                    subgraph_id: SubgraphId(2),
                    field_set: ProvidableFieldSet(vec![FieldDefinitionId(1)]),
                }],
                requires: vec![FieldRequires { subgraph_id: SubgraphId(2), field_set_id: RequiredFieldSetId(1) }],
                directive_ids: vec![DirectiveId(0), DirectiveId(1)],
            },
            FieldDefinitionRecord {
                name_id: StringId(2),
                resolver_ids: vec![],
                only_resolvable_in_ids: vec![],
                parent_entity_id: EntityId(6),
                argument_ids: vec![],
                ty: TypeId(1),
                provides: vec![],
                requires: vec![],
                directive_ids: vec![],
            },
        ],
        input_value_definitions: vec![
            InputValueDefinitionRecord { name_id: StringId(1), ty: TypeId(2) },
            InputValueDefinitionRecord { name_id: StringId(2), ty: TypeId(3) },
        ],
        required_field_sets: vec![
            RequiredFieldSet(vec![FieldDefinitionId(4), FieldDefinitionId(5)]),
            RequiredFieldSet(vec![FieldDefinitionId(5), FieldDefinitionId(6)]),
        ],
        directives: vec![
            TypeSystemDirectiveRecord { required_fields: None },
            TypeSystemDirectiveRecord { required_fields: Some(RequiredFieldSetId(0)) },
        ],
    }
}

#[test]
fn field_definition_reads_its_record() {
    let s = schema();
    let f = FieldDefinition { schema: &s, item: FieldDefinitionId(0) };
    assert_eq!(f.name(), "user");
    assert_eq!(f.resolvers(), vec![ResolverId(4), ResolverId(7)]);
    assert!(f.is_resolvable_in(SubgraphId(2)));
    assert!(!f.is_resolvable_in(SubgraphId(3)));
    assert_eq!(f.parent_entity(), EntityId(5));
    assert_eq!(f.arguments(), vec![InputValueDefinitionId(0), InputValueDefinitionId(1)]);
    assert_eq!(f.ty(), TypeId(9));
    assert_eq!(f.argument_by_name("name"), Some(InputValueDefinitionId(1)));
    assert_eq!(f.argument_by_name("missing"), None);
    let g = FieldDefinition { schema: &s, item: FieldDefinitionId(1) };
    assert!(g.is_resolvable_in(SubgraphId(3)));
}

#[test]
fn definition_walker_reaches_its_subgraph() {
    let s = subgraphs();
    let w = DefinitionWalker { subgraphs: &s, id: graph_transaction::definitions::DefinitionId(3) };
    let g = w.subgraph();
    assert_eq!(g.id, SubgraphId(1));
    assert_eq!(g.definitions().len(), 2);
}

#[test]
fn field_definition_reads_its_field_sets() {
    let s = schema();
    let f = FieldDefinition { schema: &s, item: FieldDefinitionId(0) };
    assert_eq!(f.directives(), vec![DirectiveId(0), DirectiveId(1)]);
    assert_eq!(f.provides(SubgraphId(2)).0, vec![FieldDefinitionId(1)]);
    assert!(f.provides(SubgraphId(3)).0.is_empty());
    assert!(f.has_required_fields(SubgraphId(3)));
    assert_eq!(
        f.required_fields(SubgraphId(2)).0,
        vec![FieldDefinitionId(4), FieldDefinitionId(5), FieldDefinitionId(6)]
    );
    assert_eq!(f.required_fields(SubgraphId(3)).0, vec![FieldDefinitionId(4), FieldDefinitionId(5)]);
    let g = FieldDefinition { schema: &s, item: FieldDefinitionId(1) };
    assert!(!g.has_required_fields(SubgraphId(2)));
    assert!(g.required_fields(SubgraphId(2)).0.is_empty());
    let required = f.required_fields(SubgraphId(2));
    let walker = FieldResolverWalker { resolver: ResolverId(4), field_requires: &required };
    assert_eq!(walker.field_requires.0.len(), 3);
}
