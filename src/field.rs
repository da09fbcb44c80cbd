//! Field definitions of a composed schema, read through a walker.
use vstd::prelude::*;
use crate::attrs::seq_union;
use crate::definitions::{StringId, SubgraphId};

verus! {

/// A field definition: its position in the schema.
#[derive(Debug, Clone, Copy, PartialEq, Eq, Hash, Structural)]
pub struct FieldDefinitionId(pub usize);

/// An argument definition: its position in the schema.
#[derive(Debug, Clone, Copy, PartialEq, Eq, Hash, Structural)]
pub struct InputValueDefinitionId(pub usize);

/// A resolver.
#[derive(Debug, Clone, Copy, PartialEq, Eq, Hash, Structural)]
pub struct ResolverId(pub usize);

/// An object or interface that owns fields.
#[derive(Debug, Clone, Copy, PartialEq, Eq, Hash, Structural)]
pub struct EntityId(pub usize);

/// A type reference.
#[derive(Debug, Clone, Copy, PartialEq, Eq, Hash, Structural)]
pub struct TypeId(pub usize);

/// A set of required fields: its position in the schema.
#[derive(Debug, Clone, Copy, PartialEq, Eq, Hash, Structural)]
pub struct RequiredFieldSetId(pub usize);

/// A directive applied in the schema: its position in the schema.
#[derive(Debug, Clone, Copy, PartialEq, Eq, Hash, Structural)]
pub struct DirectiveId(pub usize);

/// Fields that a subgraph provides along with a field.
#[derive(Debug)]
pub struct ProvidableFieldSet(pub Vec<FieldDefinitionId>);

/// Fields that must be fetched before a field can be resolved.
#[derive(Debug)]
pub struct RequiredFieldSet(pub Vec<FieldDefinitionId>);

/// What a field provides when resolved in one subgraph.
pub struct FieldProvides {
    pub subgraph_id: SubgraphId,
    pub field_set: ProvidableFieldSet,
}

/// What a field requires when resolved in one subgraph.
#[derive(Debug, Clone, Copy, PartialEq, Eq, Structural)]
pub struct FieldRequires {
    pub subgraph_id: SubgraphId,
    pub field_set_id: RequiredFieldSetId,
}

/// What the schema stores of a directive: the fields it requires, if any.
#[derive(Debug, Clone, Copy, PartialEq, Eq, Structural)]
pub struct TypeSystemDirectiveRecord {
    pub required_fields: Option<RequiredFieldSetId>,
}

/// A resolver of a field with the fields that the field requires there.
pub struct FieldResolverWalker<'a> {
    pub resolver: ResolverId,
    pub field_requires: &'a RequiredFieldSet,
}

/// What the schema stores of a field.
pub struct FieldDefinitionRecord {
    pub name_id: StringId,
    pub resolver_ids: Vec<ResolverId>,
    /// Empty when the field resolves in every subgraph.
    pub only_resolvable_in_ids: Vec<SubgraphId>,
    pub parent_entity_id: EntityId,
    pub argument_ids: Vec<InputValueDefinitionId>,
    pub ty: TypeId,
    pub provides: Vec<FieldProvides>,
    pub requires: Vec<FieldRequires>,
    pub directive_ids: Vec<DirectiveId>,
}

/// What the schema stores of an argument.
#[derive(Debug, Clone, Copy, PartialEq, Eq, Structural)]
pub struct InputValueDefinitionRecord {
    pub name_id: StringId,
    pub ty: TypeId,
}

/// Strings, fields and arguments of a composed schema.
pub struct Schema {
    pub strings: Vec<String>,
    pub field_definitions: Vec<FieldDefinitionRecord>,
    pub input_value_definitions: Vec<InputValueDefinitionRecord>,
    pub required_field_sets: Vec<RequiredFieldSet>,
    pub directives: Vec<TypeSystemDirectiveRecord>,
}

impl Schema {
    /// Every id held points into the schema.
    pub open spec fn wf(&self) -> bool {
        &&& forall|i: int|
            0 <= i < self.field_definitions@.len() ==> (#[trigger] self.field_definitions@[i]).name_id.0
                < self.strings@.len()
        &&& forall|i: int, j: int|
            0 <= i < self.field_definitions@.len() && 0 <= j
                < self.field_definitions@[i].argument_ids@.len() ==> (#[trigger] self.field_definitions@[i].argument_ids@[j]).0
                < self.input_value_definitions@.len()
        &&& forall|i: int|
            0 <= i < self.input_value_definitions@.len() ==> (
            #[trigger] self.input_value_definitions@[i]).name_id.0 < self.strings@.len()
        &&& forall|i: int, j: int|
            0 <= i < self.field_definitions@.len() && 0 <= j
                < self.field_definitions@[i].requires@.len() ==> (#[trigger] self.field_definitions@[i].requires@[j]).field_set_id.0
                < self.required_field_sets@.len()
        &&& forall|i: int, j: int|
            0 <= i < self.field_definitions@.len() && 0 <= j
                < self.field_definitions@[i].directive_ids@.len() ==> (#[trigger] self.field_definitions@[i].directive_ids@[j]).0
                < self.directives@.len()
        &&& forall|i: int|
            0 <= i < self.directives@.len() ==> ((#[trigger] self.directives@[i]).required_fields
                matches Some(id) ==> id.0 < self.required_field_sets@.len())
    }

    /// The fields of required set `id`.
    pub open spec fn required_set(&self, id: RequiredFieldSetId) -> Seq<FieldDefinitionId> {
        self.required_field_sets@[id.0 as int].0@
    }
}

/// A field definition, read through its schema.
pub struct FieldDefinition<'a> {
    pub schema: &'a Schema,
    pub item: FieldDefinitionId,
}

impl<'a> FieldDefinition<'a> {
    /// The walker points at a field of a well-formed schema.
    pub open spec fn valid(&self) -> bool {
        self.schema.wf() && self.item.0 < self.schema.field_definitions@.len()
    }

    pub open spec fn record(&self) -> FieldDefinitionRecord {
        self.schema.field_definitions@[self.item.0 as int]
    }

    /// The field's name.
    pub fn name(&self) -> (r: &'a String)
        requires
            self.valid(),
        ensures
            r == self.schema.strings@[self.record().name_id.0 as int],
    {
        let schema: &'a Schema = self.schema;
        let id = schema.field_definitions[self.item.0].name_id;
        &schema.strings[id.0]
    }

    /// The resolvers of the field, in order.
    pub fn resolvers(&self) -> (r: Vec<ResolverId>)
        requires
            self.valid(),
        ensures
            r@ == self.record().resolver_ids@,
    {
        let ids = &self.schema.field_definitions[self.item.0].resolver_ids;
        let mut r: Vec<ResolverId> = Vec::new();
        let mut i: usize = 0;
        while i < ids.len()
            invariant
                i <= ids@.len(),
                r@ == ids@.subrange(0, i as int),
            decreases ids@.len() - i,
        {
            r.push(ids[i]);
            i = i + 1;
            assert(r@ =~= ids@.subrange(0, i as int));
        }
        assert(r@ =~= ids@);
        r
    }

    /// Whether the field can be resolved in `subgraph_id`: it can anywhere
    /// unless restricted to some subgraphs.
    pub fn is_resolvable_in(&self, subgraph_id: SubgraphId) -> (r: bool)
        requires
            self.valid(),
        ensures
            r == (self.record().only_resolvable_in_ids@.len() == 0
                || self.record().only_resolvable_in_ids@.contains(subgraph_id)),
    {
        let ids = &self.schema.field_definitions[self.item.0].only_resolvable_in_ids;
        if ids.len() == 0 {
            return true;
        }
        let mut i: usize = 0;
        while i < ids.len()
            invariant
                i <= ids@.len(),
                ids@ == self.record().only_resolvable_in_ids@,
                forall|j: int| 0 <= j < i ==> #[trigger] ids@[j] != subgraph_id,
            decreases ids@.len() - i,
        {
            if ids[i] == subgraph_id {
                assert(ids@[i as int] == subgraph_id);
                return true;
            }
            i = i + 1;
        }
        false
    }

    /// The entity the field belongs to.
    pub fn parent_entity(&self) -> (r: EntityId)
        requires
            self.valid(),
        ensures
            r == self.record().parent_entity_id,
    {
        self.schema.field_definitions[self.item.0].parent_entity_id
    }

    /// The arguments of the field, in order.
    pub fn arguments(&self) -> (r: Vec<InputValueDefinitionId>)
        requires
            self.valid(),
        ensures
            r@ == self.record().argument_ids@,
    {
        let ids = &self.schema.field_definitions[self.item.0].argument_ids;
        let mut r: Vec<InputValueDefinitionId> = Vec::new();
        let mut i: usize = 0;
        while i < ids.len()
            invariant
                i <= ids@.len(),
                r@ == ids@.subrange(0, i as int),
            decreases ids@.len() - i,
        {
            r.push(ids[i]);
            i = i + 1;
            assert(r@ =~= ids@.subrange(0, i as int));
        }
        assert(r@ =~= ids@);
        r
    }

    /// The field's type.
    pub fn ty(&self) -> (r: TypeId)
        requires
            self.valid(),
        ensures
            r == self.record().ty,
    {
        self.schema.field_definitions[self.item.0].ty
    }

    /// The first argument named `name`.
    pub fn argument_by_name(&self, name: &str) -> (r: Option<InputValueDefinitionId>)
        requires
            self.valid(),
        ensures
            match r {
                Some(id) => exists|k: int|
                    0 <= k < self.record().argument_ids@.len() && self.record().argument_ids@[k] == id
                        && self.schema.strings@[self.schema.input_value_definitions@[id.0 as int].name_id.0 as int]@
                        == name@ && forall|l: int|
                        0 <= l < k ==> #[trigger] self.schema.strings@[self.schema.input_value_definitions@[self.record().argument_ids@[l].0 as int].name_id.0 as int]@
                            != name@,
                None => forall|l: int|
                    0 <= l < self.record().argument_ids@.len() ==> #[trigger] self.schema.strings@[self.schema.input_value_definitions@[self.record().argument_ids@[l].0 as int].name_id.0 as int]@
                        != name@,
            },
    {
        let schema: &'a Schema = self.schema;
        let ids = &schema.field_definitions[self.item.0].argument_ids;
        let wanted = String::from_str(name);
        let mut i: usize = 0;
        while i < ids.len()
            invariant
                schema == self.schema,
                self.valid(),
                ids@ == self.record().argument_ids@,
                wanted@ == name@,
                i <= ids@.len(),
                forall|l: int|
                    0 <= l < i ==> #[trigger] schema.strings@[schema.input_value_definitions@[ids@[l].0 as int].name_id.0 as int]@
                        != name@,
            decreases ids@.len() - i,
        {
            let arg = schema.input_value_definitions[ids[i].0];
            if schema.strings[arg.name_id.0] == wanted {
                return Some(ids[i]);
            }
            i = i + 1;
        }
        None
    }
}

/// Adds to `a` each id of `b` that it does not hold yet.
pub fn union_ids(a: &mut Vec<FieldDefinitionId>, b: &Vec<FieldDefinitionId>)
    ensures
        final(a)@ == seq_union(old(a)@, b@),
{
    let mut i: usize = 0;
    while i < b.len()
        invariant
            i <= b@.len(),
            a@ == seq_union(old(a)@, b@.subrange(0, i as int)),
        decreases b@.len() - i,
    {
        proof {
            let s = b@.subrange(0, i as int + 1);
            assert(s.drop_last() =~= b@.subrange(0, i as int));
        }
        let x = b[i];
        let mut j: usize = 0;
        let mut found = false;
        while j < a.len()
            invariant
                j <= a@.len(),
                found == exists|k: int| 0 <= k < j && a@[k] == x,
            decreases a@.len() - j,
        {
            if a[j] == x {
                found = true;
            }
            j = j + 1;
        }
        if !found {
            a.push(x);
        }
        i = i + 1;
    }
    assert(b@.subrange(0, i as int) =~= b@);
}

/// The fields required by the directives among `ids`, in order, united.
pub open spec fn directives_required(schema: &Schema, ids: Seq<DirectiveId>) -> Seq<FieldDefinitionId>
    decreases ids.len(),
{
    if ids.len() == 0 {
        Seq::empty()
    } else {
        let rest = directives_required(schema, ids.drop_last());
        match schema.directives@[ids.last().0 as int].required_fields {
            Some(id) => seq_union(rest, schema.required_set(id)),
            None => rest,
        }
    }
}

/// Some directive among `ids` requires fields.
pub open spec fn directives_require(schema: &Schema, ids: Seq<DirectiveId>) -> bool {
    exists|j: int| 0 <= j < ids.len() && (#[trigger] schema.directives@[ids[j].0 as int]).required_fields is Some
}

/// The first provides entry for subgraph `sg`, if any.
pub open spec fn first_provides(p: Seq<FieldProvides>, sg: SubgraphId) -> Option<int> {
    if exists|k: int| 0 <= k < p.len() && p[k].subgraph_id == sg {
        Some(choose|k: int| 0 <= k < p.len() && p[k].subgraph_id == sg && forall|l: int| 0 <= l < k ==> p[l].subgraph_id != sg)
    } else {
        None
    }
}

/// The first requirement for subgraph `sg`, if any.
pub open spec fn first_requires(r: Seq<FieldRequires>, sg: SubgraphId) -> Option<int> {
    if exists|k: int| 0 <= k < r.len() && r[k].subgraph_id == sg {
        Some(choose|k: int| 0 <= k < r.len() && r[k].subgraph_id == sg && forall|l: int| 0 <= l < k ==> r[l].subgraph_id != sg)
    } else {
        None
    }
}

impl<'a> FieldDefinition<'a> {
    /// The directives applied to the field, in order.
    pub fn directives(&self) -> (r: Vec<DirectiveId>)
        requires
            self.valid(),
        ensures
            r@ == self.record().directive_ids@,
    {
        let ids = &self.schema.field_definitions[self.item.0].directive_ids;
        let mut r: Vec<DirectiveId> = Vec::new();
        let mut i: usize = 0;
        while i < ids.len()
            invariant
                i <= ids@.len(),
                r@ == ids@.subrange(0, i as int),
            decreases ids@.len() - i,
        {
            r.push(ids[i]);
            i = i + 1;
            assert(r@ =~= ids@.subrange(0, i as int));
        }
        assert(r@ =~= ids@);
        r
    }

    /// The fields that `subgraph_id` provides with this field: those of the
    /// first matching entry, none when there is none.
    pub fn provides(&self, subgraph_id: SubgraphId) -> (r: ProvidableFieldSet)
        requires
            self.valid(),
        ensures
            match first_provides(self.record().provides@, subgraph_id) {
                Some(k) => r.0@ == self.record().provides@[k].field_set.0@,
                None => r.0@.len() == 0,
            },
    {
        let provides = &self.schema.field_definitions[self.item.0].provides;
        let mut i: usize = 0;
        while i < provides.len()
            invariant
                i <= provides@.len(),
                provides@ == self.record().provides@,
                forall|l: int| 0 <= l < i ==> provides@[l].subgraph_id != subgraph_id,
            decreases provides@.len() - i,
        {
            if provides[i].subgraph_id == subgraph_id {
                let ids = &provides[i].field_set.0;
                let mut r: Vec<FieldDefinitionId> = Vec::new();
                let mut j: usize = 0;
                while j < ids.len()
                    invariant
                        j <= ids@.len(),
                        r@ == ids@.subrange(0, j as int),
                    decreases ids@.len() - j,
                {
                    r.push(ids[j]);
                    j = j + 1;
                    assert(r@ =~= ids@.subrange(0, j as int));
                }
                assert(r@ =~= ids@);
                proof {
                    let p = self.record().provides@;
                    assert(exists|k: int| 0 <= k < p.len() && p[k].subgraph_id == subgraph_id);
                    let k = choose|k: int| 0 <= k < p.len() && p[k].subgraph_id == subgraph_id && forall|l: int| 0 <= l < k ==> p[l].subgraph_id != subgraph_id;
                    if k < i {
                    } else if k > i {
                    }
                    assert(k == i as int);
                }
                return ProvidableFieldSet(r);
            }
            i = i + 1;
        }
        ProvidableFieldSet(Vec::new())
    }

    /// Whether the field requires fields in `subgraph_id`, by its own
    /// requirements there or by its directives.
    pub fn has_required_fields(&self, subgraph_id: SubgraphId) -> (r: bool)
        requires
            self.valid(),
        ensures
            r == ((exists|k: int| 0 <= k < self.record().requires@.len() && (#[trigger] self.record().requires@[k]).subgraph_id == subgraph_id)
                || directives_require(self.schema, self.record().directive_ids@)),
    {
        let reqs = &self.schema.field_definitions[self.item.0].requires;
        let mut i: usize = 0;
        while i < reqs.len()
            invariant
                i <= reqs@.len(),
                reqs@ == self.record().requires@,
                forall|l: int| 0 <= l < i ==> (#[trigger] reqs@[l]).subgraph_id != subgraph_id,
            decreases reqs@.len() - i,
        {
            if reqs[i].subgraph_id == subgraph_id {
                assert(reqs@[i as int].subgraph_id == subgraph_id);
                return true;
            }
            i = i + 1;
        }
        let ids = &self.schema.field_definitions[self.item.0].directive_ids;
        let mut j: usize = 0;
        while j < ids.len()
            invariant
                self.valid(),
                j <= ids@.len(),
                ids@ == self.record().directive_ids@,
                forall|l: int| 0 <= l < j ==> (#[trigger] self.schema.directives@[ids@[l].0 as int]).required_fields is None,
            decreases ids@.len() - j,
        {
            if self.schema.directives[ids[j].0].required_fields.is_some() {
                assert(self.schema.directives@[ids@[j as int].0 as int].required_fields is Some);
                return true;
            }
            j = j + 1;
        }
        false
    }

    /// The fields required in `subgraph_id`: those of the field's directives,
    /// then those of its first requirement there, united.
    pub fn required_fields(&self, subgraph_id: SubgraphId) -> (r: RequiredFieldSet)
        requires
            self.valid(),
        ensures
            r.0@ == match first_requires(self.record().requires@, subgraph_id) {
                Some(k) => seq_union(
                    directives_required(self.schema, self.record().directive_ids@),
                    self.schema.required_set(self.record().requires@[k].field_set_id),
                ),
                None => directives_required(self.schema, self.record().directive_ids@),
            },
    {
        let schema: &'a Schema = self.schema;
        let record = &schema.field_definitions[self.item.0];
        let ids = &record.directive_ids;
        let mut r: Vec<FieldDefinitionId> = Vec::new();
        let mut j: usize = 0;
        assert(ids@.subrange(0, 0) =~= Seq::<DirectiveId>::empty());
        while j < ids.len()
            invariant
                self.valid(),
                schema == self.schema,
                j <= ids@.len(),
                ids@ == self.record().directive_ids@,
                r@ == directives_required(schema, ids@.subrange(0, j as int)),
            decreases ids@.len() - j,
        {
            proof {
                let s = ids@.subrange(0, j as int + 1);
                assert(s.drop_last() =~= ids@.subrange(0, j as int));
                assert(s.last() == ids@[j as int]);
            }
            match schema.directives[ids[j].0].required_fields {
                Some(id) => union_ids(&mut r, &schema.required_field_sets[id.0].0),
                None => {},
            }
            j = j + 1;
        }
        assert(ids@.subrange(0, j as int) =~= ids@);
        let reqs = &record.requires;
        let mut i: usize = 0;
        while i < reqs.len()
            invariant
                self.valid(),
                schema == self.schema,
                i <= reqs@.len(),
                reqs@ == self.record().requires@,
                r@ == directives_required(schema, self.record().directive_ids@),
                forall|l: int| 0 <= l < i ==> reqs@[l].subgraph_id != subgraph_id,
            decreases reqs@.len() - i,
        {
            if reqs[i].subgraph_id == subgraph_id {
                proof {
                    let q = reqs@;
                    assert(exists|k: int| 0 <= k < q.len() && q[k].subgraph_id == subgraph_id);
                    let k = choose|k: int| 0 <= k < q.len() && q[k].subgraph_id == subgraph_id && forall|l: int| 0 <= l < k ==> q[l].subgraph_id != subgraph_id;
                    assert(forall|l: int| 0 <= l < i ==> q[l].subgraph_id != subgraph_id);
                    if k < i {
                    } else if k > i {
                    }
                    assert(k == i as int);
                }
                union_ids(&mut r, &schema.required_field_sets[reqs[i].field_set_id.0].0);
                return RequiredFieldSet(r);
            }
            i = i + 1;
        }
        RequiredFieldSet(r)
    }
}

} // verus!
