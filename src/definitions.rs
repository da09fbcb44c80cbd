//! Definitions of a set of subgraphs, as read during schema composition.
use vstd::prelude::*;

verus! {

/// An interned string.
#[derive(Debug, Clone, Copy, PartialEq, Eq, Hash, Structural)]
pub struct StringId(pub usize);

/// A subgraph.
#[derive(Debug, Clone, Copy, PartialEq, Eq, Hash, Structural)]
pub struct SubgraphId(pub usize);

/// A definition: its position among all definitions.
#[derive(Debug, Clone, Copy, PartialEq, Eq, Hash, Structural)]
pub struct DefinitionId(pub usize);

/// The directives applied at one site.
#[derive(Debug, Clone, Copy, PartialEq, Eq, Hash, Structural)]
pub struct DirectiveSiteId(pub usize);

/// What a definition defines.
#[derive(Debug, Clone, Copy, PartialEq, Eq, Structural)]
pub enum DefinitionKind {
    Object,
    Interface,
    Union,
    InputObject,
    Scalar,
    Enum,
}

/// One type definition of one subgraph.
#[derive(Debug, Clone, Copy, PartialEq, Eq, Structural)]
pub struct Definition {
    pub subgraph_id: SubgraphId,
    pub name: StringId,
    pub kind: DefinitionKind,
    pub description: Option<StringId>,
    pub directives: DirectiveSiteId,
}

/// Interned strings, definitions ordered by subgraph, and the
/// (interface, implementer) pairs declared.
pub struct Subgraphs {
    strings: Vec<String>,
    definitions: Vec<Definition>,
    interface_impls: Vec<(StringId, StringId)>,
}

impl Subgraphs {
    pub closed spec fn strings(&self) -> Seq<Seq<char>> {
        self.strings@.map_values(|s: String| s@)
    }

    pub closed spec fn definitions(&self) -> Seq<Definition> {
        self.definitions@
    }

    /// The declared (interface, implementer) pairs.
    pub closed spec fn interface_impls(&self) -> Set<(StringId, StringId)> {
        self.interface_impls@.to_set()
    }

    /// Definitions are ordered by subgraph and name interned strings.
    pub open spec fn wf(&self) -> bool {
        &&& forall|i: int, j: int|
            0 <= i <= j < self.definitions().len() ==> (#[trigger] self.definitions()[i]).subgraph_id.0
                <= (#[trigger] self.definitions()[j]).subgraph_id.0
        &&& forall|i: int|
            0 <= i < self.definitions().len() ==> (#[trigger] self.definitions()[i]).name.0
                < self.strings().len()
        &&& forall|i: int|
            0 <= i < self.definitions().len() ==> ((#[trigger] self.definitions()[i]).description
                matches Some(d) ==> d.0 < self.strings().len())
        &&& forall|a: int, b: int|
            0 <= a < b < self.strings().len() ==> #[trigger] self.strings()[a]
                != #[trigger] self.strings()[b]
    }

    /// Nothing defined.
    pub fn new() -> (r: Subgraphs)
        ensures
            r.wf(),
            r.strings().len() == 0,
            r.definitions().len() == 0,
            r.interface_impls() == Set::<(StringId, StringId)>::empty(),
    {
        let r = Subgraphs { strings: Vec::new(), definitions: Vec::new(), interface_impls: Vec::new() };
        assert(r.interface_impls() =~= Set::<(StringId, StringId)>::empty());
        r
    }

    /// The id of `s`, interning it when new.
    pub fn intern(&mut self, s: &str) -> (r: StringId)
        requires
            old(self).wf(),
        ensures
            final(self).wf(),
            r.0 < final(self).strings().len(),
            final(self).strings()[r.0 as int] == s@,
            final(self).strings() == old(self).strings() || (final(self).strings() == old(
                self,
            ).strings().push(s@) && !old(self).strings().contains(s@)),
            final(self).definitions() == old(self).definitions(),
            final(self).interface_impls() == old(self).interface_impls(),
    {
        let owned = String::from_str(s);
        let mut i: usize = 0;
        while i < self.strings.len()
            invariant
                i <= self.strings@.len(),
                owned@ == s@,
                *self == *old(self),
                self.wf(),
                forall|j: int| 0 <= j < i ==> #[trigger] self.strings()[j] != s@,
            decreases self.strings@.len() - i,
        {
            if self.strings[i] == owned {
                return StringId(i);
            }
            i = i + 1;
        }
        let ghost before = self.strings();
        proof {
            if before.contains(s@) {
                let j = choose|j: int| 0 <= j < before.len() && before[j] == s@;
                assert(self.strings()[j] != s@);
            }
        }
        self.strings.push(owned);
        assert(self.strings() =~= before.push(s@));
        proof {
            assert forall|a: int, b: int|
                0 <= a < b < self.strings().len() implies #[trigger] self.strings()[a]
                != #[trigger] self.strings()[b] by {
                if b == before.len() {
                    assert(self.strings()[a] == before[a]);
                    assert(self.strings()[a] != s@);
                } else {
                    assert(before[a] != before[b]);
                }
            }
        }
        StringId(self.strings.len() - 1)
    }

    /// The latest definition named `name` in `subgraph_id`.
    pub fn definition_by_name_id(&self, name: StringId, subgraph_id: SubgraphId) -> (r: Option<
        DefinitionId,
    >)
        ensures
            match r {
                Some(id) => id.0 < self.definitions().len() && self.definitions()[id.0 as int].name
                    == name && self.definitions()[id.0 as int].subgraph_id == subgraph_id && forall|
                    j: int,
                |
                    id.0 < j < self.definitions().len() ==> !(
                    #[trigger] self.definitions()[j].name == name && self.definitions()[j].subgraph_id
                        == subgraph_id),
                None => forall|j: int|
                    0 <= j < self.definitions().len() ==> !(
                    #[trigger] self.definitions()[j].name == name && self.definitions()[j].subgraph_id
                        == subgraph_id),
            },
    {
        let mut i: usize = self.definitions.len();
        while i > 0
            invariant
                i <= self.definitions@.len(),
                forall|j: int|
                    i <= j < self.definitions@.len() ==> !(#[trigger] self.definitions@[j].name == name
                        && self.definitions@[j].subgraph_id == subgraph_id),
            decreases i,
        {
            i = i - 1;
            let d = &self.definitions[i];
            if d.name == name && d.subgraph_id == subgraph_id {
                return Some(DefinitionId(i));
            }
        }
        None
    }

    /// The latest definition named `name` in `subgraph_id`, which must exist.
    pub fn definition_by_name(&mut self, name: &str, subgraph_id: SubgraphId) -> (r: DefinitionId)
        requires
            old(self).wf(),
            exists|j: int|
                0 <= j < old(self).definitions().len() && old(self).strings()[(
                #[trigger] old(self).definitions()[j]).name.0 as int] == name@
                    && old(self).definitions()[j].subgraph_id == subgraph_id,
        ensures
            final(self).wf(),
            r.0 < final(self).definitions().len(),
            final(self).strings()[final(self).definitions()[r.0 as int].name.0 as int] == name@,
            final(self).definitions()[r.0 as int].subgraph_id == subgraph_id,
            final(self).definitions() == old(self).definitions(),
    {
        let ghost j = choose|j: int|
            0 <= j < old(self).definitions().len() && old(self).strings()[(
            #[trigger] old(self).definitions()[j]).name.0 as int] == name@
                && old(self).definitions()[j].subgraph_id == subgraph_id;
        let ghost n = self.definitions()[j].name.0;
        let interned = self.intern(name);
        proof {
            assert(old(self).strings()[n as int] == name@);
            assert(n < old(self).strings().len());
            assert(old(self).strings().contains(name@));
            assert(self.strings() == old(self).strings());
            if interned.0 != n {
                if interned.0 < n {
                    assert(old(self).strings()[interned.0 as int] != old(self).strings()[n as int]);
                } else {
                    assert(old(self).strings()[n as int] != old(self).strings()[interned.0 as int]);
                }
            }
            assert(interned.0 == n);
        }
        match self.definition_by_name_id(interned, subgraph_id) {
            Some(id) => id,
            None => {
                proof {
                    assert(self.definitions()[j].name == interned);
                }
                DefinitionId(0)
            },
        }
    }

    /// The definitions named `name`, with their subgraphs, in definition order.
    pub fn iter_definitions_with_name(&self, name: StringId) -> (r: Vec<(SubgraphId, DefinitionId)>)
        ensures
            forall|k: int|
                0 <= k < r@.len() ==> (#[trigger] r@[k]).1.0 < self.definitions().len()
                    && self.definitions()[r@[k].1.0 as int].name == name
                    && self.definitions()[r@[k].1.0 as int].subgraph_id == r@[k].0,
            forall|j: int|
                0 <= j < self.definitions().len() && #[trigger] self.definitions()[j].name == name
                    ==> r@.contains((self.definitions()[j].subgraph_id, DefinitionId(j as usize))),
    {
        let mut r: Vec<(SubgraphId, DefinitionId)> = Vec::new();
        let mut i: usize = 0;
        while i < self.definitions.len()
            invariant
                i <= self.definitions@.len(),
                forall|k: int|
                    0 <= k < r@.len() ==> (#[trigger] r@[k]).1.0 < self.definitions@.len()
                        && self.definitions@[r@[k].1.0 as int].name == name
                        && self.definitions@[r@[k].1.0 as int].subgraph_id == r@[k].0,
                forall|j: int|
                    0 <= j < i && #[trigger] self.definitions@[j].name == name ==> r@.contains(
                        (self.definitions@[j].subgraph_id, DefinitionId(j as usize)),
                    ),
            decreases self.definitions@.len() - i,
        {
            let d = self.definitions[i];
            if d.name == name {
                let ghost before = r@;
                r.push((d.subgraph_id, DefinitionId(i)));
                proof {
                    assert(r@[r@.len() - 1] == (d.subgraph_id, DefinitionId(i)));
                    assert forall|j: int|
                        0 <= j < i && #[trigger] self.definitions@[j].name == name implies r@.contains(
                            (self.definitions@[j].subgraph_id, DefinitionId(j as usize)),
                        ) by {
                        let k = choose|k: int|
                            0 <= k < before.len() && before[k] == (
                                self.definitions@[j].subgraph_id,
                                DefinitionId(j as usize),
                            );
                        assert(r@[k] == before[k]);
                    }
                }
            }
            i = i + 1;
        }
        r
    }

    /// All declared (interface, implementer) pairs.
    pub fn iter_interface_impls(&self) -> (r: Vec<(StringId, StringId)>)
        ensures
            r@.to_set() == self.interface_impls(),
    {
        let mut r: Vec<(StringId, StringId)> = Vec::new();
        let mut i: usize = 0;
        while i < self.interface_impls.len()
            invariant
                i <= self.interface_impls@.len(),
                r@ == self.interface_impls@.subrange(0, i as int),
            decreases self.interface_impls@.len() - i,
        {
            r.push(self.interface_impls[i]);
            i = i + 1;
            assert(r@ =~= self.interface_impls@.subrange(0, i as int));
        }
        assert(r@ =~= self.interface_impls@);
        r
    }

    /// The implementers declared for `interface_name`.
    pub fn iter_implementers_for_interface(&self, interface_name: StringId) -> (r: Vec<StringId>)
        ensures
            forall|s: StringId| r@.contains(s) <==> self.interface_impls().contains((interface_name, s)),
    {
        let ghost all = self.interface_impls@;
        let mut r: Vec<StringId> = Vec::new();
        let mut i: usize = 0;
        assert(all.subrange(0, 0).to_set() =~= Set::<(StringId, StringId)>::empty());
        assert(r@.to_set() =~= Set::<StringId>::empty());
        while i < self.interface_impls.len()
            invariant
                all == self.interface_impls@,
                i <= all.len(),
                forall|s: StringId|
                    #[trigger] r@.to_set().contains(s) <==> all.subrange(0, i as int).to_set().contains(
                        (interface_name, s),
                    ),
            decreases all.len() - i,
        {
            let (a, b) = self.interface_impls[i];
            let ghost before = r@;
            proof {
                assert(all.subrange(0, i as int + 1) =~= all.subrange(0, i as int).push((a, b)));
                crate::attrs::lemma_push_to_set(all.subrange(0, i as int), (a, b));
            }
            if a == interface_name {
                r.push(b);
                proof {
                    crate::attrs::lemma_push_to_set(before, b);
                }
            }
            i = i + 1;
        }
        proof {
            assert(all.subrange(0, i as int) =~= all);
            assert forall|s: StringId| r@.contains(s) <==> self.interface_impls().contains((interface_name, s)) by {
                assert(r@.contains(s) == r@.to_set().contains(s));
            }
        }
        r
    }

    /// Adds a definition. Definitions come subgraph by subgraph.
    pub fn push_definition(
        &mut self,
        subgraph_id: SubgraphId,
        name: &str,
        kind: DefinitionKind,
        description: Option<StringId>,
        directives: DirectiveSiteId,
    ) -> (r: DefinitionId)
        requires
            old(self).wf(),
            old(self).definitions().len() > 0 ==> old(self).definitions().last().subgraph_id.0
                <= subgraph_id.0,
            description matches Some(d) ==> d.0 < old(self).strings().len(),
        ensures
            final(self).wf(),
            r.0 == old(self).definitions().len(),
            final(self).definitions().len() == old(self).definitions().len() + 1,
            final(self).definitions().drop_last() == old(self).definitions(),
            final(self).definitions().last().subgraph_id == subgraph_id,
            final(self).strings()[final(self).definitions().last().name.0 as int] == name@,
            final(self).definitions().last().kind == kind,
            final(self).definitions().last().description == description,
            final(self).definitions().last().directives == directives,
            final(self).interface_impls() == old(self).interface_impls(),
    {
        let interned = self.intern(name);
        let definition = Definition { subgraph_id, name: interned, kind, description, directives };
        let ghost before = self.definitions();
        self.definitions.push(definition);
        proof {
            assert(self.definitions().drop_last() =~= before);
            assert forall|i: int, j: int|
                0 <= i <= j < self.definitions().len() implies (#[trigger] self.definitions()[i]).subgraph_id.0
                <= (#[trigger] self.definitions()[j]).subgraph_id.0 by {
                if j == before.len() && i < j {
                    assert(before[i].subgraph_id.0 <= before.last().subgraph_id.0);
                }
            }
        }
        DefinitionId(self.definitions.len() - 1)
    }

    /// Declares that `implementer` implements `implemented_interface`.
    pub fn push_interface_impl(&mut self, implementer: StringId, implemented_interface: StringId)
        requires
            old(self).wf(),
        ensures
            final(self).wf(),
            final(self).interface_impls() == old(self).interface_impls().insert(
                (implemented_interface, implementer),
            ),
            final(self).definitions() == old(self).definitions(),
            final(self).strings() == old(self).strings(),
    {
        let pair = (implemented_interface, implementer);
        let mut i: usize = 0;
        while i < self.interface_impls.len()
            invariant
                i <= self.interface_impls@.len(),
                *self == *old(self),
                self.wf(),
                pair == (implemented_interface, implementer),
            decreases self.interface_impls@.len() - i,
        {
            let (a, b) = self.interface_impls[i];
            if a == implemented_interface && b == implementer {
                proof {
                    assert(self.interface_impls@[i as int] == pair);
                    assert(self.interface_impls@.contains(pair));
                    assert(self.interface_impls().contains(pair));
                    assert(self.interface_impls() =~= old(self).interface_impls().insert(pair));
                }
                return;
            }
            i = i + 1;
        }
        let ghost before = self.interface_impls@;
        self.interface_impls.push(pair);
        proof {
            crate::attrs::lemma_push_to_set(before, pair);
            assert(self.strings() == old(self).strings());
            assert(self.definitions() == old(self).definitions());
        }
    }

    /// The interned string `id`.
    pub fn string(&self, id: StringId) -> (r: &String)
        requires
            id.0 < self.strings().len(),
        ensures
            r@ == self.strings()[id.0 as int],
    {
        &self.strings[id.0]
    }
}

/// A definition, read through the subgraphs that hold it.
pub struct DefinitionWalker<'a> {
    pub subgraphs: &'a Subgraphs,
    pub id: DefinitionId,
}

impl<'a> DefinitionWalker<'a> {
    /// The walker points at a definition.
    pub open spec fn valid(&self) -> bool {
        self.subgraphs.wf() && self.id.0 < self.subgraphs.definitions().len()
    }

    pub open spec fn spec_definition(&self) -> Definition {
        self.subgraphs.definitions()[self.id.0 as int]
    }

    fn definition(&self) -> (r: Definition)
        requires
            self.valid(),
        ensures
            r == self.spec_definition(),
    {
        self.subgraphs.definitions[self.id.0]
    }

    /// The definition's name.
    pub fn name(&self) -> (r: &'a String)
        requires
            self.valid(),
        ensures
            r@ == self.subgraphs.strings()[self.spec_definition().name.0 as int],
    {
        let subgraphs: &'a Subgraphs = self.subgraphs;
        let d = self.definition();
        subgraphs.string(d.name)
    }

    /// What the definition defines.
    pub fn kind(&self) -> (r: DefinitionKind)
        requires
            self.valid(),
        ensures
            r == self.spec_definition().kind,
    {
        self.definition().kind
    }

    /// The definition's description, if it has one.
    pub fn description(&self) -> (r: Option<&'a String>)
        requires
            self.valid(),
        ensures
            match self.spec_definition().description {
                Some(d) => r matches Some(s) && s@ == self.subgraphs.strings()[d.0 as int],
                None => r is None,
            },
    {
        let subgraphs: &'a Subgraphs = self.subgraphs;
        match self.definition().description {
            Some(d) => Some(subgraphs.string(d)),
            None => None,
        }
    }

    /// The subgraph that holds the definition.
    pub fn subgraph_id(&self) -> (r: SubgraphId)
        requires
            self.valid(),
        ensures
            r == self.spec_definition().subgraph_id,
    {
        self.definition().subgraph_id
    }

    /// The subgraph that holds the definition, to walk.
    pub fn subgraph(&self) -> (r: SubgraphWalker<'a>)
        requires
            self.valid(),
        ensures
            r.subgraphs == self.subgraphs,
            r.id == self.spec_definition().subgraph_id,
    {
        SubgraphWalker { subgraphs: self.subgraphs, id: self.subgraph_id() }
    }

    /// The directives applied to the definition.
    pub fn directives(&self) -> (r: DirectiveSiteId)
        requires
            self.valid(),
        ensures
            r == self.spec_definition().directives,
    {
        self.definition().directives
    }
}

/// One subgraph, read through the subgraphs that hold it.
pub struct SubgraphWalker<'a> {
    pub subgraphs: &'a Subgraphs,
    pub id: SubgraphId,
}

impl<'a> SubgraphWalker<'a> {
    /// The definitions of this subgraph, in order.
    pub fn definitions(&self) -> (r: Vec<DefinitionWalker<'a>>)
        ensures
            forall|k: int|
                0 <= k < r@.len() ==> (#[trigger] r@[k]).subgraphs == self.subgraphs && r@[k].id.0
                    < self.subgraphs.definitions().len() && self.subgraphs.definitions()[r@[k].id.0 as int].subgraph_id
                    == self.id,
            forall|k: int, l: int| 0 <= k < l < r@.len() ==> (#[trigger] r@[k]).id.0 < (#[trigger] r@[l]).id.0,
            forall|j: int|
                0 <= j < self.subgraphs.definitions().len() && (#[trigger] self.subgraphs.definitions()[j]).subgraph_id
                    == self.id ==> exists|k: int| 0 <= k < r@.len() && r@[k].id.0 == j,
    {
        let subgraphs: &'a Subgraphs = self.subgraphs;
        let defs = &subgraphs.definitions;
        let mut r: Vec<DefinitionWalker<'a>> = Vec::new();
        let mut i: usize = 0;
        while i < defs.len()
            invariant
                defs@ == self.subgraphs.definitions(),
                subgraphs == self.subgraphs,
                i <= defs@.len(),
                forall|k: int|
                    0 <= k < r@.len() ==> (#[trigger] r@[k]).subgraphs == self.subgraphs && r@[k].id.0 < i
                        && defs@[r@[k].id.0 as int].subgraph_id == self.id,
                forall|k: int, l: int| 0 <= k < l < r@.len() ==> (#[trigger] r@[k]).id.0 < (#[trigger] r@[l]).id.0,
                forall|j: int|
                    0 <= j < i && (#[trigger] defs@[j]).subgraph_id == self.id ==> exists|k: int|
                        0 <= k < r@.len() && r@[k].id.0 == j,
            decreases defs@.len() - i,
        {
            if defs[i].subgraph_id == self.id {
                let ghost before = r@;
                r.push(DefinitionWalker { subgraphs, id: DefinitionId(i) });
                proof {
                    assert forall|j: int|
                        0 <= j < i + 1 && (#[trigger] defs@[j]).subgraph_id == self.id implies exists|k: int|
                            0 <= k < r@.len() && r@[k].id.0 == j by {
                        if j < i {
                            let k = choose|k: int| 0 <= k < before.len() && before[k].id.0 == j;
                            assert(r@[k] == before[k]);
                        } else {
                            assert(r@[before.len() as int].id.0 == j);
                        }
                    }
                }
            }
            i = i + 1;
        }
        r
    }

    /// The definitions in this subgraph of the implementers declared for
    /// `interface_name`.
    pub fn interface_implementers(&self, interface_name: StringId) -> (r: Vec<DefinitionWalker<'a>>)
        ensures
            forall|k: int|
                0 <= k < r@.len() ==> (#[trigger] r@[k]).subgraphs == self.subgraphs && r@[k].id.0
                    < self.subgraphs.definitions().len() && self.subgraphs.definitions()[r@[k].id.0 as int].subgraph_id
                    == self.id && self.subgraphs.interface_impls().contains(
                    (interface_name, self.subgraphs.definitions()[r@[k].id.0 as int].name),
                ),
    {
        let subgraphs: &'a Subgraphs = self.subgraphs;
        let implementers = subgraphs.iter_implementers_for_interface(interface_name);
        let mut r: Vec<DefinitionWalker<'a>> = Vec::new();
        let mut i: usize = 0;
        while i < implementers.len()
            invariant
                subgraphs == self.subgraphs,
                i <= implementers@.len(),
                forall|s: StringId|
                    implementers@.contains(s) <==> self.subgraphs.interface_impls().contains(
                        (interface_name, s),
                    ),
                forall|k: int|
                    0 <= k < r@.len() ==> (#[trigger] r@[k]).subgraphs == self.subgraphs && r@[k].id.0
                        < self.subgraphs.definitions().len()
                        && self.subgraphs.definitions()[r@[k].id.0 as int].subgraph_id == self.id
                        && self.subgraphs.interface_impls().contains(
                        (interface_name, self.subgraphs.definitions()[r@[k].id.0 as int].name),
                    ),
            decreases implementers@.len() - i,
        {
            let implementer = implementers[i];
            assert(implementers@.contains(implementer));
            match subgraphs.definition_by_name_id(implementer, self.id) {
                Some(id) => {
                    r.push(DefinitionWalker { subgraphs, id });
                },
                None => {},
            }
            i = i + 1;
        }
        r
    }
}

} // verus!
