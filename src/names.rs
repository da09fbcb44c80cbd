//! Reserved attribute and column names, shared by both dialects and by every
//! reader of the rows they write.
use vstd::prelude::*;

verus! {

/// Partition key.
pub const PK: &'static str = "__pk";

/// Sort key.
pub const SK: &'static str = "__sk";

/// Entity type.
pub const TYPE: &'static str = "__type";

/// Creation time.
pub const CREATED_AT: &'static str = "__created_at";

/// Last update time.
pub const UPDATED_AT: &'static str = "__updated_at";

/// Owner set.
pub const OWNED_BY: &'static str = "__owned_by";

/// Type index, partition part.
pub const TYPE_INDEX_PK: &'static str = "__gsi1pk";

/// Type index, sort part.
pub const TYPE_INDEX_SK: &'static str = "__gsi1sk";

/// Inverted index, partition part.
pub const INVERTED_INDEX_PK: &'static str = "__gsi2pk";

/// Inverted index, sort part.
pub const INVERTED_INDEX_SK: &'static str = "__gsi2sk";

/// Relation-name set of a relation row.
pub const RELATION_NAMES: &'static str = "__relation_names";

/// The reserved names are pairwise distinct.
pub proof fn lemma_reserved_names_distinct()
    ensures
        PK@ != SK@,
        CREATED_AT@ != UPDATED_AT@,
        CREATED_AT@ != PK@,
        CREATED_AT@ != SK@,
        CREATED_AT@ != TYPE@,
        CREATED_AT@ != OWNED_BY@,
        CREATED_AT@ != TYPE_INDEX_PK@,
        CREATED_AT@ != TYPE_INDEX_SK@,
        CREATED_AT@ != INVERTED_INDEX_PK@,
        CREATED_AT@ != INVERTED_INDEX_SK@,
        CREATED_AT@ != RELATION_NAMES@,
        UPDATED_AT@ != PK@,
        UPDATED_AT@ != SK@,
        UPDATED_AT@ != TYPE@,
        UPDATED_AT@ != OWNED_BY@,
        UPDATED_AT@ != TYPE_INDEX_PK@,
        UPDATED_AT@ != TYPE_INDEX_SK@,
        UPDATED_AT@ != INVERTED_INDEX_PK@,
        UPDATED_AT@ != INVERTED_INDEX_SK@,
        UPDATED_AT@ != RELATION_NAMES@,
        OWNED_BY@ != PK@,
        OWNED_BY@ != SK@,
        OWNED_BY@ != TYPE@,
        OWNED_BY@ != TYPE_INDEX_PK@,
        OWNED_BY@ != TYPE_INDEX_SK@,
        OWNED_BY@ != INVERTED_INDEX_PK@,
        OWNED_BY@ != INVERTED_INDEX_SK@,
        OWNED_BY@ != RELATION_NAMES@,
{
    reveal_strlit("__pk");
    reveal_strlit("__sk");
    reveal_strlit("__type");
    reveal_strlit("__created_at");
    reveal_strlit("__updated_at");
    reveal_strlit("__owned_by");
    reveal_strlit("__gsi1pk");
    reveal_strlit("__gsi1sk");
    reveal_strlit("__gsi2pk");
    reveal_strlit("__gsi2sk");
    reveal_strlit("__relation_names");
    assert(PK@[2] != SK@[2]);
    assert(CREATED_AT@[2] != UPDATED_AT@[2]);
    assert(CREATED_AT@.len() != PK@.len());
    assert(CREATED_AT@.len() != SK@.len());
    assert(CREATED_AT@.len() != TYPE@.len());
    assert(CREATED_AT@.len() != OWNED_BY@.len());
    assert(CREATED_AT@.len() != TYPE_INDEX_PK@.len());
    assert(CREATED_AT@.len() != TYPE_INDEX_SK@.len());
    assert(CREATED_AT@.len() != INVERTED_INDEX_PK@.len());
    assert(CREATED_AT@.len() != INVERTED_INDEX_SK@.len());
    assert(CREATED_AT@.len() != RELATION_NAMES@.len());
    assert(UPDATED_AT@.len() != PK@.len());
    assert(UPDATED_AT@.len() != SK@.len());
    assert(UPDATED_AT@.len() != TYPE@.len());
    assert(UPDATED_AT@.len() != OWNED_BY@.len());
    assert(UPDATED_AT@.len() != TYPE_INDEX_PK@.len());
    assert(UPDATED_AT@.len() != TYPE_INDEX_SK@.len());
    assert(UPDATED_AT@.len() != INVERTED_INDEX_PK@.len());
    assert(UPDATED_AT@.len() != INVERTED_INDEX_SK@.len());
    assert(UPDATED_AT@.len() != RELATION_NAMES@.len());
    assert(OWNED_BY@.len() != PK@.len());
    assert(OWNED_BY@.len() != SK@.len());
    assert(OWNED_BY@.len() != TYPE@.len());
    assert(OWNED_BY@.len() != TYPE_INDEX_PK@.len());
    assert(OWNED_BY@.len() != TYPE_INDEX_SK@.len());
    assert(OWNED_BY@.len() != INVERTED_INDEX_PK@.len());
    assert(OWNED_BY@.len() != INVERTED_INDEX_SK@.len());
    assert(OWNED_BY@.len() != RELATION_NAMES@.len());
}

} // verus!
