//! Statement templates of the embedded relational dialect. Each row is a
//! document plus indexed columns; parameters are named (`?name`) or, for lists,
//! positional (`?`).
use vstd::prelude::*;
use crate::attrs::AttrMap;

verus! {

/// Inserts a whole row.
pub const INSERT_QUERY: &'static str = "INSERT INTO records (pk, sk, entity_type, created_at, updated_at, gsi1pk, gsi1sk, gsi2pk, gsi2sk, relation_names, document) VALUES (?pk, ?sk, ?entity_type, ?created_at, ?updated_at, ?gsi1pk, ?gsi1sk, ?gsi2pk, ?gsi2sk, ?relation_names, ?document)";

/// Deletes a row by its keys.
pub const DELETE_QUERY: &'static str = "DELETE FROM records WHERE pk = ?pk AND sk = ?sk";

/// Keeps only rows whose owner set holds `?owned_by`.
pub const OWNER_FILTER: &'static str = " AND EXISTS (SELECT 1 FROM json_each(document, '$.__owned_by.SS') WHERE value = ?owned_by)";

/// Selects a row by its keys.
pub const WHERE_KEYS: &'static str = " WHERE pk = ?pk AND sk = ?sk";

/// Start of an update that patches the document and the update time.
pub const UPDATE_HEAD: &'static str = "UPDATE records SET updated_at = ?updated_at, document = json_set(json_patch(document, ?document)";

/// Start of a relation upsert.
pub const RELATION_UPSERT_HEAD: &'static str = " ON CONFLICT (pk, sk) DO UPDATE SET updated_at = excluded.updated_at, document = excluded.document, relation_names = json_insert(relation_names";

/// Start of an update of relation names.
pub const RELATIONS_UPDATE_HEAD: &'static str = "UPDATE records SET updated_at = ?updated_at, document = json_patch(document, ?document), relation_names = json_insert((SELECT json_group_array(value) FROM json_each(relation_names) WHERE value NOT IN (";

/// Appends one element to a JSON array.
pub const APPEND_ONE: &'static str = ", '$[#]', ?";

/// A bound value.
pub enum SqlValue {
    Text(String),
    Null,
    List(Vec<String>),
    /// The attribute map, stored as a self-describing document.
    Document(AttrMap),
}

/// `s` repeated `n` times.
pub open spec fn repeat(s: Seq<char>, n: nat) -> Seq<char>
    decreases n,
{
    if n == 0 {
        Seq::empty()
    } else {
        repeat(s, (n - 1) as nat) + s
    }
}

/// `n` positional parameters, comma separated.
pub open spec fn placeholders(n: nat) -> Seq<char>
    decreases n,
{
    if n == 0 {
        Seq::empty()
    } else if n == 1 {
        "?"@
    } else {
        placeholders((n - 1) as nat) + ", ?"@
    }
}

/// Writes `s` `n` times.
pub fn repeat_text(s: &str, n: usize) -> (r: String)
    ensures
        r@ == repeat(s@, n as nat),
{
    let mut r = String::new();
    let mut i: usize = 0;
    while i < n
        invariant
            i <= n,
            r@ == repeat(s@, i as nat),
        decreases n - i,
    {
        r.append(s);
        i = i + 1;
    }
    r
}

/// Writes `n` positional parameters.
pub fn placeholder_list(n: usize) -> (r: String)
    ensures
        r@ == placeholders(n as nat),
{
    let mut r = String::new();
    let mut i: usize = 0;
    while i < n
        invariant
            i <= n,
            r@ == placeholders(i as nat),
        decreases n - i,
    {
        if i == 0 {
            r.append("?");
        } else {
            r.append(", ?");
        }
        i = i + 1;
    }
    r
}

/// The path of the number of attribute `f`.
pub open spec fn number_path(f: Seq<char>) -> Seq<char> {
    "'$."@ + f + ".N'"@
}

/// Adds a parameter to the number of attribute `f`.
pub open spec fn increment_fragment(f: Seq<char>) -> Seq<char> {
    ", "@ + number_path(f) + ", json_extract(document, "@ + number_path(f) + ") + ?"@
}

/// The increments of fields `fs`, in order.
pub open spec fn increment_fragments(fs: Seq<Seq<char>>) -> Seq<char>
    decreases fs.len(),
{
    if fs.len() == 0 {
        Seq::empty()
    } else {
        increment_fragments(fs.drop_last()) + increment_fragment(fs.last())
    }
}

/// An update statement adding to the numbers of fields `fs`.
pub open spec fn update_query(fs: Seq<Seq<char>>, filter_by_owner: bool) -> Seq<char> {
    UPDATE_HEAD@ + increment_fragments(fs) + ")"@ + WHERE_KEYS@ + if filter_by_owner {
        OWNER_FILTER@
    } else {
        Seq::empty()
    }
}

/// A delete statement.
pub open spec fn delete_query(filter_by_owner: bool) -> Seq<char> {
    DELETE_QUERY@ + if filter_by_owner {
        OWNER_FILTER@
    } else {
        Seq::empty()
    }
}

/// An upsert of a relation row adding `added` names.
pub open spec fn insert_relation_query(added: nat) -> Seq<char> {
    INSERT_QUERY@ + RELATION_UPSERT_HEAD@ + repeat(APPEND_ONE@, added) + ")"@
}

/// An update of a relation row removing `removed` names and adding `added`.
pub open spec fn relations_update_query(removed: nat, added: nat) -> Seq<char> {
    RELATIONS_UPDATE_HEAD@ + placeholders(removed) + "))"@ + repeat(APPEND_ONE@, added) + ")"@
        + WHERE_KEYS@
}

pub fn write_update_query(fields: &Vec<String>, filter_by_owner: bool) -> (r: String)
    ensures
        r@ == update_query(fields@.map_values(|f: String| f@), filter_by_owner),
{
    let ghost fs = fields@.map_values(|f: String| f@);
    let mut r = String::from_str(UPDATE_HEAD);
    let mut i: usize = 0;
    while i < fields.len()
        invariant
            i <= fields@.len(),
            fs == fields@.map_values(|f: String| f@),
            r@ == UPDATE_HEAD@ + increment_fragments(fs.subrange(0, i as int)),
        decreases fields@.len() - i,
    {
        let f = fields[i].as_str();
        r.append(", '$.");
        r.append(f);
        r.append(".N', json_extract(document, '$.");
        r.append(f);
        r.append(".N') + ?");
        proof {
            reveal_strlit(", '$.");
            reveal_strlit(".N', json_extract(document, '$.");
            reveal_strlit(".N') + ?");
            reveal_strlit(", ");
            reveal_strlit("'$.");
            reveal_strlit(".N'");
            reveal_strlit(", json_extract(document, ");
            reveal_strlit(") + ?");
            let s = fs.subrange(0, i as int + 1);
            assert(s.drop_last() =~= fs.subrange(0, i as int));
            assert(s.last() == f@);
            assert(r@ =~= UPDATE_HEAD@ + increment_fragments(s));
        }
        i = i + 1;
    }
    assert(fs.subrange(0, i as int) =~= fs);
    r.append(")");
    r.append(WHERE_KEYS);
    if filter_by_owner {
        r.append(OWNER_FILTER);
    }
    r
}

pub fn write_delete_query(filter_by_owner: bool) -> (r: String)
    ensures
        r@ == delete_query(filter_by_owner),
{
    let mut r = String::from_str(DELETE_QUERY);
    if filter_by_owner {
        r.append(OWNER_FILTER);
    }
    assert(r@ =~= delete_query(filter_by_owner));
    r
}

pub fn write_insert_relation_query(added: usize) -> (r: String)
    ensures
        r@ == insert_relation_query(added as nat),
{
    let mut r = String::from_str(INSERT_QUERY);
    r.append(RELATION_UPSERT_HEAD);
    let appends = repeat_text(APPEND_ONE, added);
    r.append(appends.as_str());
    r.append(")");
    assert(r@ =~= insert_relation_query(added as nat));
    r
}

pub fn write_relations_update_query(removed: usize, added: usize) -> (r: String)
    ensures
        r@ == relations_update_query(removed as nat, added as nat),
{
    let mut r = String::from_str(RELATIONS_UPDATE_HEAD);
    let params = placeholder_list(removed);
    r.append(params.as_str());
    r.append("))");
    let appends = repeat_text(APPEND_ONE, added);
    r.append(appends.as_str());
    r.append(")");
    r.append(WHERE_KEYS);
    assert(r@ =~= relations_update_query(removed as nat, added as nat));
    r
}

} // verus!
