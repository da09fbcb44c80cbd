//! Identifier codec: node and constraint identifiers are `type#rest` strings.
use vstd::prelude::*;

verus! {

/// The character between an identifier's type and the rest.
pub const SEPARATOR: char = '#';

/// Malformed identifiers.
#[derive(Debug, PartialEq, Eq, Structural)]
pub enum IdentifierError {
    /// The separator is missing or the type segment is empty.
    InvalidIdentifier,
}

/// `s` holds no separator.
pub open spec fn no_separator(s: Seq<char>) -> bool {
    forall|i: int| 0 <= i < s.len() ==> s[i] != '#'
}

/// A type name that identifiers can carry: not empty, without separator.
pub open spec fn valid_type(ty: Seq<char>) -> bool {
    ty.len() > 0 && no_separator(ty)
}

/// The identifier text of `(ty, id)`.
pub open spec fn node_id_text(ty: Seq<char>, id: Seq<char>) -> Seq<char> {
    ty + seq!['#'] + id
}

/// `s` is `ty#rest` for some valid type.
pub open spec fn is_identifier(s: Seq<char>) -> bool {
    exists|ty: Seq<char>, rest: Seq<char>| valid_type(ty) && s == #[trigger] node_id_text(ty, rest)
}

/// The constraint identifier text: the type, then `#field#value` for each pair.
pub open spec fn constraint_id_text(ty: Seq<char>, fields: Seq<(Seq<char>, Seq<char>)>) -> Seq<char>
    decreases fields.len(),
{
    if fields.len() == 0 {
        ty
    } else {
        let last = fields.last();
        constraint_id_text(ty, fields.drop_last()) + seq!['#'] + last.0 + seq!['#'] + last.1
    }
}

/// The string pairs of a vector, as mathematical values.
pub open spec fn string_pairs_view(v: Seq<(String, String)>) -> Seq<(Seq<char>, Seq<char>)> {
    v.map_values(|p: (String, String)| (p.0@, p.1@))
}

/// Splitting at the first separator recovers the parts it was joined from.
pub proof fn lemma_split_unique(ty: Seq<char>, id: Seq<char>, ty2: Seq<char>, id2: Seq<char>)
    requires
        valid_type(ty),
        valid_type(ty2),
        node_id_text(ty, id) == node_id_text(ty2, id2),
    ensures
        ty == ty2,
        id == id2,
{
    let s = node_id_text(ty, id);
    if ty.len() < ty2.len() {
        assert(s[ty.len() as int] == '#');
        assert(s[ty.len() as int] == ty2[ty.len() as int]);
    } else if ty2.len() < ty.len() {
        assert(s[ty2.len() as int] == '#');
        assert(s[ty2.len() as int] == ty[ty2.len() as int]);
    }
    assert(ty =~= s.subrange(0, ty.len() as int));
    assert(ty2 =~= s.subrange(0, ty2.len() as int));
    assert(id =~= s.subrange(ty.len() as int + 1, s.len() as int));
    assert(id2 =~= s.subrange(ty2.len() as int + 1, s.len() as int));
}

/// Decoding an encoded node identifier gives back its type and id.
pub proof fn lemma_node_id_round_trip(ty: Seq<char>, id: Seq<char>)
    requires
        valid_type(ty),
    ensures
        is_identifier(node_id_text(ty, id)),
        forall|ty2: Seq<char>, id2: Seq<char>|
            valid_type(ty2) && #[trigger] node_id_text(ty2, id2) == node_id_text(ty, id) ==> ty2
                == ty && id2 == id,
{
    assert forall|ty2: Seq<char>, id2: Seq<char>|
        valid_type(ty2) && #[trigger] node_id_text(ty2, id2) == node_id_text(ty, id) implies ty2
        == ty && id2 == id by {
        lemma_split_unique(ty, id, ty2, id2);
    }
}

/// Builds the identifier of the node `id` of type `ty`.
pub fn encode_node_id(ty: &str, id: &str) -> (r: String)
    ensures
        r@ == node_id_text(ty@, id@),
{
    let mut r = String::from_str(ty);
    r.append("#");
    r.append(id);
    proof {
        reveal_strlit("#");
    }
    assert(r@ =~= node_id_text(ty@, id@));
    r
}

/// Splits an identifier at its first separator into type and rest.
pub fn decode_node_id(s: &str) -> (r: Result<(String, String), IdentifierError>)
    ensures
        r is Ok <==> is_identifier(s@),
        r matches Ok((ty, id)) ==> valid_type(ty@) && s@ == node_id_text(ty@, id@),
{
    let n = s.unicode_len();
    let mut i: usize = 0;
    while i < n
        invariant
            n == s@.len(),
            i <= n,
            no_separator(s@.subrange(0, i as int)),
        decreases n - i,
    {
        if s.get_char(i) == '#' {
            if i == 0 {
                proof {
                    assert forall|ty: Seq<char>, rest: Seq<char>|
                        valid_type(ty) && s@ == #[trigger] node_id_text(ty, rest) implies false by {
                        assert(s@[0] == ty[0]);
                    }
                }
                return Err(IdentifierError::InvalidIdentifier);
            }
            let ty = String::from_str(s.substring_char(0, i));
            let id = String::from_str(s.substring_char(i + 1, n));
            assert(s@ =~= node_id_text(ty@, id@));
            return Ok((ty, id));
        }
        assert(s@.subrange(0, i as int + 1) =~= s@.subrange(0, i as int).push(s@[i as int]));
        i = i + 1;
    }
    proof {
        assert forall|ty: Seq<char>, rest: Seq<char>|
            valid_type(ty) && s@ == #[trigger] node_id_text(ty, rest) implies false by {
            let k = ty.len() as int;
            assert(s@[k] == '#');
            assert(s@.subrange(0, n as int)[k] == s@[k]);
        }
    }
    Err(IdentifierError::InvalidIdentifier)
}

/// Builds the identifier of a unique constraint of type `ty` over the given
/// `(field, value)` pairs, in the order given.
pub fn encode_constraint_id(ty: &str, fields: &Vec<(String, String)>) -> (r: String)
    ensures
        r@ == constraint_id_text(ty@, string_pairs_view(fields@)),
{
    proof {
        reveal_strlit("#");
    }
    let mut r = String::from_str(ty);
    let mut i: usize = 0;
    while i < fields.len()
        invariant
            i <= fields@.len(),
            r@ == constraint_id_text(ty@, string_pairs_view(fields@.subrange(0, i as int))),
        decreases fields@.len() - i,
    {
        let ghost before = r@;
        r.append("#");
        r.append(fields[i].0.as_str());
        r.append("#");
        r.append(fields[i].1.as_str());
        proof {
            reveal_strlit("#");
            let p = string_pairs_view(fields@.subrange(0, i as int + 1));
            assert(p.drop_last() =~= string_pairs_view(fields@.subrange(0, i as int)));
            assert(p.last() == (fields@[i as int].0@, fields@[i as int].1@));
            assert(r@ =~= constraint_id_text(ty@, p));
        }
        i = i + 1;
    }
    assert(fields@.subrange(0, i as int) =~= fields@);
    r
}

} // verus!
