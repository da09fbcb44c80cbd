//! Authorization predicates: what an owner-restricted request adds to a write.
use vstd::prelude::*;
use crate::attrs::{
    AttrMap, AttrView, AttributeValue, copy_strings, lemma_push_to_set, lemma_seq_union, lookup,
    pairs_insert, seq_union, strings_view, union_strings,
};
use crate::names::OWNED_BY;

verus! {

/// The kind of write being authorized.
#[derive(Debug, Clone, Copy, PartialEq, Eq, Structural)]
pub enum RequestedOperation {
    Create,
    Update,
    Delete,
}

/// How a request is authorized for a write.
#[derive(Debug)]
pub enum OperationAuthorization {
    /// Any row may be written.
    Unrestricted,
    /// Only rows owned by this user may be changed; new rows are owned by them.
    OwnerBased(String),
}

impl OperationAuthorization {
    /// The restricting user, if any.
    pub open spec fn owner(&self) -> Option<Seq<char>> {
        match self {
            OperationAuthorization::Unrestricted => None,
            OperationAuthorization::OwnerBased(u) => Some(u@),
        }
    }

    /// Whether writes are restricted to a user's rows.
    pub fn is_owner_based(&self) -> (r: bool)
        ensures
            r == self.owner() is Some,
    {
        match self {
            OperationAuthorization::Unrestricted => false,
            OperationAuthorization::OwnerBased(_) => true,
        }
    }
}

/// Existence condition of updates and deletes.
pub const EXISTS_CONDITION: &'static str = "attribute_exists(#pk) AND attribute_exists(#sk)";

/// Ownership conjunct appended to the existence condition.
pub const OWNER_CONDITION: &'static str = " AND contains(#owner_attr_name, :owner_val_name)";

/// Placeholder of the owner-set attribute name.
pub const OWNER_NAME_PLACEHOLDER: &'static str = "#owner_attr_name";

/// Placeholder of the requesting user's id.
pub const OWNER_VALUE_PLACEHOLDER: &'static str = ":owner_val_name";

/// The owners that a row's attributes already hold.
pub open spec fn existing_owners(p: Seq<(Seq<char>, AttrView)>) -> Seq<Seq<char>> {
    match lookup(p, OWNED_BY@) {
        Some(AttrView::Ss(owners)) => owners,
        _ => Seq::empty(),
    }
}

/// The owners already held, then `user`, each once.
pub open spec fn owners_with(p: Seq<(Seq<char>, AttrView)>, user: Seq<char>) -> Seq<Seq<char>> {
    seq_union(Seq::empty(), existing_owners(p).push(user))
}

/// A row's attributes after a create under `owner`: the user joins the owner
/// set.
pub open spec fn with_owner(p: Seq<(Seq<char>, AttrView)>, owner: Option<Seq<char>>) -> Seq<
    (Seq<char>, AttrView),
> {
    match owner {
        Some(u) => pairs_insert(p, OWNED_BY@, AttrView::Ss(owners_with(p, u))),
        None => p,
    }
}

/// The owner set grows: it holds the former owners and the user, each once.
pub proof fn lemma_owners_with(p: Seq<(Seq<char>, AttrView)>, user: Seq<char>)
    ensures
        owners_with(p, user).to_set() == existing_owners(p).to_set().insert(user),
        owners_with(p, user).no_duplicates(),
{
    let e = Seq::<Seq<char>>::empty();
    lemma_seq_union(e, existing_owners(p).push(user));
    lemma_push_to_set(existing_owners(p), user);
    assert(e.to_set() =~= Set::<Seq<char>>::empty());
    assert(e.to_set() + existing_owners(p).push(user).to_set() =~= existing_owners(p).to_set().insert(user));
}

/// The owners of `item` with `user` added, each once.
pub fn owners_with_user(item: &AttrMap, user: &String) -> (r: Vec<String>)
    requires
        item.wf(),
    ensures
        strings_view(r@) == owners_with(item.pairs(), user@),
{
    let mut existing: Vec<String> = match item.get(OWNED_BY) {
        Some(AttributeValue::Ss(v)) => copy_strings(v),
        _ => Vec::new(),
    };
    assert(strings_view(existing@) == existing_owners(item.pairs())) by {
        if strings_view(existing@).len() == 0 {
            assert(strings_view(existing@) =~= Seq::<Seq<char>>::empty());
        }
    }
    let ghost before = existing@;
    existing.push(user.clone());
    assert(strings_view(existing@) =~= strings_view(before).push(user@));
    let mut r: Vec<String> = Vec::new();
    assert(strings_view(r@) =~= Seq::<Seq<char>>::empty());
    union_strings(&mut r, existing);
    r
}

/// The condition of an update or delete under `owner`.
pub open spec fn guarded_condition(owner: Option<Seq<char>>) -> Seq<char> {
    match owner {
        Some(_) => EXISTS_CONDITION@ + OWNER_CONDITION@,
        None => EXISTS_CONDITION@,
    }
}

/// For a create: adds the requesting user to the row's owner set.
pub fn inject_owner(auth: &OperationAuthorization, item: &mut AttrMap)
    requires
        old(item).wf(),
    ensures
        final(item).wf(),
        final(item).pairs() == with_owner(old(item).pairs(), auth.owner()),
{
    match auth {
        OperationAuthorization::Unrestricted => {},
        OperationAuthorization::OwnerBased(user) => {
            let owners = owners_with_user(item, user);
            item.insert(String::from_str(OWNED_BY), AttributeValue::Ss(owners));
        },
    }
}

/// For an update or a delete: the condition, with the ownership conjunct when
/// owner-restricted, and the placeholder bindings that the conjunct needs.
pub fn owner_condition(
    auth: &OperationAuthorization,
    names: &mut Vec<(String, String)>,
    values: &mut Vec<(String, AttributeValue)>,
) -> (cond: String)
    ensures
        cond@ == guarded_condition(auth.owner()),
        final(names)@.len() == old(names)@.len() + if auth.owner() is Some { 1int } else { 0 },
        final(values)@.len() == old(values)@.len() + if auth.owner() is Some { 1int } else { 0 },
        forall|i: int| 0 <= i < old(names)@.len() ==> final(names)@[i] == old(names)@[i],
        forall|i: int| 0 <= i < old(values)@.len() ==> final(values)@[i] == old(values)@[i],
        auth.owner() matches Some(u) ==> final(names)@.last().0@ == OWNER_NAME_PLACEHOLDER@
            && final(names)@.last().1@ == OWNED_BY@
            && final(values)@.last().0@ == OWNER_VALUE_PLACEHOLDER@
            && final(values)@.last().1@ == AttrView::S(u),
{
    let mut cond = String::from_str(EXISTS_CONDITION);
    match auth {
        OperationAuthorization::Unrestricted => {},
        OperationAuthorization::OwnerBased(user) => {
            cond.append(OWNER_CONDITION);
            names.push((String::from_str(OWNER_NAME_PLACEHOLDER), String::from_str(OWNED_BY)));
            values.push((String::from_str(OWNER_VALUE_PLACEHOLDER), AttributeValue::S(user.clone())));
        },
    }
    cond
}

} // verus!
