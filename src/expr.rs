//! Update expressions of the distributed store, with their placeholder bindings.
use vstd::prelude::*;
use crate::attrs::{AttrMap, AttrPairs, AttrView, AttributeValue, strings_view};
use crate::auth::OWNER_NAME_PLACEHOLDER;
use crate::names::{OWNED_BY, RELATION_NAMES};

verus! {

/// The placeholder standing for attribute name `k`.
pub open spec fn name_placeholder(k: Seq<char>) -> Seq<char> {
    "#f"@ + k
}

/// The placeholder of the value assigned to `k`.
pub open spec fn set_placeholder(k: Seq<char>) -> Seq<char> {
    ":s"@ + k
}

/// The placeholder of the amount added to `k`.
pub open spec fn increment_placeholder(k: Seq<char>) -> Seq<char> {
    ":i"@ + k
}

/// One element of a section: `#fk = :sk` or `#fk :ik`.
pub open spec fn section_element(k: Seq<char>, increments: bool) -> Seq<char> {
    if increments {
        name_placeholder(k) + " "@ + increment_placeholder(k)
    } else {
        name_placeholder(k) + " = "@ + set_placeholder(k)
    }
}

/// The elements of a section for each key of `p`, comma separated.
pub open spec fn section(p: AttrPairs, increments: bool) -> Seq<char>
    decreases p.len(),
{
    if p.len() == 0 {
        Seq::empty()
    } else if p.len() == 1 {
        section_element(p[0].0, increments)
    } else {
        section(p.drop_last(), increments) + ", "@ + section_element(p.last().0, increments)
    }
}

/// The name bindings of a section.
pub open spec fn name_bindings(p: AttrPairs) -> Seq<(Seq<char>, Seq<char>)> {
    p.map_values(|e: (Seq<char>, AttrView)| (name_placeholder(e.0), e.0))
}

/// The value bindings of a section.
pub open spec fn value_bindings(p: AttrPairs, increments: bool) -> AttrPairs {
    p.map_values(
        |e: (Seq<char>, AttrView)|
            (if increments {
                increment_placeholder(e.0)
            } else {
                set_placeholder(e.0)
            }, e.1),
    )
}

pub open spec fn names_view(v: Seq<(String, String)>) -> Seq<(Seq<char>, Seq<char>)> {
    v.map_values(|e: (String, String)| (e.0@, e.1@))
}

pub open spec fn values_view(v: Seq<(String, AttributeValue)>) -> AttrPairs {
    v.map_values(|e: (String, AttributeValue)| (e.0@, e.1@))
}

/// Writes the section of `p` and appends its bindings.
pub fn bind_section(
    p: &AttrMap,
    increments: bool,
    names: &mut Vec<(String, String)>,
    values: &mut Vec<(String, AttributeValue)>,
) -> (r: String)
    ensures
        r@ == section(p.pairs(), increments),
        names_view(final(names)@) == names_view(old(names)@) + name_bindings(p.pairs()),
        values_view(final(values)@) == values_view(old(values)@) + value_bindings(
            p.pairs(),
            increments,
        ),
{
    let ghost ps = p.pairs();
    let mut r = String::new();
    let mut i: usize = 0;
    while i < p.len()
        invariant
            ps == p.pairs(),
            i <= ps.len(),
            r@ == section(ps.subrange(0, i as int), increments),
            names_view(names@) == names_view(old(names)@) + name_bindings(
                ps.subrange(0, i as int),
            ),
            values_view(values@) == values_view(old(values)@) + value_bindings(
                ps.subrange(0, i as int),
                increments,
            ),
        decreases ps.len() - i,
    {
        let k = p.key_at(i);
        let v = p.value_at(i);
        if i > 0 {
            r.append(", ");
        }
        let mut name = String::from_str("#f");
        name.append(k.as_str());
        r.append(name.as_str());
        let mut placeholder = if increments {
            String::from_str(":i")
        } else {
            String::from_str(":s")
        };
        placeholder.append(k.as_str());
        if increments {
            r.append(" ");
        } else {
            r.append(" = ");
        }
        r.append(placeholder.as_str());
        let ghost names_before = names@;
        let ghost values_before = values@;
        let ghost name_v = name@;
        let ghost placeholder_v = placeholder@;
        names.push((name, k.clone()));
        values.push((placeholder, v.duplicate()));
        proof {
            assert(names_view(names@) =~= names_view(names_before).push((name_v, k@)));
            assert(values_view(values@) =~= values_view(values_before).push((placeholder_v, v@)));
            let s = ps.subrange(0, i as int + 1);
            assert(s.drop_last() =~= ps.subrange(0, i as int));
            assert(s.last() == ps[i as int]);
            if i == 0 {
                assert(s[0] == ps[0]);
                assert(r@ =~= section(s, increments));
            } else {
                assert(r@ =~= section(s, increments));
            }
            assert(name_bindings(s) =~= name_bindings(ps.subrange(0, i as int)).push(
                (name_placeholder(k@), k@),
            ));
            assert(names_view(names@) =~= names_view(old(names)@) + name_bindings(s));
            assert(value_bindings(s, increments) =~= value_bindings(
                ps.subrange(0, i as int),
                increments,
            ).push((if increments { increment_placeholder(k@) } else { set_placeholder(k@) }, v@)));
            assert(values_view(values@) =~= values_view(old(values)@) + value_bindings(
                s,
                increments,
            ));
        }
        i = i + 1;
    }
    assert(ps.subrange(0, i as int) =~= ps);
    r
}

/// Placeholder of the relation-name set attribute.
pub const RELATION_NAMES_PLACEHOLDER: &'static str = "#relation_names";

/// Placeholder of the names added to a relation.
pub const RELATIONS_ADDED_PLACEHOLDER: &'static str = ":r_add";

/// Placeholder of the names removed from a relation.
pub const RELATIONS_REMOVED_PLACEHOLDER: &'static str = ":r_remove";

/// Placeholder of the owners added to a row's owner set.
pub const OWNERS_PLACEHOLDER: &'static str = ":owners";

/// `a` and `b` joined by a comma where both are present.
pub open spec fn join_nonempty(a: Seq<char>, b: Seq<char>) -> Seq<char> {
    if a.len() == 0 {
        b
    } else if b.len() == 0 {
        a
    } else {
        a + ", "@ + b
    }
}

/// The addition of names to the relation-name set, if any.
pub open spec fn names_added_piece(added: Seq<Seq<char>>) -> Seq<char> {
    if added.len() > 0 {
        RELATION_NAMES_PLACEHOLDER@ + " "@ + RELATIONS_ADDED_PLACEHOLDER@
    } else {
        Seq::empty()
    }
}

/// The addition of owners to the owner set, if any.
pub open spec fn owners_piece(owners: Seq<Seq<char>>) -> Seq<char> {
    if owners.len() > 0 {
        OWNER_NAME_PLACEHOLDER@ + " "@ + OWNERS_PLACEHOLDER@
    } else {
        Seq::empty()
    }
}

/// Everything an update adds: to numbers, to the relation-name set, to the
/// owner set.
pub open spec fn add_body(increments: AttrPairs, added: Seq<Seq<char>>, owners: Seq<Seq<char>>) -> Seq<char> {
    join_nonempty(join_nonempty(section(increments, true), names_added_piece(added)), owners_piece(owners))
}

/// The update expression of a row: assignments, then one clause of
/// additions, then the names removed from the relation-name set.
pub open spec fn update_expression(
    item: AttrPairs,
    increments: AttrPairs,
    added: Seq<Seq<char>>,
    removed: Seq<Seq<char>>,
    owners: Seq<Seq<char>>,
) -> Seq<char> {
    let adds = add_body(increments, added, owners);
    "SET "@ + section(item, false) + (if adds.len() > 0 {
        " ADD "@ + adds
    } else {
        Seq::empty()
    }) + (if removed.len() > 0 {
        " DELETE "@ + RELATION_NAMES_PLACEHOLDER@ + " "@ + RELATIONS_REMOVED_PLACEHOLDER@
    } else {
        Seq::empty()
    })
}

pub open spec fn relation_names_bindings(added: Seq<Seq<char>>, removed: Seq<Seq<char>>) -> Seq<
    (Seq<char>, Seq<char>),
> {
    if added.len() > 0 || removed.len() > 0 {
        seq![(RELATION_NAMES_PLACEHOLDER@, RELATION_NAMES@)]
    } else {
        Seq::empty()
    }
}

pub open spec fn relation_values_bindings(added: Seq<Seq<char>>, removed: Seq<Seq<char>>) -> AttrPairs {
    (if added.len() > 0 {
        seq![(RELATIONS_ADDED_PLACEHOLDER@, AttrView::Ss(added))]
    } else {
        Seq::empty()
    }) + (if removed.len() > 0 {
        seq![(RELATIONS_REMOVED_PLACEHOLDER@, AttrView::Ss(removed))]
    } else {
        Seq::empty()
    })
}

/// The name bindings of an update expression.
pub open spec fn update_names(
    item: AttrPairs,
    increments: AttrPairs,
    added: Seq<Seq<char>>,
    removed: Seq<Seq<char>>,
    owners: Seq<Seq<char>>,
) -> Seq<(Seq<char>, Seq<char>)> {
    name_bindings(item) + name_bindings(increments) + relation_names_bindings(added, removed) + if owners.len() > 0 {
        seq![(OWNER_NAME_PLACEHOLDER@, OWNED_BY@)]
    } else {
        Seq::empty()
    }
}

/// The value bindings of an update expression.
pub open spec fn update_values(
    item: AttrPairs,
    increments: AttrPairs,
    added: Seq<Seq<char>>,
    removed: Seq<Seq<char>>,
    owners: Seq<Seq<char>>,
) -> AttrPairs {
    value_bindings(item, false) + value_bindings(increments, true) + relation_values_bindings(
        added,
        removed,
    ) + if owners.len() > 0 {
        seq![(OWNERS_PLACEHOLDER@, AttrView::Ss(owners))]
    } else {
        Seq::empty()
    }
}

fn join_into(a: String, b: &str) -> (r: String)
    ensures
        r@ == join_nonempty(a@, b@),
{
    if a.as_str().unicode_len() == 0 {
        String::from_str(b)
    } else if b.unicode_len() == 0 {
        a
    } else {
        let mut r = a;
        r.append(", ");
        r.append(b);
        r
    }
}

/// Writes the update expression of a row and appends its bindings.
#[verifier::rlimit(50)]
pub fn to_update_expression(
    item: &AttrMap,
    increments: &AttrMap,
    added: Vec<String>,
    removed: Vec<String>,
    owners: Vec<String>,
    names: &mut Vec<(String, String)>,
    values: &mut Vec<(String, AttributeValue)>,
) -> (r: String)
    ensures
        r@ == update_expression(
            item.pairs(),
            increments.pairs(),
            strings_view(added@),
            strings_view(removed@),
            strings_view(owners@),
        ),
        names_view(final(names)@) == names_view(old(names)@) + update_names(
            item.pairs(),
            increments.pairs(),
            strings_view(added@),
            strings_view(removed@),
            strings_view(owners@),
        ),
        values_view(final(values)@) == values_view(old(values)@) + update_values(
            item.pairs(),
            increments.pairs(),
            strings_view(added@),
            strings_view(removed@),
            strings_view(owners@),
        ),
{
    let ghost n0 = names_view(names@);
    let ghost v0 = values_view(values@);
    let ghost av = strings_view(added@);
    let ghost rv = strings_view(removed@);
    let ghost ov = strings_view(owners@);
    let mut r = String::from_str("SET ");
    let sets = bind_section(item, false, names, values);
    r.append(sets.as_str());
    let ghost n1 = names_view(names@);
    let ghost v1 = values_view(values@);
    let incs = bind_section(increments, true, names, values);
    let ghost n2 = names_view(names@);
    let ghost v2 = values_view(values@);
    assert(n2 =~= n0 + name_bindings(item.pairs()) + name_bindings(increments.pairs()));
    assert(v2 =~= v0 + value_bindings(item.pairs(), false) + value_bindings(increments.pairs(), true));
    let added_len = added.len();
    let removed_len = removed.len();
    let owners_len = owners.len();
    let mut names_piece = String::new();
    if added_len > 0 {
        names_piece.append(RELATION_NAMES_PLACEHOLDER);
        names_piece.append(" ");
        names_piece.append(RELATIONS_ADDED_PLACEHOLDER);
    }
    assert(names_piece@ =~= names_added_piece(av));
    let mut owners_text = String::new();
    if owners_len > 0 {
        owners_text.append(OWNER_NAME_PLACEHOLDER);
        owners_text.append(" ");
        owners_text.append(OWNERS_PLACEHOLDER);
    }
    assert(owners_text@ =~= owners_piece(ov));
    let body = join_into(join_into(incs, names_piece.as_str()), owners_text.as_str());
    if body.as_str().unicode_len() > 0 {
        r.append(" ADD ");
        r.append(body.as_str());
    }
    if removed_len > 0 {
        r.append(" DELETE ");
        r.append(RELATION_NAMES_PLACEHOLDER);
        r.append(" ");
        r.append(RELATIONS_REMOVED_PLACEHOLDER);
    }
    proof {
        assert(r@ =~= update_expression(item.pairs(), increments.pairs(), av, rv, ov));
    }
    if added_len > 0 || removed_len > 0 {
        names.push((String::from_str(RELATION_NAMES_PLACEHOLDER), String::from_str(RELATION_NAMES)));
        assert(names_view(names@) =~= n2.push((RELATION_NAMES_PLACEHOLDER@, RELATION_NAMES@)));
    }
    let ghost n3 = names_view(names@);
    assert(n3 =~= n2 + relation_names_bindings(av, rv));
    if owners_len > 0 {
        names.push((String::from_str(OWNER_NAME_PLACEHOLDER), String::from_str(OWNED_BY)));
        assert(names_view(names@) =~= n3.push((OWNER_NAME_PLACEHOLDER@, OWNED_BY@)));
    } else {
        assert(names_view(names@) =~= n3);
    }
    assert(names_view(names@) =~= n0 + update_names(item.pairs(), increments.pairs(), av, rv, ov));
    if added_len > 0 {
        values.push((String::from_str(RELATIONS_ADDED_PLACEHOLDER), AttributeValue::Ss(added)));
        assert(values_view(values@) =~= v2.push((RELATIONS_ADDED_PLACEHOLDER@, AttrView::Ss(av))));
    }
    let ghost v3 = values_view(values@);
    assert(v3 =~= v2 + if av.len() > 0 {
        seq![(RELATIONS_ADDED_PLACEHOLDER@, AttrView::Ss(av))]
    } else {
        Seq::empty()
    });
    if removed_len > 0 {
        values.push((String::from_str(RELATIONS_REMOVED_PLACEHOLDER), AttributeValue::Ss(removed)));
        assert(values_view(values@) =~= v3.push((RELATIONS_REMOVED_PLACEHOLDER@, AttrView::Ss(rv))));
    }
    let ghost v4 = values_view(values@);
    assert(v4 =~= v2 + relation_values_bindings(av, rv));
    if owners_len > 0 {
        values.push((String::from_str(OWNERS_PLACEHOLDER), AttributeValue::Ss(owners)));
        assert(values_view(values@) =~= v4.push((OWNERS_PLACEHOLDER@, AttrView::Ss(ov))));
    } else {
        assert(values_view(values@) =~= v4);
    }
    assert(values_view(values@) =~= v0 + update_values(item.pairs(), increments.pairs(), av, rv, ov));
    r
}

} // verus!
