//! What the canonical form of a document is good for: it is canonical, it
//! holds the same data as the document, and it is the same for two documents
//! exactly when they differ at most in the order of their objects' members.

use vstd::prelude::*;
use vstd::relations::sorted_by;
use vstd::seq_lib::lemma_sorted_unique;
use crate::json::{
    canonical, canonical_items, canonical_members, first_position, is_canonical, keys_ascend,
    lemma_first_position_by_keys, lemma_first_position_finds, member_keys, member_value,
    sorted_members, well_formed, JsonModel,
};
use crate::text::{lemma_text_order_is_total, text_leq, text_order};

verus! {

/// The sorted keys of an object are its keys, each as often as before.
proof fn lemma_sorted_keys(members: Seq<(Seq<char>, JsonModel)>)
    ensures
        member_keys(sorted_members(members)) == member_keys(members).sort_by(text_order()),
        sorted_by(member_keys(members).sort_by(text_order()), text_order()),
        member_keys(members).sort_by(text_order()).to_multiset() == member_keys(
            members,
        ).to_multiset(),
        forall|key: Seq<char>|
            member_keys(members).sort_by(text_order()).contains(key) ==> member_keys(
                members,
            ).contains(key),
{
    lemma_text_order_is_total();
    member_keys(members).lemma_sort_by_ensures(text_order());
    assert(member_keys(sorted_members(members)) =~= member_keys(members).sort_by(text_order()));
}

/// The canonical form of a well-formed document is canonical.
pub proof fn lemma_canonical_is_canonical(value: JsonModel)
    requires
        well_formed(value),
    ensures
        is_canonical(canonical(value)),
    decreases value,
{
    match value {
        JsonModel::Array(items) => {
            let out = canonical_items(items);
            assert forall|i: int| 0 <= i < out.len() implies is_canonical(#[trigger] out[i]) by {
                assert(well_formed(items[i]));
                lemma_canonical_is_canonical(items[i]);
            }
        },
        JsonModel::Object(members) => {
            let inner = canonical_members(members);
            let out = sorted_members(inner);
            let keys = member_keys(members);
            let sorted = keys.sort_by(text_order());
            assert(member_keys(inner) =~= keys);
            lemma_sorted_keys(inner);
            assert(keys_ascend(sorted)) by {
                keys.lemma_multiset_has_no_duplicates();
                sorted.lemma_multiset_has_no_duplicates_conv();
                let order = text_order();
                assert forall|i: int, j: int| 0 <= i < j < sorted.len() implies #[trigger] sorted[i]
                    != #[trigger] sorted[j] && text_leq(sorted[i], sorted[j]) by {
                    assert(order(sorted[i], sorted[j]));
                }
            }
            assert forall|i: int| 0 <= i < out.len() implies is_canonical(
                (#[trigger] out[i]).1,
            ) by {
                let key = sorted[i];
                assert(sorted.contains(key));
                lemma_first_position_finds(inner, key);
                let at = first_position(inner, key);
                assert(well_formed(members[at].1));
                lemma_canonical_is_canonical(members[at].1);
            }
        },
        _ => {},
    }
}

/// Two documents hold the same data: they differ at most in the order in
/// which objects list their members.
pub open spec fn same_data(a: JsonModel, b: JsonModel) -> bool
    decreases a,
{
    match a {
        JsonModel::Array(items) => {
            &&& b matches JsonModel::Array(others)
            &&& items.len() == others.len()
            &&& forall|i: int| 0 <= i < items.len() ==> same_data(#[trigger] items[i], others[i])
        },
        JsonModel::Object(members) => {
            &&& b matches JsonModel::Object(others)
            &&& member_keys(members).to_multiset() == member_keys(others).to_multiset()
            &&& forall|i: int|
                0 <= i < members.len() ==> same_data(
                    (#[trigger] members[i]).1,
                    member_value(others, members[i].0),
                )
        },
        _ => a == b,
    }
}

/// Documents that hold the same data have the same canonical form: the order
/// in which an object lists its members does not reach the canonical form.
pub proof fn lemma_canonical_ignores_member_order(a: JsonModel, b: JsonModel)
    requires
        same_data(a, b),
    ensures
        canonical(a) == canonical(b),
    decreases a,
{
    match a {
        JsonModel::Array(items) => {
            let others = b->Array_0;
            assert forall|i: int| 0 <= i < items.len() implies canonical(items[i]) == canonical(
                others[i],
            ) by {
                assert(same_data(items[i], others[i]));
                lemma_canonical_ignores_member_order(items[i], others[i]);
            }
            assert(canonical_items(items) =~= canonical_items(others));
        },
        JsonModel::Object(members) => {
            let others = b->Object_0;
            let left = canonical_members(members);
            let right = canonical_members(others);
            assert(member_keys(left) =~= member_keys(members));
            assert(member_keys(right) =~= member_keys(others));
            lemma_sorted_keys(left);
            lemma_sorted_keys(right);
            lemma_text_order_is_total();
            let sorted = member_keys(left).sort_by(text_order());
            lemma_sorted_unique(sorted, member_keys(right).sort_by(text_order()), text_order());
            assert forall|i: int| 0 <= i < sorted.len() implies member_value(left, sorted[i])
                == member_value(right, sorted[i]) by {
                let key = sorted[i];
                assert(sorted.contains(key));
                lemma_first_position_finds(left, key);
                lemma_first_position_finds(right, key);
                lemma_first_position_by_keys(left, members, key);
                lemma_first_position_by_keys(right, others, key);
                let at = first_position(members, key);
                assert(same_data(members[at].1, member_value(others, members[at].0)));
                lemma_canonical_ignores_member_order(members[at].1, member_value(others, key));
            }
            assert(sorted_members(left) =~= sorted_members(right));
        },
        _ => {},
    }
}

/// Among members with distinct keys, each key is first found where it
/// stands.
proof fn lemma_first_position_of_member(members: Seq<(Seq<char>, JsonModel)>, at: int)
    requires
        member_keys(members).no_duplicates(),
        0 <= at < members.len(),
    ensures
        first_position(members, members[at].0) == at,
{
    let key = members[at].0;
    lemma_first_position_finds(members, key);
    let found = first_position(members, key);
    assert(member_keys(members)[at] == key);
    assert(member_keys(members).contains(key));
    assert(member_keys(members)[found] == key);
}

/// Sorting the members of a well-formed object changes their order and
/// nothing else: the canonical form of a well-formed document holds the same
/// data as the document.
pub proof fn lemma_canonical_holds_the_same_data(value: JsonModel)
    requires
        well_formed(value),
    ensures
        same_data(value, canonical(value)),
    decreases value,
{
    match value {
        JsonModel::Array(items) => {
            let out = canonical_items(items);
            assert forall|i: int| 0 <= i < items.len() implies same_data(
                #[trigger] items[i],
                out[i],
            ) by {
                lemma_canonical_holds_the_same_data(items[i]);
            }
        },
        JsonModel::Object(members) => {
            let inner = canonical_members(members);
            let out = sorted_members(inner);
            assert(member_keys(inner) =~= member_keys(members));
            lemma_sorted_keys(inner);
            let sorted = member_keys(inner).sort_by(text_order());
            assert forall|i: int| 0 <= i < members.len() implies same_data(
                (#[trigger] members[i]).1,
                member_value(out, members[i].0),
            ) by {
                let key = members[i].0;
                lemma_first_position_of_member(members, i);
                lemma_first_position_by_keys(inner, members, key);
                assert(member_keys(members)[i] == key);
                assert(member_keys(members).to_multiset().count(key) > 0) by {
                    broadcast use vstd::seq_lib::group_to_multiset_ensures;

                    assert(member_keys(members).contains(key));
                }
                assert(sorted.contains(key)) by {
                    broadcast use vstd::seq_lib::group_to_multiset_ensures;

                    assert(sorted.to_multiset().count(key) > 0);
                }
                lemma_first_position_finds(out, key);
                let at = first_position(out, key);
                assert(member_keys(out)[at] == key);
                assert(out[at].1 == member_value(inner, key));
                assert(member_value(inner, key) == canonical(members[i].1));
                lemma_canonical_holds_the_same_data(members[i].1);
            }
        },
        _ => {},
    }
}

/// Canonical form is stable: sorting what is sorted changes nothing.
pub proof fn lemma_canonical_is_stable(value: JsonModel)
    requires
        well_formed(value),
    ensures
        canonical(canonical(value)) == canonical(value),
{
    lemma_canonical_holds_the_same_data(value);
    lemma_canonical_ignores_member_order(value, canonical(value));
}

/// A key of an object is found among the members of every object that has
/// the same keys.
proof fn lemma_shared_key_is_found(
    members: Seq<(Seq<char>, JsonModel)>,
    others: Seq<(Seq<char>, JsonModel)>,
    at: int,
)
    requires
        member_keys(members).to_multiset() == member_keys(others).to_multiset(),
        0 <= at < members.len(),
    ensures
        0 <= first_position(others, members[at].0) < others.len(),
        others[first_position(others, members[at].0)].0 == members[at].0,
{
    broadcast use vstd::seq_lib::group_to_multiset_ensures;

    let key = members[at].0;
    assert(member_keys(members)[at] == key);
    assert(member_keys(members).contains(key));
    assert(member_keys(members).to_multiset().count(key) > 0);
    assert(member_keys(others).to_multiset().count(key) > 0);
    assert(member_keys(others).contains(key));
    lemma_first_position_finds(others, key);
}

/// A well-formed document holds the same data as itself.
pub proof fn lemma_same_data_reflexive(a: JsonModel)
    requires
        well_formed(a),
    ensures
        same_data(a, a),
    decreases a,
{
    match a {
        JsonModel::Array(items) => {
            assert forall|i: int| 0 <= i < items.len() implies same_data(
                #[trigger] items[i],
                items[i],
            ) by {
                lemma_same_data_reflexive(items[i]);
            }
        },
        JsonModel::Object(members) => {
            assert forall|i: int| 0 <= i < members.len() implies same_data(
                (#[trigger] members[i]).1,
                member_value(members, members[i].0),
            ) by {
                lemma_first_position_of_member(members, i);
                lemma_same_data_reflexive(members[i].1);
            }
        },
        _ => {},
    }
}

/// Holding the same data does not depend on which of two well-formed
/// documents is named first.
pub proof fn lemma_same_data_symmetric(a: JsonModel, b: JsonModel)
    requires
        well_formed(a),
        well_formed(b),
        same_data(a, b),
    ensures
        same_data(b, a),
    decreases a,
{
    match a {
        JsonModel::Array(items) => {
            let others = b->Array_0;
            assert forall|i: int| 0 <= i < others.len() implies same_data(
                #[trigger] others[i],
                items[i],
            ) by {
                assert(same_data(items[i], others[i]));
                lemma_same_data_symmetric(items[i], others[i]);
            }
        },
        JsonModel::Object(members) => {
            let others = b->Object_0;
            assert forall|j: int| 0 <= j < others.len() implies same_data(
                (#[trigger] others[j]).1,
                member_value(members, others[j].0),
            ) by {
                let key = others[j].0;
                lemma_shared_key_is_found(others, members, j);
                let i = first_position(members, key);
                lemma_first_position_of_member(others, j);
                assert(same_data(members[i].1, member_value(others, members[i].0)));
                lemma_same_data_symmetric(members[i].1, others[j].1);
            }
        },
        _ => {},
    }
}

/// Three well-formed documents of which the first holds the same data as the
/// second, and the second as the third: the first holds the same data as the
/// third.
pub proof fn lemma_same_data_transitive(a: JsonModel, b: JsonModel, c: JsonModel)
    requires
        well_formed(a),
        well_formed(b),
        well_formed(c),
        same_data(a, b),
        same_data(b, c),
    ensures
        same_data(a, c),
    decreases a,
{
    match a {
        JsonModel::Array(items) => {
            let middle = b->Array_0;
            let others = c->Array_0;
            assert forall|i: int| 0 <= i < items.len() implies same_data(
                #[trigger] items[i],
                others[i],
            ) by {
                assert(same_data(items[i], middle[i]));
                assert(same_data(middle[i], others[i]));
                lemma_same_data_transitive(items[i], middle[i], others[i]);
            }
        },
        JsonModel::Object(members) => {
            let middle = b->Object_0;
            let others = c->Object_0;
            assert forall|i: int| 0 <= i < members.len() implies same_data(
                (#[trigger] members[i]).1,
                member_value(others, members[i].0),
            ) by {
                let key = members[i].0;
                lemma_shared_key_is_found(members, middle, i);
                let j = first_position(middle, key);
                lemma_shared_key_is_found(middle, others, j);
                let k = first_position(others, key);
                assert(same_data(members[i].1, member_value(middle, key)));
                assert(same_data(middle[j].1, member_value(others, middle[j].0)));
                assert(well_formed(others[k].1));
                lemma_same_data_transitive(members[i].1, middle[j].1, others[k].1);
            }
        },
        _ => {},
    }
}

/// A canonical document is well formed: keys that ascend strictly are
/// distinct.
pub proof fn lemma_canonical_is_well_formed(value: JsonModel)
    requires
        is_canonical(value),
    ensures
        well_formed(value),
    decreases value,
{
    match value {
        JsonModel::Array(items) => {
            assert forall|i: int| 0 <= i < items.len() implies well_formed(#[trigger] items[i]) by {
                lemma_canonical_is_well_formed(items[i]);
            }
        },
        JsonModel::Object(members) => {
            let keys = member_keys(members);
            assert forall|i: int, j: int|
                0 <= i < keys.len() && 0 <= j < keys.len() && i != j implies keys[i] != keys[j] by {
                if i < j {
                    assert(keys[i] != keys[j]);
                } else {
                    assert(keys[j] != keys[i]);
                }
            }
            assert forall|i: int| 0 <= i < members.len() implies well_formed(
                (#[trigger] members[i]).1,
            ) by {
                lemma_canonical_is_well_formed(members[i].1);
            }
        },
        _ => {},
    }
}

/// The canonical form tells exactly which documents hold the same data: two
/// well-formed documents have the same canonical form if and only if they
/// differ at most in the order of their objects' members.
pub proof fn lemma_canonical_form_decides_same_data(a: JsonModel, b: JsonModel)
    requires
        well_formed(a),
        well_formed(b),
    ensures
        canonical(a) == canonical(b) <==> same_data(a, b),
{
    if same_data(a, b) {
        lemma_canonical_ignores_member_order(a, b);
    }
    if canonical(a) == canonical(b) {
        lemma_canonical_holds_the_same_data(a);
        lemma_canonical_holds_the_same_data(b);
        lemma_canonical_is_canonical(b);
        lemma_canonical_is_well_formed(canonical(b));
        lemma_same_data_symmetric(b, canonical(b));
        lemma_same_data_transitive(a, canonical(a), b);
    }
}

} // verus!
