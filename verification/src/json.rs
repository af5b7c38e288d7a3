//! JSON documents as far as cache keys need them: a tree that mirrors what
//! `serde_json` parses, and the canonical form in which the keys of every
//! object are sorted.

use vstd::prelude::*;
use vstd::relations::{sorted_by, total_ordering};
use vstd::seq_lib::{lemma_sorted_unique, to_multiset_build, to_multiset_insert};
use crate::text::{lemma_text_order_is_total, text_at_most, text_leq, text_order, texts};

verus! {

/// `serde_json::Number`: a JSON number as `serde_json` holds it. The library
/// never looks inside.
#[verifier::external_type_specification]
#[verifier::external_body]
pub struct ExJsonNumber(serde_json::Number);

/// `serde_json::Number`'s `clone`: the copy is the same number.
pub assume_specification[ <serde_json::Number as Clone>::clone ](
    number: &serde_json::Number,
) -> (copy: serde_json::Number)
    ensures
        copy == *number,
;

/// A JSON document. An object lists its members in order; in a document that
/// was parsed no key occurs twice in one object.
#[derive(Debug, PartialEq, Eq)]
pub enum JsonValue {
    Null,
    Bool(bool),
    Number(serde_json::Number),
    String(String),
    Array(Vec<JsonValue>),
    Object(Vec<(String, JsonValue)>),
}

/// A JSON document as a value of mathematics: what a `JsonValue` holds, with
/// texts and lists in place of strings and vectors.
pub enum JsonModel {
    Null,
    Bool(bool),
    Number(serde_json::Number),
    String(Seq<char>),
    Array(Seq<JsonModel>),
    Object(Seq<(Seq<char>, JsonModel)>),
}

/// The document that a tree stands for.
pub open spec fn json_model(value: JsonValue) -> JsonModel
    decreases value, 0nat,
{
    match value {
        JsonValue::Null => JsonModel::Null,
        JsonValue::Bool(flag) => JsonModel::Bool(flag),
        JsonValue::Number(number) => JsonModel::Number(number),
        JsonValue::String(text) => JsonModel::String(text@),
        JsonValue::Array(items) => JsonModel::Array(items_model(items)),
        JsonValue::Object(members) => JsonModel::Object(members_model(members)),
    }
}

/// The items of an array as the model sees them.
pub open spec fn items_model(items: Vec<JsonValue>) -> Seq<JsonModel>
    decreases items, 1nat,
{
    Seq::new(
        items@.len(),
        |i: int|
            if 0 <= i < items@.len() {
                json_model(items@[i])
            } else {
                JsonModel::Null
            },
    )
}

/// The members of an object as the model sees them.
pub open spec fn members_model(members: Vec<(String, JsonValue)>) -> Seq<(Seq<char>, JsonModel)>
    decreases members, 1nat,
{
    Seq::new(
        members@.len(),
        |i: int|
            if 0 <= i < members@.len() {
                (members@[i].0@, json_model(members@[i].1))
            } else {
                (Seq::empty(), JsonModel::Null)
            },
    )
}

impl View for JsonValue {
    type V = JsonModel;

    open spec fn view(&self) -> JsonModel {
        json_model(*self)
    }
}

/// The keys of an object's members, in the members' order.
pub open spec fn member_keys(members: Seq<(Seq<char>, JsonModel)>) -> Seq<Seq<char>> {
    members.map_values(|member: (Seq<char>, JsonModel)| member.0)
}

/// Where `key` first occurs among the members; their number where it does
/// not occur.
pub open spec fn first_position(members: Seq<(Seq<char>, JsonModel)>, key: Seq<char>) -> int
    decreases members.len(),
{
    if members.len() == 0 {
        0
    } else if members[0].0 == key {
        0
    } else {
        1 + first_position(members.drop_first(), key)
    }
}

/// The value that an object holds under `key`.
pub open spec fn member_value(members: Seq<(Seq<char>, JsonModel)>, key: Seq<char>) -> JsonModel {
    members[first_position(members, key)].1
}

/// The members of an object, rearranged so that the keys ascend: the keys in
/// their one ascending arrangement, each with the value that the object holds
/// under it. (Where an object holds a key more than once, which no parsed
/// document does, each occurrence gets the value of the first.)
pub open spec fn sorted_members(members: Seq<(Seq<char>, JsonModel)>) -> Seq<
    (Seq<char>, JsonModel),
> {
    let keys = member_keys(members).sort_by(text_order());
    Seq::new(keys.len(), |i: int| (keys[i], member_value(members, keys[i])))
}

/// The canonical form of a document: in every object, at every depth, the
/// members stand in ascending order of their keys. Arrays keep their order,
/// and everything else stays as it is.
pub open spec fn canonical(value: JsonModel) -> JsonModel
    decreases value, 0nat,
{
    match value {
        JsonModel::Array(items) => JsonModel::Array(canonical_items(items)),
        JsonModel::Object(members) => JsonModel::Object(
            sorted_members(canonical_members(members)),
        ),
        _ => value,
    }
}

/// The items of an array, each in canonical form.
pub open spec fn canonical_items(items: Seq<JsonModel>) -> Seq<JsonModel>
    decreases items, 1nat,
{
    Seq::new(
        items.len(),
        |i: int|
            if 0 <= i < items.len() {
                canonical(items[i])
            } else {
                JsonModel::Null
            },
    )
}

/// The members of an object, each value in canonical form, in the order given.
pub open spec fn canonical_members(members: Seq<(Seq<char>, JsonModel)>) -> Seq<
    (Seq<char>, JsonModel),
>
    decreases members, 1nat,
{
    Seq::new(
        members.len(),
        |i: int|
            if 0 <= i < members.len() {
                (members[i].0, canonical(members[i].1))
            } else {
                (Seq::empty(), JsonModel::Null)
            },
    )
}

/// Where a key first occurs depends on the keys alone.
pub proof fn lemma_first_position_by_keys(
    a: Seq<(Seq<char>, JsonModel)>,
    b: Seq<(Seq<char>, JsonModel)>,
    key: Seq<char>,
)
    requires
        member_keys(a) == member_keys(b),
    ensures
        first_position(a, key) == first_position(b, key),
    decreases a.len(),
{
    assert(a.len() == member_keys(a).len());
    assert(b.len() == member_keys(b).len());
    if a.len() > 0 {
        assert(a[0].0 == member_keys(a)[0]);
        assert(b[0].0 == member_keys(b)[0]);
        assert(member_keys(a.drop_first()) =~= member_keys(a).drop_first());
        assert(member_keys(b.drop_first()) =~= member_keys(b).drop_first());
        lemma_first_position_by_keys(a.drop_first(), b.drop_first(), key);
    }
}

/// A key that occurs among the members is found at its first position, and
/// not before it.
pub proof fn lemma_first_position_finds(members: Seq<(Seq<char>, JsonModel)>, key: Seq<char>)
    ensures
        0 <= first_position(members, key) <= members.len(),
        first_position(members, key) < members.len() ==> members[first_position(
            members,
            key,
        )].0 == key,
        forall|i: int| 0 <= i < first_position(members, key) ==> (#[trigger] members[i]).0 != key,
        member_keys(members).contains(key) ==> first_position(members, key) < members.len(),
    decreases members.len(),
{
    if members.len() > 0 && members[0].0 != key {
        let rest = members.drop_first();
        lemma_first_position_finds(rest, key);
        assert forall|i: int| 0 <= i < first_position(members, key) implies (
        #[trigger] members[i]).0 != key by {
            if i > 0 {
                assert(members[i] == rest[i - 1]);
            }
        }
        if member_keys(members).contains(key) {
            let at = choose|i: int| 0 <= i < members.len() && member_keys(members)[i] == key;
            assert(member_keys(rest)[at - 1] == key);
        }
    }
}

/// Where `key` first occurs among the members.
fn position_of_key(members: &Vec<(String, JsonValue)>, key: &str) -> (position: usize)
    ensures
        position == first_position(members_model(*members), key@),
{
    let ghost model = members_model(*members);
    let mut position: usize = 0;
    assert(model.skip(0) =~= model);
    while position < members.len()
        invariant
            position <= members.len(),
            model == members_model(*members),
            first_position(model, key@) == position + first_position(
                model.skip(position as int),
                key@,
            ),
        decreases members.len() - position,
    {
        proof {
            let rest = model.skip(position as int);
            assert(rest[0] == model[position as int]);
            assert(rest.drop_first() =~= model.skip(position + 1));
        }
        if members[position].0.as_str().eq(key) {
            return position;
        }
        position = position + 1;
    }
    assert(model.skip(position as int).len() == 0);
    position
}

/// The members' keys in ascending order.
fn sorted_keys(members: &Vec<(String, JsonValue)>) -> (keys: Vec<String>)
    ensures
        texts(keys@) == member_keys(members_model(*members)).sort_by(text_order()),
{
    let ghost all = member_keys(members_model(*members));
    let mut keys: Vec<String> = Vec::new();
    let mut index: usize = 0;
    proof {
        lemma_text_order_is_total();
        assert(all.take(0) =~= Seq::<Seq<char>>::empty());
        assert(texts(keys@) =~= Seq::<Seq<char>>::empty());
    }
    while index < members.len()
        invariant
            index <= members.len(),
            all == member_keys(members_model(*members)),
            total_ordering(text_order()),
            sorted_by(texts(keys@), text_order()),
            texts(keys@).to_multiset() == all.take(index as int).to_multiset(),
        decreases members.len() - index,
    {
        let key = &members[index].0;
        let mut place: usize = 0;
        while place < keys.len() && text_at_most(keys[place].as_str(), key.as_str())
            invariant
                place <= keys.len(),
                forall|j: int| 0 <= j < place ==> text_leq(#[trigger] texts(keys@)[j], key@),
            decreases keys.len() - place,
        {
            place = place + 1;
        }
        let ghost before = texts(keys@);
        keys.insert(place, key.clone());
        proof {
            let order = text_order();
            let after = texts(keys@);
            assert(after =~= before.insert(place as int, key@));
            assert(all[index as int] == key@);
            assert(all.take(index + 1) =~= all.take(index as int).push(key@));
            to_multiset_insert(before, place as int, key@);
            to_multiset_build(all.take(index as int), key@);
            assert forall|i: int, j: int| 0 <= i < j < after.len() implies #[trigger] order(
                after[i],
                after[j],
            ) by {
                if j == place {
                    assert(after[i] == before[i]);
                } else if i == place {
                    assert(after[j] == before[j - 1]);
                    assert(order(before[place as int], key@) || order(key@, before[place as int]));
                    assert(order(before[place as int], before[j - 1]) || place == j - 1);
                    assert(order(key@, before[j - 1]));
                } else {
                    let bi = if i < place {
                        i
                    } else {
                        i - 1
                    };
                    let bj = if j < place {
                        j
                    } else {
                        j - 1
                    };
                    assert(after[i] == before[bi]);
                    assert(after[j] == before[bj]);
                    assert(order(before[bi], before[bj]));
                }
            }
        }
        index = index + 1;
    }
    proof {
        assert(all.take(index as int) =~= all);
        all.lemma_sort_by_ensures(text_order());
        lemma_sorted_unique(texts(keys@), all.sort_by(text_order()), text_order());
    }
    keys
}

/// The canonical form of `value`: in every object, at every depth, the
/// members stand in ascending order of their keys.
#[verifier::loop_isolation(false)]
pub fn canonicalize_json_value(value: &JsonValue) -> (out: JsonValue)
    ensures
        out@ == canonical(value@),
    decreases value,
{
    match value {
        JsonValue::Object(members) => {
            let keys = sorted_keys(members);
            let ghost model = members_model(*members);
            let ghost target = sorted_members(canonical_members(model));
            let mut sorted: Vec<(String, JsonValue)> = Vec::new();
            let mut index: usize = 0;
            proof {
                lemma_text_order_is_total();
                assert(member_keys(canonical_members(model)) =~= member_keys(model));
                member_keys(model).lemma_sort_by_ensures(text_order());
            }
            while index < keys.len()
                invariant
                    index <= keys.len(),
                    members_model(sorted) == target.take(index as int),
                decreases keys.len() - index,
            {
                let key = &keys[index];
                let position = position_of_key(members, key.as_str());
                proof {
                    assert(texts(keys@)[index as int] == key@);
                    assert(member_keys(model).sort_by(text_order()).contains(key@));
                    lemma_first_position_finds(model, key@);
                    lemma_first_position_by_keys(canonical_members(model), model, key@);
                }
                let child = canonicalize_json_value(&members[position].1);
                sorted.push((key.clone(), child));
                proof {
                    assert(members_model(sorted) =~= target.take(index + 1));
                }
                index = index + 1;
            }
            proof {
                assert(target.take(index as int) =~= target);
            }
            JsonValue::Object(sorted)
        },
        JsonValue::Array(items) => {
            let mut out: Vec<JsonValue> = Vec::new();
            let mut index: usize = 0;
            while index < items.len()
                invariant
                    index <= items.len(),
                    out@.len() == index,
                    forall|j: int| 0 <= j < index ==> (#[trigger] out@[j])@ == canonical(items@[j]@),
                decreases items.len() - index,
            {
                let child = canonicalize_json_value(&items[index]);
                out.push(child);
                index = index + 1;
            }
            proof {
                assert(items_model(out) =~= canonical_items(items_model(*items)));
            }
            JsonValue::Array(out)
        },
        JsonValue::Null => JsonValue::Null,
        JsonValue::Bool(flag) => JsonValue::Bool(*flag),
        JsonValue::Number(number) => JsonValue::Number(number.clone()),
        JsonValue::String(text) => JsonValue::String(text.clone()),
    }
}

/// No object, at any depth, holds a key twice. Every parsed document is
/// well formed.
pub open spec fn well_formed(value: JsonModel) -> bool
    decreases value,
{
    match value {
        JsonModel::Array(items) => forall|i: int|
            0 <= i < items.len() ==> well_formed(#[trigger] items[i]),
        JsonModel::Object(members) => member_keys(members).no_duplicates() && forall|i: int|
            0 <= i < members.len() ==> well_formed((#[trigger] members[i]).1),
        _ => true,
    }
}

/// The keys ascend strictly: each sorts before all that follow it.
pub open spec fn keys_ascend(keys: Seq<Seq<char>>) -> bool {
    forall|i: int, j: int|
        0 <= i < j < keys.len() ==> #[trigger] keys[i] != #[trigger] keys[j] && text_leq(
            keys[i],
            keys[j],
        )
}

/// In every object, at every depth, the keys ascend strictly.
pub open spec fn is_canonical(value: JsonModel) -> bool
    decreases value,
{
    match value {
        JsonModel::Array(items) => forall|i: int|
            0 <= i < items.len() ==> is_canonical(#[trigger] items[i]),
        JsonModel::Object(members) => keys_ascend(member_keys(members)) && forall|i: int|
            0 <= i < members.len() ==> is_canonical((#[trigger] members[i]).1),
        _ => true,
    }
}

} // verus!
