//! The bridge to `serde_json`: parsing a text into a document, taking a
//! document apart and putting one together, and writing a document as text.
//! What `serde_json` does is taken on trust, level by level; the walks
//! through the levels are verified.

use vstd::prelude::*;
use crate::json::{
    canonical, canonicalize_json_value, is_canonical, items_model, keys_ascend, member_keys,
    members_model, well_formed, JsonModel, JsonValue,
};
use crate::json_laws::{lemma_canonical_ignores_member_order, lemma_canonical_is_canonical, same_data};
use crate::text::{trim, trimmed};

verus! {

/// `serde_json::Value`: a document as `serde_json` holds it.
#[verifier::external_type_specification]
#[verifier::external_body]
pub struct ExJsonDocument(serde_json::Value);

/// `serde_json::Error`: why `serde_json` refused a text.
#[verifier::external_type_specification]
#[verifier::external_body]
pub struct ExJsonError(serde_json::Error);

/// The document that a `serde_json::Value` holds: its scalars, its arrays in
/// order, and the members of its objects in the order in which the value
/// hands them out.
pub uninterp spec fn document_model(document: serde_json::Value) -> JsonModel;

/// What `serde_json::from_str` reads from a text: the document, or `None`
/// where the text is not one JSON document.
pub uninterp spec fn parsed_json(text: Seq<char>) -> Option<JsonModel>;

/// The text that `serde_json` writes for a document, in its compact form.
pub uninterp spec fn json_text(document: JsonModel) -> Seq<char>;

/// `serde_json::from_str` at the type `serde_json::Value`. The outcome
/// depends on the text alone; the contract gives it the name `parsed_json`
/// and claims nothing more of it.
#[verifier::external_body]
fn parse_document(text: &str) -> (parsed: Result<serde_json::Value, serde_json::Error>)
    ensures
        match parsed {
            Ok(document) => parsed_json(text@) == Some(document_model(document)),
            Err(_) => parsed_json(text@) is None,
        },
{
    serde_json::from_str::<serde_json::Value>(text)
}

/// One level of a `serde_json::Value`, borrowed from it: the scalar that it
/// is, the items of the array that it is, or the members of the object that
/// it is, in the order in which the value hands them out.
enum DocumentLevel<'a> {
    Null,
    Bool(bool),
    Number(&'a serde_json::Number),
    String(&'a String),
    Array(&'a Vec<serde_json::Value>),
    Object(Vec<(&'a String, &'a serde_json::Value)>),
}

/// The document of which `level` is the top level.
spec fn level_model(level: DocumentLevel) -> JsonModel {
    match level {
        DocumentLevel::Null => JsonModel::Null,
        DocumentLevel::Bool(flag) => JsonModel::Bool(flag),
        DocumentLevel::Number(number) => JsonModel::Number(*number),
        DocumentLevel::String(text) => JsonModel::String(text@),
        DocumentLevel::Array(items) => JsonModel::Array(
            items@.map_values(|item: serde_json::Value| document_model(item)),
        ),
        DocumentLevel::Object(members) => JsonModel::Object(
            members@.map_values(
                |member: (&String, &serde_json::Value)| (member.0@, document_model(*member.1)),
            ),
        ),
    }
}

/// Tells the variants of a `serde_json::Value` apart and hands out what the
/// value holds at its top level, without copying. The members of an object
/// come as its map hands them out; the map holds each key once.
#[verifier::external_body]
fn level_of<'a>(document: &'a serde_json::Value) -> (level: DocumentLevel<'a>)
    ensures
        level_model(level) == document_model(*document),
        level_model(level) matches JsonModel::Object(members) ==> member_keys(
            members,
        ).no_duplicates(),
{
    match document {
        serde_json::Value::Null => DocumentLevel::Null,
        serde_json::Value::Bool(flag) => DocumentLevel::Bool(*flag),
        serde_json::Value::Number(number) => DocumentLevel::Number(number),
        serde_json::Value::String(text) => DocumentLevel::String(text),
        serde_json::Value::Array(items) => DocumentLevel::Array(items),
        serde_json::Value::Object(members) => DocumentLevel::Object(members.iter().collect()),
    }
}

/// One level of a `serde_json::Value` that is to be built: a scalar, the
/// items of an array, or the members of an object in order.
enum DocumentParts {
    Null,
    Bool(bool),
    Number(serde_json::Number),
    String(String),
    Array(Vec<serde_json::Value>),
    Object(Vec<(String, serde_json::Value)>),
}

/// The document of which `parts` is the top level.
spec fn parts_model(parts: DocumentParts) -> JsonModel {
    match parts {
        DocumentParts::Null => JsonModel::Null,
        DocumentParts::Bool(flag) => JsonModel::Bool(flag),
        DocumentParts::Number(number) => JsonModel::Number(number),
        DocumentParts::String(text) => JsonModel::String(text@),
        DocumentParts::Array(items) => JsonModel::Array(
            items@.map_values(|item: serde_json::Value| document_model(item)),
        ),
        DocumentParts::Object(members) => JsonModel::Object(
            members@.map_values(
                |member: (String, serde_json::Value)| (member.0@, document_model(member.1)),
            ),
        ),
    }
}

/// Builds the `serde_json::Value` of the given variant from what it is to
/// hold at its top level; the members of an object are inserted into its map
/// in the order given. Because the keys ascend strictly, the map hands them
/// out in that same order, whether it keeps its keys sorted or in the order
/// of insertion: the value holds what was given.
#[verifier::external_body]
fn document_of(parts: DocumentParts) -> (document: serde_json::Value)
    requires
        parts_model(parts) matches JsonModel::Object(members) ==> keys_ascend(member_keys(members)),
    ensures
        document_model(document) == parts_model(parts),
{
    match parts {
        DocumentParts::Null => serde_json::Value::Null,
        DocumentParts::Bool(flag) => serde_json::Value::Bool(flag),
        DocumentParts::Number(number) => serde_json::Value::Number(number),
        DocumentParts::String(text) => serde_json::Value::String(text),
        DocumentParts::Array(items) => serde_json::Value::Array(items),
        DocumentParts::Object(members) => serde_json::Value::Object(members.into_iter().collect()),
    }
}

/// The tree that holds what `document` holds.
fn tree_from_document(document: &serde_json::Value) -> (tree: JsonValue)
    ensures
        tree@ == document_model(*document),
        well_formed(tree@),
    decreases document_model(*document),
{
    match level_of(document) {
        DocumentLevel::Null => JsonValue::Null,
        DocumentLevel::Bool(flag) => JsonValue::Bool(flag),
        DocumentLevel::Number(number) => JsonValue::Number(number.clone()),
        DocumentLevel::String(text) => JsonValue::String(text.clone()),
        DocumentLevel::Array(items) => {
            let ghost model = document_model(*document)->Array_0;
            let mut out: Vec<JsonValue> = Vec::new();
            let mut index: usize = 0;
            while index < items.len()
                invariant
                    index <= items.len(),
                    document_model(*document) == JsonModel::Array(model),
                    model == items@.map_values(|item: serde_json::Value| document_model(item)),
                    out@.len() == index,
                    forall|i: int|
                        0 <= i < index ==> (#[trigger] out@[i])@ == model[i] && well_formed(
                            out@[i]@,
                        ),
                decreases items.len() - index,
            {
                assert(model[index as int] == document_model(items@[index as int]));
                assert(decreases_to!(model => model[index as int]));
                assert(decreases_to!(document_model(*document) => document_model(*document)->Array_0));
                assert(decreases_to!(document_model(*document) => document_model(items@[index as int])));
                let child = tree_from_document(&items[index]);
                out.push(child);
                index = index + 1;
            }
            assert(items_model(out) =~= model);
            JsonValue::Array(out)
        },
        DocumentLevel::Object(members) => {
            let ghost model = document_model(*document)->Object_0;
            let mut out: Vec<(String, JsonValue)> = Vec::new();
            let mut index: usize = 0;
            while index < members.len()
                invariant
                    index <= members.len(),
                    document_model(*document) == JsonModel::Object(model),
                    model == members@.map_values(
                        |member: (&String, &serde_json::Value)|
                            (member.0@, document_model(*member.1)),
                    ),
                    out@.len() == index,
                    forall|i: int|
                        0 <= i < index ==> (#[trigger] out@[i]).0@ == model[i].0 && out@[i].1@
                            == model[i].1 && well_formed(out@[i].1@),
                decreases members.len() - index,
            {
                assert(model[index as int].1 == document_model(*members@[index as int].1));
                assert(decreases_to!(document_model(*document) => document_model(*document)->Object_0));
                assert(decreases_to!(model => model[index as int]));
                assert(decreases_to!(document_model(*document) => model[index as int].1));
                let child = tree_from_document(members[index].1);
                out.push((members[index].0.clone(), child));
                index = index + 1;
            }
            assert(members_model(out) =~= model);
            JsonValue::Object(out)
        },
    }
}

/// The `serde_json::Value` that holds what a canonical tree holds.
fn document_from_tree(tree: &JsonValue) -> (document: serde_json::Value)
    requires
        is_canonical(tree@),
    ensures
        document_model(document) == tree@,
    decreases tree,
{
    match tree {
        JsonValue::Null => document_of(DocumentParts::Null),
        JsonValue::Bool(flag) => document_of(DocumentParts::Bool(*flag)),
        JsonValue::Number(number) => document_of(DocumentParts::Number(number.clone())),
        JsonValue::String(text) => document_of(DocumentParts::String(text.clone())),
        JsonValue::Array(items) => {
            let mut out: Vec<serde_json::Value> = Vec::new();
            let mut index: usize = 0;
            while index < items.len()
                invariant
                    index <= items.len(),
                    *tree == JsonValue::Array(*items),
                    is_canonical(tree@),
                    out@.len() == index,
                    forall|i: int|
                        0 <= i < index ==> document_model(#[trigger] out@[i]) == items@[i]@,
                decreases items.len() - index,
            {
                assert(tree@ == JsonModel::Array(items_model(*items)));
                assert(is_canonical(tree@->Array_0[index as int]));
                assert(tree@->Array_0[index as int] == items@[index as int]@);
                let child = document_from_tree(&items[index]);
                out.push(child);
                index = index + 1;
            }
            assert(out@.map_values(|item: serde_json::Value| document_model(item)) =~= items_model(
                *items,
            ));
            document_of(DocumentParts::Array(out))
        },
        JsonValue::Object(members) => {
            let mut out: Vec<(String, serde_json::Value)> = Vec::new();
            let mut index: usize = 0;
            while index < members.len()
                invariant
                    index <= members.len(),
                    *tree == JsonValue::Object(*members),
                    is_canonical(tree@),
                    out@.len() == index,
                    forall|i: int|
                        0 <= i < index ==> (#[trigger] out@[i]).0@ == members@[i].0@
                            && document_model(out@[i].1) == members@[i].1@,
                decreases members.len() - index,
            {
                assert(tree@ == JsonModel::Object(members_model(*members)));
                assert(is_canonical(tree@->Object_0[index as int].1));
                assert(tree@->Object_0[index as int].1 == members@[index as int].1@);
                let child = document_from_tree(&members[index].1);
                out.push((members[index].0.clone(), child));
                index = index + 1;
            }
            assert(out@.map_values(
                |member: (String, serde_json::Value)| (member.0@, document_model(member.1)),
            ) =~= members_model(*members));
            document_of(DocumentParts::Object(out))
        },
    }
}

/// `serde_json::Value`'s `to_string`, which writes the compact form. The
/// text depends on the document alone; the contract gives it the name
/// `json_text` and claims nothing more of it.
#[verifier::external_body]
fn document_text(document: &serde_json::Value) -> (text: String)
    ensures
        text@ == json_text(document_model(*document)),
{
    document.to_string()
}

/// The key material for JSON arguments: the canonical form of the document
/// that `raw` holds, written compactly; or, where `raw` is not JSON, `raw`
/// itself without surrounding white space.
pub open spec fn canonical_text_or_raw(raw: Seq<char>) -> Seq<char> {
    match parsed_json(raw) {
        Some(document) => json_text(canonical(document)),
        None => trimmed(raw),
    }
}

/// The key material for JSON arguments. Arguments that are not JSON are no
/// error: they are keyed by their trimmed text.
pub fn canonical_json_or_raw(raw: &str) -> (text: String)
    ensures
        text@ == canonical_text_or_raw(raw@),
{
    match parse_document(raw) {
        Ok(document) => {
            let tree = tree_from_document(&document);
            let sorted = canonicalize_json_value(&tree);
            proof {
                lemma_canonical_is_canonical(tree@);
            }
            let canonical_document = document_from_tree(&sorted);
            document_text(&canonical_document)
        },
        Err(_) => trim(raw).to_owned(),
    }
}

/// Arguments that hold the same data give the same key material, whatever
/// the order of their objects' members.
pub proof fn lemma_key_material_ignores_member_order(
    first: Seq<char>,
    second: Seq<char>,
    a: JsonModel,
    b: JsonModel,
)
    requires
        parsed_json(first) == Some(a),
        parsed_json(second) == Some(b),
        same_data(a, b),
    ensures
        canonical_text_or_raw(first) == canonical_text_or_raw(second),
{
    lemma_canonical_ignores_member_order(a, b);
}

} // verus!
