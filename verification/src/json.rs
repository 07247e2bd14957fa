//! The document model of the payload transformer.
//!
//! A request body is decoded into [`Json`], a tree the library owns, so that
//! every decision the transformer makes is over plain values. Numbers that do
//! not fit `u64` are carried through as opaque `serde_json::Number` values:
//! the transformer never reads them. Decoding and encoding are the two
//! trusted calls into serde_json; their results are named by the
//! uninterpreted functions [`parse_doc`] and [`doc_bytes`].

use vstd::prelude::*;

verus! {

/// Declares serde_json's number type so that values of it can be carried
/// through the document untouched; the library never looks inside one.
#[verifier::external_type_specification]
#[verifier::external_body]
pub struct ExNumber(serde_json::Number);

/// Declares serde_json's value type; it appears only at the trusted
/// boundary, where a decoded document is read out into [`Json`].
#[verifier::external_type_specification]
#[verifier::external_body]
pub struct ExValue(serde_json::Value);

/// A JSON document, as far as the transformer reads it.
pub enum Json {
    Null,
    Bool(bool),
    /// A number representable as an unsigned 64-bit integer; the only kind
    /// of number the transformer reads (`max_tokens`).
    UInt(u64),
    /// Any other number, carried through untouched.
    Num(serde_json::Number),
    Str(String),
    Arr(Vec<Json>),
    Obj(Vec<(String, Json)>),
}

/// The mathematical shape of a document: strings as character sequences,
/// arrays and objects as sequences.
pub enum JModel {
    Null,
    Bool(bool),
    UInt(u64),
    Num(serde_json::Number),
    Str(Seq<char>),
    Arr(Seq<JModel>),
    Obj(Seq<(Seq<char>, JModel)>),
}

/// The model of a document tree.
pub open spec fn jview(j: Json) -> JModel
    decreases j,
{
    match j {
        Json::Null => JModel::Null,
        Json::Bool(b) => JModel::Bool(b),
        Json::UInt(u) => JModel::UInt(u),
        Json::Num(n) => JModel::Num(n),
        Json::Str(s) => JModel::Str(s@),
        Json::Arr(v) => JModel::Arr(elems_view(v@)),
        Json::Obj(v) => JModel::Obj(pairs_view(v@)),
    }
}

/// The models of the elements of an array.
pub open spec fn elems_view(v: Seq<Json>) -> Seq<JModel>
    decreases v,
{
    if v.len() == 0 {
        Seq::empty()
    } else {
        seq![jview(v[0])] + elems_view(v.drop_first())
    }
}

/// The models of the fields of an object.
pub open spec fn pairs_view(v: Seq<(String, Json)>) -> Seq<(Seq<char>, JModel)>
    decreases v,
{
    if v.len() == 0 {
        Seq::empty()
    } else {
        seq![(v[0].0@, jview(v[0].1))] + pairs_view(v.drop_first())
    }
}

pub proof fn elems_view_len(v: Seq<Json>)
    ensures
        elems_view(v).len() == v.len(),
    decreases v,
{
    if v.len() > 0 {
        elems_view_len(v.drop_first());
    }
}

pub proof fn elems_view_index(v: Seq<Json>, i: int)
    requires
        0 <= i < v.len(),
    ensures
        elems_view(v)[i] == jview(v[i]),
    decreases v,
{
    elems_view_len(v);
    if i > 0 {
        elems_view_index(v.drop_first(), i - 1);
    }
}

pub proof fn pairs_view_len(v: Seq<(String, Json)>)
    ensures
        pairs_view(v).len() == v.len(),
    decreases v,
{
    if v.len() > 0 {
        pairs_view_len(v.drop_first());
    }
}

pub proof fn pairs_view_index(v: Seq<(String, Json)>, i: int)
    requires
        0 <= i < v.len(),
    ensures
        pairs_view(v)[i] == (v[i].0@, jview(v[i].1)),
    decreases v,
{
    pairs_view_len(v);
    if i > 0 {
        pairs_view_index(v.drop_first(), i - 1);
    }
}

/// The document that serde_json decodes from these bytes, read out as a
/// model, or nothing where the bytes are not one well-formed JSON value.
/// It is a function of the bytes alone.
pub uninterp spec fn parse_doc(bytes: Seq<u8>) -> Option<JModel>;

/// The bytes serde_json emits for a document with this model. The model
/// fixes them: strings, field order and the carried numbers determine the
/// encoder's output.
pub uninterp spec fn doc_bytes(doc: JModel) -> Seq<u8>;

/// Reads a decoded serde_json value out into the library's document type:
/// one variant for one variant, numbers split by `Number::as_u64` so the
/// transformer can read `max_tokens`. Only [`parse_json`] uses it.
#[verifier::external_body]
fn value_to_tree(v: serde_json::Value) -> Json {
    match v {
        serde_json::Value::Null => Json::Null,
        serde_json::Value::Bool(b) => Json::Bool(b),
        serde_json::Value::Number(n) => match n.as_u64() {
            Some(u) => Json::UInt(u),
            None => Json::Num(n),
        },
        serde_json::Value::String(s) => Json::Str(s),
        serde_json::Value::Array(a) => Json::Arr(a.into_iter().map(value_to_tree).collect()),
        serde_json::Value::Object(m) => Json::Obj(
            m.into_iter().map(|(k, x)| (k, value_to_tree(x))).collect(),
        ),
    }
}

/// Rebuilds a serde_json value from the library's document type, variant for
/// variant. Only [`render_json`] uses it.
#[verifier::external_body]
fn tree_to_value(j: Json) -> serde_json::Value {
    match j {
        Json::Null => serde_json::Value::Null,
        Json::Bool(b) => serde_json::Value::Bool(b),
        Json::UInt(u) => serde_json::Value::Number(serde_json::Number::from(u)),
        Json::Num(n) => serde_json::Value::Number(n),
        Json::Str(s) => serde_json::Value::String(s),
        Json::Arr(v) => serde_json::Value::Array(v.into_iter().map(tree_to_value).collect()),
        Json::Obj(v) => serde_json::Value::Object(
            v.into_iter().map(|(k, x)| (k, tree_to_value(x))).collect(),
        ),
    }
}

/// Relies on serde_json::from_slice: decodes the body as one JSON value, or
/// fails. What it decodes depends on the bytes alone, so the result is
/// exactly the named [`parse_doc`] of the bytes.
#[verifier::external_body]
pub(crate) fn parse_json(body: &[u8]) -> (r: Option<Json>)
    ensures
        match r {
            Some(j) => parse_doc(body@) == Some(jview(j)),
            None => parse_doc(body@) is None,
        },
{
    serde_json::from_slice::<serde_json::Value>(body).ok().map(value_to_tree)
}

/// Relies on serde_json::to_vec: encodes the document. For a value of
/// [`Json`] the encoder cannot fail — every key is a string and, without the
/// crate's arbitrary-precision feature, writing a number into a byte vector
/// has no error path — so the output is exactly the named [`doc_bytes`] of
/// the document's model.
#[verifier::external_body]
pub(crate) fn render_json(j: Json) -> (r: Vec<u8>)
    ensures
        r@ == doc_bytes(jview(j)),
{
    let v = tree_to_value(j);
    serde_json::to_vec(&v).unwrap_or_default()
}

} // verus!
