//! The document values the encoders produce.
//!
//! Every record is built as a tree of [`JsonValue`] nodes; the writer that
//! turns the tree into text lives outside this crate. Object fields keep
//! their insertion order. A float literal is carried as its raw bits: turning
//! those bits into a digit string is the writer's task, since this crate's
//! verified code holds no floating-point values.

use vstd::prelude::*;

verus! {

/// A JSON value in its specification-level form.
pub enum JVal {
    Str(Seq<char>),
    Num(nat),
    Arr(Seq<JVal>),
    Obj(Seq<(Seq<char>, JVal)>),
    FloatBits(bool, nat),
}

/// A JSON value as executable code builds it.
///
/// `FloatBits(wide, bits)` stands for the decimal rendering of the float
/// whose raw bits are given; `wide` says whether they are 64-bit bits.
#[derive(PartialEq, Eq, Debug)]
pub enum JsonValue {
    Str(String),
    Num(u128),
    Arr(Vec<JsonValue>),
    Obj(Vec<(String, JsonValue)>),
    FloatBits(bool, u64),
}

pub open spec fn jvals_of(items: Seq<JsonValue>) -> Seq<JVal>
    decreases items,
{
    if items.len() == 0 {
        Seq::empty()
    } else {
        jvals_of(items.drop_last()).push(items.last().view())
    }
}

pub open spec fn jfields_of(fields: Seq<(String, JsonValue)>) -> Seq<(Seq<char>, JVal)>
    decreases fields,
{
    if fields.len() == 0 {
        Seq::empty()
    } else {
        jfields_of(fields.drop_last()).push((fields.last().0@, fields.last().1.view()))
    }
}

impl JsonValue {
    pub open spec fn view(self) -> JVal
        decreases self,
    {
        match self {
            JsonValue::Str(s) => JVal::Str(s@),
            JsonValue::Num(n) => JVal::Num(n as nat),
            JsonValue::Arr(items) => JVal::Arr(jvals_of(items@)),
            JsonValue::Obj(fields) => JVal::Obj(jfields_of(fields@)),
            JsonValue::FloatBits(wide, bits) => JVal::FloatBits(wide, bits as nat),
        }
    }
}

pub broadcast proof fn lemma_jvals_of_push(items: Seq<JsonValue>, v: JsonValue)
    ensures
        #[trigger] jvals_of(items.push(v)) == jvals_of(items).push(v.view()),
{
    assert(items.push(v).drop_last() =~= items);
    assert(items.push(v).last() == v);
}

pub broadcast proof fn lemma_jfields_of_push(fields: Seq<(String, JsonValue)>, f: (String, JsonValue))
    ensures
        #[trigger] jfields_of(fields.push(f)) == jfields_of(fields).push((f.0@, f.1.view())),
{
    assert(fields.push(f).drop_last() =~= fields);
    assert(fields.push(f).last() == f);
}

pub proof fn lemma_jvals_of_pointwise(items: Seq<JsonValue>)
    ensures
        jvals_of(items).len() == items.len(),
        forall|i: int| 0 <= i < items.len() ==> jvals_of(items)[i] == items[i].view(),
    decreases items,
{
    if items.len() > 0 {
        lemma_jvals_of_pointwise(items.drop_last());
    }
}

/// The keys of a specification-level object, in order.
pub open spec fn obj_keys(fields: Seq<(Seq<char>, JVal)>) -> Seq<Seq<char>> {
    fields.map_values(|f: (Seq<char>, JVal)| f.0)
}

/// Whether an object holds a field under the given key.
pub open spec fn obj_has_key(fields: Seq<(Seq<char>, JVal)>, key: Seq<char>) -> bool {
    exists|i: int| 0 <= i < fields.len() && fields[i].0 == key
}

/// Appends one field to an object under construction.
pub fn obj_field(fields: &mut Vec<(String, JsonValue)>, key: &str, v: JsonValue)
    ensures
        jfields_of(final(fields)@) == jfields_of(old(fields)@).push((key@, v@)),
        final(fields)@.len() == old(fields)@.len() + 1,
{
    let ghost v0 = v;
    fields.push((key.to_owned(), v));
    proof {
        lemma_jfields_of_push(old(fields)@, fields@.last());
        assert(fields@.drop_last() =~= old(fields)@);
        assert(jfields_of(fields@) == jfields_of(old(fields)@).push((key@, v0@)));
    }
}

} // verus!
