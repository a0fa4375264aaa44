//! The loosely structured input handed to the artifact loader: a tree of
//! values as an outside reader of, say, a JSON artifact file would deliver it.

use vstd::prelude::*;

verus! {

/// A raw structured value. Numbers keep their textual spelling: the schema
/// never reads one, it only carries them through ignored fields.
pub enum RawValue {
    Null,
    Bool(bool),
    Num(Vec<u8>),
    Str(Vec<u8>),
    Arr(Vec<RawValue>),
    Obj(Vec<(Vec<u8>, RawValue)>),
}

/// Mathematical model of `RawValue`.
pub enum SpecRawValue {
    Null,
    Bool(bool),
    Num(Seq<u8>),
    Str(Seq<u8>),
    Arr(Seq<SpecRawValue>),
    Obj(Seq<(Seq<u8>, SpecRawValue)>),
}

pub open spec fn raw_model(v: RawValue) -> SpecRawValue
    decreases v, 0int,
{
    match v {
        RawValue::Null => SpecRawValue::Null,
        RawValue::Bool(b) => SpecRawValue::Bool(b),
        RawValue::Num(s) => SpecRawValue::Num(s@),
        RawValue::Str(s) => SpecRawValue::Str(s@),
        RawValue::Arr(items) => SpecRawValue::Arr(raw_list_model(items@, 0)),
        RawValue::Obj(fields) => SpecRawValue::Obj(raw_obj_model(fields@, 0)),
    }
}

pub open spec fn raw_list_model(s: Seq<RawValue>, i: int) -> Seq<SpecRawValue>
    decreases s, s.len() - i,
{
    if i < 0 || i >= s.len() {
        Seq::empty()
    } else {
        seq![raw_model(s[i])] + raw_list_model(s, i + 1)
    }
}

pub open spec fn raw_obj_model(s: Seq<(Vec<u8>, RawValue)>, i: int) -> Seq<(Seq<u8>, SpecRawValue)>
    decreases s, s.len() - i,
{
    if i < 0 || i >= s.len() {
        Seq::empty()
    } else {
        seq![(s[i].0@, raw_model(s[i].1))] + raw_obj_model(s, i + 1)
    }
}

pub proof fn lemma_raw_list_model(s: Seq<RawValue>, i: int)
    requires
        0 <= i <= s.len(),
    ensures
        raw_list_model(s, i).len() == s.len() - i,
        forall|j: int| i <= j < s.len() ==> raw_list_model(s, i)[j - i] == raw_model(s[j]),
    decreases s.len() - i,
{
    if i < s.len() {
        lemma_raw_list_model(s, i + 1);
    }
}

pub proof fn lemma_raw_obj_model(s: Seq<(Vec<u8>, RawValue)>, i: int)
    requires
        0 <= i <= s.len(),
    ensures
        raw_obj_model(s, i).len() == s.len() - i,
        forall|j: int|
            i <= j < s.len() ==> raw_obj_model(s, i)[j - i] == (s[j].0@, raw_model(s[j].1)),
    decreases s.len() - i,
{
    if i < s.len() {
        lemma_raw_obj_model(s, i + 1);
    }
}

/// Height of a raw value, the termination measure for walking nested
/// component records.
pub open spec fn h_raw(v: SpecRawValue) -> nat
    decreases v, 0int,
{
    match v {
        SpecRawValue::Arr(items) => 1 + h_list(items, 0),
        SpecRawValue::Obj(fields) => 1 + h_obj(fields, 0),
        _ => 1,
    }
}

pub open spec fn h_list(s: Seq<SpecRawValue>, i: int) -> nat
    decreases s, s.len() - i,
{
    if i < 0 || i >= s.len() {
        0
    } else {
        1 + h_raw(s[i]) + h_list(s, i + 1)
    }
}

pub open spec fn h_obj(s: Seq<(Seq<u8>, SpecRawValue)>, i: int) -> nat
    decreases s, s.len() - i,
{
    if i < 0 || i >= s.len() {
        0
    } else {
        1 + h_raw(s[i].1) + h_obj(s, i + 1)
    }
}

pub proof fn lemma_h_list(s: Seq<SpecRawValue>, i: int)
    requires
        0 <= i <= s.len(),
    ensures
        forall|k: int| i <= k < s.len() ==> h_raw(s[k]) < h_list(s, i),
    decreases s.len() - i,
{
    if i < s.len() {
        lemma_h_list(s, i + 1);
    }
}

pub proof fn lemma_h_obj(s: Seq<(Seq<u8>, SpecRawValue)>, i: int)
    requires
        0 <= i <= s.len(),
    ensures
        forall|k: int| i <= k < s.len() ==> h_raw(s[k].1) < h_obj(s, i),
    decreases s.len() - i,
{
    if i < s.len() {
        lemma_h_obj(s, i + 1);
    }
}

/// The value under the first field named `key`, if any.
pub open spec fn spec_obj_get_from(
    fields: Seq<(Seq<u8>, SpecRawValue)>,
    key: Seq<u8>,
    i: int,
) -> Option<SpecRawValue>
    decreases fields.len() - i,
{
    if i < 0 || i >= fields.len() {
        Option::None
    } else if fields[i].0 == key {
        Option::Some(fields[i].1)
    } else {
        spec_obj_get_from(fields, key, i + 1)
    }
}

pub open spec fn spec_obj_get(fields: Seq<(Seq<u8>, SpecRawValue)>, key: Seq<u8>) -> Option<
    SpecRawValue,
> {
    spec_obj_get_from(fields, key, 0)
}

/// Looks up the first field named `key`, with evidence of which field the
/// result came from.
pub fn obj_get_from<'a>(fields: &'a Vec<(Vec<u8>, RawValue)>, key: &Vec<u8>, i: usize) -> (r:
    Option<&'a RawValue>)
    requires
        i <= fields@.len(),
    ensures
        match r {
            Option::None => spec_obj_get_from(raw_obj_model(fields@, 0), key@, i as int)
                == Option::<SpecRawValue>::None,
            Option::Some(v) => {
                &&& spec_obj_get_from(raw_obj_model(fields@, 0), key@, i as int) == Option::Some(
                    raw_model(*v),
                )
                &&& exists|k: int| 0 <= k < fields@.len() && *v == fields@[k].1
            },
        },
    decreases fields@.len() - i,
{
    proof {
        lemma_raw_obj_model(fields@, 0);
    }
    if i == fields.len() {
        Option::None
    } else if crate::bytes::bytes_eq(&fields[i].0, key) {
        let r = &fields[i].1;
        proof {
            assert(0 <= i < fields@.len() && *r == fields@[i as int].1);
        }
        Option::Some(r)
    } else {
        obj_get_from(fields, key, i + 1)
    }
}

pub fn obj_get<'a>(fields: &'a Vec<(Vec<u8>, RawValue)>, key: &Vec<u8>) -> (r: Option<
    &'a RawValue,
>)
    ensures
        match r {
            Option::None => spec_obj_get(raw_obj_model(fields@, 0), key@) == Option::<
                SpecRawValue,
            >::None,
            Option::Some(v) => {
                &&& spec_obj_get(raw_obj_model(fields@, 0), key@) == Option::Some(raw_model(*v))
                &&& exists|k: int| 0 <= k < fields@.len() && *v == fields@[k].1
            },
        },
{
    obj_get_from(fields, key, 0)
}

/// From `spec_obj_get_from` returning a value, a field index holding it.
pub proof fn lemma_obj_get_some(fields: Seq<(Seq<u8>, SpecRawValue)>, key: Seq<u8>, i: int)
    requires
        spec_obj_get_from(fields, key, i) is Some,
    ensures
        exists|k: int|
            0 <= k < fields.len() && fields[k].1 == spec_obj_get_from(fields, key, i)->Some_0,
    decreases fields.len() - i,
{
    if 0 <= i < fields.len() {
        if fields[i].0 == key {
            assert(0 <= i < fields.len() && fields[i].1 == spec_obj_get_from(fields, key, i)->Some_0);
        } else {
            lemma_obj_get_some(fields, key, i + 1);
        }
    }
}

} // verus!
