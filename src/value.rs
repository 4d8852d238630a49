//! Dynamically typed record values, as decoded from an API response or a
//! configuration document, and their mathematical model.
use vstd::prelude::*;

verus! {

broadcast use vstd::std_specs::vec::group_vec_axioms;

/// The mathematical model of a [`Value`].
pub enum Json {
    Null,
    Bool(bool),
    Number(Seq<char>),
    Text(Seq<char>),
    Array(Seq<Json>),
    Object(Seq<(Seq<char>, Json)>),
}

/// A decoded JSON-like value. Numbers keep the text they were written with;
/// object members keep their order.
pub enum Value {
    Null,
    Bool(bool),
    Number(String),
    Text(String),
    Array(Vec<Value>),
    Object(Vec<(String, Value)>),
}

/// The model of a value: its view, followed into every element and member.
pub open spec fn json_of(v: Value) -> Json
    decreases v,
{
    match v {
        Value::Null => Json::Null,
        Value::Bool(b) => Json::Bool(b),
        Value::Number(s) => Json::Number(s@),
        Value::Text(s) => Json::Text(s@),
        Value::Array(a) => Json::Array(
            Seq::new(
                a@.len(),
                |i: int|
                    if 0 <= i < a@.len() {
                        json_of(a@[i])
                    } else {
                        Json::Null
                    },
            ),
        ),
        Value::Object(o) => Json::Object(
            Seq::new(
                o@.len(),
                |i: int|
                    if 0 <= i < o@.len() {
                        (o@[i].0@, json_of(o@[i].1))
                    } else {
                        (Seq::empty(), Json::Null)
                    },
            ),
        ),
    }
}

impl View for Value {
    type V = Json;

    open spec fn view(&self) -> Json {
        json_of(*self)
    }
}

/// A deep copy of `v`.
pub fn copy_value(v: &Value) -> (r: Value)
    ensures
        r@ == v@,
    decreases v,
{
    match v {
        Value::Null => Value::Null,
        Value::Bool(b) => Value::Bool(*b),
        Value::Number(s) => Value::Number(s.clone()),
        Value::Text(s) => Value::Text(s.clone()),
        Value::Array(a) => {
            let mut out: Vec<Value> = Vec::new();
            let mut i: usize = 0;
            while i < a.len()
                invariant
                    *v == Value::Array(*a),
                    i <= a@.len(),
                    out@.len() == i,
                    forall|k: int| 0 <= k < i ==> out@[k]@ == a@[k]@,
                decreases a@.len() - i,
            {
                proof {
                    assert(decreases_to!(*v => v->Array_0));
                    assert(decreases_to!(*a => a[i as int]));
                }
                let c = copy_value(&a[i]);
                out.push(c);
                i = i + 1;
            }
            let r = Value::Array(out);
            proof {
                let jr = json_of(r);
                let jv = json_of(*v);
                assert(jr->Array_0.len() == jv->Array_0.len());
                assert forall|k: int| 0 <= k < out@.len() implies jr->Array_0[k] == jv->Array_0[k] by {
                    assert(jr->Array_0[k] == json_of(out@[k]));
                    assert(jv->Array_0[k] == json_of(a@[k]));
                }
                assert(jr->Array_0 =~= jv->Array_0);
            }
            r
        },
        Value::Object(o) => {
            let mut out: Vec<(String, Value)> = Vec::new();
            let mut i: usize = 0;
            while i < o.len()
                invariant
                    *v == Value::Object(*o),
                    i <= o@.len(),
                    out@.len() == i,
                    forall|k: int| 0 <= k < i ==> out@[k].0@ == o@[k].0@ && out@[k].1@ == o@[k].1@,
                decreases o@.len() - i,
            {
                proof {
                    assert(decreases_to!(*v => v->Object_0));
                    assert(decreases_to!(*o => o[i as int]));
                    assert(decreases_to!(o[i as int] => o[i as int].1));
                }
                let c = copy_value(&o[i].1);
                out.push((o[i].0.clone(), c));
                i = i + 1;
            }
            let r = Value::Object(out);
            proof {
                let jr = json_of(r);
                let jv = json_of(*v);
                assert(jr->Object_0.len() == jv->Object_0.len());
                assert forall|k: int| 0 <= k < out@.len() implies jr->Object_0[k] == jv->Object_0[k] by {
                    assert(jr->Object_0[k] == (out@[k].0@, json_of(out@[k].1)));
                    assert(jv->Object_0[k] == (o@[k].0@, json_of(o@[k].1)));
                }
                assert(jr->Object_0 =~= jv->Object_0);
            }
            r
        },
    }
}

impl Clone for Value {
    fn clone(&self) -> (r: Value)
        ensures
            r@ == self@,
    {
        copy_value(self)
    }
}

/// The value of the first member named `key` among `es`.
pub open spec fn entry_value(es: Seq<(Seq<char>, Json)>, key: Seq<char>) -> Option<Json>
    decreases es.len(),
{
    if es.len() == 0 {
        None
    } else if es[0].0 == key {
        Some(es[0].1)
    } else {
        entry_value(es.drop_first(), key)
    }
}

/// The member `key` of an object; nothing for any other kind of value.
pub open spec fn member(j: Json, key: Seq<char>) -> Option<Json> {
    match j {
        Json::Object(es) => entry_value(es, key),
        _ => None,
    }
}

/// The model of an optional borrowed value.
pub open spec fn view_opt(r: Option<&Value>) -> Option<Json> {
    match r {
        Some(v) => Some(v@),
        None => None,
    }
}

/// Whether two texts hold the same characters.
pub fn same_text(a: &str, b: &str) -> (r: bool)
    ensures
        r == (a@ == b@),
{
    let x = a.to_owned();
    let y = b.to_owned();
    x == y
}

/// The first of `entries` named `key`.
pub fn find_entry<'a>(entries: &'a Vec<(String, Value)>, key: &str) -> (r: Option<&'a Value>)
    ensures
        view_opt(r) == entry_value(Value::Object(*entries)@->Object_0, key@),
{
    let ghost es = Value::Object(*entries)@->Object_0;
    assert(es.subrange(0, es.len() as int) =~= es);
    let mut i: usize = 0;
    while i < entries.len()
        invariant
            es == Value::Object(*entries)@->Object_0,
            es.len() == entries@.len(),
            forall|k: int| 0 <= k < es.len() ==> es[k] == (entries@[k].0@, entries@[k].1@),
            i <= es.len(),
            entry_value(es, key@) == entry_value(es.subrange(i as int, es.len() as int), key@),
        decreases es.len() - i,
    {
        let ghost rest = es.subrange(i as int, es.len() as int);
        assert(rest[0] == es[i as int]);
        if same_text(entries[i].0.as_str(), key) {
            return Some(&entries[i].1);
        }
        assert(rest.drop_first() =~= es.subrange(i + 1, es.len() as int));
        i = i + 1;
    }
    None
}

/// The member `key` of `v`, when `v` is an object that has one.
pub fn get_member<'a>(v: &'a Value, key: &str) -> (r: Option<&'a Value>)
    ensures
        view_opt(r) == member(v@, key@),
{
    match v {
        Value::Object(entries) => find_entry(entries, key),
        _ => None,
    }
}

} // verus!
