//! From Syma's tagged JSON to Python objects.
//!
//! A Syma value arrives as tagged JSON: an object whose `"t"` entry names the
//! type and whose `"v"` entry holds the payload. Integers, reals, strings,
//! booleans, null, lists and associations have a native Python form; every
//! other value (symbols, calls, functions, rules, ...) is wrapped in a
//! `SymaValue`.
use vstd::prelude::*;
use vstd::string::*;
use crate::decimal::{parse_i64, spec_parse_i64};
use crate::json::{first_key_index, get, lemma_first_key_index_from, lookup, spec_number_as_i64, zero_float, Json, JsonNumber};
use crate::native::{native_model, NativeModel, PyNative, SymaValueData, WrappedModel};

verus! {

pub open spec fn tag_key() -> Seq<char> {
    "t"@
}

pub open spec fn value_key() -> Seq<char> {
    "v"@
}

/// The type tag of a tagged-JSON value: the string under `"t"` of an object.
pub open spec fn spec_tag(j: Json) -> Option<Seq<char>> {
    match j {
        Json::Object(entries) => match lookup(entries@, tag_key()) {
            Some(Json::String(s)) => Some(s@),
            _ => None,
        },
        _ => None,
    }
}

/// The tags of the Syma types that have a native Python form.
pub open spec fn is_native_tag(t: Seq<char>) -> bool {
    ||| t == "int"@
    ||| t == "real"@
    ||| t == "str"@
    ||| t == "bool"@
    ||| t == "null"@
    ||| t == "list"@
    ||| t == "assoc"@
}

/// A tagged-JSON value stands for a Syma type without a native Python form: it
/// is an object, and it has no string tag or a tag of no native type.
pub open spec fn spec_should_wrap(j: Json) -> bool {
    &&& j is Object
    &&& !(spec_tag(j) matches Some(t) && is_native_tag(t))
}

/// The type tag that a `SymaValue` shows: the tag, or `unknown`.
pub open spec fn spec_type_tag(j: Json) -> Seq<char> {
    match spec_tag(j) {
        Some(t) => t,
        None => "unknown"@,
    }
}

/// The Python object for a JSON value taken as plain JSON, with no regard to tags.
pub open spec fn raw_model(j: Json) -> NativeModel
    decreases j,
{
    match j {
        Json::Null => NativeModel::NoneValue,
        Json::Bool(b) => NativeModel::Bool(b),
        Json::Number(n) => match spec_number_as_i64(n) {
            Some(i) => NativeModel::Int(i as int),
            None => NativeModel::Float(n),
        },
        Json::String(s) => NativeModel::Str(s@),
        Json::Array(items) => NativeModel::List(
            Seq::new(
                items.len() as nat,
                |i: int|
                    if 0 <= i < items.len() {
                        raw_model(items@[i])
                    } else {
                        NativeModel::NoneValue
                    },
            ),
        ),
        Json::Object(entries) => NativeModel::Dict(
            Seq::new(
                entries.len() as nat,
                |i: int|
                    if 0 <= i < entries.len() {
                        (entries@[i].0@, raw_model(entries@[i].1))
                    } else {
                        (Seq::empty(), NativeModel::NoneValue)
                    },
            ),
        ),
    }
}

/// The text of an `int` payload: the string under `"v"`, or `0`.
pub open spec fn int_payload(entries: Seq<(String, Json)>) -> Seq<char> {
    match lookup(entries, value_key()) {
        Some(Json::String(s)) => s@,
        _ => "0"@,
    }
}

/// The Python `int` for the text of an `int` payload: exact where it fits an
/// `i64`, else read by Python's `int()`.
pub open spec fn int_model(text: Seq<char>) -> NativeModel {
    match spec_parse_i64(text) {
        Some(i) => NativeModel::Int(i as int),
        None => NativeModel::IntText(text),
    }
}

/// The Python object for a tagged-JSON value: native types by their tag, other
/// objects as plain JSON.
pub open spec fn tagged_model(j: Json) -> NativeModel
    decreases j,
{
    match j {
        Json::Null => NativeModel::NoneValue,
        Json::Bool(b) => NativeModel::Bool(b),
        Json::Number(n) => NativeModel::Float(n),
        Json::String(s) => NativeModel::Str(s@),
        Json::Array(items) => NativeModel::List(
            Seq::new(
                items.len() as nat,
                |i: int|
                    if 0 <= i < items.len() {
                        tagged_model(items@[i])
                    } else {
                        NativeModel::NoneValue
                    },
            ),
        ),
        Json::Object(entries) => {
            let v = lookup(entries@, value_key());
            if spec_tag(j) == Some("int"@) {
                int_model(int_payload(entries@))
            } else if spec_tag(j) == Some("real"@) {
                NativeModel::Float(
                    match v {
                        Some(Json::Number(n)) => n,
                        _ => zero_float(),
                    },
                )
            } else if spec_tag(j) == Some("str"@) {
                NativeModel::Str(
                    match v {
                        Some(Json::String(s)) => s@,
                        _ => Seq::empty(),
                    },
                )
            } else if spec_tag(j) == Some("bool"@) {
                NativeModel::Bool(
                    match v {
                        Some(Json::Bool(b)) => b,
                        _ => false,
                    },
                )
            } else if spec_tag(j) == Some("null"@) {
                NativeModel::NoneValue
            } else if spec_tag(j) == Some("list"@) {
                match first_key_index(entries@, value_key()) {
                    Some(k) => match entries@[k].1 {
                        Json::Array(items) => {
                            proof {
                                lemma_first_key_index_from(entries@, value_key(), 0);
                                assert(decreases_to!(j => entries));
                                assert(decreases_to!(entries => entries@));
                                assert(decreases_to!(entries@ => entries@[k]));
                                assert(decreases_to!(entries@[k] => entries@[k].1));
                                assert(decreases_to!(entries@[k].1 => items));
                                assert(decreases_to!(items => items@));
                            }
                            NativeModel::List(
                                Seq::new(
                                    items.len() as nat,
                                    |i: int|
                                        if 0 <= i < items.len() {
                                            tagged_model(items@[i])
                                        } else {
                                            NativeModel::NoneValue
                                        },
                                ),
                            )
                        },
                        _ => NativeModel::NoneValue,
                    },
                    None => NativeModel::NoneValue,
                }
            } else if spec_tag(j) == Some("assoc"@) {
                match first_key_index(entries@, value_key()) {
                    Some(k) => match entries@[k].1 {
                        Json::Object(map) => {
                            proof {
                                lemma_first_key_index_from(entries@, value_key(), 0);
                                assert(decreases_to!(j => entries));
                                assert(decreases_to!(entries => entries@));
                                assert(decreases_to!(entries@ => entries@[k]));
                                assert(decreases_to!(entries@[k] => entries@[k].1));
                                assert(decreases_to!(entries@[k].1 => map));
                                assert(decreases_to!(map => map@));
                            }
                            NativeModel::Dict(
                                Seq::new(
                                    map.len() as nat,
                                    |i: int|
                                        if 0 <= i < map.len() {
                                            (map@[i].0@, tagged_model(map@[i].1))
                                        } else {
                                            (Seq::empty(), NativeModel::NoneValue)
                                        },
                                ),
                            )
                        },
                        _ => NativeModel::NoneValue,
                    },
                    None => NativeModel::NoneValue,
                }
            } else {
                raw_model(j)
            }
        },
    }
}

} // verus!

verus! {

/// The type tag of a tagged-JSON value, as `as_object`, `get("t")` and `as_str` find it.
pub fn tag_of(j: &Json) -> (r: Option<&String>)
    ensures
        match r {
            Some(s) => spec_tag(*j) == Some(s@),
            None => spec_tag(*j) is None,
        },
{
    match j.as_object() {
        Some(entries) => {
            let key = String::from_str("t");
            match get(entries, &key) {
                Some(v) => v.as_str(),
                None => None,
            }
        },
        None => None,
    }
}

/// Whether a tag names a Syma type with a native Python form.
pub fn is_native_tag_name(t: &String) -> (r: bool)
    ensures
        r == is_native_tag(t@),
{
    *t == String::from_str("int") || *t == String::from_str("real") || *t == String::from_str("str")
        || *t == String::from_str("bool") || *t == String::from_str("null") || *t
        == String::from_str("list") || *t == String::from_str("assoc")
}

/// Whether a tagged-JSON value is to be wrapped in a `SymaValue` rather than
/// converted to a native Python object.
pub fn should_wrap_in_syma_value(jv: &Json) -> (r: bool)
    ensures
        r == spec_should_wrap(*jv),
{
    match jv.as_object() {
        Some(_) => match tag_of(jv) {
            Some(t) => !is_native_tag_name(t),
            None => true,
        },
        None => false,
    }
}

/// The type tag that a `SymaValue` shows: the tag, or `unknown`.
pub fn type_tag_of(jv: &Json) -> (r: String)
    ensures
        r@ == spec_type_tag(*jv),
{
    match tag_of(jv) {
        Some(t) => t.clone(),
        None => String::from_str("unknown"),
    }
}

/// A JSON value as a Python object, with no regard to tags: numbers that fit an
/// `i64` become `int`, other numbers `float`, arrays `list`, objects `dict`.
pub fn raw_to_native(j: &Json) -> (r: PyNative)
    ensures
        r@ == raw_model(*j),
    decreases j,
{
    match j {
        Json::Null => PyNative::NoneValue,
        Json::Bool(b) => PyNative::Bool(*b),
        Json::Number(n) => match n.as_i64() {
            Some(i) => PyNative::Int(i as i128),
            None => PyNative::Float(*n),
        },
        Json::String(s) => PyNative::Str(s.clone()),
        Json::Array(items) => {
            let mut out: Vec<PyNative> = Vec::new();
            let mut i: usize = 0;
            while i < items.len()
                invariant
                    i <= items.len(),
                    *j == Json::Array(*items),
                    out.len() == i,
                    forall|k: int| 0 <= k < i ==> #[trigger] native_model(out@[k]) == raw_model(items@[k]),
                decreases items.len() - i,
            {
                proof {
                    assert(decreases_to!(*j => (*j)->Array_0));
                    assert(decreases_to!(*items => items@));
                    assert(decreases_to!(items@ => items@[i as int]));
                }
                let x = raw_to_native(&items[i]);
                out.push(x);
                i = i + 1;
            }
            let ghost lhs = Seq::new(out.len() as nat, |k: int| if 0 <= k < out.len() { native_model(out@[k]) } else { NativeModel::NoneValue });
            let ghost rhs = Seq::new(items.len() as nat, |k: int| if 0 <= k < items.len() { raw_model(items@[k]) } else { NativeModel::NoneValue });
            assert(lhs =~= rhs);
            let r = PyNative::List(out);
            assert(native_model(r)->List_0 =~= lhs);
            assert(raw_model(*j)->List_0 =~= rhs);
            r
        },
        Json::Object(entries) => {
            let mut out: Vec<(String, PyNative)> = Vec::new();
            let mut i: usize = 0;
            while i < entries.len()
                invariant
                    i <= entries.len(),
                    *j == Json::Object(*entries),
                    out.len() == i,
                    forall|k: int|
                        0 <= k < i ==> #[trigger] out@[k].0@ == entries@[k].0@ && native_model(out@[k].1)
                            == raw_model(entries@[k].1),
                decreases entries.len() - i,
            {
                proof {
                    assert(decreases_to!(*j => (*j)->Object_0));
                    assert(decreases_to!(*entries => entries@));
                    assert(decreases_to!(entries@ => entries@[i as int]));
                    assert(decreases_to!(entries@[i as int] => entries@[i as int].1));
                }
                let key = entries[i].0.clone();
                let x = raw_to_native(&entries[i].1);
                out.push((key, x));
                i = i + 1;
            }
            let ghost lhs = Seq::new(out.len() as nat, |k: int| if 0 <= k < out.len() { (out@[k].0@, native_model(out@[k].1)) } else { (Seq::empty(), NativeModel::NoneValue) });
            let ghost rhs = Seq::new(entries.len() as nat, |k: int| if 0 <= k < entries.len() { (entries@[k].0@, raw_model(entries@[k].1)) } else { (Seq::empty(), NativeModel::NoneValue) });
            assert(lhs =~= rhs);
            let r = PyNative::Dict(out);
            assert(native_model(r)->Dict_0 =~= lhs);
            assert(raw_model(*j)->Dict_0 =~= rhs);
            r
        },
    }
}

} // verus!

verus! {

/// A tagged-JSON value as a Python object: `int`, `real`, `str`, `bool`,
/// `null`, `list` and `assoc` values by their payload under `"v"`; bare JSON
/// scalars and arrays as themselves; any other object as plain JSON.
pub fn tagged_to_native(j: &Json) -> (r: PyNative)
    ensures
        r@ == tagged_model(*j),
    decreases j, 1nat,
{
    match j {
        Json::Null => PyNative::NoneValue,
        Json::Bool(b) => PyNative::Bool(*b),
        Json::Number(n) => PyNative::Float(*n),
        Json::String(s) => PyNative::Str(s.clone()),
        Json::Array(items) => {
            proof {
                assert(decreases_to!(*j => (*j)->Array_0));
            }
            let r = tagged_list(Ghost(j), items);
            assert(r@->List_0 =~= tagged_model(*j)->List_0);
            r
        },
        Json::Object(entries) => {
            let vkey = String::from_str("v");
            let v = get(entries, &vkey);
            let tag = tag_of(j);
            let t = match tag {
                Some(t) => t,
                None => {
                    return raw_to_native(j);
                },
            };
            if *t == String::from_str("int") {
                let text: &str = match v {
                    Some(x) => match x.as_str() {
                        Some(s) => s.as_str(),
                        None => "0",
                    },
                    None => "0",
                };
                match parse_i64(text) {
                    Some(i) => PyNative::Int(i as i128),
                    None => PyNative::IntText(String::from_str(text)),
                }
            } else if *t == String::from_str("real") {
                match v {
                    Some(x) => match x.as_number() {
                        Some(n) => PyNative::Float(n),
                        None => PyNative::Float(JsonNumber::Float(0)),
                    },
                    None => PyNative::Float(JsonNumber::Float(0)),
                }
            } else if *t == String::from_str("str") {
                match v {
                    Some(x) => match x.as_str() {
                        Some(s) => PyNative::Str(s.clone()),
                        None => PyNative::Str(String::new()),
                    },
                    None => PyNative::Str(String::new()),
                }
            } else if *t == String::from_str("bool") {
                match v {
                    Some(x) => match x.as_bool() {
                        Some(b) => PyNative::Bool(b),
                        None => PyNative::Bool(false),
                    },
                    None => PyNative::Bool(false),
                }
            } else if *t == String::from_str("null") {
                PyNative::NoneValue
            } else if *t == String::from_str("list") {
                match v {
                    Some(x) => match x {
                        Json::Array(items) => {
                            proof {
                                lemma_first_key_index_from(entries@, value_key(), 0);
                                let k = first_key_index(entries@, value_key())->0;
                                assert(decreases_to!(*j => (*j)->Object_0));
                                assert(decreases_to!(*entries => entries@));
                                assert(decreases_to!(entries@ => entries@[k]));
                                assert(decreases_to!(entries@[k] => entries@[k].1));
                                assert(decreases_to!(entries@[k].1 => (entries@[k].1)->Array_0));
                            }
                            let r = tagged_list(Ghost(j), items);
                            assert(r@->List_0 =~= tagged_model(*j)->List_0);
                            r
                        },
                        _ => PyNative::NoneValue,
                    },
                    None => PyNative::NoneValue,
                }
            } else if *t == String::from_str("assoc") {
                match v {
                    Some(x) => match x {
                        Json::Object(map) => {
                            proof {
                                lemma_first_key_index_from(entries@, value_key(), 0);
                                let k = first_key_index(entries@, value_key())->0;
                                assert(decreases_to!(*j => (*j)->Object_0));
                                assert(decreases_to!(*entries => entries@));
                                assert(decreases_to!(entries@ => entries@[k]));
                                assert(decreases_to!(entries@[k] => entries@[k].1));
                                assert(decreases_to!(entries@[k].1 => (entries@[k].1)->Object_0));
                            }
                            let r = tagged_dict(Ghost(j), map);
                            assert(r@->Dict_0 =~= tagged_model(*j)->Dict_0);
                            r
                        },
                        _ => PyNative::NoneValue,
                    },
                    None => PyNative::NoneValue,
                }
            } else {
                raw_to_native(j)
            }
        },
    }
}

/// The items of a list, each converted by its tag.
fn tagged_list(Ghost(parent): Ghost<&Json>, items: &Vec<Json>) -> (r: PyNative)
    requires
        decreases_to!(*parent => *items),
    ensures
        r@ == NativeModel::List(
            Seq::new(
                items.len() as nat,
                |i: int|
                    if 0 <= i < items.len() {
                        tagged_model(items@[i])
                    } else {
                        NativeModel::NoneValue
                    },
            ),
        ),
    decreases parent, 0nat,
{
    let mut out: Vec<PyNative> = Vec::new();
    let mut i: usize = 0;
    while i < items.len()
        invariant
            i <= items.len(),
            decreases_to!(*parent => *items),
            out.len() == i,
            forall|k: int| 0 <= k < i ==> #[trigger] native_model(out@[k]) == tagged_model(items@[k]),
        decreases items.len() - i,
    {
        proof {
            assert(decreases_to!(*items => items@));
            assert(decreases_to!(items@ => items@[i as int]));
        }
        let x = tagged_to_native(&items[i]);
        out.push(x);
        i = i + 1;
    }
    let ghost lhs = Seq::new(out.len() as nat, |k: int| if 0 <= k < out.len() { native_model(out@[k]) } else { NativeModel::NoneValue });
    let ghost rhs = Seq::new(items.len() as nat, |k: int| if 0 <= k < items.len() { tagged_model(items@[k]) } else { NativeModel::NoneValue });
    assert(lhs =~= rhs);
    let r = PyNative::List(out);
    assert(native_model(r)->List_0 =~= lhs);
    r
}

/// The entries of an association, each value converted by its tag.
fn tagged_dict(Ghost(parent): Ghost<&Json>, map: &Vec<(String, Json)>) -> (r: PyNative)
    requires
        decreases_to!(*parent => *map),
    ensures
        r@ == NativeModel::Dict(
            Seq::new(
                map.len() as nat,
                |i: int|
                    if 0 <= i < map.len() {
                        (map@[i].0@, tagged_model(map@[i].1))
                    } else {
                        (Seq::empty(), NativeModel::NoneValue)
                    },
            ),
        ),
    decreases parent, 0nat,
{
    let mut out: Vec<(String, PyNative)> = Vec::new();
    let mut i: usize = 0;
    while i < map.len()
        invariant
            i <= map.len(),
            decreases_to!(*parent => *map),
            out.len() == i,
            forall|k: int|
                0 <= k < i ==> #[trigger] out@[k].0@ == map@[k].0@ && native_model(out@[k].1)
                    == tagged_model(map@[k].1),
        decreases map.len() - i,
    {
        proof {
            assert(decreases_to!(*map => map@));
            assert(decreases_to!(map@ => map@[i as int]));
            assert(decreases_to!(map@[i as int] => map@[i as int].1));
        }
        let key = map[i].0.clone();
        let x = tagged_to_native(&map[i].1);
        out.push((key, x));
        i = i + 1;
    }
    let ghost lhs = Seq::new(out.len() as nat, |k: int| if 0 <= k < out.len() { (out@[k].0@, native_model(out@[k].1)) } else { (Seq::empty(), NativeModel::NoneValue) });
    let ghost rhs = Seq::new(map.len() as nat, |k: int| if 0 <= k < map.len() { (map@[k].0@, tagged_model(map@[k].1)) } else { (Seq::empty(), NativeModel::NoneValue) });
    assert(lhs =~= rhs);
    let r = PyNative::Dict(out);
    assert(native_model(r)->Dict_0 =~= lhs);
    r
}

} // verus!

verus! {

/// A Syma value (its tagged JSON and its display text) as a Python object:
/// wrapped in a `SymaValue` where it has no native form, else converted.
pub open spec fn wrap_or_convert_model(json: Json, display: Seq<char>) -> NativeModel {
    if spec_should_wrap(json) {
        NativeModel::Wrapped(WrappedModel { type_tag: spec_type_tag(json), json: json, display: display })
    } else {
        tagged_model(json)
    }
}

/// A Syma value as a Python object: a `SymaValue` with its type tag, its
/// tagged JSON and `display` where it has no native form, else its native form.
pub fn value_to_native(json: Json, display: String) -> (r: PyNative)
    ensures
        r@ == wrap_or_convert_model(json, display@),
{
    if should_wrap_in_syma_value(&json) {
        let type_tag = type_tag_of(&json);
        PyNative::Wrapped(SymaValueData { type_tag, json, display })
    } else {
        tagged_to_native(&json)
    }
}

} // verus!
