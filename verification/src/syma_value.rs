//! What a `SymaValue` shows to Python: its text, its `repr`, and its JSON in
//! three readings.
use vstd::prelude::*;
use vstd::string::*;
use crate::convert::{raw_model, raw_to_native, tagged_model, tagged_to_native, value_key};
use crate::json::{get, lookup, Json};
use crate::native::{PyNative, SymaValueData};

verus! {

/// The payload of a tagged-JSON value: the entry under `"v"` of an object where
/// there is one, else the whole value.
pub open spec fn spec_payload(j: Json) -> Json {
    match j {
        Json::Object(entries) => match lookup(entries@, value_key()) {
            Some(v) => v,
            None => j,
        },
        _ => j,
    }
}

/// The `repr` of a `SymaValue`.
pub open spec fn spec_repr(type_tag: Seq<char>, display: Seq<char>) -> Seq<char> {
    "SymaValue(type='"@ + type_tag + "', display='"@ + display + "')"@
}

/// The payload of a tagged-JSON value (its `"v"` entry, or the whole value).
pub fn payload(j: &Json) -> (r: &Json)
    ensures
        *r == spec_payload(*j),
{
    match j {
        Json::Object(entries) => {
            let vkey = String::from_str("v");
            match get(entries, &vkey) {
                Some(v) => v,
                None => j,
            }
        },
        _ => j,
    }
}

impl SymaValueData {
    /// `str(value)`: the display text.
    pub fn display_text(&self) -> (r: String)
        ensures
            r@ == self.display@,
    {
        self.display.clone()
    }

    /// `repr(value)`: `SymaValue(type='<tag>', display='<display>')`.
    pub fn repr(&self) -> (r: String)
        ensures
            r@ == spec_repr(self.type_tag@, self.display@),
    {
        let mut r = String::from_str("SymaValue(type='");
        r.append(self.type_tag.as_str());
        r.append("', display='");
        r.append(self.display.as_str());
        r.append("')");
        r
    }

    /// `value.to_python()`: the best native reading of the tagged JSON.
    pub fn to_python(&self) -> (r: PyNative)
        ensures
            r@ == tagged_model(self.json),
    {
        tagged_to_native(&self.json)
    }

    /// `value.to_json()`: the tagged JSON itself, as plain JSON.
    pub fn to_json(&self) -> (r: PyNative)
        ensures
            r@ == raw_model(self.json),
    {
        raw_to_native(&self.json)
    }

    /// `value.value`: the payload under `"v"` as plain JSON, or the whole
    /// tagged JSON where it has none.
    pub fn value(&self) -> (r: PyNative)
        ensures
            r@ == raw_model(spec_payload(self.json)),
    {
        raw_to_native(payload(&self.json))
    }
}

} // verus!
