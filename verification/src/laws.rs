//! Properties of the conversions from Syma to Python, stated over the tagged
//! JSON itself: the `"t"` and `"v"` entries and the seven native tags are
//! written out here.
use vstd::prelude::*;
use crate::convert::{raw_model, spec_should_wrap, spec_tag, tagged_model, wrap_or_convert_model};
use crate::decimal::{decimal_text, lemma_parse_decimal_text, spec_parse_i64};
use crate::json::{lookup, spec_number_as_i64, Json, JsonNumber};
use crate::kernel::{
    bindings_model, eval_model, failure_message, last_present, lookup_model, report_model,
    Binding, KernelOutcome, StatementOutcome,
};
use crate::native::{NativeModel, WrappedModel};
use crate::syma_value::{spec_payload, spec_repr};

verus! {

/// `j` is an object whose `"t"` entry is the string `tag`.
pub open spec fn has_tag(j: Json, tag: Seq<char>) -> bool {
    j matches Json::Object(entries) && lookup(entries@, "t"@) matches Some(Json::String(t)) && t@
        == tag
}

/// The `"v"` entry of an object.
pub open spec fn payload_of(j: Json) -> Option<Json> {
    match j {
        Json::Object(entries) => lookup(entries@, "v"@),
        _ => None,
    }
}

/// The tag that a `SymaValue` shows: the string under `"t"`, or `unknown`.
pub open spec fn shown_tag(j: Json) -> Seq<char> {
    match j {
        Json::Object(entries) => match lookup(entries@, "t"@) {
            Some(Json::String(t)) => t@,
            _ => "unknown"@,
        },
        _ => "unknown"@,
    }
}

/// `j` carries one of the seven tags of types with a native Python form.
pub open spec fn has_native_tag(j: Json) -> bool {
    ||| has_tag(j, "int"@)
    ||| has_tag(j, "real"@)
    ||| has_tag(j, "str"@)
    ||| has_tag(j, "bool"@)
    ||| has_tag(j, "null"@)
    ||| has_tag(j, "list"@)
    ||| has_tag(j, "assoc"@)
}

/// The seven native tags are distinct texts.
pub proof fn lemma_native_tags_distinct()
    ensures
        "int"@ != "real"@,
        "int"@ != "str"@,
        "int"@ != "bool"@,
        "int"@ != "null"@,
        "int"@ != "list"@,
        "int"@ != "assoc"@,
        "real"@ != "str"@,
        "real"@ != "bool"@,
        "real"@ != "null"@,
        "real"@ != "list"@,
        "real"@ != "assoc"@,
        "str"@ != "bool"@,
        "str"@ != "null"@,
        "str"@ != "list"@,
        "str"@ != "assoc"@,
        "bool"@ != "null"@,
        "bool"@ != "list"@,
        "bool"@ != "assoc"@,
        "null"@ != "list"@,
        "null"@ != "assoc"@,
        "list"@ != "assoc"@,
{
    reveal_strlit("int");
    reveal_strlit("real");
    reveal_strlit("str");
    reveal_strlit("bool");
    reveal_strlit("null");
    reveal_strlit("list");
    reveal_strlit("assoc");
    assert("int"@[0] != "real"@[0]);
    assert("int"@[0] != "str"@[0]);
    assert("int"@[0] != "bool"@[0]);
    assert("int"@[0] != "null"@[0]);
    assert("int"@[0] != "list"@[0]);
    assert("int"@[0] != "assoc"@[0]);
    assert("real"@[0] != "str"@[0]);
    assert("real"@[0] != "bool"@[0]);
    assert("real"@[0] != "null"@[0]);
    assert("real"@[0] != "list"@[0]);
    assert("real"@[0] != "assoc"@[0]);
    assert("str"@[0] != "bool"@[0]);
    assert("str"@[0] != "null"@[0]);
    assert("str"@[0] != "list"@[0]);
    assert("str"@[0] != "assoc"@[0]);
    assert("bool"@[0] != "null"@[0]);
    assert("bool"@[0] != "list"@[0]);
    assert("bool"@[0] != "assoc"@[0]);
    assert("null"@[0] != "list"@[0]);
    assert("null"@[0] != "assoc"@[0]);
    assert("list"@[0] != "assoc"@[0]);
}

/// A value tagged `int`, `real`, `str`, `bool`, `null`, `list` or `assoc` is
/// converted to its native form, never wrapped in a `SymaValue`: as a
/// statement result, as the value of a variable, or anywhere else.
pub proof fn law_native_types_are_converted(j: Json, display: String)
    requires
        has_native_tag(j),
    ensures
        !spec_should_wrap(j),
        wrap_or_convert_model(j, display@) == tagged_model(j),
        lookup_model(Some((j, display))) == tagged_model(j),
        !(tagged_model(j) is Wrapped),
{
}

/// Any other object (a symbol, call, function, rule, ..., or an object
/// without a string tag) is wrapped in a `SymaValue` that keeps its tag (or
/// `unknown`), its full tagged JSON and its display text: as a statement
/// result and as the value of a variable alike. Converted without wrapping
/// (as `to_python` does), it is shown as plain JSON.
pub proof fn law_other_objects_are_wrapped(j: Json, display: String)
    requires
        j is Object,
        !has_native_tag(j),
    ensures
        spec_should_wrap(j),
        wrap_or_convert_model(j, display@) == NativeModel::Wrapped(
            WrappedModel { type_tag: shown_tag(j), json: j, display: display@ },
        ),
        lookup_model(Some((j, display))) == NativeModel::Wrapped(
            WrappedModel { type_tag: shown_tag(j), json: j, display: display@ },
        ),
        tagged_model(j) == raw_model(j),
{
    lemma_native_tags_distinct();
}

/// Integers go both ways: the tagged `int` whose payload is the decimal text of
/// an `i64` becomes a Python `int` of exactly that value, and a Python `int`
/// that fits an `i64` becomes a Syma integer of that value. A payload that is
/// no such text is read by Python's `int()`; a missing one reads as `0`.
pub proof fn law_integers_both_ways(j: Json, n: i64)
    requires
        has_tag(j, "int"@),
    ensures
        payload_of(j) matches Some(Json::String(s)) ==> (s@ == decimal_text(n as int) ==> tagged_model(j)
            == NativeModel::Int(n as int)),
        payload_of(j) matches Some(Json::String(s)) ==> (spec_parse_i64(s@) is None ==> tagged_model(j)
            == NativeModel::IntText(s@)),
        !(payload_of(j) matches Some(Json::String(_))) ==> tagged_model(j) == NativeModel::Int(0),
        crate::py_input::convert_model(crate::py_input::PyInput::Int(n)) == Ok::<
            crate::py_input::SymaModel,
            crate::py_input::ErrorModel,
        >(crate::py_input::SymaModel::Int(n)),
{
    lemma_parse_decimal_text(n);
    lemma_parse_decimal_text(0);
    reveal_strlit("0");
    assert(decimal_text(0) =~= "0"@);
}

/// Reals go both ways: the tagged `real` whose payload is a number becomes a
/// Python `float` of exactly that number (a missing payload gives `0.0`), and
/// every Python `float` becomes a Syma real of exactly the same bits.
pub proof fn law_reals_both_ways(j: Json, bits: u64)
    requires
        has_tag(j, "real"@),
    ensures
        payload_of(j) matches Some(Json::Number(n)) ==> tagged_model(j) == NativeModel::Float(n),
        !(payload_of(j) matches Some(Json::Number(_))) ==> tagged_model(j) == NativeModel::Float(
            JsonNumber::Float(0),
        ),
        crate::py_input::convert_model(crate::py_input::PyInput::Float(bits)) == Ok::<
            crate::py_input::SymaModel,
            crate::py_input::ErrorModel,
        >(crate::py_input::SymaModel::Real(bits)),
{
    lemma_native_tags_distinct();
}

/// Strings go both ways: the tagged `str` whose payload is a string becomes a
/// Python `str` of that text (else the empty `str`), and a Python `str`
/// becomes a Syma string of it.
pub proof fn law_strings_both_ways(j: Json, text: String)
    requires
        has_tag(j, "str"@),
    ensures
        payload_of(j) matches Some(Json::String(s)) ==> tagged_model(j) == NativeModel::Str(s@),
        !(payload_of(j) matches Some(Json::String(_))) ==> tagged_model(j) == NativeModel::Str(
            Seq::empty(),
        ),
        crate::py_input::convert_model(crate::py_input::PyInput::Str(text)) == Ok::<
            crate::py_input::SymaModel,
            crate::py_input::ErrorModel,
        >(crate::py_input::SymaModel::Str(text@)),
{
    lemma_native_tags_distinct();
}

/// Booleans go both ways: the tagged `bool` whose payload is a boolean becomes
/// that Python `bool` (else `False`), and a Python `bool` becomes that Syma
/// boolean.
pub proof fn law_booleans_both_ways(j: Json, b: bool)
    requires
        has_tag(j, "bool"@),
    ensures
        payload_of(j) matches Some(Json::Bool(v)) ==> tagged_model(j) == NativeModel::Bool(v),
        !(payload_of(j) matches Some(Json::Bool(_))) ==> tagged_model(j) == NativeModel::Bool(false),
        crate::py_input::convert_model(crate::py_input::PyInput::Bool(b)) == Ok::<
            crate::py_input::SymaModel,
            crate::py_input::ErrorModel,
        >(crate::py_input::SymaModel::Bool(b)),
{
    lemma_native_tags_distinct();
}

/// Null goes both ways: the tagged `null` becomes Python `None`, and `None`
/// becomes Syma's null.
pub proof fn law_null_both_ways(j: Json)
    requires
        has_tag(j, "null"@),
    ensures
        tagged_model(j) == NativeModel::NoneValue,
        crate::py_input::convert_model(crate::py_input::PyInput::NoneValue) == Ok::<
            crate::py_input::SymaModel,
            crate::py_input::ErrorModel,
        >(crate::py_input::SymaModel::Null),
{
    lemma_native_tags_distinct();
}

/// Lists and associations convert item by item: the tagged `list` whose
/// payload is an array becomes a Python `list` of its items, each converted by
/// its own tag, and the tagged `assoc` whose payload is an object becomes a
/// `dict` of its entries in order, each value converted by its own tag. A
/// payload of another kind, or none, gives `None`.
pub proof fn law_collections_convert_item_by_item(j: Json)
    requires
        has_tag(j, "list"@) || has_tag(j, "assoc"@),
    ensures
        has_tag(j, "list"@) ==> match payload_of(j) {
            Some(Json::Array(items)) => tagged_model(j) matches NativeModel::List(xs) && xs.len()
                == items.len() && forall|i: int|
                0 <= i < items.len() ==> xs[i] == tagged_model(#[trigger] items@[i]),
            _ => tagged_model(j) == NativeModel::NoneValue,
        },
        has_tag(j, "assoc"@) ==> match payload_of(j) {
            Some(Json::Object(map)) => tagged_model(j) matches NativeModel::Dict(xs) && xs.len()
                == map.len() && forall|i: int|
                0 <= i < map.len() ==> xs[i] == (map@[i].0@, tagged_model(#[trigger] map@[i].1)),
            _ => tagged_model(j) == NativeModel::NoneValue,
        },
{
    lemma_native_tags_distinct();
    let entries = j->Object_0;
    crate::json::lemma_first_key_index_from(entries@, "v"@, 0);
}

/// JSON that is not an object converts as itself: `null` to `None`, booleans
/// and strings to themselves, any number to a `float` of it, an array to a
/// `list` of its items each converted by its tag.
pub proof fn law_bare_json_converts_as_itself(j: Json)
    requires
        !(j is Object),
    ensures
        j is Null ==> tagged_model(j) == NativeModel::NoneValue,
        j matches Json::Bool(b) ==> tagged_model(j) == NativeModel::Bool(b),
        j matches Json::Number(n) ==> tagged_model(j) == NativeModel::Float(n),
        j matches Json::String(s) ==> tagged_model(j) == NativeModel::Str(s@),
        j matches Json::Array(items) ==> tagged_model(j) matches NativeModel::List(xs) && xs.len()
            == items.len() && forall|i: int|
            0 <= i < items.len() ==> xs[i] == tagged_model(#[trigger] items@[i]),
        !spec_should_wrap(j),
{
}

/// Plain JSON (as `to_json` shows it): `null` to `None`, booleans and strings
/// to themselves, a number that is an integer fitting an `i64` to that `int`,
/// any other number to a `float`, arrays to lists and objects to dicts of the
/// same keys in the same order, item by item.
pub proof fn law_plain_json(j: Json)
    ensures
        j is Null ==> raw_model(j) == NativeModel::NoneValue,
        j matches Json::Bool(b) ==> raw_model(j) == NativeModel::Bool(b),
        j matches Json::String(s) ==> raw_model(j) == NativeModel::Str(s@),
        j matches Json::Number(JsonNumber::NegInt(i)) ==> raw_model(j) == NativeModel::Int(i as int),
        j matches Json::Number(JsonNumber::PosInt(u)) ==> raw_model(j) == if u <= i64::MAX {
            NativeModel::Int(u as int)
        } else {
            NativeModel::Float(JsonNumber::PosInt(u))
        },
        j matches Json::Number(JsonNumber::Float(f)) ==> raw_model(j) == NativeModel::Float(
            JsonNumber::Float(f),
        ),
        j matches Json::Array(items) ==> raw_model(j) matches NativeModel::List(xs) && xs.len()
            == items.len() && forall|i: int|
            0 <= i < items.len() ==> xs[i] == raw_model(#[trigger] items@[i]),
        j matches Json::Object(map) ==> raw_model(j) matches NativeModel::Dict(xs) && xs.len()
            == map.len() && forall|i: int|
            0 <= i < map.len() ==> xs[i] == (map@[i].0@, raw_model(#[trigger] map@[i].1)),
{
}

/// A `SymaValue`'s `value` is its payload under `"v"` as plain JSON, or its
/// whole JSON where it has no payload; its `repr` is
/// `SymaValue(type='<tag>', display='<display>')`.
pub proof fn law_syma_value_readings(j: Json, type_tag: Seq<char>, display: Seq<char>)
    ensures
        payload_of(j) matches Some(v) ==> raw_model(spec_payload(j)) == raw_model(v),
        payload_of(j) is None ==> raw_model(spec_payload(j)) == raw_model(j),
        spec_repr(type_tag, display) == "SymaValue(type='"@ + type_tag + "', display='"@ + display
            + "')"@,
{
}

/// A successful evaluation gives the last statement that has a result (wrapped
/// or converted), and `get` of a variable holding that same value and display
/// text gives the same object.
pub proof fn law_eval_gives_last_result(kr: KernelOutcome, k: int)
    requires
        kr.success,
        kr.results is Some,
        0 <= k < kr.results->0@.len(),
        kr.results->0@[k] is Some,
        forall|i: int| k < i < kr.results->0@.len() ==> kr.results->0@[i] is None,
    ensures
        eval_model(kr) == wrap_or_convert_model(
            kr.results->0@[k]->0.value,
            kr.results->0@[k]->0.output@,
        ),
        eval_model(kr) == lookup_model(
            Some((kr.results->0@[k]->0.value, kr.results->0@[k]->0.output)),
        ),
{
    lemma_last_present_at(kr.results->0@, k);
}

/// A successful evaluation where no statement has a result gives `None`, and a
/// failed one raises the kernel's error, or `Evaluation failed`.
pub proof fn law_eval_without_result(kr: KernelOutcome)
    ensures
        kr.success && (kr.results matches Some(rs) ==> forall|i: int|
            0 <= i < rs@.len() ==> rs@[i] is None) ==> eval_model(kr) == NativeModel::NoneValue,
        kr.error matches Some(e) ==> failure_message(kr) == e@,
        kr.error is None ==> failure_message(kr) == "Evaluation failed"@,
{
    if kr.results is Some {
        if forall|i: int| 0 <= i < kr.results->0@.len() ==> kr.results->0@[i] is None {
            lemma_last_present_none(kr.results->0@);
        }
    }
}

/// Evaluating a string gives the Python `str` of its text.
pub proof fn law_eval_of_string(kr: KernelOutcome, text: String)
    requires
        kr.success,
        kr.results is Some,
        kr.results->0@.len() > 0,
        kr.results->0@.last() is Some,
        has_tag(kr.results->0@.last()->0.value, "str"@),
        payload_of(kr.results->0@.last()->0.value) == Some(Json::String(text)),
    ensures
        eval_model(kr) == NativeModel::Str(text@),
{
    let st = kr.results->0@.last()->0;
    law_native_types_are_converted(st.value, st.output);
    law_strings_both_ways(st.value, text);
}

/// `get` of an undefined variable gives `None`; each entry of `bindings()` is
/// the variable's name with what `get` gives for its value and its own display
/// text, in the order given.
pub proof fn law_bindings_are_gets(bs: Seq<Binding>)
    ensures
        lookup_model(None) == NativeModel::NoneValue,
        bindings_model(bs)->Dict_0.len() == bs.len(),
        forall|i: int|
            0 <= i < bs.len() ==> #[trigger] bindings_model(bs)->Dict_0[i] == (
                bs[i].name@,
                lookup_model(Some((bs[i].value, bs[i].display))),
            ),
{
}

/// The detailed report is a `dict` of, in order: `success`, `timing_ms`,
/// `results` (where the kernel gave results: per statement a `dict` of its
/// `output` and its converted `value`, both `None` for a statement without a
/// result), `messages` (a `list` of `str`) and `error` (where the kernel gave one).
pub proof fn law_report_contents(kr: KernelOutcome)
    ensures
        ({
            let d = report_model(kr)->Dict_0;
            let r: int = if kr.results is Some {
                1
            } else {
                0
            };
            &&& report_model(kr) is Dict
            &&& d.len() == 3 + r + if kr.error is Some {
                1int
            } else {
                0int
            }
            &&& d[0] == ("success"@, NativeModel::Bool(kr.success))
            &&& d[1] == ("timing_ms"@, NativeModel::Int(kr.timing_ms as int))
            &&& kr.results matches Some(rs) ==> d[2].0 == "results"@ && (d[2].1 matches NativeModel::List(
                xs,
            ) && xs.len() == rs.len() && forall|i: int|
                0 <= i < rs.len() ==> #[trigger] xs[i] == match rs@[i] {
                    Some(st) => NativeModel::Dict(
                        seq![
                            ("output"@, NativeModel::Str(st.output@)),
                            ("value"@, tagged_model(st.value)),
                        ],
                    ),
                    None => NativeModel::Dict(
                        seq![("output"@, NativeModel::NoneValue), ("value"@, NativeModel::NoneValue)],
                    ),
                })
            &&& d[2 + r].0 == "messages"@
            &&& d[2 + r].1 matches NativeModel::List(ms) && ms.len() == kr.messages.len() && forall|
                i: int,
            | 0 <= i < kr.messages.len() ==> #[trigger] ms[i] == NativeModel::Str(kr.messages@[i]@)
            &&& kr.error matches Some(e) ==> d[3 + r] == ("error"@, NativeModel::Str(e@))
        }),
{
}

proof fn lemma_last_present_at(s: Seq<Option<StatementOutcome>>, k: int)
    requires
        0 <= k < s.len(),
        s[k] is Some,
        forall|i: int| k < i < s.len() ==> s[i] is None,
    ensures
        last_present(s) == s[k],
    decreases s.len(),
{
    if k < s.len() - 1 {
        assert(s[s.len() - 1] is None);
        lemma_last_present_at(s.drop_last(), k);
    }
}

proof fn lemma_last_present_none(s: Seq<Option<StatementOutcome>>)
    requires
        forall|i: int| 0 <= i < s.len() ==> s[i] is None,
    ensures
        last_present(s) is None,
    decreases s.len(),
{
    if s.len() > 0 {
        assert(s[s.len() - 1] is None);
        lemma_last_present_none(s.drop_last());
    }
}

} // verus!
