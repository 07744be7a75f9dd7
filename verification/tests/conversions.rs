use syma_py::convert::{should_wrap_in_syma_value, tagged_to_native, raw_to_native, type_tag_of, value_to_native};
use syma_py::decimal::parse_i64;
use syma_py::json::{get, Json, JsonNumber};
use syma_py::kernel::{bindings_report, eval_result, kernel_report, lookup_to_native, Binding, KernelOutcome, StatementOutcome};
use syma_py::native::{PyNative, SymaValueData};
use syma_py::py_input::{python_to_syma, ConversionError, IntegerRepr, PyInput, SymaInput};
use syma_py::syma_value::payload;

fn s(t: &str) -> String {
    t.to_string()
}

fn obj(entries: Vec<(&str, Json)>) -> Json {
    Json::Object(entries.into_iter().map(|(k, v)| (k.to_string(), v)).collect())
}

fn tagged(t: &str, v: Json) -> Json {
    obj(vec![("t", Json::String(s(t))), ("v", v)])
}

fn render(p: &PyNative) -> String {
    match p {
        PyNative::NoneValue => s("None"),
        PyNative::Bool(b) => if *b { s("True") } else { s("False") },
        PyNative::Int(i) => format!("{}", i),
        PyNative::IntText(t) => format!("int({:?})", t),
        PyNative::Float(n) => format!("float({:?})", n),
        PyNative::Str(t) => format!("{:?}", t),
        PyNative::List(items) => format!("[{}]", items.iter().map(render).collect::<Vec<_>>().join(", ")),
        PyNative::Dict(entries) => format!(
            "{{{}}}",
            entries.iter().map(|(k, v)| format!("{:?}: {}", k, render(v))).collect::<Vec<_>>().join(", ")
        ),
        PyNative::Wrapped(w) => format!("SymaValue({}, {})", w.type_tag, w.display),
    }
}

fn render_syma(x: &SymaInput) -> String {
    match x {
        SymaInput::FromJson(_) => s("json"),
        SymaInput::Null => s("Null"),
        SymaInput::Bool(b) => format!("Bool({})", b),
        SymaInput::Integer(IntegerRepr::Small(i)) => format!("Integer({})", i),
        SymaInput::Integer(IntegerRepr::Decimal(t)) => format!("Integer({})", t),
        SymaInput::Real(bits) => format!("Real({})", f64::from_bits(*bits)),
        SymaInput::Str(t) => format!("Str({:?})", t),
        SymaInput::List(items) => format!("List[{}]", items.iter().map(render_syma).collect::<Vec<_>>().join(", ")),
        SymaInput::Assoc(entries) => format!(
            "Assoc{{{}}}",
            entries.iter().map(|(k, v)| format!("{:?}: {}", k, render_syma(v))).collect::<Vec<_>>().join(", ")
        ),
    }
}

fn sym(name: &str) -> Json {
    tagged("sym", Json::String(s(name)))
}

#[test]
fn parse_i64_accepts_what_std_accepts() {
    for text in ["0", "42", "-42", "+42", "9223372036854775807", "-9223372036854775808", "007", "-0"] {
        assert_eq!(parse_i64(text), text.parse::<i64>().ok(), "{}", text);
    }
}

#[test]
fn parse_i64_refuses_what_std_refuses() {
    for text in ["", "-", "+", "--1", "+-1", "1a", " 1", "1 ", "9223372036854775808", "-9223372036854775809",
                 "99999999999999999999999", "1_000", "١٢", "1.0"] {
        assert_eq!(parse_i64(text), None, "{}", text);
        assert!(text.parse::<i64>().is_err());
    }
}

#[test]
fn parse_i64_round_trips_decimal_text() {
    for n in [0i64, 1, -1, 10, 12345, i64::MAX, i64::MIN] {
        assert_eq!(parse_i64(&n.to_string()), Some(n));
    }
}

#[test]
fn native_tags_convert_natively() {
    assert_eq!(render(&tagged_to_native(&tagged("int", Json::String(s("3"))))), "3");
    assert_eq!(render(&tagged_to_native(&tagged("int", Json::String(s("1024"))))), "1024");
    assert_eq!(render(&tagged_to_native(&tagged("str", Json::String(s("hello"))))), "\"hello\"");
    assert_eq!(render(&tagged_to_native(&tagged("bool", Json::Bool(true)))), "True");
    assert_eq!(render(&tagged_to_native(&obj(vec![("t", Json::String(s("null")))]))), "None");
    let real = tagged("real", Json::Number(JsonNumber::Float(2.5f64.to_bits())));
    assert_eq!(render(&tagged_to_native(&real)), format!("float({:?})", JsonNumber::Float(2.5f64.to_bits())));
    let list = tagged("list", Json::Array(vec![
        tagged("int", Json::String(s("1"))),
        tagged("int", Json::String(s("2"))),
        tagged("int", Json::String(s("3"))),
    ]));
    assert_eq!(render(&tagged_to_native(&list)), "[1, 2, 3]");
    let assoc = tagged("assoc", obj(vec![("a", tagged("int", Json::String(s("1"))))]));
    assert_eq!(render(&tagged_to_native(&assoc)), "{\"a\": 1}");
    for j in [&list, &assoc, &real] {
        assert!(!should_wrap_in_syma_value(j));
    }
}

#[test]
fn int_payloads_outside_i64_go_to_python_int() {
    let big = tagged("int", Json::String(s("123456789012345678901234567890")));
    assert_eq!(render(&tagged_to_native(&big)), "int(\"123456789012345678901234567890\")");
    // A missing payload reads as "0".
    assert_eq!(render(&tagged_to_native(&obj(vec![("t", Json::String(s("int")))]))), "0");
    // A payload that is not a string reads as "0" too.
    assert_eq!(render(&tagged_to_native(&tagged("int", Json::Bool(true)))), "0");
}

#[test]
fn missing_payloads_fall_back() {
    let only = |t: &str| obj(vec![("t", Json::String(s(t)))]);
    assert_eq!(render(&tagged_to_native(&only("str"))), "\"\"");
    assert_eq!(render(&tagged_to_native(&only("bool"))), "False");
    assert_eq!(render(&tagged_to_native(&only("real"))), format!("float({:?})", JsonNumber::Float(0)));
    assert_eq!(render(&tagged_to_native(&only("list"))), "None");
    assert_eq!(render(&tagged_to_native(&only("assoc"))), "None");
    assert_eq!(render(&tagged_to_native(&tagged("list", Json::String(s("x"))))), "None");
}

#[test]
fn bare_json_converts_as_itself() {
    assert_eq!(render(&tagged_to_native(&Json::Null)), "None");
    assert_eq!(render(&tagged_to_native(&Json::Number(JsonNumber::PosInt(7)))), format!("float({:?})", JsonNumber::PosInt(7)));
    assert_eq!(render(&tagged_to_native(&Json::Array(vec![Json::Bool(false), Json::String(s("x"))]))), "[False, \"x\"]");
    // An object with a non-native tag reaching the converter is shown as plain JSON.
    assert_eq!(render(&tagged_to_native(&sym("x"))), "{\"t\": \"sym\", \"v\": \"x\"}");
}

#[test]
fn raw_json_numbers() {
    assert_eq!(render(&raw_to_native(&Json::Number(JsonNumber::PosInt(5)))), "5");
    assert_eq!(render(&raw_to_native(&Json::Number(JsonNumber::NegInt(-5)))), "-5");
    let huge = JsonNumber::PosInt(u64::MAX);
    assert_eq!(render(&raw_to_native(&Json::Number(huge))), format!("float({:?})", huge));
    let f = JsonNumber::Float(1.5f64.to_bits());
    assert_eq!(render(&raw_to_native(&Json::Number(f))), format!("float({:?})", f));
    assert_eq!(render(&raw_to_native(&tagged("int", Json::String(s("3"))))), "{\"t\": \"int\", \"v\": \"3\"}");
}

#[test]
fn wrapping_decision() {
    assert!(should_wrap_in_syma_value(&sym("x")));
    assert!(should_wrap_in_syma_value(&tagged("call", Json::Null)));
    assert!(should_wrap_in_syma_value(&obj(vec![("a", Json::Null)])));
    assert!(should_wrap_in_syma_value(&obj(vec![("t", Json::Bool(true))])));
    assert!(!should_wrap_in_syma_value(&Json::Null));
    assert!(!should_wrap_in_syma_value(&Json::Array(vec![])));
    assert!(!should_wrap_in_syma_value(&tagged("int", Json::String(s("1")))));
    assert_eq!(type_tag_of(&sym("x")), "sym");
    assert_eq!(type_tag_of(&obj(vec![("a", Json::Null)])), "unknown");
    assert_eq!(type_tag_of(&obj(vec![("t", Json::Bool(true))])), "unknown");
}

#[test]
fn symbolic_values_are_wrapped() {
    let call = tagged("call", Json::Null);
    match value_to_native(call, s("x^3/3")) {
        PyNative::Wrapped(w) => {
            assert_eq!(w.type_tag, "call");
            assert_eq!(w.display, "x^3/3");
            assert_eq!(w.display_text(), "x^3/3");
            assert_eq!(w.repr(), "SymaValue(type='call', display='x^3/3')");
            assert_eq!(render(&w.to_json()), "{\"t\": \"call\", \"v\": None}");
            assert_eq!(render(&w.value()), "None");
        }
        other => panic!("expected a SymaValue, got {}", render(&other)),
    }
    assert_eq!(render(&value_to_native(tagged("int", Json::String(s("26"))), s("26"))), "26");
}

#[test]
fn syma_value_payload_and_readings() {
    let w = SymaValueData { type_tag: s("sym"), json: sym("x"), display: s("x") };
    assert_eq!(render(&w.value()), "\"x\"");
    assert_eq!(render(&w.to_python()), "{\"t\": \"sym\", \"v\": \"x\"}");
    let untagged = SymaValueData { type_tag: s("unknown"), json: obj(vec![("a", Json::Bool(true))]), display: s("?") };
    assert_eq!(render(&untagged.value()), "{\"a\": True}");
    assert!(matches!(payload(&Json::Bool(true)), Json::Bool(true)));
}

#[test]
fn object_lookup_takes_the_first_entry() {
    let entries = vec![(s("a"), Json::Bool(true)), (s("b"), Json::Null), (s("a"), Json::Bool(false))];
    assert!(matches!(get(&entries, &s("a")), Some(Json::Bool(true))));
    assert!(matches!(get(&entries, &s("b")), Some(Json::Null)));
    assert!(get(&entries, &s("c")).is_none());
}

fn stmt(output: &str, value: Json) -> Option<StatementOutcome> {
    Some(StatementOutcome { output: s(output), value })
}

#[test]
fn eval_returns_last_result() {
    let kr = KernelOutcome {
        success: true,
        results: Some(vec![stmt("1", tagged("int", Json::String(s("1")))), stmt("3", tagged("int", Json::String(s("3")))), None]),
        messages: vec![],
        error: None,
        timing_ms: 0,
    };
    assert_eq!(render(&eval_result(kr).unwrap()), "3");
    let none = KernelOutcome { success: true, results: Some(vec![None, None]), messages: vec![], error: None, timing_ms: 0 };
    assert_eq!(render(&eval_result(none).unwrap()), "None");
    let empty = KernelOutcome { success: true, results: None, messages: vec![], error: None, timing_ms: 0 };
    assert_eq!(render(&eval_result(empty).unwrap()), "None");
    let symbolic = KernelOutcome { success: true, results: Some(vec![stmt("x^2", tagged("call", Json::Null))]), messages: vec![], error: None, timing_ms: 0 };
    assert_eq!(render(&eval_result(symbolic).unwrap()), "SymaValue(call, x^2)");
}

#[test]
fn eval_failure_is_an_error() {
    let kr = KernelOutcome { success: false, results: None, messages: vec![], error: Some(s("parse error")), timing_ms: 0 };
    assert_eq!(eval_result(kr).unwrap_err(), "parse error");
    let kr = KernelOutcome { success: false, results: Some(vec![stmt("1", Json::Null)]), messages: vec![], error: None, timing_ms: 0 };
    assert_eq!(eval_result(kr).unwrap_err(), "Evaluation failed");
}

#[test]
fn detailed_report() {
    let kr = KernelOutcome {
        success: true,
        results: Some(vec![stmt("3", tagged("int", Json::String(s("3")))), None, stmt("x", sym("x"))]),
        messages: vec![s("note")],
        error: None,
        timing_ms: 12,
    };
    assert_eq!(
        render(&kernel_report(&kr)),
        "{\"success\": True, \"timing_ms\": 12, \"results\": [{\"output\": \"3\", \"value\": 3}, {\"output\": None, \"value\": None}, {\"output\": \"x\", \"value\": {\"t\": \"sym\", \"v\": \"x\"}}], \"messages\": [\"note\"]}"
    );
    let failed = KernelOutcome { success: false, results: None, messages: vec![], error: Some(s("boom")), timing_ms: 0 };
    assert_eq!(render(&kernel_report(&failed)), "{\"success\": False, \"timing_ms\": 0, \"messages\": [], \"error\": \"boom\"}");
}

#[test]
fn get_and_bindings() {
    assert_eq!(render(&lookup_to_native(None)), "None");
    assert_eq!(render(&lookup_to_native(Some((tagged("int", Json::String(s("42"))), s("42"))))), "42");
    let report = bindings_report(vec![
        Binding { name: s("x"), value: tagged("int", Json::String(s("42"))), display: s("42") },
        Binding { name: s("f"), value: tagged("func", Json::Null), display: s("f") },
    ]);
    assert_eq!(render(&report), "{\"x\": 42, \"f\": SymaValue(func, f)}");
    assert_eq!(render(&bindings_report(vec![])), "{}");
}

#[test]
fn python_natives_become_syma_values() {
    let input = PyInput::List(vec![
        PyInput::NoneValue,
        PyInput::Bool(true),
        PyInput::Int(-7),
        PyInput::Float(2.5f64.to_bits()),
        PyInput::Str(s("hi")),
        PyInput::Dict(vec![(Some(s("k")), PyInput::Int(1))]),
    ]);
    assert_eq!(
        render_syma(&python_to_syma(input).unwrap()),
        "List[Null, Bool(true), Integer(-7), Real(2.5), Str(\"hi\"), Assoc{\"k\": Integer(1)}]"
    );
}

#[test]
fn big_python_ints() {
    let big = |parsed: bool, as_float: Option<u64>| PyInput::BigInt {
        text: s("123456789012345678901234567890"),
        parsed,
        as_float,
        kind_name: s("int"),
    };
    assert_eq!(render_syma(&python_to_syma(big(true, None)).unwrap()), "Integer(123456789012345678901234567890)");
    assert_eq!(render_syma(&python_to_syma(big(false, Some(1.0f64.to_bits()))).unwrap()), "Real(1)");
    assert_eq!(python_to_syma(big(false, None)).unwrap_err().message(), "Unsupported type 'int' for Syma value conversion");
}

#[test]
fn conversion_errors() {
    let e = python_to_syma(PyInput::Dict(vec![(None, PyInput::Int(1))])).unwrap_err();
    assert!(matches!(e, ConversionError::KeyNotString));
    assert_eq!(e.message(), "Dictionary keys must be strings for Syma Assoc");
    assert!(e.is_type_error());
    let e = python_to_syma(PyInput::Other(s("set"))).unwrap_err();
    assert_eq!(e.message(), "Unsupported type 'set' for Syma value conversion");
    assert!(e.is_type_error());
    let e = python_to_syma(PyInput::SymaValue { json: Json::Null, rejection: Some(s("bad value")) }).unwrap_err();
    assert_eq!(e.message(), "bad value");
    assert!(!e.is_type_error());
    assert!(matches!(python_to_syma(PyInput::SymaValue { json: sym("x"), rejection: None }), Ok(SymaInput::FromJson(_))));
}

#[test]
fn first_failing_item_decides_the_error() {
    let input = PyInput::List(vec![
        PyInput::Int(1),
        PyInput::Other(s("set")),
        PyInput::Dict(vec![(None, PyInput::Int(1))]),
    ]);
    assert_eq!(python_to_syma(input).unwrap_err().message(), "Unsupported type 'set' for Syma value conversion");
    let input = PyInput::Dict(vec![
        (Some(s("a")), PyInput::Int(1)),
        (None, PyInput::Other(s("set"))),
    ]);
    assert!(matches!(python_to_syma(input).unwrap_err(), ConversionError::KeyNotString));
    let input = PyInput::Dict(vec![(Some(s("a")), PyInput::Other(s("object"))), (None, PyInput::Int(1))]);
    assert_eq!(python_to_syma(input).unwrap_err().message(), "Unsupported type 'object' for Syma value conversion");
}
