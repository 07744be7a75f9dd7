//! Properties of the conversion from Python objects to Syma values.
use vstd::prelude::*;
use crate::decimal::{decimal_text, lemma_parse_decimal_text, spec_parse_i64};
use crate::json::Json;
use crate::py_input::{
    convert_dict_model, convert_list_model, convert_model, spec_error_message, ErrorModel, PyInput,
    SymaModel,
};

verus! {

/// Each scalar Python object becomes the Syma value of the same kind and
/// content; an `int` outside `i64` becomes a Syma integer of its decimal text
/// where that text parses, else a real of its `float` reading, else an
/// unsupported type; a `SymaValue` becomes the value its JSON denotes unless
/// that JSON was refused.
pub proof fn law_python_scalars(
    text: String,
    parsed: bool,
    as_float: Option<u64>,
    kind_name: String,
    json: Json,
    rejection: Option<String>,
)
    ensures
        parsed ==> convert_model(PyInput::BigInt { text, parsed, as_float, kind_name }) == Ok::<
            SymaModel,
            ErrorModel,
        >(SymaModel::IntText(text@)),
        !parsed ==> convert_model(PyInput::BigInt { text, parsed, as_float, kind_name }) == match as_float {
            Some(f) => Ok::<SymaModel, ErrorModel>(SymaModel::Real(f)),
            None => Err(ErrorModel::Unsupported(kind_name@)),
        },
        convert_model(PyInput::Other(kind_name)) == Err::<SymaModel, ErrorModel>(
            ErrorModel::Unsupported(kind_name@),
        ),
        convert_model(PyInput::SymaValue { json, rejection }) == match rejection {
            Some(m) => Err::<SymaModel, ErrorModel>(ErrorModel::Rejected(m@)),
            None => Ok(SymaModel::FromJson(json)),
        },
{
}

/// The messages that conversion errors raise with.
pub proof fn law_error_messages(name: Seq<char>, m: Seq<char>)
    ensures
        spec_error_message(ErrorModel::KeyNotString) == "Dictionary keys must be strings for Syma Assoc"@,
        spec_error_message(ErrorModel::Unsupported(name)) == "Unsupported type '"@ + name
            + "' for Syma value conversion"@,
        spec_error_message(ErrorModel::Rejected(m)) == m,
{
}

/// A list whose items all convert becomes the Syma list of their values, in order.
pub proof fn law_list_of_convertible_items(items: Seq<PyInput>)
    requires
        forall|i: int| 0 <= i < items.len() ==> #[trigger] convert_model(items[i]) is Ok,
    ensures
        convert_list_model(items) matches Ok(xs) && xs.len() == items.len() && forall|i: int|
            0 <= i < items.len() ==> Ok::<SymaModel, ErrorModel>(xs[i]) == convert_model(
                #[trigger] items[i],
            ),
    decreases items.len(),
{
    if items.len() > 0 {
        let p = items.drop_last();
        assert forall|i: int| 0 <= i < p.len() implies #[trigger] convert_model(p[i]) is Ok by {
            assert(p[i] == items[i]);
        }
        law_list_of_convertible_items(p);
        assert(convert_model(items[items.len() - 1]) is Ok);
        let xs = convert_list_model(items)->Ok_0;
        assert forall|i: int| 0 <= i < items.len() implies Ok::<SymaModel, ErrorModel>(xs[i])
            == convert_model(#[trigger] items[i]) by {
            if i < items.len() - 1 {
                assert(p[i] == items[i]);
            }
        }
    }
}

/// A list fails with the error of its first item that fails.
pub proof fn law_list_fails_at_first_failure(items: Seq<PyInput>, k: int)
    requires
        0 <= k < items.len(),
        convert_model(items[k]) is Err,
        forall|i: int| 0 <= i < k ==> #[trigger] convert_model(items[i]) is Ok,
    ensures
        convert_list_model(items) == Err::<Seq<SymaModel>, ErrorModel>(convert_model(items[k])->Err_0),
    decreases items.len(),
{
    let p = items.drop_last();
    if k < items.len() - 1 {
        assert(p[k] == items[k]);
        assert forall|i: int| 0 <= i < k implies #[trigger] convert_model(p[i]) is Ok by {
            assert(p[i] == items[i]);
        }
        law_list_fails_at_first_failure(p, k);
    } else {
        assert forall|i: int| 0 <= i < p.len() implies #[trigger] convert_model(p[i]) is Ok by {
            assert(p[i] == items[i]);
        }
        law_list_of_convertible_items(p);
    }
}

/// A dict entry converts where its key is a `str` and its value converts.
pub open spec fn entry_converts(e: (Option<String>, PyInput)) -> bool {
    e.0 is Some && convert_model(e.1) is Ok
}

/// A dict whose entries all convert becomes the Syma association of their keys
/// and values, in order.
pub proof fn law_dict_of_convertible_entries(entries: Seq<(Option<String>, PyInput)>)
    requires
        forall|i: int| 0 <= i < entries.len() ==> #[trigger] entry_converts(entries[i]),
    ensures
        convert_dict_model(entries) matches Ok(xs) && xs.len() == entries.len() && forall|i: int|
            0 <= i < entries.len() ==> Ok::<SymaModel, ErrorModel>(xs[i].1) == convert_model(
                #[trigger] entries[i].1,
            ) && xs[i].0 == entries[i].0->0@,
    decreases entries.len(),
{
    if entries.len() > 0 {
        let p = entries.drop_last();
        assert forall|i: int| 0 <= i < p.len() implies #[trigger] entry_converts(p[i]) by {
            assert(p[i] == entries[i]);
        }
        law_dict_of_convertible_entries(p);
        assert(entry_converts(entries[entries.len() - 1]));
        let xs = convert_dict_model(entries)->Ok_0;
        assert forall|i: int| 0 <= i < entries.len() implies Ok::<SymaModel, ErrorModel>(xs[i].1)
            == convert_model(#[trigger] entries[i].1) && xs[i].0 == entries[i].0->0@ by {
            if i < entries.len() - 1 {
                assert(p[i] == entries[i]);
            }
        }
    }
}

/// A dict fails at its first entry that fails: with `KeyNotString` where that
/// entry's key is not a `str`, else with its value's error.
pub proof fn law_dict_fails_at_first_failure(entries: Seq<(Option<String>, PyInput)>, k: int)
    requires
        0 <= k < entries.len(),
        !entry_converts(entries[k]),
        forall|i: int| 0 <= i < k ==> #[trigger] entry_converts(entries[i]),
    ensures
        convert_dict_model(entries) == Err::<Seq<(Seq<char>, SymaModel)>, ErrorModel>(
            if entries[k].0 is None {
                ErrorModel::KeyNotString
            } else {
                convert_model(entries[k].1)->Err_0
            },
        ),
    decreases entries.len(),
{
    let p = entries.drop_last();
    if k < entries.len() - 1 {
        assert(p[k] == entries[k]);
        assert forall|i: int| 0 <= i < k implies #[trigger] entry_converts(p[i]) by {
            assert(p[i] == entries[i]);
        }
        law_dict_fails_at_first_failure(p, k);
    } else {
        assert forall|i: int| 0 <= i < p.len() implies #[trigger] entry_converts(p[i]) by {
            assert(p[i] == entries[i]);
        }
        law_dict_of_convertible_entries(p);
    }
}

/// A Python `list` or `dict` converts exactly as its items or entries do.
pub proof fn law_collections_from_python(items: Vec<PyInput>, entries: Vec<(Option<String>, PyInput)>)
    ensures
        convert_model(PyInput::List(items)) == match convert_list_model(items@) {
            Ok(xs) => Ok::<SymaModel, ErrorModel>(SymaModel::List(xs)),
            Err(e) => Err(e),
        },
        convert_model(PyInput::Dict(entries)) == match convert_dict_model(entries@) {
            Ok(xs) => Ok::<SymaModel, ErrorModel>(SymaModel::Assoc(xs)),
            Err(e) => Err(e),
        },
{
}

/// Reading an `i64` from decimal text: the decimal text of every `i64` reads
/// back as itself; a leading `+` changes nothing; the empty text, a lone sign,
/// and any text with a character other than a leading sign and ASCII digits
/// are refused.
pub proof fn law_decimal_reading(t: Seq<char>, n: i64)
    ensures
        spec_parse_i64(decimal_text(n as int)) == Some(n),
        t.len() > 0 && t[0] != '+' && t[0] != '-' ==> spec_parse_i64(seq!['+'] + t) == spec_parse_i64(t),
        spec_parse_i64(Seq::empty()) is None,
        spec_parse_i64(seq!['+']) is None,
        spec_parse_i64(seq!['-']) is None,
        (exists|i: int| 0 <= i < t.len() && !('0' <= #[trigger] t[i] <= '9') && !(i == 0 && (t[i] == '+' || t[i] == '-')))
            ==> spec_parse_i64(t) is None,
{
    lemma_parse_decimal_text(n);
    if t.len() > 0 && t[0] != '+' && t[0] != '-' {
        assert((seq!['+'] + t).drop_first() =~= t);
    }
    if exists|i: int| 0 <= i < t.len() && !('0' <= #[trigger] t[i] <= '9') && !(i == 0 && (t[i] == '+' || t[i] == '-')) {
        let i = choose|i: int| 0 <= i < t.len() && !('0' <= #[trigger] t[i] <= '9') && !(i == 0 && (t[i] == '+' || t[i] == '-'));
        if t.len() > 0 && (t[0] == '+' || t[0] == '-') {
            assert(t.drop_first()[i - 1] == t[i]);
        }
    }
}

} // verus!
