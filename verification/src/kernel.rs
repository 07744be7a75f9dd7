//! What the kernel's methods hand to Python, given what the Syma kernel answered.
use vstd::prelude::*;
use vstd::string::*;
use crate::convert::{tagged_model, tagged_to_native, value_to_native, wrap_or_convert_model};
use crate::json::Json;
use crate::native::{entries_model, items_model, lemma_dict_model, lemma_entries_push, lemma_list_model, native_model, NativeModel, PyNative};

verus! {

/// The result of one statement: its display text and its tagged-JSON value.
#[derive(Debug)]
pub struct StatementOutcome {
    pub output: String,
    pub value: Json,
}

/// What the Syma kernel answers to an evaluation.
#[derive(Debug)]
pub struct KernelOutcome {
    pub success: bool,
    /// One entry per statement; `None` for a statement without a result.
    pub results: Option<Vec<Option<StatementOutcome>>>,
    pub messages: Vec<String>,
    pub error: Option<String>,
    pub timing_ms: u64,
}

/// A variable binding of the environment: its name, tagged JSON and display text.
#[derive(Debug)]
pub struct Binding {
    pub name: String,
    pub value: Json,
    pub display: String,
}

/// The last statement that has a result.
pub open spec fn last_present(s: Seq<Option<StatementOutcome>>) -> Option<StatementOutcome>
    decreases s.len(),
{
    if s.len() == 0 {
        None
    } else if s.last() is Some {
        s.last()
    } else {
        last_present(s.drop_last())
    }
}

/// The message of a failed evaluation: the kernel's error, or `Evaluation failed`.
pub open spec fn failure_message(kr: KernelOutcome) -> Seq<char> {
    match kr.error {
        Some(e) => e@,
        None => "Evaluation failed"@,
    }
}

/// What `eval` returns after a successful evaluation: the last statement result
/// (wrapped or converted), or `None` where no statement has one.
pub open spec fn eval_model(kr: KernelOutcome) -> NativeModel {
    match kr.results {
        None => NativeModel::NoneValue,
        Some(rs) => match last_present(rs@) {
            Some(st) => wrap_or_convert_model(st.value, st.output@),
            None => NativeModel::NoneValue,
        },
    }
}

/// A statement result as a Python object: wrapped in a `SymaValue` with the
/// statement's output as display text, or converted to its native form.
pub fn statement_to_native(stmt: StatementOutcome) -> (r: PyNative)
    ensures
        r@ == wrap_or_convert_model(stmt.value, stmt.output@),
{
    value_to_native(stmt.value, stmt.output)
}

/// `eval`: an error with the kernel's message where the evaluation failed, else
/// the last statement result that there is, or `None`.
pub fn eval_result(kr: KernelOutcome) -> (r: Result<PyNative, String>)
    ensures
        !kr.success ==> (r matches Err(m) && m@ == failure_message(kr)),
        kr.success ==> (r matches Ok(v) && v@ == eval_model(kr)),
{
    if !kr.success {
        let msg = match kr.error {
            Some(e) => e,
            None => String::from_str("Evaluation failed"),
        };
        return Err(msg);
    }
    let results = match kr.results {
        Some(r) => r,
        None => {
            return Ok(PyNative::NoneValue);
        },
    };
    match take_last_present(results) {
        Some(st) => Ok(statement_to_native(st)),
        None => Ok(PyNative::NoneValue),
    }
}

/// The last statement that has a result, taken from the list.
fn take_last_present(results: Vec<Option<StatementOutcome>>) -> (r: Option<StatementOutcome>)
    ensures
        r == last_present(results@),
{
    let ghost all = results@;
    let mut rest = results;
    while rest.len() > 0
        invariant
            last_present(all) == last_present(rest@),
            all == results@,
        decreases rest.len(),
    {
        let ghost before = rest@;
        let item = rest.pop();
        proof {
            assert(before.drop_last() =~= rest@);
        }
        match item {
            Some(Some(st)) => {
                return Some(st);
            },
            _ => {},
        }
    }
    None
}


/// One statement in the detailed report: a `dict` of its output and value
/// (converted, never wrapped), both `None` for a statement without a result.
pub open spec fn result_entry_model(o: Option<StatementOutcome>) -> NativeModel {
    match o {
        Some(st) => NativeModel::Dict(
            seq![("output"@, NativeModel::Str(st.output@)), ("value"@, tagged_model(st.value))],
        ),
        None => NativeModel::Dict(
            seq![("output"@, NativeModel::NoneValue), ("value"@, NativeModel::NoneValue)],
        ),
    }
}

pub open spec fn results_model(rs: Seq<Option<StatementOutcome>>) -> NativeModel {
    NativeModel::List(Seq::new(rs.len(), |i: int| result_entry_model(rs[i])))
}

pub open spec fn messages_model(ms: Seq<String>) -> NativeModel {
    NativeModel::List(Seq::new(ms.len(), |i: int| NativeModel::Str(ms[i]@)))
}

/// The detailed report of an evaluation: a `dict` with `success`, `timing_ms`,
/// `results` (where the kernel gave results), `messages` and `error` (where
/// the kernel gave one), in that order.
pub open spec fn report_model(kr: KernelOutcome) -> NativeModel {
    NativeModel::Dict(
        seq![("success"@, NativeModel::Bool(kr.success)), ("timing_ms"@, NativeModel::Int(kr.timing_ms as int))]
            + match kr.results {
            Some(rs) => seq![("results"@, results_model(rs@))],
            None => Seq::empty(),
        } + seq![("messages"@, messages_model(kr.messages@))] + match kr.error {
            Some(e) => seq![("error"@, NativeModel::Str(e@))],
            None => Seq::empty(),
        },
    )
}

/// One statement in the detailed report.
fn result_entry(o: &Option<StatementOutcome>) -> (r: PyNative)
    ensures
        r@ == result_entry_model(*o),
{
    let mut d: Vec<(String, PyNative)> = Vec::new();
    match o {
        Some(st) => {
            d.push((String::from_str("output"), PyNative::Str(st.output.clone())));
            d.push((String::from_str("value"), tagged_to_native(&st.value)));
        },
        None => {
            d.push((String::from_str("output"), PyNative::NoneValue));
            d.push((String::from_str("value"), PyNative::NoneValue));
        },
    }
    assert(native_model(d@[0].1) == result_entry_model(*o)->Dict_0[0].1);
    assert(native_model(d@[1].1) == result_entry_model(*o)->Dict_0[1].1);
    let r = PyNative::Dict(d);
    assert(native_model(r)->Dict_0 =~= result_entry_model(*o)->Dict_0);
    r
}

/// `eval_detailed`: the detailed report of an evaluation.
pub fn kernel_report(kr: &KernelOutcome) -> (r: PyNative)
    ensures
        r@ == report_model(*kr),
{
    let mut d: Vec<(String, PyNative)> = Vec::new();
    let ghost mut want: Seq<(Seq<char>, NativeModel)> = Seq::empty();
    assert(entries_model(d@) =~= want);
    push_entry(&mut d, String::from_str("success"), PyNative::Bool(kr.success));
    proof { want = want.push(("success"@, NativeModel::Bool(kr.success))); }
    push_entry(&mut d, String::from_str("timing_ms"), PyNative::Int(kr.timing_ms as i128));
    proof { want = want.push(("timing_ms"@, NativeModel::Int(kr.timing_ms as int))); }
    match &kr.results {
        Some(rs) => {
            let mut items: Vec<PyNative> = Vec::new();
            let mut i: usize = 0;
            while i < rs.len()
                invariant
                    i <= rs.len(),
                    items.len() == i,
                    forall|k: int| 0 <= k < i ==> #[trigger] native_model(items@[k]) == result_entry_model(rs@[k]),
                decreases rs.len() - i,
            {
                items.push(result_entry(&rs[i]));
                i = i + 1;
            }
            proof {
                lemma_list_model(items);
                assert(items_model(items@) =~= results_model(rs@)->List_0);
            }
            push_entry(&mut d, String::from_str("results"), PyNative::List(items));
            proof { want = want.push(("results"@, results_model(rs@))); }
        },
        None => {},
    }
    let mut msgs: Vec<PyNative> = Vec::new();
    let mut i: usize = 0;
    while i < kr.messages.len()
        invariant
            i <= kr.messages.len(),
            msgs.len() == i,
            forall|k: int| 0 <= k < i ==> #[trigger] native_model(msgs@[k]) == NativeModel::Str(kr.messages@[k]@),
        decreases kr.messages.len() - i,
    {
        msgs.push(PyNative::Str(kr.messages[i].clone()));
        i = i + 1;
    }
    proof {
        lemma_list_model(msgs);
        assert(items_model(msgs@) =~= messages_model(kr.messages@)->List_0);
    }
    push_entry(&mut d, String::from_str("messages"), PyNative::List(msgs));
    proof { want = want.push(("messages"@, messages_model(kr.messages@))); }
    match &kr.error {
        Some(e) => {
            push_entry(&mut d, String::from_str("error"), PyNative::Str(e.clone()));
            proof { want = want.push(("error"@, NativeModel::Str(e@))); }
        },
        None => {},
    }
    assert(want =~= report_model(*kr)->Dict_0);
    proof { lemma_dict_model(d); }
    PyNative::Dict(d)
}

/// Appends an entry to a dict under construction.
fn push_entry(d: &mut Vec<(String, PyNative)>, key: String, value: PyNative)
    ensures
        entries_model(final(d)@) == entries_model(old(d)@).push((key@, native_model(value))),
{
    proof { lemma_entries_push(d@, (key, value)); }
    d.push((key, value));
}

/// What `get` returns: the value of the variable, or `None` where it is not defined.
pub open spec fn lookup_model(found: Option<(Json, String)>) -> NativeModel {
    match found {
        Some((value, display)) => wrap_or_convert_model(value, display@),
        None => NativeModel::NoneValue,
    }
}

/// `get`: the value of a variable (its tagged JSON and display text) as a
/// Python object, or `None` where the variable is not defined.
pub fn lookup_to_native(found: Option<(Json, String)>) -> (r: PyNative)
    ensures
        r@ == lookup_model(found),
{
    match found {
        Some((value, display)) => value_to_native(value, display),
        None => PyNative::NoneValue,
    }
}

/// What `bindings` returns: a `dict` from each name to its value, set in order.
pub open spec fn bindings_model(bs: Seq<Binding>) -> NativeModel {
    NativeModel::Dict(
        Seq::new(bs.len(), |i: int| (bs[i].name@, wrap_or_convert_model(bs[i].value, bs[i].display@))),
    )
}

/// `bindings`: all bindings of the environment as a `dict`.
pub fn bindings_report(bindings: Vec<Binding>) -> (r: PyNative)
    ensures
        r@ == bindings_model(bindings@),
{
    let ghost all = bindings@;
    let mut rest = bindings;
    let total = rest.len();
    assert(all.len() == total);
    let mut d: Vec<(String, PyNative)> = Vec::new();
    let mut i: usize = 0;
    while rest.len() > 0
        invariant
            i + rest.len() == all.len(),
            all.len() <= usize::MAX,
            rest@ == all.subrange(i as int, all.len() as int),
            entries_model(d@) == bindings_model(all)->Dict_0.take(i as int),
        decreases rest.len(),
    {
        let b = rest.remove(0);
        assert(b == all[i as int]);
        assert(rest@ =~= all.subrange(i + 1, all.len() as int));
        let ghost before = d@;
        push_entry(&mut d, b.name, value_to_native(b.value, b.display));
        assert(entries_model(d@) =~= bindings_model(all)->Dict_0.take(i + 1));
        i = i + 1;
    }
    assert(bindings_model(all)->Dict_0.take(i as int) =~= bindings_model(all)->Dict_0);
    proof { lemma_dict_model(d); }
    PyNative::Dict(d)
}

} // verus!
