//! From Python objects to Syma values.
//!
//! `PyInput` describes a Python object by the first reading that succeeds on
//! it, in the order `SymaValue`, `None`, `bool`, `int` (fitting an `i64`), any
//! other `int`, `float`, `str`, `list`, `dict`. `python_to_syma` decides the
//! Syma value for it, or the error that setting it raises.
use vstd::prelude::*;
use vstd::string::*;
use crate::json::Json;

verus! {

/// A Python object, as the first reading that succeeds on it.
#[derive(Debug)]
pub enum PyInput {
    /// A `SymaValue`: its tagged JSON, and the message of the error that
    /// reading that JSON back as a Syma value raised, if it did.
    SymaValue { json: Json, rejection: Option<String> },
    /// `None`.
    NoneValue,
    /// A `bool`.
    Bool(bool),
    /// An `int` that fits an `i64`.
    Int(i64),
    /// Any other `int`: its decimal text, whether the arbitrary-precision
    /// integer parser read that text, its reading as a `float` (by bit pattern)
    /// if it has one, and the name of its type.
    BigInt { text: String, parsed: bool, as_float: Option<u64>, kind_name: String },
    /// A `float`, by its bit pattern.
    Float(u64),
    /// A `str`.
    Str(String),
    /// A `list` of these items.
    List(Vec<PyInput>),
    /// A `dict`: each key's text where the key is a `str`, and the value.
    Dict(Vec<(Option<String>, PyInput)>),
    /// Any other object: the name of its type.
    Other(String),
}

/// A Syma integer: small, or by its decimal text.
#[derive(Debug)]
pub enum IntegerRepr {
    Small(i64),
    Decimal(String),
}

/// A Syma value to build.
#[derive(Debug)]
pub enum SymaInput {
    /// The Syma value that this tagged JSON denotes.
    FromJson(Json),
    Null,
    Bool(bool),
    Integer(IntegerRepr),
    /// A real of 53-bit precision with this `f64` value, by bit pattern.
    Real(u64),
    Str(String),
    List(Vec<SymaInput>),
    Assoc(Vec<(String, SymaInput)>),
}

/// Why a Python object has no Syma value.
#[derive(Debug)]
pub enum ConversionError {
    /// A `dict` key that is not a `str`.
    KeyNotString,
    /// An object of a type that has no Syma counterpart, by the type's name.
    Unsupported(String),
    /// A `SymaValue` whose JSON was refused, with the refusal's message.
    Rejected(String),
}

/// The mathematical form of a `SymaInput`.
#[verifier::ext_equal]
pub enum SymaModel {
    FromJson(Json),
    Null,
    Bool(bool),
    Int(i64),
    IntText(Seq<char>),
    Real(u64),
    Str(Seq<char>),
    List(Seq<SymaModel>),
    Assoc(Seq<(Seq<char>, SymaModel)>),
}

/// The mathematical form of a `ConversionError`.
pub enum ErrorModel {
    KeyNotString,
    Unsupported(Seq<char>),
    Rejected(Seq<char>),
}

pub open spec fn syma_model(s: SymaInput) -> SymaModel
    decreases s,
{
    match s {
        SymaInput::FromJson(j) => SymaModel::FromJson(j),
        SymaInput::Null => SymaModel::Null,
        SymaInput::Bool(b) => SymaModel::Bool(b),
        SymaInput::Integer(IntegerRepr::Small(i)) => SymaModel::Int(i),
        SymaInput::Integer(IntegerRepr::Decimal(t)) => SymaModel::IntText(t@),
        SymaInput::Real(bits) => SymaModel::Real(bits),
        SymaInput::Str(t) => SymaModel::Str(t@),
        SymaInput::List(items) => SymaModel::List(
            Seq::new(
                items.len() as nat,
                |i: int|
                    if 0 <= i < items.len() {
                        syma_model(items@[i])
                    } else {
                        SymaModel::Null
                    },
            ),
        ),
        SymaInput::Assoc(entries) => SymaModel::Assoc(
            Seq::new(
                entries.len() as nat,
                |i: int|
                    if 0 <= i < entries.len() {
                        (entries@[i].0@, syma_model(entries@[i].1))
                    } else {
                        (Seq::empty(), SymaModel::Null)
                    },
            ),
        ),
    }
}

pub open spec fn error_model(e: ConversionError) -> ErrorModel {
    match e {
        ConversionError::KeyNotString => ErrorModel::KeyNotString,
        ConversionError::Unsupported(n) => ErrorModel::Unsupported(n@),
        ConversionError::Rejected(m) => ErrorModel::Rejected(m@),
    }
}

pub open spec fn result_model(r: Result<SymaInput, ConversionError>) -> Result<SymaModel, ErrorModel> {
    match r {
        Ok(s) => Ok(syma_model(s)),
        Err(e) => Err(error_model(e)),
    }
}

/// The Syma value for a Python object, or why it has none. A list or a dict
/// fails with the error of its first item (or entry) that fails.
pub open spec fn convert_model(p: PyInput) -> Result<SymaModel, ErrorModel>
    decreases p, 1nat,
{
    match p {
        PyInput::SymaValue { json, rejection } => match rejection {
            Some(m) => Err(ErrorModel::Rejected(m@)),
            None => Ok(SymaModel::FromJson(json)),
        },
        PyInput::NoneValue => Ok(SymaModel::Null),
        PyInput::Bool(b) => Ok(SymaModel::Bool(b)),
        PyInput::Int(i) => Ok(SymaModel::Int(i)),
        PyInput::BigInt { text, parsed, as_float, kind_name } => if parsed {
            Ok(SymaModel::IntText(text@))
        } else {
            match as_float {
                Some(bits) => Ok(SymaModel::Real(bits)),
                None => Err(ErrorModel::Unsupported(kind_name@)),
            }
        },
        PyInput::Float(bits) => Ok(SymaModel::Real(bits)),
        PyInput::Str(t) => Ok(SymaModel::Str(t@)),
        PyInput::List(items) => {
            proof {
                assert(decreases_to!(p => items));
            }
            match convert_list_model(items@) {
                Ok(xs) => Ok(SymaModel::List(xs)),
                Err(e) => Err(e),
            }
        },
        PyInput::Dict(entries) => {
            proof {
                assert(decreases_to!(p => entries));
            }
            match convert_dict_model(entries@) {
                Ok(xs) => Ok(SymaModel::Assoc(xs)),
                Err(e) => Err(e),
            }
        },
        PyInput::Other(kind_name) => Err(ErrorModel::Unsupported(kind_name@)),
    }
}

/// The Syma values of a list's items, or the error of the first that fails.
pub open spec fn convert_list_model(items: Seq<PyInput>) -> Result<Seq<SymaModel>, ErrorModel>
    decreases items, 0nat,
{
    if items.len() == 0 {
        Ok(Seq::empty())
    } else {
        proof {
            assert(decreases_to!(items => items[items.len() - 1]));
            assert(items.drop_last() =~= items.subrange(0, items.len() - 1));
        }
        match convert_list_model(items.drop_last()) {
            Err(e) => Err(e),
            Ok(xs) => match convert_model(items.last()) {
                Err(e) => Err(e),
                Ok(x) => Ok(xs.push(x)),
            },
        }
    }
}

/// The Syma entries of a dict's entries, or the error of the first that fails:
/// a key that is not a `str`, else its value's error.
pub open spec fn convert_dict_model(entries: Seq<(Option<String>, PyInput)>) -> Result<
    Seq<(Seq<char>, SymaModel)>,
    ErrorModel,
>
    decreases entries, 0nat,
{
    if entries.len() == 0 {
        Ok(Seq::empty())
    } else {
        proof {
            assert(decreases_to!(entries => entries[entries.len() - 1]));
            assert(decreases_to!(entries[entries.len() - 1] => entries[entries.len() - 1].1));
            assert(entries.drop_last() =~= entries.subrange(0, entries.len() - 1));
        }
        match convert_dict_model(entries.drop_last()) {
            Err(e) => Err(e),
            Ok(xs) => match entries.last().0 {
                None => Err(ErrorModel::KeyNotString),
                Some(k) => match convert_model(entries.last().1) {
                    Err(e) => Err(e),
                    Ok(x) => Ok(xs.push((k@, x))),
                },
            },
        }
    }
}

pub open spec fn syma_items(v: Seq<SymaInput>) -> Seq<SymaModel> {
    Seq::new(v.len(), |k: int| syma_model(v[k]))
}

pub open spec fn syma_entries(v: Seq<(String, SymaInput)>) -> Seq<(Seq<char>, SymaModel)> {
    Seq::new(v.len(), |k: int| (v[k].0@, syma_model(v[k].1)))
}

/// The items of a vector, last first.
fn reversed<T>(v: Vec<T>) -> (r: Vec<T>)
    ensures
        r@.len() == v@.len(),
        forall|k: int| 0 <= k < v@.len() ==> #[trigger] r@[k] == v@[v@.len() - 1 - k],
{
    let ghost all = v@;
    let mut rest = v;
    let mut r: Vec<T> = Vec::new();
    while rest.len() > 0
        invariant
            rest@ == all.take(rest@.len() as int),
            r@.len() + rest@.len() == all.len(),
            forall|k: int| 0 <= k < r@.len() ==> #[trigger] r@[k] == all[all.len() - 1 - k],
        decreases rest.len(),
    {
        let x = rest.pop().unwrap();
        r.push(x);
        assert(rest@ =~= all.take(rest@.len() as int));
    }
    r
}

/// If the conversion of a prefix of a list fails, the list's fails the same way.
proof fn lemma_list_prefix_error(s: Seq<PyInput>, k: int)
    requires
        0 <= k <= s.len(),
        convert_list_model(s.take(k)) is Err,
    ensures
        convert_list_model(s) == convert_list_model(s.take(k)),
    decreases s.len(),
{
    if k == s.len() {
        assert(s.take(k) =~= s);
    } else {
        assert(s.drop_last().take(k) =~= s.take(k));
        lemma_list_prefix_error(s.drop_last(), k);
    }
}

/// If the conversion of a prefix of a dict's entries fails, the dict's fails the same way.
proof fn lemma_dict_prefix_error(s: Seq<(Option<String>, PyInput)>, k: int)
    requires
        0 <= k <= s.len(),
        convert_dict_model(s.take(k)) is Err,
    ensures
        convert_dict_model(s) == convert_dict_model(s.take(k)),
    decreases s.len(),
{
    if k == s.len() {
        assert(s.take(k) =~= s);
    } else {
        assert(s.drop_last().take(k) =~= s.take(k));
        lemma_dict_prefix_error(s.drop_last(), k);
    }
}

/// The Syma value for a Python object, or the error that setting it raises.
pub fn python_to_syma(p: PyInput) -> (r: Result<SymaInput, ConversionError>)
    ensures
        result_model(r) == convert_model(p),
    decreases p, 1nat,
{
    let ghost whole = p;
    match p {
        PyInput::SymaValue { json, rejection } => match rejection {
            Some(m) => Err(ConversionError::Rejected(m)),
            None => Ok(SymaInput::FromJson(json)),
        },
        PyInput::NoneValue => Ok(SymaInput::Null),
        PyInput::Bool(b) => Ok(SymaInput::Bool(b)),
        PyInput::Int(i) => Ok(SymaInput::Integer(IntegerRepr::Small(i))),
        PyInput::BigInt { text, parsed, as_float, kind_name } => {
            if parsed {
                Ok(SymaInput::Integer(IntegerRepr::Decimal(text)))
            } else {
                match as_float {
                    Some(bits) => Ok(SymaInput::Real(bits)),
                    None => Err(ConversionError::Unsupported(kind_name)),
                }
            }
        },
        PyInput::Float(bits) => Ok(SymaInput::Real(bits)),
        PyInput::Str(t) => Ok(SymaInput::Str(t)),
        PyInput::List(items) => {
            proof {
                assert(decreases_to!(whole => items));
            }
            convert_list(Ghost(whole), items)
        },
        PyInput::Dict(entries) => {
            proof {
                assert(decreases_to!(whole => entries));
            }
            convert_dict(Ghost(whole), entries)
        },
        PyInput::Other(kind_name) => Err(ConversionError::Unsupported(kind_name)),
    }
}

fn convert_list(Ghost(parent): Ghost<PyInput>, items: Vec<PyInput>) -> (r: Result<SymaInput, ConversionError>)
    requires
        decreases_to!(parent => items),
    ensures
        result_model(r) == match convert_list_model(items@) {
            Ok(xs) => Ok(SymaModel::List(xs)),
            Err(e) => Err(e),
        },
    decreases parent, 0nat,
{
    let ghost all = items@;
    let n = items.len();
    proof {
        assert(decreases_to!(items => items@));
    }
    let mut rev = reversed(items);
    let mut out: Vec<SymaInput> = Vec::new();
    let mut i: usize = 0;
    assert(all.take(0) =~= Seq::<PyInput>::empty());
    assert(syma_items(out@) =~= Seq::<SymaModel>::empty());
    while i < n
        invariant
            n == all.len(),
            all == items@,
            i <= n,
            rev@.len() == n - i,
            forall|k: int| 0 <= k < n - i ==> #[trigger] rev@[k] == all[n - 1 - k],
            decreases_to!(parent => all),
            out@.len() == i,
            convert_list_model(all.take(i as int)) == Result::<Seq<SymaModel>, ErrorModel>::Ok(syma_items(out@)),
        decreases n - i,
    {
        let x = rev.pop().unwrap();
        assert(x == all[i as int]);
        proof {
            assert(decreases_to!(all => all[i as int]));
            assert(all.take(i + 1).drop_last() =~= all.take(i as int));
        }
        match python_to_syma(x) {
            Ok(y) => {
                let ghost before = out@;
                out.push(y);
                assert(syma_items(out@) =~= syma_items(before).push(syma_model(y)));
            },
            Err(e) => {
                proof {
                    lemma_list_prefix_error(all, i + 1);
                }
                return Err(e);
            },
        }
        i = i + 1;
    }
    assert(all.take(n as int) =~= all);
    let r = SymaInput::List(out);
    assert(syma_model(r)->List_0 =~= syma_items(out@));
    Ok(r)
}

fn convert_dict(Ghost(parent): Ghost<PyInput>, entries: Vec<(Option<String>, PyInput)>) -> (r: Result<SymaInput, ConversionError>)
    requires
        decreases_to!(parent => entries),
    ensures
        result_model(r) == match convert_dict_model(entries@) {
            Ok(xs) => Ok(SymaModel::Assoc(xs)),
            Err(e) => Err(e),
        },
    decreases parent, 0nat,
{
    let ghost all = entries@;
    let n = entries.len();
    proof {
        assert(decreases_to!(entries => entries@));
    }
    let mut rev = reversed(entries);
    let mut out: Vec<(String, SymaInput)> = Vec::new();
    let mut i: usize = 0;
    assert(all.take(0) =~= Seq::<(Option<String>, PyInput)>::empty());
    assert(syma_entries(out@) =~= Seq::<(Seq<char>, SymaModel)>::empty());
    while i < n
        invariant
            n == all.len(),
            all == entries@,
            i <= n,
            rev@.len() == n - i,
            forall|k: int| 0 <= k < n - i ==> #[trigger] rev@[k] == all[n - 1 - k],
            decreases_to!(parent => all),
            out@.len() == i,
            convert_dict_model(all.take(i as int)) == Result::<Seq<(Seq<char>, SymaModel)>, ErrorModel>::Ok(syma_entries(out@)),
        decreases n - i,
    {
        let (key, value) = rev.pop().unwrap();
        assert((key, value) == all[i as int]);
        proof {
            assert(decreases_to!(all => all[i as int]));
            assert(decreases_to!(all[i as int] => all[i as int].1));
            assert(all.take(i + 1).drop_last() =~= all.take(i as int));
        }
        match key {
            None => {
                proof {
                    lemma_dict_prefix_error(all, i + 1);
                }
                return Err(ConversionError::KeyNotString);
            },
            Some(k) => match python_to_syma(value) {
                Ok(y) => {
                    let ghost before = out@;
                    out.push((k, y));
                    assert(syma_entries(out@) =~= syma_entries(before).push((k@, syma_model(y))));
                },
                Err(e) => {
                    proof {
                        lemma_dict_prefix_error(all, i + 1);
                    }
                    return Err(e);
                },
            },
        }
        i = i + 1;
    }
    assert(all.take(n as int) =~= all);
    let r = SymaInput::Assoc(out);
    assert(syma_model(r)->Assoc_0 =~= syma_entries(out@));
    Ok(r)
}

/// The message that a conversion error raises with.
pub open spec fn spec_error_message(e: ErrorModel) -> Seq<char> {
    match e {
        ErrorModel::KeyNotString => "Dictionary keys must be strings for Syma Assoc"@,
        ErrorModel::Unsupported(n) => "Unsupported type '"@ + n + "' for Syma value conversion"@,
        ErrorModel::Rejected(m) => m,
    }
}

impl ConversionError {
    /// The message that this error raises with.
    pub fn message(&self) -> (r: String)
        ensures
            r@ == spec_error_message(error_model(*self)),
    {
        match self {
            ConversionError::KeyNotString => String::from_str("Dictionary keys must be strings for Syma Assoc"),
            ConversionError::Unsupported(n) => {
                let mut r = String::from_str("Unsupported type '");
                r.append(n.as_str());
                r.append("' for Syma value conversion");
                r
            },
            ConversionError::Rejected(m) => m.clone(),
        }
    }

    /// Whether this error raises a `TypeError` (else a `RuntimeError`).
    pub fn is_type_error(&self) -> (r: bool)
        ensures
            r == !(*self is Rejected),
    {
        match self {
            ConversionError::Rejected(_) => false,
            _ => true,
        }
    }
}

} // verus!
