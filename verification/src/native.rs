//! What the Python side receives: a plan of Python objects to build.
//!
//! A `PyNative` says which Python object stands for a Syma result: `None`, a
//! `bool`, an `int`, a `float`, a `str`, a `list`, a `dict`, or a `SymaValue`
//! wrapper. `NativeModel` is its mathematical form, which the contracts use.
use vstd::prelude::*;
use crate::json::{Json, JsonNumber};

verus! {

/// The data of a `SymaValue`: a Syma value that has no native Python equivalent.
#[derive(Debug)]
pub struct SymaValueData {
    /// The type tag of the tagged JSON (such as `sym`, `call`, `func`), or `unknown`.
    pub type_tag: String,
    /// The full tagged-JSON representation.
    pub json: Json,
    /// The Syma display text (such as `x^2 + y^2`).
    pub display: String,
}

/// A Python object to build.
#[derive(Debug)]
pub enum PyNative {
    /// `None`.
    NoneValue,
    /// A `bool`.
    Bool(bool),
    /// An `int` of this value.
    Int(i128),
    /// An `int` that Python's `int()` reads from this text; `None` where it refuses it.
    IntText(String),
    /// A `float`: the number read as `f64` (`serde_json::Number::as_f64`).
    Float(JsonNumber),
    /// A `str`.
    Str(String),
    /// A `list` of these items, in order.
    List(Vec<PyNative>),
    /// A `dict` with these entries, set in order.
    Dict(Vec<(String, PyNative)>),
    /// A `SymaValue` wrapper.
    Wrapped(SymaValueData),
}

/// The mathematical form of a `SymaValueData`.
pub struct WrappedModel {
    pub type_tag: Seq<char>,
    pub json: Json,
    pub display: Seq<char>,
}

/// The mathematical form of a `PyNative`.
#[verifier::ext_equal]
pub enum NativeModel {
    NoneValue,
    Bool(bool),
    Int(int),
    IntText(Seq<char>),
    Float(JsonNumber),
    Str(Seq<char>),
    List(Seq<NativeModel>),
    Dict(Seq<(Seq<char>, NativeModel)>),
    Wrapped(WrappedModel),
}

pub open spec fn wrapped_model(w: SymaValueData) -> WrappedModel {
    WrappedModel { type_tag: w.type_tag@, json: w.json, display: w.display@ }
}

pub open spec fn native_model(p: PyNative) -> NativeModel
    decreases p,
{
    match p {
        PyNative::NoneValue => NativeModel::NoneValue,
        PyNative::Bool(b) => NativeModel::Bool(b),
        PyNative::Int(i) => NativeModel::Int(i as int),
        PyNative::IntText(s) => NativeModel::IntText(s@),
        PyNative::Float(n) => NativeModel::Float(n),
        PyNative::Str(s) => NativeModel::Str(s@),
        PyNative::List(items) => NativeModel::List(
            Seq::new(
                items.len() as nat,
                |i: int|
                    if 0 <= i < items.len() {
                        native_model(items@[i])
                    } else {
                        NativeModel::NoneValue
                    },
            ),
        ),
        PyNative::Dict(entries) => NativeModel::Dict(
            Seq::new(
                entries.len() as nat,
                |i: int|
                    if 0 <= i < entries.len() {
                        (entries@[i].0@, native_model(entries@[i].1))
                    } else {
                        (Seq::empty(), NativeModel::NoneValue)
                    },
            ),
        ),
        PyNative::Wrapped(w) => NativeModel::Wrapped(wrapped_model(w)),
    }
}

impl View for PyNative {
    type V = NativeModel;

    open spec fn view(&self) -> NativeModel {
        native_model(*self)
    }
}

impl View for SymaValueData {
    type V = WrappedModel;

    open spec fn view(&self) -> WrappedModel {
        wrapped_model(*self)
    }
}

/// The models of a dict's entries, in order.
pub open spec fn entries_model(d: Seq<(String, PyNative)>) -> Seq<(Seq<char>, NativeModel)> {
    Seq::new(d.len(), |i: int| (d[i].0@, native_model(d[i].1)))
}

/// The models of a list's items, in order.
pub open spec fn items_model(v: Seq<PyNative>) -> Seq<NativeModel> {
    Seq::new(v.len(), |i: int| native_model(v[i]))
}

pub proof fn lemma_dict_model(d: Vec<(String, PyNative)>)
    ensures
        native_model(PyNative::Dict(d)) == NativeModel::Dict(entries_model(d@)),
{
    assert(native_model(PyNative::Dict(d))->Dict_0 =~= entries_model(d@));
}

pub proof fn lemma_list_model(v: Vec<PyNative>)
    ensures
        native_model(PyNative::List(v)) == NativeModel::List(items_model(v@)),
{
    assert(native_model(PyNative::List(v))->List_0 =~= items_model(v@));
}

pub proof fn lemma_entries_push(d: Seq<(String, PyNative)>, x: (String, PyNative))
    ensures
        entries_model(d.push(x)) == entries_model(d).push((x.0@, native_model(x.1))),
{
    assert(entries_model(d.push(x)) =~= entries_model(d).push((x.0@, native_model(x.1))));
}

pub proof fn lemma_items_push(v: Seq<PyNative>, x: PyNative)
    ensures
        items_model(v.push(x)) == items_model(v).push(native_model(x)),
{
    assert(items_model(v.push(x)) =~= items_model(v).push(native_model(x)));
}

} // verus!
