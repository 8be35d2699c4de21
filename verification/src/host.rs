//! The host's values, as the bridge sees them.

use crate::value::{value_model, Duration, Timestamp, Value, ValueModel};
use vstd::prelude::*;

verus! {

/// A date and time of day without an offset: the wall-clock reading,
/// counted as if it were UTC.
#[derive(Clone, Copy, Debug, PartialEq, Eq, Structural)]
pub struct NaiveTimestamp {
    /// Whole seconds from 1970-01-01T00:00:00 to the wall-clock reading.
    pub seconds: i64,
    /// Nanoseconds after `seconds`.
    pub nanos: u32,
}

/// A handle on a callable that the host defined.
#[derive(Clone, Copy, Debug, PartialEq, Eq, Structural)]
pub struct HostCallable {
    pub id: u64,
}

impl View for HostCallable {
    type V = HostCallable;

    open spec fn view(&self) -> HostCallable {
        *self
    }
}

/// An optional engine value that the host can hold, make and take apart.
#[derive(Debug, PartialEq)]
pub struct OptionalValue {
    pub inner: Option<Box<Value>>,
}

/// A value of the host.
#[derive(Debug, PartialEq)]
pub enum HostValue {
    /// The host's null.
    Null,
    Bool(bool),
    /// An integer of any size that the host can hand over.
    Integer(i128),
    /// A floating-point number, by its IEEE 754 bit pattern.
    Float(u64),
    /// A date and time with a fixed offset.
    Timestamp(Timestamp),
    /// A date and time without an offset, together with the instant that
    /// the local time zone gave it: `None` where the reading is ambiguous
    /// or does not exist there.
    LocalTimestamp { naive: NaiveTimestamp, resolved: Option<Timestamp> },
    Duration(Duration),
    Str(String),
    /// A list.
    List(Vec<HostValue>),
    /// A tuple.
    Tuple(Vec<HostValue>),
    /// A mapping, as its entries in order.
    Dict(Vec<(HostValue, HostValue)>),
    Bytes(Vec<u8>),
    /// An optional value.
    Optional(OptionalValue),
    /// A callable, with the name of its host type.
    Callable { handle: HostCallable, kind_name: String },
    /// A value of any other host type, by the type's name.
    Other(String),
}

/// The mathematical content of a [`HostValue`].
pub ghost enum HostModel {
    Null,
    Bool(bool),
    Integer(int),
    Float(u64),
    Timestamp(Timestamp),
    LocalTimestamp { naive: NaiveTimestamp, resolved: Option<Timestamp> },
    Duration(Duration),
    Str(Seq<char>),
    List(Seq<HostModel>),
    Tuple(Seq<HostModel>),
    Dict(Seq<(HostModel, HostModel)>),
    Bytes(Seq<u8>),
    Optional(Option<Box<ValueModel>>),
    Callable { handle: HostCallable, kind_name: Seq<char> },
    Other(Seq<char>),
}

/// The mathematical content of an optional engine value.
pub open spec fn optional_model(inner: Option<Box<Value>>) -> Option<Box<ValueModel>> {
    match inner {
        Some(v) => Some(Box::new(value_model(*v))),
        None => None,
    }
}

impl View for OptionalValue {
    type V = Option<Box<ValueModel>>;

    open spec fn view(&self) -> Option<Box<ValueModel>> {
        optional_model(self.inner)
    }
}

/// The mathematical content of `h`.
pub open spec fn host_model(h: HostValue) -> HostModel
    decreases h,
{
    match h {
        HostValue::Null => HostModel::Null,
        HostValue::Bool(b) => HostModel::Bool(b),
        HostValue::Integer(n) => HostModel::Integer(n as int),
        HostValue::Float(bits) => HostModel::Float(bits),
        HostValue::Timestamp(t) => HostModel::Timestamp(t),
        HostValue::LocalTimestamp { naive, resolved } => HostModel::LocalTimestamp {
            naive,
            resolved,
        },
        HostValue::Duration(d) => HostModel::Duration(d),
        HostValue::Str(s) => HostModel::Str(s@),
        HostValue::List(items) => HostModel::List(host_models(items)),
        HostValue::Tuple(items) => HostModel::Tuple(host_models(items)),
        HostValue::Dict(entries) => HostModel::Dict(host_pairs(entries)),
        HostValue::Bytes(b) => HostModel::Bytes(b@),
        HostValue::Optional(o) => HostModel::Optional(optional_model(o.inner)),
        HostValue::Callable { handle, kind_name } => HostModel::Callable {
            handle,
            kind_name: kind_name@,
        },
        HostValue::Other(kind_name) => HostModel::Other(kind_name@),
    }
}

/// The mathematical contents of `items`, in order.
pub open spec fn host_models(items: Vec<HostValue>) -> Seq<HostModel>
    decreases items,
{
    Seq::new(
        items.len() as nat,
        |i: int|
            if 0 <= i < items.len() {
                host_model(items[i])
            } else {
                HostModel::Null
            },
    )
}

/// The mathematical contents of `entries`, in order.
pub open spec fn host_pairs(entries: Vec<(HostValue, HostValue)>) -> Seq<(HostModel, HostModel)>
    decreases entries,
{
    Seq::new(
        entries.len() as nat,
        |i: int|
            if 0 <= i < entries.len() {
                (host_model(entries[i].0), host_model(entries[i].1))
            } else {
                (HostModel::Null, HostModel::Null)
            },
    )
}

impl View for HostValue {
    type V = HostModel;

    open spec fn view(&self) -> HostModel {
        host_model(*self)
    }
}

} // verus!
