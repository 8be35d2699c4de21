//! The engine's value model.

use crate::text::same_text;
use vstd::prelude::*;

verus! {

/// A point in time with a fixed offset from UTC.
#[derive(Clone, Copy, Debug, PartialEq, Eq, Structural)]
pub struct Timestamp {
    /// Whole seconds since 1970-01-01T00:00:00 UTC.
    pub seconds: i64,
    /// Nanoseconds after `seconds`.
    pub nanos: u32,
    /// Seconds that local time is ahead of UTC.
    pub offset_seconds: i32,
}

/// A span of time: `seconds` whole seconds and `nanos` nanoseconds more.
#[derive(Clone, Copy, Debug, PartialEq, Eq, Structural)]
pub struct Duration {
    pub seconds: i64,
    pub nanos: u32,
}

/// A key of an engine map.
#[derive(Clone, Debug, PartialEq)]
pub enum Key {
    Int(i64),
    Uint(u64),
    Bool(bool),
    Str(String),
}

/// A value of the engine.
#[derive(Debug, PartialEq)]
pub enum Value {
    Null,
    Bool(bool),
    Int(i64),
    UInt(u64),
    /// A 64-bit floating-point number, by its IEEE 754 bit pattern.
    Float(u64),
    Str(String),
    Bytes(Vec<u8>),
    Timestamp(Timestamp),
    Duration(Duration),
    List(Vec<Value>),
    /// A map, as its entries; no key occurs twice.
    Mapping(Vec<(Key, Value)>),
    /// An optional value: present or absent.
    Optional(Option<Box<Value>>),
    /// A value of any other kind, by its debug text.
    Opaque(String),
}

/// The mathematical content of a [`Key`].
pub ghost enum KeyModel {
    Int(i64),
    Uint(u64),
    Bool(bool),
    Str(Seq<char>),
}

/// The mathematical content of a [`Value`].
pub ghost enum ValueModel {
    Null,
    Bool(bool),
    Int(i64),
    UInt(u64),
    Float(u64),
    Str(Seq<char>),
    Bytes(Seq<u8>),
    Timestamp(Timestamp),
    Duration(Duration),
    List(Seq<ValueModel>),
    Mapping(Seq<(KeyModel, ValueModel)>),
    Optional(Option<Box<ValueModel>>),
    Opaque(Seq<char>),
}

impl View for Key {
    type V = KeyModel;

    open spec fn view(&self) -> KeyModel {
        match self {
            Key::Int(i) => KeyModel::Int(*i),
            Key::Uint(u) => KeyModel::Uint(*u),
            Key::Bool(b) => KeyModel::Bool(*b),
            Key::Str(s) => KeyModel::Str(s@),
        }
    }
}

/// The mathematical content of `v`.
pub open spec fn value_model(v: Value) -> ValueModel
    decreases v,
{
    match v {
        Value::Null => ValueModel::Null,
        Value::Bool(b) => ValueModel::Bool(b),
        Value::Int(i) => ValueModel::Int(i),
        Value::UInt(u) => ValueModel::UInt(u),
        Value::Float(bits) => ValueModel::Float(bits),
        Value::Str(s) => ValueModel::Str(s@),
        Value::Bytes(b) => ValueModel::Bytes(b@),
        Value::Timestamp(t) => ValueModel::Timestamp(t),
        Value::Duration(d) => ValueModel::Duration(d),
        Value::List(items) => ValueModel::List(value_models(items)),
        Value::Mapping(entries) => ValueModel::Mapping(entry_models(entries)),
        Value::Optional(inner) => ValueModel::Optional(
            match inner {
                Some(v) => Some(Box::new(value_model(*v))),
                None => None,
            },
        ),
        Value::Opaque(text) => ValueModel::Opaque(text@),
    }
}

/// The mathematical contents of `items`, in order.
pub open spec fn value_models(items: Vec<Value>) -> Seq<ValueModel>
    decreases items,
{
    Seq::new(
        items.len() as nat,
        |i: int|
            if 0 <= i < items.len() {
                value_model(items[i])
            } else {
                ValueModel::Null
            },
    )
}

/// The mathematical contents of `entries`, in order.
pub open spec fn entry_models(entries: Vec<(Key, Value)>) -> Seq<(KeyModel, ValueModel)>
    decreases entries,
{
    Seq::new(
        entries.len() as nat,
        |i: int|
            if 0 <= i < entries.len() {
                (entries[i].0@, value_model(entries[i].1))
            } else {
                (KeyModel::Bool(false), ValueModel::Null)
            },
    )
}

impl View for Value {
    type V = ValueModel;

    open spec fn view(&self) -> ValueModel {
        value_model(*self)
    }
}

/// Whether no key occurs twice among `entries`.
pub open spec fn distinct_keys<K, V>(entries: Seq<(K, V)>) -> bool {
    forall|i: int, j: int|
        0 <= i < j < entries.len() ==> (#[trigger] entries[i]).0 != (#[trigger] entries[j]).0
}

/// Whether `key` occurs among `entries`.
pub open spec fn has_key<K, V>(entries: Seq<(K, V)>, key: K) -> bool {
    exists|i: int| 0 <= i < entries.len() && (#[trigger] entries[i]).0 == key
}

/// `entries` with `key` bound to `value`: in the place of the entry that
/// held `key`, or at the end where there was none.
pub open spec fn with_entry<K, V>(entries: Seq<(K, V)>, key: K, value: V) -> Seq<(K, V)> {
    if has_key(entries, key) {
        Seq::new(
            entries.len(),
            |i: int|
                if entries[i].0 == key {
                    (key, value)
                } else {
                    entries[i]
                },
        )
    } else {
        entries.push((key, value))
    }
}

/// What `key` is bound to among `entries`, if anything: the value of the
/// first entry that holds `key`.
pub open spec fn bound<K, V>(entries: Seq<(K, V)>, key: K) -> Option<V>
    decreases entries.len(),
{
    if entries.len() == 0 {
        None
    } else if entries[0].0 == key {
        Some(entries[0].1)
    } else {
        bound(entries.drop_first(), key)
    }
}

/// After `key` was bound to `value`, `key` is bound to `value`, every
/// other key is bound as before, and no key occurs twice if none did.
pub proof fn lemma_with_entry<K, V>(entries: Seq<(K, V)>, key: K, value: V, other: K)
    requires
        distinct_keys(entries),
    ensures
        distinct_keys(with_entry(entries, key, value)),
        bound(with_entry(entries, key, value), key) == Some(value),
        other != key ==> bound(with_entry(entries, key, value), other) == bound(entries, other),
    decreases entries.len(),
{
    let after = with_entry(entries, key, value);
    if has_key(entries, key) {
        assert forall|i: int, j: int| 0 <= i < j < after.len() implies (#[trigger] after[i]).0 != (
        #[trigger] after[j]).0 by {
            assert(entries[i].0 != entries[j].0);
        }
    } else {
        assert forall|i: int, j: int| 0 <= i < j < after.len() implies (#[trigger] after[i]).0 != (
        #[trigger] after[j]).0 by {
            if j < entries.len() {
                assert(entries[i].0 != entries[j].0);
            } else {
                assert(entries[i].0 != key);
            }
        }
    }
    if entries.len() == 0 {
        assert(!has_key(entries, key));
        assert(after.drop_first() =~= entries);
    } else {
        let rest = entries.drop_first();
        assert forall|i: int, j: int| 0 <= i < j < rest.len() implies (#[trigger] rest[i]).0 != (
        #[trigger] rest[j]).0 by {
            assert(entries[i + 1].0 != entries[j + 1].0);
        }
        lemma_with_entry(rest, key, value, other);
        if has_key(entries, key) {
            let at = choose|i: int| 0 <= i < entries.len() && (#[trigger] entries[i]).0 == key;
            if entries[0].0 == key {
                assert(after[0] == (key, value));
                assert(after.drop_first() =~= Seq::new(
                    rest.len(),
                    |i: int|
                        if rest[i].0 == key {
                            (key, value)
                        } else {
                            rest[i]
                        },
                ));
                if other != key {
                    assert forall|i: int| 0 <= i < rest.len() implies (#[trigger] rest[i]).0
                        != key by {
                        assert(entries[0].0 != entries[i + 1].0);
                    }
                    assert(after.drop_first() =~= rest);
                }
            } else {
                assert(at > 0);
                assert(rest[at - 1].0 == key);
                assert(has_key(rest, key));
                assert(after.drop_first() =~= with_entry(rest, key, value));
                assert(after[0] == entries[0]);
            }
        } else {
            assert(!has_key(rest, key)) by {
                if has_key(rest, key) {
                    let at = choose|i: int| 0 <= i < rest.len() && (#[trigger] rest[i]).0 == key;
                    assert(entries[at + 1].0 == key);
                }
            }
            assert(entries[0].0 != key);
            assert(after.drop_first() =~= with_entry(rest, key, value));
            assert(after[0] == entries[0]);
        }
    }
}

/// Where `key` is held at `at`, putting `(key, value)` in that place is
/// binding `key` to `value`, and no key occurs twice afterwards.
pub proof fn lemma_put_in_place<K, V>(entries: Seq<(K, V)>, at: int, key: K, value: V)
    requires
        distinct_keys(entries),
        0 <= at < entries.len(),
        entries[at].0 == key,
    ensures
        entries.update(at, (key, value)) == with_entry(entries, key, value),
        distinct_keys(entries.update(at, (key, value))),
{
    let after = entries.update(at, (key, value));
    let expected = with_entry(entries, key, value);
    assert(has_key(entries, key));
    assert forall|j: int| 0 <= j < after.len() implies after[j] == expected[j] by {
        if j < at {
            assert(entries[j].0 != entries[at].0);
        } else if j > at {
            assert(entries[at].0 != entries[j].0);
        }
    }
    assert(after =~= expected);
    lemma_with_entry(entries, key, value, key);
}

/// Where `key` is not held, putting `(key, value)` at the end is binding
/// `key` to `value`, and no key occurs twice afterwards.
pub proof fn lemma_put_at_end<K, V>(entries: Seq<(K, V)>, key: K, value: V)
    requires
        distinct_keys(entries),
        forall|j: int| 0 <= j < entries.len() ==> (#[trigger] entries[j]).0 != key,
    ensures
        entries.push((key, value)) == with_entry(entries, key, value),
        distinct_keys(entries.push((key, value))),
{
    assert(!has_key(entries, key));
    lemma_with_entry(entries, key, value, key);
}

/// Whether `v` and every value inside it keeps its maps free of repeated
/// keys.
pub open spec fn well_formed(v: ValueModel) -> bool
    decreases v,
{
    match v {
        ValueModel::List(items) => forall|i: int|
            0 <= i < items.len() ==> well_formed(#[trigger] items[i]),
        ValueModel::Mapping(entries) => {
            &&& distinct_keys(entries)
            &&& forall|i: int| 0 <= i < entries.len() ==> well_formed((#[trigger] entries[i]).1)
        },
        ValueModel::Optional(inner) => match inner {
            Some(inside) => well_formed(*inside),
            None => true,
        },
        _ => true,
    }
}

/// A copy of `bytes`.
pub fn copy_bytes(bytes: &Vec<u8>) -> (copy: Vec<u8>)
    ensures
        copy@ == bytes@,
{
    let mut copy: Vec<u8> = Vec::new();
    let mut i: usize = 0;
    while i < bytes.len()
        invariant
            i <= bytes.len(),
            copy@ == bytes@.take(i as int),
        decreases bytes.len() - i,
    {
        copy.push(bytes[i]);
        proof {
            assert(bytes@.take(i + 1) == bytes@.take(i as int).push(bytes@[i as int]));
        }
        i += 1;
    }
    proof {
        assert(bytes@.take(bytes@.len() as int) == bytes@);
    }
    copy
}

impl Key {
    /// A copy of the key.
    pub fn copy(&self) -> (copy: Key)
        ensures
            copy@ == self@,
    {
        match self {
            Key::Int(i) => Key::Int(*i),
            Key::Uint(u) => Key::Uint(*u),
            Key::Bool(b) => Key::Bool(*b),
            Key::Str(s) => Key::Str(s.clone()),
        }
    }

    /// Whether the two keys are the same key.
    pub fn same(&self, other: &Key) -> (same: bool)
        ensures
            same == (self@ == other@),
    {
        match (self, other) {
            (Key::Int(a), Key::Int(b)) => *a == *b,
            (Key::Uint(a), Key::Uint(b)) => *a == *b,
            (Key::Bool(a), Key::Bool(b)) => *a == *b,
            (Key::Str(a), Key::Str(b)) => same_text(a.as_str(), b.as_str()),
            _ => false,
        }
    }
}

impl Value {
    /// A deep copy of the value.
    pub fn copy(&self) -> (copy: Value)
        ensures
            copy@ == self@,
        decreases self, 1nat,
    {
        match self {
            Value::Null => Value::Null,
            Value::Bool(b) => Value::Bool(*b),
            Value::Int(i) => Value::Int(*i),
            Value::UInt(u) => Value::UInt(*u),
            Value::Float(bits) => Value::Float(*bits),
            Value::Str(s) => Value::Str(s.clone()),
            Value::Bytes(b) => Value::Bytes(copy_bytes(b)),
            Value::Timestamp(t) => Value::Timestamp(*t),
            Value::Duration(d) => Value::Duration(*d),
            Value::List(items) => Value::List(copy_values(items)),
            Value::Mapping(entries) => Value::Mapping(copy_entries(entries)),
            Value::Optional(inner) => match inner {
                Some(inside) => Value::Optional(Some(Box::new(inside.copy()))),
                None => Value::Optional(None),
            },
            Value::Opaque(text) => Value::Opaque(text.clone()),
        }
    }
}

/// Deep copies of `items`, in order.
pub fn copy_values(items: &Vec<Value>) -> (copies: Vec<Value>)
    ensures
        value_models(copies) == value_models(*items),
    decreases items, 0nat,
{
    let mut copies: Vec<Value> = Vec::new();
    let mut i: usize = 0;
    while i < items.len()
        invariant
            i <= items.len(),
            copies.len() == i,
            forall|j: int| 0 <= j < i ==> value_model(copies[j]) == value_model(items[j]),
        decreases items.len() - i,
    {
        let item = items[i].copy();
        copies.push(item);
        i += 1;
    }
    proof {
        assert(value_models(copies) =~= value_models(*items));
    }
    copies
}

/// Deep copies of `entries`, in order.
pub fn copy_entries(entries: &Vec<(Key, Value)>) -> (copies: Vec<(Key, Value)>)
    ensures
        entry_models(copies) == entry_models(*entries),
    decreases entries, 0nat,
{
    let mut copies: Vec<(Key, Value)> = Vec::new();
    let mut i: usize = 0;
    while i < entries.len()
        invariant
            i <= entries.len(),
            copies.len() == i,
            forall|j: int|
                0 <= j < i ==> copies[j].0@ == entries[j].0@ && value_model(copies[j].1)
                    == value_model(entries[j].1),
        decreases entries.len() - i,
    {
        let key = entries[i].0.copy();
        let value = entries[i].1.copy();
        copies.push((key, value));
        i += 1;
    }
    proof {
        assert(entry_models(copies) =~= entry_models(*entries));
    }
    copies
}

} // verus!
