//! Marshalling between host values and engine values.

use crate::error::CelError;
use crate::host::{host_model, host_models, host_pairs, HostModel, HostValue, OptionalValue};
use crate::value::{
    copy_bytes, distinct_keys, entry_models, has_key, lemma_put_at_end, lemma_put_in_place,
    lemma_with_entry, value_model, value_models, well_formed, with_entry, Key, KeyModel, Value,
    ValueModel,
};
use vstd::prelude::*;

verus! {

/// What the host is told of a value whose host type has no counterpart.
pub open spec fn unsupported(kind_name: Seq<char>) -> Seq<char> {
    "Failed to convert Python object of type "@ + kind_name + " to Value"@
}

/// The engine key for a host key, or what the host is told where there is
/// none: integers in the signed 64-bit range become signed keys, larger
/// ones in the unsigned 64-bit range unsigned keys; booleans and strings
/// are keys as they are; null and every other value is refused.
pub open spec fn engine_key(k: HostModel) -> Result<KeyModel, Seq<char>> {
    match k {
        HostModel::Null => Err("None cannot be used as a key in dictionaries"@),
        HostModel::Integer(n) => if i64::MIN <= n <= i64::MAX {
            Ok(KeyModel::Int(n as i64))
        } else if 0 <= n <= u64::MAX {
            Ok(KeyModel::Uint(n as u64))
        } else {
            Err("Failed to convert PyDict key to Key"@)
        },
        HostModel::Bool(b) => Ok(KeyModel::Bool(b)),
        HostModel::Str(s) => Ok(KeyModel::Str(s)),
        _ => Err("Failed to convert PyDict key to Key"@),
    }
}

/// The engine value for a host value, or what the host is told where
/// there is none.
pub open spec fn engine_value(h: HostModel) -> Result<ValueModel, Seq<char>>
    decreases h,
{
    match h {
        HostModel::Null => Ok(ValueModel::Null),
        HostModel::Bool(b) => Ok(ValueModel::Bool(b)),
        HostModel::Integer(n) => if i64::MIN <= n <= i64::MAX {
            Ok(ValueModel::Int(n as i64))
        } else if 0 <= n <= u64::MAX {
            Ok(ValueModel::UInt(n as u64))
        } else {
            Err(unsupported("int"@))
        },
        HostModel::Float(bits) => Ok(ValueModel::Float(bits)),
        HostModel::Timestamp(t) => Ok(ValueModel::Timestamp(t)),
        HostModel::LocalTimestamp { naive, resolved } => match resolved {
            Some(t) => Ok(ValueModel::Timestamp(t)),
            None => Err("Ambiguous or invalid local datetime"@),
        },
        HostModel::Duration(d) => Ok(ValueModel::Duration(d)),
        HostModel::Str(s) => Ok(ValueModel::Str(s)),
        HostModel::List(items) => match engine_values(items) {
            Ok(values) => Ok(ValueModel::List(values)),
            Err(e) => Err(e),
        },
        HostModel::Tuple(items) => match engine_values(items) {
            Ok(values) => Ok(ValueModel::List(values)),
            Err(e) => Err(e),
        },
        HostModel::Dict(entries) => match engine_entries(entries) {
            Ok(converted) => Ok(ValueModel::Mapping(converted)),
            Err(e) => Err(e),
        },
        HostModel::Bytes(b) => Ok(ValueModel::Bytes(b)),
        HostModel::Optional(inner) => Ok(ValueModel::Optional(inner)),
        HostModel::Callable { handle, kind_name } => Err(unsupported(kind_name)),
        HostModel::Other(kind_name) => Err(unsupported(kind_name)),
    }
}

/// The engine values for `items`, in order; the first item that has none
/// decides what the host is told.
pub open spec fn engine_values(items: Seq<HostModel>) -> Result<Seq<ValueModel>, Seq<char>>
    decreases items,
{
    if items.len() == 0 {
        Ok(Seq::empty())
    } else {
        match engine_values(items.drop_last()) {
            Err(e) => Err(e),
            Ok(before) => match engine_value(items.last()) {
                Err(e) => Err(e),
                Ok(value) => Ok(before.push(value)),
            },
        }
    }
}

/// The engine map entries for the entries of a host mapping, taken in
/// order: each key is converted, then its value; a later entry replaces an
/// earlier one with the same key. The first key or value that cannot be
/// converted decides what the host is told.
pub open spec fn engine_entries(entries: Seq<(HostModel, HostModel)>) -> Result<
    Seq<(KeyModel, ValueModel)>,
    Seq<char>,
>
    decreases entries,
{
    if entries.len() == 0 {
        Ok(Seq::empty())
    } else {
        match engine_entries(entries.drop_last()) {
            Err(e) => Err(e),
            Ok(before) => match engine_key(entries.last().0) {
                Err(e) => Err(e),
                Ok(key) => match engine_value(entries.last().1) {
                    Err(_) => Err("Failed to convert PyDict value to Value"@),
                    Ok(value) => Ok(with_entry(before, key, value)),
                },
            },
        }
    }
}

/// The host key for an engine key.
pub open spec fn host_key(k: KeyModel) -> HostModel {
    match k {
        KeyModel::Int(i) => HostModel::Integer(i as int),
        KeyModel::Uint(u) => HostModel::Integer(u as int),
        KeyModel::Bool(b) => HostModel::Bool(b),
        KeyModel::Str(s) => HostModel::Str(s),
    }
}

/// The host value for an engine value. Every engine value has one; a
/// value of a kind unknown to the host is handed over as its debug text.
pub open spec fn host_value(v: ValueModel) -> HostModel
    decreases v,
{
    match v {
        ValueModel::Null => HostModel::Null,
        ValueModel::Bool(b) => HostModel::Bool(b),
        ValueModel::Int(i) => HostModel::Integer(i as int),
        ValueModel::UInt(u) => HostModel::Integer(u as int),
        ValueModel::Float(bits) => HostModel::Float(bits),
        ValueModel::Str(s) => HostModel::Str(s),
        ValueModel::Bytes(b) => HostModel::Bytes(b),
        ValueModel::Timestamp(t) => HostModel::Timestamp(t),
        ValueModel::Duration(d) => HostModel::Duration(d),
        ValueModel::List(items) => HostModel::List(host_values(items)),
        ValueModel::Mapping(entries) => HostModel::Dict(host_entries(entries)),
        ValueModel::Optional(inner) => HostModel::Optional(inner),
        ValueModel::Opaque(text) => HostModel::Str(text),
    }
}

/// The host values for `items`, in order.
pub open spec fn host_values(items: Seq<ValueModel>) -> Seq<HostModel>
    decreases items,
{
    if items.len() == 0 {
        Seq::empty()
    } else {
        host_values(items.drop_last()).push(host_value(items.last()))
    }
}

/// The host mapping entries for the entries of an engine map, in order.
pub open spec fn host_entries(entries: Seq<(KeyModel, ValueModel)>) -> Seq<(HostModel, HostModel)>
    decreases entries,
{
    if entries.len() == 0 {
        Seq::empty()
    } else {
        host_entries(entries.drop_last()).push(
            (host_key(entries.last().0), host_value(entries.last().1)),
        )
    }
}

/// Whether `result` is what `expected` says: the value whose content it
/// gives, or the error whose text it gives.
pub open spec fn conversion_is(
    expected: Result<ValueModel, Seq<char>>,
    result: Result<Value, CelError>,
) -> bool {
    match result {
        Ok(v) => expected == Ok::<ValueModel, Seq<char>>(v@),
        Err(e) => expected == Err::<ValueModel, Seq<char>>(e.detail()),
    }
}

/// Whether `result` is what `expected` says, for a key.
pub open spec fn key_is(expected: Result<KeyModel, Seq<char>>, result: Result<Key, CelError>) -> bool {
    match result {
        Ok(k) => expected == Ok::<KeyModel, Seq<char>>(k@),
        Err(e) => expected == Err::<KeyModel, Seq<char>>(e.detail()),
    }
}

fn conversion_error(text: &str) -> (e: CelError)
    ensures
        e.detail() == text@,
{
    CelError::ConversionError(String::from_str(text))
}

fn unsupported_error(kind_name: &str) -> (e: CelError)
    ensures
        e.detail() == unsupported(kind_name@),
{
    let mut text = String::from_str("Failed to convert Python object of type ");
    text.append(kind_name);
    text.append(" to Value");
    CelError::ConversionError(text)
}

/// Converts a key of a host mapping to an engine key.
pub fn to_key(k: &HostValue) -> (result: Result<Key, CelError>)
    ensures
        key_is(engine_key(k@), result),
{
    match k {
        HostValue::Null => Err(conversion_error("None cannot be used as a key in dictionaries")),
        HostValue::Integer(n) => {
            if -0x8000_0000_0000_0000 <= *n && *n <= 0x7fff_ffff_ffff_ffff {
                Ok(Key::Int(*n as i64))
            } else if 0 <= *n && *n <= 0xffff_ffff_ffff_ffff {
                Ok(Key::Uint(*n as u64))
            } else {
                Err(conversion_error("Failed to convert PyDict key to Key"))
            }
        },
        HostValue::Bool(b) => Ok(Key::Bool(*b)),
        HostValue::Str(s) => Ok(Key::Str(s.clone())),
        _ => Err(conversion_error("Failed to convert PyDict key to Key")),
    }
}

/// Binds `key` to `value` in `entries`: in the place of the entry that
/// held `key`, or at the end where there was none.
pub fn put_entry(entries: &mut Vec<(Key, Value)>, key: Key, value: Value)
    requires
        distinct_keys(entry_models(*old(entries))),
    ensures
        entry_models(*final(entries)) == with_entry(entry_models(*old(entries)), key@, value@),
        distinct_keys(entry_models(*final(entries))),
{
    let ghost before = entry_models(*entries);
    let mut i: usize = 0;
    while i < entries.len()
        invariant
            i <= entries.len(),
            entry_models(*entries) == before,
            before == entry_models(*old(entries)),
            distinct_keys(before),
            forall|j: int| 0 <= j < i ==> (#[trigger] before[j]).0 != key@,
        decreases entries.len() - i,
    {
        if entries[i].0.same(&key) {
            entries.set(i, (key, value));
            proof {
                assert(entry_models(*entries) =~= before.update(i as int, (key@, value@)));
                lemma_put_in_place(before, i as int, key@, value@);
            }
            return ;
        }
        i += 1;
    }
    entries.push((key, value));
    proof {
        assert(entry_models(*entries) =~= before.push((key@, value@)));
        lemma_put_at_end(before, key@, value@);
    }
}

/// Where conversion fails at `at`, after every earlier item was converted,
/// the whole list fails in the same way.
proof fn lemma_values_fail(items: Seq<HostModel>, at: int)
    requires
        0 <= at < items.len(),
        engine_values(items.take(at)) is Ok,
        engine_value(items[at]) is Err,
    ensures
        engine_values(items) == Err::<Seq<ValueModel>, Seq<char>>(engine_value(items[at])->Err_0),
    decreases items.len(),
{
    if at == items.len() - 1 {
        assert(items.drop_last() == items.take(at));
    } else {
        assert(items.drop_last().take(at) == items.take(at));
        lemma_values_fail(items.drop_last(), at);
    }
}

/// What the host is told where the entry at `at` cannot be converted.
pub open spec fn entry_failure(entry: (HostModel, HostModel)) -> Option<Seq<char>> {
    match engine_key(entry.0) {
        Err(e) => Some(e),
        Ok(_) => match engine_value(entry.1) {
            Err(_) => Some("Failed to convert PyDict value to Value"@),
            Ok(_) => None,
        },
    }
}

/// Where conversion fails at `at`, after every earlier entry was
/// converted, the whole mapping fails in the same way.
proof fn lemma_entries_fail(entries: Seq<(HostModel, HostModel)>, at: int)
    requires
        0 <= at < entries.len(),
        engine_entries(entries.take(at)) is Ok,
        entry_failure(entries[at]) is Some,
    ensures
        engine_entries(entries) == Err::<Seq<(KeyModel, ValueModel)>, Seq<char>>(
            entry_failure(entries[at])->0,
        ),
    decreases entries.len(),
{
    if at == entries.len() - 1 {
        assert(entries.drop_last() == entries.take(at));
    } else {
        assert(entries.drop_last().take(at) == entries.take(at));
        lemma_entries_fail(entries.drop_last(), at);
    }
}

/// Converts the items of a host sequence, in order.
fn to_engine_list(items: &Vec<HostValue>) -> (result: Result<Vec<Value>, CelError>)
    ensures
        match result {
            Ok(values) => engine_values(host_models(*items)) == Ok::<
                Seq<ValueModel>,
                Seq<char>,
            >(value_models(values)),
            Err(e) => engine_values(host_models(*items)) == Err::<Seq<ValueModel>, Seq<char>>(
                e.detail(),
            ),
        },
    decreases items, 0nat,
{
    let ghost models = host_models(*items);
    let mut values: Vec<Value> = Vec::new();
    let mut i: usize = 0;
    proof {
        assert(models.take(0) =~= Seq::empty());
        assert(value_models(values) =~= Seq::empty());
    }
    while i < items.len()
        invariant
            i <= items.len(),
            models == host_models(*items),
            engine_values(models.take(i as int)) == Ok::<Seq<ValueModel>, Seq<char>>(
                value_models(values),
            ),
        decreases items.len() - i,
    {
        proof {
            assert(models.take(i + 1).drop_last() == models.take(i as int));
            assert(models[i as int] == host_model(items[i as int]));
        }
        match to_engine(&items[i]) {
            Ok(value) => {
                let ghost before = value_models(values);
                values.push(value);
                proof {
                    assert(value_models(values) =~= before.push(value@));
                }
            },
            Err(e) => {
                proof {
                    lemma_values_fail(models, i as int);
                }
                return Err(e);
            },
        }
        i += 1;
    }
    proof {
        assert(models.take(models.len() as int) == models);
    }
    Ok(values)
}

/// Converts the entries of a host mapping, in order.
fn to_engine_entries(entries: &Vec<(HostValue, HostValue)>) -> (result: Result<
    Vec<(Key, Value)>,
    CelError,
>)
    ensures
        match result {
            Ok(converted) => engine_entries(host_pairs(*entries)) == Ok::<
                Seq<(KeyModel, ValueModel)>,
                Seq<char>,
            >(entry_models(converted)) && distinct_keys(entry_models(converted)),
            Err(e) => engine_entries(host_pairs(*entries)) == Err::<
                Seq<(KeyModel, ValueModel)>,
                Seq<char>,
            >(e.detail()),
        },
    decreases entries, 0nat,
{
    let ghost models = host_pairs(*entries);
    let mut converted: Vec<(Key, Value)> = Vec::new();
    let mut i: usize = 0;
    proof {
        assert(models.take(0) =~= Seq::empty());
        assert(entry_models(converted) =~= Seq::empty());
    }
    while i < entries.len()
        invariant
            i <= entries.len(),
            models == host_pairs(*entries),
            distinct_keys(entry_models(converted)),
            engine_entries(models.take(i as int)) == Ok::<Seq<(KeyModel, ValueModel)>, Seq<char>>(
                entry_models(converted),
            ),
        decreases entries.len() - i,
    {
        proof {
            assert(models.take(i + 1).drop_last() == models.take(i as int));
            assert(models[i as int] == (
                host_model(entries[i as int].0),
                host_model(entries[i as int].1),
            ));
        }
        let key = match to_key(&entries[i].0) {
            Ok(key) => key,
            Err(e) => {
                proof {
                    lemma_entries_fail(models, i as int);
                }
                return Err(e);
            },
        };
        let value = match to_engine(&entries[i].1) {
            Ok(value) => value,
            Err(_) => {
                proof {
                    lemma_entries_fail(models, i as int);
                }
                return Err(conversion_error("Failed to convert PyDict value to Value"));
            },
        };
        put_entry(&mut converted, key, value);
        i += 1;
    }
    proof {
        assert(models.take(models.len() as int) == models);
    }
    Ok(converted)
}

/// Converts a host value to an engine value.
///
/// Null, booleans, floating-point numbers, timestamps with an offset,
/// durations, strings and byte strings convert as they are. An integer
/// becomes a signed integer where it fits 64 bits, else an unsigned one
/// where it fits that. A timestamp without an offset becomes the instant
/// that the local time zone gave it, and fails where that gave none.
/// Lists and tuples become lists, item by item; a mapping becomes a map,
/// entry by entry. An optional value becomes the engine's optional.
/// Anything else fails with a message that names the host type.
pub fn to_engine(h: &HostValue) -> (result: Result<Value, CelError>)
    ensures
        conversion_is(engine_value(h@), result),
        sound(h@) ==> (result matches Ok(v) ==> well_formed(v@)),
    decreases h, 1nat,
{
    let result = match h {
        HostValue::Null => Ok(Value::Null),
        HostValue::Bool(b) => Ok(Value::Bool(*b)),
        HostValue::Integer(n) => {
            if -0x8000_0000_0000_0000 <= *n && *n <= 0x7fff_ffff_ffff_ffff {
                Ok(Value::Int(*n as i64))
            } else if 0 <= *n && *n <= 0xffff_ffff_ffff_ffff {
                Ok(Value::UInt(*n as u64))
            } else {
                Err(unsupported_error("int"))
            }
        },
        HostValue::Float(bits) => Ok(Value::Float(*bits)),
        HostValue::Timestamp(t) => Ok(Value::Timestamp(*t)),
        HostValue::LocalTimestamp { naive, resolved } => match resolved {
            Some(t) => Ok(Value::Timestamp(*t)),
            None => Err(conversion_error("Ambiguous or invalid local datetime")),
        },
        HostValue::Duration(d) => Ok(Value::Duration(*d)),
        HostValue::Str(s) => Ok(Value::Str(s.clone())),
        HostValue::List(items) => match to_engine_list(items) {
            Ok(values) => Ok(Value::List(values)),
            Err(e) => Err(e),
        },
        HostValue::Tuple(items) => match to_engine_list(items) {
            Ok(values) => Ok(Value::List(values)),
            Err(e) => Err(e),
        },
        HostValue::Dict(entries) => match to_engine_entries(entries) {
            Ok(converted) => Ok(Value::Mapping(converted)),
            Err(e) => Err(e),
        },
        HostValue::Bytes(b) => Ok(Value::Bytes(copy_bytes(b))),
        HostValue::Optional(o) => match &o.inner {
            Some(inside) => Ok(Value::Optional(Some(Box::new(inside.copy())))),
            None => Ok(Value::Optional(None)),
        },
        HostValue::Callable { handle, kind_name } => Err(unsupported_error(kind_name.as_str())),
        HostValue::Other(kind_name) => Err(unsupported_error(kind_name.as_str())),
    };
    proof {
        if sound(h@) && result is Ok {
            lemma_converted_is_well_formed(h@);
        }
    }
    result
}

/// Converts an engine key to the host value that stands for it.
pub fn key_to_host(k: &Key) -> (h: HostValue)
    ensures
        h@ == host_key(k@),
{
    match k {
        Key::Int(i) => HostValue::Integer(*i as i128),
        Key::Uint(u) => HostValue::Integer(*u as i128),
        Key::Bool(b) => HostValue::Bool(*b),
        Key::Str(s) => HostValue::Str(s.clone()),
    }
}

/// Converts the items of an engine list, in order.
pub fn to_host_list(items: &Vec<Value>) -> (converted: Vec<HostValue>)
    ensures
        host_models(converted) == host_values(value_models(*items)),
    decreases items, 0nat,
{
    let ghost models = value_models(*items);
    let mut converted: Vec<HostValue> = Vec::new();
    let mut i: usize = 0;
    proof {
        assert(models.take(0) =~= Seq::empty());
        assert(host_models(converted) =~= Seq::empty());
    }
    while i < items.len()
        invariant
            i <= items.len(),
            models == value_models(*items),
            host_models(converted) == host_values(models.take(i as int)),
        decreases items.len() - i,
    {
        proof {
            assert(models.take(i + 1).drop_last() == models.take(i as int));
            assert(models[i as int] == value_model(items[i as int]));
        }
        let item = to_host(&items[i]);
        let ghost before = host_models(converted);
        converted.push(item);
        proof {
            assert(host_models(converted) =~= before.push(item@));
        }
        i += 1;
    }
    proof {
        assert(models.take(models.len() as int) == models);
    }
    converted
}

/// Converts the entries of an engine map, in order.
fn to_host_entries(entries: &Vec<(Key, Value)>) -> (converted: Vec<(HostValue, HostValue)>)
    ensures
        host_pairs(converted) == host_entries(entry_models(*entries)),
    decreases entries, 0nat,
{
    let ghost models = entry_models(*entries);
    let mut converted: Vec<(HostValue, HostValue)> = Vec::new();
    let mut i: usize = 0;
    proof {
        assert(models.take(0) =~= Seq::empty());
        assert(host_pairs(converted) =~= Seq::empty());
    }
    while i < entries.len()
        invariant
            i <= entries.len(),
            models == entry_models(*entries),
            host_pairs(converted) == host_entries(models.take(i as int)),
        decreases entries.len() - i,
    {
        proof {
            assert(models.take(i + 1).drop_last() == models.take(i as int));
            assert(models[i as int] == (entries[i as int].0@, value_model(entries[i as int].1)));
        }
        let key = key_to_host(&entries[i].0);
        let value = to_host(&entries[i].1);
        let ghost before = host_pairs(converted);
        converted.push((key, value));
        proof {
            assert(host_pairs(converted) =~= before.push((key@, value@)));
        }
        i += 1;
    }
    proof {
        assert(models.take(models.len() as int) == models);
    }
    converted
}

/// Converts an engine value to a host value. This never fails: integers
/// of either sign become host integers, lists and maps are converted item
/// by item with each key as its host counterpart, an optional is handed
/// over as an optional, and a value of any other kind as its debug text.
pub fn to_host(v: &Value) -> (h: HostValue)
    ensures
        h@ == host_value(v@),
    decreases v, 1nat,
{
    match v {
        Value::Null => HostValue::Null,
        Value::Bool(b) => HostValue::Bool(*b),
        Value::Int(i) => HostValue::Integer(*i as i128),
        Value::UInt(u) => HostValue::Integer(*u as i128),
        Value::Float(bits) => HostValue::Float(*bits),
        Value::Str(s) => HostValue::Str(s.clone()),
        Value::Bytes(b) => HostValue::Bytes(copy_bytes(b)),
        Value::Timestamp(t) => HostValue::Timestamp(*t),
        Value::Duration(d) => HostValue::Duration(*d),
        Value::List(items) => HostValue::List(to_host_list(items)),
        Value::Mapping(entries) => HostValue::Dict(to_host_entries(entries)),
        Value::Optional(inner) => match inner {
            Some(inside) => HostValue::Optional(
                OptionalValue { inner: Some(Box::new(inside.copy())) },
            ),
            None => HostValue::Optional(OptionalValue { inner: None }),
        },
        Value::Opaque(text) => HostValue::Str(text.clone()),
    }
}

/// Whether a host key comes back from the engine as it went in: a
/// boolean, a string, or an integer within the 64-bit ranges.
pub open spec fn plain_key(k: HostModel) -> bool {
    match k {
        HostModel::Bool(_) => true,
        HostModel::Str(_) => true,
        HostModel::Integer(n) => i64::MIN <= n <= u64::MAX,
        _ => false,
    }
}

/// Whether a host value comes back from the engine as it went in: null,
/// booleans, integers within the 64-bit ranges, floating-point numbers,
/// strings, byte strings, timestamps with an offset, durations, optional
/// values, lists of such values, and mappings of such values under plain
/// keys of which none occurs twice.
pub open spec fn round_trips(h: HostModel) -> bool
    decreases h,
{
    match h {
        HostModel::Null => true,
        HostModel::Bool(_) => true,
        HostModel::Integer(n) => i64::MIN <= n <= u64::MAX,
        HostModel::Float(_) => true,
        HostModel::Timestamp(_) => true,
        HostModel::Duration(_) => true,
        HostModel::Str(_) => true,
        HostModel::Bytes(_) => true,
        HostModel::Optional(_) => true,
        HostModel::List(items) => forall|i: int|
            0 <= i < items.len() ==> round_trips(#[trigger] items[i]),
        HostModel::Dict(entries) => {
            &&& distinct_keys(entries)
            &&& forall|i: int|
                0 <= i < entries.len() ==> plain_key((#[trigger] entries[i]).0) && round_trips(
                    entries[i].1,
                )
        },
        _ => false,
    }
}

/// A plain key converts, and comes back as it went in.
proof fn lemma_key_round_trip(k: HostModel)
    requires
        plain_key(k),
    ensures
        engine_key(k) is Ok,
        host_key(engine_key(k)->Ok_0) == k,
{
}

/// Plain keys that differ convert to keys that differ.
proof fn lemma_key_injective(a: HostModel, b: HostModel)
    requires
        plain_key(a),
        plain_key(b),
        a != b,
    ensures
        engine_key(a)->Ok_0 != engine_key(b)->Ok_0,
{
    lemma_key_round_trip(a);
    lemma_key_round_trip(b);
}

/// Round trip: a host value of a supported kind converts to an engine
/// value, and that value converts back to the host value it came from.
pub proof fn lemma_round_trip(h: HostModel)
    requires
        round_trips(h),
    ensures
        engine_value(h) is Ok,
        host_value(engine_value(h)->Ok_0) == h,
    decreases h, 1nat,
{
    match h {
        HostModel::List(items) => {
            lemma_round_trip_items(items);
        },
        HostModel::Dict(entries) => {
            lemma_round_trip_entries(entries);
        },
        _ => {},
    }
}

/// Round trip, for the items of a list.
pub proof fn lemma_round_trip_items(items: Seq<HostModel>)
    requires
        forall|i: int| 0 <= i < items.len() ==> round_trips(#[trigger] items[i]),
    ensures
        engine_values(items) is Ok,
        host_values(engine_values(items)->Ok_0) == items,
    decreases items, 0nat,
{
    if items.len() > 0 {
        let front = items.drop_last();
        assert forall|i: int| 0 <= i < front.len() implies round_trips(#[trigger] front[i]) by {
            assert(front[i] == items[i]);
        }
        lemma_round_trip_items(front);
        assert(round_trips(items[items.len() - 1]));
        lemma_round_trip(items.last());
        let values = engine_values(items)->Ok_0;
        assert(values.drop_last() =~= engine_values(front)->Ok_0);
        assert(host_values(values) =~= items);
    } else {
        assert(host_values(Seq::<ValueModel>::empty()) =~= items);
    }
}

/// Round trip, for the entries of a mapping: every entry converts, no
/// entry replaces another, and the entries come back in order.
pub proof fn lemma_round_trip_entries(entries: Seq<(HostModel, HostModel)>)
    requires
        distinct_keys(entries),
        forall|i: int|
            0 <= i < entries.len() ==> plain_key((#[trigger] entries[i]).0) && round_trips(
                entries[i].1,
            ),
    ensures
        engine_entries(entries) is Ok,
        engine_entries(entries)->Ok_0.len() == entries.len(),
        forall|i: int|
            0 <= i < entries.len() ==> (#[trigger] engine_entries(entries)->Ok_0[i]).0
                == engine_key(entries[i].0)->Ok_0,
        host_entries(engine_entries(entries)->Ok_0) == entries,
    decreases entries, 0nat,
{
    if entries.len() > 0 {
        let front = entries.drop_last();
        let last = entries.last();
        assert forall|i: int| 0 <= i < front.len() implies plain_key((#[trigger] front[i]).0)
            && round_trips(front[i].1) by {
            assert(front[i] == entries[i]);
        }
        assert forall|i: int, j: int| 0 <= i < j < front.len() implies (#[trigger] front[i]).0 != (
        #[trigger] front[j]).0 by {
            assert(entries[i].0 != entries[j].0);
        }
        lemma_round_trip_entries(front);
        assert(plain_key(entries[entries.len() - 1].0));
        lemma_key_round_trip(last.0);
        lemma_round_trip(last.1);
        let before = engine_entries(front)->Ok_0;
        let key = engine_key(last.0)->Ok_0;
        let value = engine_value(last.1)->Ok_0;
        assert(!has_key(before, key)) by {
            if has_key(before, key) {
                let i = choose|i: int| 0 <= i < before.len() && (#[trigger] before[i]).0 == key;
                assert(front[i] == entries[i]);
                assert(plain_key(entries[i].0));
                assert(entries[i].0 != entries[entries.len() - 1].0);
                lemma_key_injective(entries[i].0, last.0);
            }
        }
        let converted = engine_entries(entries)->Ok_0;
        assert(converted == before.push((key, value)));
        assert(converted.drop_last() =~= before);
        assert(host_entries(converted) =~= entries);
        assert forall|i: int| 0 <= i < entries.len() implies (#[trigger] converted[i]).0
            == engine_key(entries[i].0)->Ok_0 by {
            if i < front.len() {
                assert(converted[i] == before[i]);
                assert(front[i] == entries[i]);
            }
        }
    } else {
        assert(host_entries(Seq::<(KeyModel, ValueModel)>::empty()) =~= entries);
    }
}

/// Whether every optional value inside `h` holds a well-formed engine
/// value, if it holds one.
pub open spec fn sound(h: HostModel) -> bool
    decreases h,
{
    match h {
        HostModel::Optional(inner) => match inner {
            Some(inside) => well_formed(*inside),
            None => true,
        },
        HostModel::List(items) => forall|i: int| 0 <= i < items.len() ==> sound(#[trigger] items[i]),
        HostModel::Tuple(items) => forall|i: int|
            0 <= i < items.len() ==> sound(#[trigger] items[i]),
        HostModel::Dict(entries) => forall|i: int|
            0 <= i < entries.len() ==> sound((#[trigger] entries[i]).1),
        _ => true,
    }
}

/// Conversion keeps maps free of repeated keys: the engine value for a
/// sound host value is well-formed.
pub proof fn lemma_converted_is_well_formed(h: HostModel)
    requires
        sound(h),
        engine_value(h) is Ok,
    ensures
        well_formed(engine_value(h)->Ok_0),
    decreases h, 1nat,
{
    match h {
        HostModel::List(items) => {
            lemma_converted_items(items);
        },
        HostModel::Tuple(items) => {
            lemma_converted_items(items);
        },
        HostModel::Dict(entries) => {
            lemma_converted_entries(entries);
        },
        _ => {},
    }
}

/// Conversion keeps maps free of repeated keys, for the items of a list.
pub proof fn lemma_converted_items(items: Seq<HostModel>)
    requires
        forall|i: int| 0 <= i < items.len() ==> sound(#[trigger] items[i]),
        engine_values(items) is Ok,
    ensures
        forall|i: int|
            0 <= i < engine_values(items)->Ok_0.len() ==> well_formed(
                #[trigger] engine_values(items)->Ok_0[i],
            ),
    decreases items, 0nat,
{
    if items.len() > 0 {
        let front = items.drop_last();
        assert forall|i: int| 0 <= i < front.len() implies sound(#[trigger] front[i]) by {
            assert(front[i] == items[i]);
        }
        lemma_converted_items(front);
        assert(sound(items[items.len() - 1]));
        lemma_converted_is_well_formed(items.last());
    }
}

/// Conversion gives a map without repeated keys and with well-formed
/// values.
pub proof fn lemma_converted_entries(entries: Seq<(HostModel, HostModel)>)
    requires
        forall|i: int| 0 <= i < entries.len() ==> sound((#[trigger] entries[i]).1),
        engine_entries(entries) is Ok,
    ensures
        distinct_keys(engine_entries(entries)->Ok_0),
        forall|i: int|
            0 <= i < engine_entries(entries)->Ok_0.len() ==> well_formed(
                (#[trigger] engine_entries(entries)->Ok_0[i]).1,
            ),
    decreases entries, 0nat,
{
    if entries.len() > 0 {
        let front = entries.drop_last();
        assert forall|i: int| 0 <= i < front.len() implies sound((#[trigger] front[i]).1) by {
            assert(front[i] == entries[i]);
        }
        lemma_converted_entries(front);
        assert(sound(entries[entries.len() - 1].1));
        lemma_converted_is_well_formed(entries.last().1);
        let before = engine_entries(front)->Ok_0;
        let key = engine_key(entries.last().0)->Ok_0;
        let value = engine_value(entries.last().1)->Ok_0;
        lemma_with_entry(before, key, value, key);
        let after = with_entry(before, key, value);
        assert forall|i: int| 0 <= i < after.len() implies well_formed((#[trigger] after[i]).1) by {
            if i < before.len() {
                assert(well_formed(before[i].1));
            }
        }
    }
}

} // verus!
