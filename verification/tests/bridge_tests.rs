use cel_bridge::bridge::{key_to_host, put_entry, to_engine, to_host, to_key};
use cel_bridge::host::{HostCallable, HostValue, NaiveTimestamp, OptionalValue};
use cel_bridge::value::{copy_bytes, Duration, Key, Timestamp, Value};
use cel_bridge::CelError;

fn s(text: &str) -> String {
    text.to_string()
}

fn conversion_error(text: &str) -> CelError {
    CelError::ConversionError(s(text))
}

fn round_trip(h: HostValue) {
    let engine = to_engine(&h).expect("converts");
    assert_eq!(to_host(&engine), h);
}

#[test]
fn primitives_convert_in_kind() {
    assert_eq!(to_engine(&HostValue::Null), Ok(Value::Null));
    assert_eq!(to_engine(&HostValue::Bool(true)), Ok(Value::Bool(true)));
    assert_eq!(to_engine(&HostValue::Integer(42)), Ok(Value::Int(42)));
    assert_eq!(to_engine(&HostValue::Integer(-1)), Ok(Value::Int(-1)));
    assert_eq!(to_engine(&HostValue::Float(2.5f64.to_bits())), Ok(Value::Float(2.5f64.to_bits())));
    assert_eq!(to_engine(&HostValue::Str(s("hi"))), Ok(Value::Str(s("hi"))));
    assert_eq!(to_engine(&HostValue::Bytes(vec![1, 2, 3])), Ok(Value::Bytes(vec![1, 2, 3])));
}

#[test]
fn integers_are_signed_first_then_unsigned() {
    let max = i64::MAX as i128;
    assert_eq!(to_engine(&HostValue::Integer(max)), Ok(Value::Int(i64::MAX)));
    assert_eq!(to_engine(&HostValue::Integer(i64::MIN as i128)), Ok(Value::Int(i64::MIN)));
    assert_eq!(to_engine(&HostValue::Integer(max + 1)), Ok(Value::UInt(1u64 << 63)));
    assert_eq!(to_engine(&HostValue::Integer(u64::MAX as i128)), Ok(Value::UInt(u64::MAX)));
    assert_eq!(
        to_engine(&HostValue::Integer(u64::MAX as i128 + 1)),
        Err(conversion_error("Failed to convert Python object of type int to Value"))
    );
    assert_eq!(
        to_engine(&HostValue::Integer(i64::MIN as i128 - 1)),
        Err(conversion_error("Failed to convert Python object of type int to Value"))
    );
}

#[test]
fn temporal_values_convert_as_they_are() {
    let t = Timestamp { seconds: 1_700_000_000, nanos: 5, offset_seconds: 3600 };
    assert_eq!(to_engine(&HostValue::Timestamp(t)), Ok(Value::Timestamp(t)));
    let d = Duration { seconds: 90, nanos: 500 };
    assert_eq!(to_engine(&HostValue::Duration(d)), Ok(Value::Duration(d)));
}

#[test]
fn local_timestamps_convert_to_what_the_zone_gave() {
    let naive = NaiveTimestamp { seconds: 1_000, nanos: 7 };
    let t = Timestamp { seconds: 1_000 - 7200, nanos: 7, offset_seconds: 7200 };
    let resolved = HostValue::LocalTimestamp { naive, resolved: Some(t) };
    assert_eq!(to_engine(&resolved), Ok(Value::Timestamp(t)));
    let unresolved = HostValue::LocalTimestamp { naive, resolved: None };
    assert_eq!(
        to_engine(&unresolved),
        Err(conversion_error("Ambiguous or invalid local datetime"))
    );
}

#[test]
fn lists_and_tuples_become_lists() {
    let items = vec![HostValue::Integer(1), HostValue::Str(s("a")), HostValue::Null];
    let expected = Value::List(vec![Value::Int(1), Value::Str(s("a")), Value::Null]);
    assert_eq!(to_engine(&HostValue::List(items)), Ok(expected));
    let items = vec![HostValue::Integer(1), HostValue::Bool(false)];
    let expected = Value::List(vec![Value::Int(1), Value::Bool(false)]);
    assert_eq!(to_engine(&HostValue::Tuple(items)), Ok(expected));
    assert_eq!(to_engine(&HostValue::List(vec![])), Ok(Value::List(vec![])));
}

#[test]
fn the_first_failing_item_aborts_a_list() {
    let items = vec![
        HostValue::Integer(1),
        HostValue::Other(s("set")),
        HostValue::Other(s("object")),
    ];
    assert_eq!(
        to_engine(&HostValue::List(items)),
        Err(conversion_error("Failed to convert Python object of type set to Value"))
    );
    let nested = vec![HostValue::List(vec![HostValue::LocalTimestamp {
        naive: NaiveTimestamp { seconds: 0, nanos: 0 },
        resolved: None,
    }])];
    assert_eq!(
        to_engine(&HostValue::Tuple(nested)),
        Err(conversion_error("Ambiguous or invalid local datetime"))
    );
}

#[test]
fn mappings_become_maps() {
    let entries = vec![
        (HostValue::Str(s("a")), HostValue::Integer(1)),
        (HostValue::Integer(2), HostValue::Str(s("two"))),
        (HostValue::Integer(u64::MAX as i128), HostValue::Null),
        (HostValue::Bool(true), HostValue::List(vec![HostValue::Integer(3)])),
    ];
    let expected = Value::Mapping(vec![
        (Key::Str(s("a")), Value::Int(1)),
        (Key::Int(2), Value::Str(s("two"))),
        (Key::Uint(u64::MAX), Value::Null),
        (Key::Bool(true), Value::List(vec![Value::Int(3)])),
    ]);
    assert_eq!(to_engine(&HostValue::Dict(entries)), Ok(expected));
}

#[test]
fn a_repeated_key_replaces_the_earlier_entry() {
    let entries = vec![
        (HostValue::Str(s("a")), HostValue::Integer(1)),
        (HostValue::Str(s("b")), HostValue::Integer(2)),
        (HostValue::Str(s("a")), HostValue::Integer(3)),
    ];
    let expected = Value::Mapping(vec![
        (Key::Str(s("a")), Value::Int(3)),
        (Key::Str(s("b")), Value::Int(2)),
    ]);
    assert_eq!(to_engine(&HostValue::Dict(entries)), Ok(expected));
}

#[test]
fn keys_must_be_integers_booleans_or_strings() {
    let null_key = vec![(HostValue::Null, HostValue::Integer(1))];
    assert_eq!(
        to_engine(&HostValue::Dict(null_key)),
        Err(conversion_error("None cannot be used as a key in dictionaries"))
    );
    let float_key = vec![(HostValue::Float(0), HostValue::Integer(1))];
    assert_eq!(
        to_engine(&HostValue::Dict(float_key)),
        Err(conversion_error("Failed to convert PyDict key to Key"))
    );
    let list_key = vec![(HostValue::List(vec![]), HostValue::Integer(1))];
    assert_eq!(
        to_engine(&HostValue::Dict(list_key)),
        Err(conversion_error("Failed to convert PyDict key to Key"))
    );
    let huge_key = vec![(HostValue::Integer(u64::MAX as i128 + 1), HostValue::Integer(1))];
    assert_eq!(
        to_engine(&HostValue::Dict(huge_key)),
        Err(conversion_error("Failed to convert PyDict key to Key"))
    );
    assert_eq!(to_key(&HostValue::Integer(5)), Ok(Key::Int(5)));
    assert_eq!(to_key(&HostValue::Integer(1i128 << 63)), Ok(Key::Uint(1u64 << 63)));
    assert_eq!(to_key(&HostValue::Bool(false)), Ok(Key::Bool(false)));
    assert_eq!(to_key(&HostValue::Str(s("k"))), Ok(Key::Str(s("k"))));
}

#[test]
fn a_value_that_fails_in_a_mapping_is_reported_as_such() {
    let entries = vec![
        (HostValue::Str(s("ok")), HostValue::Integer(1)),
        (HostValue::Str(s("bad")), HostValue::Other(s("object"))),
    ];
    assert_eq!(
        to_engine(&HostValue::Dict(entries)),
        Err(conversion_error("Failed to convert PyDict value to Value"))
    );
    let key_first = vec![(HostValue::Null, HostValue::Other(s("object")))];
    assert_eq!(
        to_engine(&HostValue::Dict(key_first)),
        Err(conversion_error("None cannot be used as a key in dictionaries"))
    );
}

#[test]
fn anything_else_names_its_type() {
    assert_eq!(
        to_engine(&HostValue::Other(s("set"))),
        Err(conversion_error("Failed to convert Python object of type set to Value"))
    );
    let callable = HostValue::Callable { handle: HostCallable { id: 1 }, kind_name: s("function") };
    assert_eq!(
        to_engine(&callable),
        Err(conversion_error("Failed to convert Python object of type function to Value"))
    );
}

#[test]
fn conversion_errors_read_as_one_line() {
    assert_eq!(conversion_error("x").message(), "Conversion Error: x");
}

#[test]
fn optionals_convert_directly() {
    let present = OptionalValue { inner: Some(Box::new(Value::Int(3))) };
    assert_eq!(
        to_engine(&HostValue::Optional(present)),
        Ok(Value::Optional(Some(Box::new(Value::Int(3)))))
    );
    let absent = OptionalValue { inner: None };
    assert_eq!(to_engine(&HostValue::Optional(absent)), Ok(Value::Optional(None)));
}

#[test]
fn engine_values_convert_to_host_values() {
    assert_eq!(to_host(&Value::Null), HostValue::Null);
    assert_eq!(to_host(&Value::Bool(true)), HostValue::Bool(true));
    assert_eq!(to_host(&Value::Int(-5)), HostValue::Integer(-5));
    assert_eq!(to_host(&Value::UInt(u64::MAX)), HostValue::Integer(u64::MAX as i128));
    assert_eq!(to_host(&Value::Float(7)), HostValue::Float(7));
    assert_eq!(to_host(&Value::Str(s("x"))), HostValue::Str(s("x")));
    assert_eq!(to_host(&Value::Bytes(vec![9])), HostValue::Bytes(vec![9]));
    let t = Timestamp { seconds: 1, nanos: 2, offset_seconds: 3 };
    assert_eq!(to_host(&Value::Timestamp(t)), HostValue::Timestamp(t));
    let d = Duration { seconds: 1, nanos: 2 };
    assert_eq!(to_host(&Value::Duration(d)), HostValue::Duration(d));
    assert_eq!(
        to_host(&Value::List(vec![Value::Int(1), Value::List(vec![])])),
        HostValue::List(vec![HostValue::Integer(1), HostValue::List(vec![])])
    );
    assert_eq!(
        to_host(&Value::Mapping(vec![
            (Key::Str(s("a")), Value::Int(1)),
            (Key::Int(2), Value::Null),
            (Key::Uint(3), Value::Null),
            (Key::Bool(true), Value::Null),
        ])),
        HostValue::Dict(vec![
            (HostValue::Str(s("a")), HostValue::Integer(1)),
            (HostValue::Integer(2), HostValue::Null),
            (HostValue::Integer(3), HostValue::Null),
            (HostValue::Bool(true), HostValue::Null),
        ])
    );
    assert_eq!(
        to_host(&Value::Optional(Some(Box::new(Value::Int(1))))),
        HostValue::Optional(OptionalValue { inner: Some(Box::new(Value::Int(1))) })
    );
    assert_eq!(
        to_host(&Value::Optional(None)),
        HostValue::Optional(OptionalValue { inner: None })
    );
    assert_eq!(key_to_host(&Key::Uint(9)), HostValue::Integer(9));
}

#[test]
fn an_unknown_kind_is_handed_over_as_its_debug_text() {
    assert_eq!(to_host(&Value::Opaque(s("Function(\"f\", None)"))), HostValue::Str(s("Function(\"f\", None)")));
}

#[test]
fn supported_values_round_trip() {
    round_trip(HostValue::Null);
    round_trip(HostValue::Bool(true));
    round_trip(HostValue::Bool(false));
    round_trip(HostValue::Integer(0));
    round_trip(HostValue::Integer(-123456789));
    round_trip(HostValue::Integer(i64::MIN as i128));
    round_trip(HostValue::Integer(u64::MAX as i128));
    round_trip(HostValue::Float(3.25f64.to_bits()));
    round_trip(HostValue::Float(f64::NAN.to_bits()));
    round_trip(HostValue::Float((-0.0f64).to_bits()));
    round_trip(HostValue::Str(s("h\u{e9}llo")));
    round_trip(HostValue::Str(s("")));
    round_trip(HostValue::Bytes(vec![0, 255, 10]));
    round_trip(HostValue::Timestamp(Timestamp { seconds: -5, nanos: 999_999_999, offset_seconds: -3600 }));
    round_trip(HostValue::Duration(Duration { seconds: 86_400, nanos: 1 }));
    round_trip(HostValue::List(vec![HostValue::Integer(1), HostValue::Str(s("two")), HostValue::Null]));
    round_trip(HostValue::Optional(OptionalValue { inner: Some(Box::new(Value::Int(3))) }));
    round_trip(HostValue::Dict(vec![
        (
            HostValue::Str(s("outer")),
            HostValue::Dict(vec![
                (HostValue::Integer(1), HostValue::List(vec![HostValue::Float(0)])),
                (HostValue::Bool(true), HostValue::Dict(vec![])),
                (HostValue::Integer(u64::MAX as i128), HostValue::Bytes(vec![])),
            ]),
        ),
        (HostValue::Str(s("other")), HostValue::Null),
    ]));
}

#[test]
fn tuples_come_back_as_lists() {
    let engine = to_engine(&HostValue::Tuple(vec![HostValue::Integer(1)])).expect("converts");
    assert_eq!(to_host(&engine), HostValue::List(vec![HostValue::Integer(1)]));
}

#[test]
fn put_entry_replaces_in_place_or_appends() {
    let mut entries = vec![(Key::Int(1), Value::Null), (Key::Str(s("a")), Value::Null)];
    put_entry(&mut entries, Key::Str(s("a")), Value::Int(5));
    assert_eq!(entries, vec![(Key::Int(1), Value::Null), (Key::Str(s("a")), Value::Int(5))]);
    put_entry(&mut entries, Key::Uint(1), Value::Bool(true));
    assert_eq!(entries.len(), 3);
    assert_eq!(entries[2], (Key::Uint(1), Value::Bool(true)));
    put_entry(&mut entries, Key::Int(1), Value::Int(9));
    assert_eq!(entries[0], (Key::Int(1), Value::Int(9)));
    assert_eq!(entries.len(), 3);
}

#[test]
fn keys_compare_by_kind_and_content() {
    assert!(Key::Int(1).same(&Key::Int(1)));
    assert!(!Key::Int(1).same(&Key::Uint(1)));
    assert!(!Key::Int(1).same(&Key::Bool(true)));
    assert!(Key::Str(s("a")).same(&Key::Str(s("a"))));
    assert!(!Key::Str(s("a")).same(&Key::Str(s("b"))));
    assert_eq!(Key::Str(s("a")).copy(), Key::Str(s("a")));
}

#[test]
fn copies_are_deep_and_equal() {
    let v = Value::Mapping(vec![(
        Key::Str(s("k")),
        Value::List(vec![Value::Optional(Some(Box::new(Value::Bytes(vec![1, 2]))))]),
    )]);
    assert_eq!(v.copy(), v);
    assert_eq!(copy_bytes(&vec![1, 2, 3]), vec![1, 2, 3]);
}
