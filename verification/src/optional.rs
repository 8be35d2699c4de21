//! What a host can do with an optional value.

use crate::bridge::{
    engine_value, host_value, lemma_round_trip, round_trips, to_engine, to_host,
};
use crate::error::{CelError, ErrorKind, Failure, FailureModel};
use crate::host::{HostModel, HostValue, OptionalValue};
use crate::value::ValueModel;
use vstd::prelude::*;

verus! {

/// What the host is told of an absent value that it asked for.
pub open spec fn absent() -> FailureModel {
    FailureModel {
        kind: ErrorKind::InvalidOperation,
        message: "optional value is absent"@,
    }
}

impl OptionalValue {
    /// The optional that holds `value`, converted; fails where `value`
    /// does not convert.
    pub fn of(value: &HostValue) -> (result: Result<OptionalValue, CelError>)
        ensures
            match result {
                Ok(optional) => optional@ matches Some(inside) && engine_value(value@) == Ok::<
                    ValueModel,
                    Seq<char>,
                >(*inside),
                Err(e) => engine_value(value@) == Err::<ValueModel, Seq<char>>(e.detail()),
            },
    {
        match to_engine(value) {
            Ok(converted) => Ok(OptionalValue { inner: Some(Box::new(converted)) }),
            Err(e) => Err(e),
        }
    }

    /// The optional that holds nothing.
    pub fn none() -> (optional: OptionalValue)
        ensures
            optional@ is None,
    {
        OptionalValue { inner: None }
    }

    /// Whether the optional holds a value.
    pub fn has_value(&self) -> (present: bool)
        ensures
            present == self@ is Some,
    {
        self.inner.is_some()
    }

    /// The value that the optional holds, as a host value; fails where it
    /// holds none.
    pub fn value(&self) -> (result: Result<HostValue, Failure>)
        ensures
            match result {
                Ok(value) => self@ matches Some(inside) && value@ == host_value(*inside),
                Err(failure) => self@ is None && failure@ == absent(),
            },
    {
        match &self.inner {
            Some(inside) => Ok(to_host(inside)),
            None => Err(
                Failure {
                    kind: ErrorKind::InvalidOperation,
                    message: String::from_str("optional value is absent"),
                },
            ),
        }
    }

    /// The value that the optional holds, as a host value, or `default`
    /// where it holds none.
    pub fn or_value(&self, default: HostValue) -> (value: HostValue)
        ensures
            value@ == match self@ {
                Some(inside) => host_value(*inside),
                None => default@,
            },
    {
        match &self.inner {
            Some(inside) => to_host(inside),
            None => default,
        }
    }

    /// A second optional that holds the same.
    pub fn share(&self) -> (copy: OptionalValue)
        ensures
            copy@ == self@,
    {
        match &self.inner {
            Some(inside) => OptionalValue { inner: Some(Box::new(inside.copy())) },
            None => OptionalValue { inner: None },
        }
    }

    /// This optional where it holds a value, else `other`.
    pub fn or_optional(&self, other: &OptionalValue) -> (chosen: OptionalValue)
        ensures
            chosen@ == if self@ is Some {
                self@
            } else {
                other@
            },
    {
        if self.inner.is_some() {
            self.share()
        } else {
            other.share()
        }
    }
}

/// An optional made of a host value of a supported kind gives that value
/// back.
pub proof fn lemma_optional_gives_back(h: HostModel)
    requires
        round_trips(h),
    ensures
        engine_value(h) is Ok,
        host_value(engine_value(h)->Ok_0) == h,
{
    lemma_round_trip(h);
}

} // verus!
