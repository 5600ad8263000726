//! Middleware that attaches a value to every request, for handlers to read
//! back from the request's extensions by type.

use vstd::prelude::*;
use crate::codec::DynVal;
use crate::request::Request;
use crate::schema::DynValue;

verus! {

/// A request-handling endpoint.
pub trait Endpoint {
    /// What handling a request produces.
    type Output;

    /// Handles one request.
    fn call(&self, req: Request) -> Self::Output;
}

/// A transformation wrapping an endpoint into another.
pub trait Middleware<E: Endpoint> {
    /// The wrapped endpoint.
    type Output: Endpoint;

    /// Wraps an endpoint.
    fn transform(self, ep: E) -> Self::Output;
}

/// A value that can be attached to a request: it has a type key and a plain
/// representation.
pub trait DataValue: Sized {
    /// The key the value is stored and looked up under.
    spec fn spec_key() -> u64;

    /// The plain reading of the value.
    spec fn spec_dyn(&self) -> DynVal;

    /// The key, as the extensions store it.
    fn type_key() -> (k: u64)
        ensures
            k == Self::spec_key(),
    ;

    /// The value, as the extensions store it.
    fn to_dyn(&self) -> (v: DynValue)
        ensures
            v@ == self.spec_dyn(),
    ;
}

impl DataValue for i64 {
    open spec fn spec_key() -> u64 {
        1
    }

    open spec fn spec_dyn(&self) -> DynVal {
        DynVal::Int(*self as int)
    }

    fn type_key() -> (k: u64)
        ensures
            k == Self::spec_key(),
    {
        1
    }

    fn to_dyn(&self) -> (v: DynValue)
        ensures
            v@ == self.spec_dyn(),
    {
        DynValue::Int(*self)
    }
}

impl DataValue for bool {
    open spec fn spec_key() -> u64 {
        2
    }

    open spec fn spec_dyn(&self) -> DynVal {
        DynVal::Bool(*self)
    }

    fn type_key() -> (k: u64)
        ensures
            k == Self::spec_key(),
    {
        2
    }

    fn to_dyn(&self) -> (v: DynValue)
        ensures
            v@ == self.spec_dyn(),
    {
        DynValue::Bool(*self)
    }
}

impl DataValue for String {
    open spec fn spec_key() -> u64 {
        3
    }

    open spec fn spec_dyn(&self) -> DynVal {
        DynVal::Str(self@)
    }

    fn type_key() -> (k: u64)
        ensures
            k == Self::spec_key(),
    {
        3
    }

    fn to_dyn(&self) -> (v: DynValue)
        ensures
            v@ == self.spec_dyn(),
    {
        DynValue::Str(self.clone())
    }
}

/// Middleware that attaches one value to every request.
#[derive(Debug)]
pub struct AddData<T> {
    value: T,
}

impl<T: DataValue> AddData<T> {
    /// The attached value.
    pub closed spec fn spec_value(&self) -> T {
        self.value
    }

    /// New middleware attaching `value`.
    pub fn new(value: T) -> (r: Self)
        ensures
            r.spec_value() == value,
    {
        AddData { value }
    }
}

/// The endpoint `AddData` wraps an inner endpoint into: it attaches the
/// value to the request's extensions, then delegates.
#[derive(Debug)]
pub struct AddDataImpl<E, T> {
    pub inner: E,
    pub value: T,
}

impl<E: Endpoint, T: DataValue> Middleware<E> for AddData<T> {
    type Output = AddDataImpl<E, T>;

    fn transform(self, ep: E) -> Self::Output {
        AddDataImpl { inner: ep, value: self.value }
    }
}

impl<E: Endpoint, T: DataValue> Endpoint for AddDataImpl<E, T> {
    type Output = E::Output;

    fn call(&self, req: Request) -> Self::Output {
        let mut req = req;
        req.extensions.insert(T::type_key(), self.value.to_dyn());
        self.inner.call(req)
    }
}

} // verus!
