//! Error converters for recipes that build a record field by field: the
//! error of a field is turned into the error of the record.

use core::convert::Infallible;
use core::marker::PhantomData;
use vstd::prelude::*;
use vstd::std_specs::convert::FromSpec;

verus! {

/// Picks the converter for an error of type `T` that is to become a `U`.
pub trait GetConverter<T, U> {
    /// The converter.
    type Converter;

    /// The converter for the wrapped error.
    fn get_converter(&self) -> Self::Converter;
}

/// Wraps a borrowed error so that a converter can be picked for it.
pub struct Wrapper<'a, T: ?Sized>(pub &'a T);

/// Converts through `From`.
pub struct TagFrom<T, U>(PhantomData<(T, U)>);

/// Converts an error that cannot occur.
pub struct TagInf;

/// A type whose values can become a `U` through `From`.
pub trait HasFrom<U> {
}

impl<T, U: From<T>> HasFrom<U> for T {
}

/// A type that has no values.
pub trait IsEmptyType: Sized {
    /// Turns a value of this type, of which there is none, into anything.
    fn empty<U>(self) -> U;
}

/// Matches on a value of `core::convert::Infallible`, which has no variants:
/// there is no such value, so this is never reached.
#[verifier::external_body]
fn absurd<U>(never: Infallible) -> U {
    match never {
    }
}

impl IsEmptyType for Infallible {
    fn empty<U>(self) -> U {
        absurd(self)
    }
}

impl<'a, 'b, T: IsEmptyType> GetConverter<T, ()> for &'b Wrapper<'a, T> {
    type Converter = TagInf;

    fn get_converter(&self) -> (r: TagInf) {
        TagInf
    }
}

impl<'a, T: HasFrom<U>, U> GetConverter<T, U> for Wrapper<'a, T> {
    type Converter = TagFrom<T, U>;

    fn get_converter(&self) -> (r: TagFrom<T, U>) {
        TagFrom(PhantomData)
    }
}

impl TagInf {
    /// Converts an error of a type that has no values.
    pub fn convert<T: IsEmptyType, U>(self, t: T) -> U {
        t.empty()
    }
}

impl<T, U: From<T>> TagFrom<T, U> {
    /// Converts `t` through `From`.
    pub fn convert(self, t: T) -> (r: U)
        ensures
            U::obeys_from_spec() ==> r == U::from_spec(t),
    {
        U::from(t)
    }
}

} // verus!
