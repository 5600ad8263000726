//! Typed error channel: a parse error tagged by the type being decoded,
//! with message construction and type-preserving propagation.

use vstd::prelude::*;
use vstd::string::StringExecFns;
use core::marker::PhantomData;
use crate::json::{render_jval, JsonValue};
use crate::types::Named;

verus! {

/// The message reporting that the input had the wrong shape for a type.
pub open spec fn expected_message(tyname: Seq<char>, found: Seq<char>) -> Seq<char> {
    "Expected input type \""@ + tyname + "\", found "@ + found + "."@
}

/// The message wrapping a caller-supplied detail for a type.
pub open spec fn custom_message(tyname: Seq<char>, msg: Seq<char>) -> Seq<char> {
    "failed to parse \""@ + tyname + "\": "@ + msg
}

/// Re-tagging a message from type `inner` to type `outer`: a differing outer
/// type appends one annotation, an identical one passes the message through.
pub open spec fn propagate_message(msg: Seq<char>, inner: Seq<char>, outer: Seq<char>) -> Seq<
    char,
> {
    if inner == outer {
        msg
    } else {
        msg + " (occurred while parsing \""@ + outer + "\")"@
    }
}

/// Builds the wrong-shape message for a rendered value.
pub fn build_expected_message(tyname: &str, found: &str) -> (r: String)
    ensures
        r@ == expected_message(tyname@, found@),
{
    let mut s = String::from_str("Expected input type \"");
    s.append(tyname);
    s.append("\", found ");
    s.append(found);
    s.append(".");
    s
}

/// Builds the custom-detail message.
pub fn build_custom_message(tyname: &str, msg: &str) -> (r: String)
    ensures
        r@ == custom_message(tyname@, msg@),
{
    let mut s = String::from_str("failed to parse \"");
    s.append(tyname);
    s.append("\": ");
    s.append(msg);
    s
}

/// Appends the propagation annotation for an enclosing type.
pub fn build_annotated_message(msg: String, outer: &str) -> (r: String)
    ensures
        r@ == msg@ + " (occurred while parsing \""@ + outer@ + "\")"@,
{
    let mut s = msg;
    s.append(" (occurred while parsing \"");
    s.append(outer);
    s.append("\")");
    s
}

/// An error parsing a value of type `T`.
///
/// The type parameter is a tag only: it supplies the type name quoted in the
/// message and forbids accidental cross-type propagation.
#[derive(Debug)]
pub struct ParseError<T> {
    message: String,
    phantom: PhantomData<T>,
}

impl<T> ParseError<T> {
    /// The message the error renders to.
    pub closed spec fn message_view(&self) -> Seq<char> {
        self.message@
    }

    /// The message as text; an error renders to exactly this line.
    pub fn message(&self) -> (r: &String)
        ensures
            r@ == self.message_view(),
    {
        &self.message
    }
}

impl<T: Named> ParseError<T> {
    /// Wraps a finished message.
    pub fn new(message: String) -> (r: Self)
        ensures
            r.message_view() == message@,
    {
        ParseError { message, phantom: PhantomData }
    }

    /// The expected input type did not match the actual input value.
    pub fn expected_type(actual: &JsonValue) -> (r: Self)
        ensures
            r.message_view() == expected_message(T::spec_name(), render_jval(actual@)),
    {
        let name = T::name();
        let found = actual.render();
        Self::new(build_expected_message(name.as_str(), found.as_str()))
    }

    /// A custom error message.
    pub fn custom(msg: &str) -> (r: Self)
        ensures
            r.message_view() == custom_message(T::spec_name(), msg@),
    {
        let name = T::name();
        Self::new(build_custom_message(name.as_str(), msg))
    }

    /// Propagates the error message to a different type.
    pub fn propagate<U: Named>(self) -> (r: ParseError<U>)
        ensures
            r.message_view() == propagate_message(
                self.message_view(),
                T::spec_name(),
                U::spec_name(),
            ),
    {
        let mine = T::name();
        let outer = U::name();
        if mine == outer {
            ParseError { message: self.message, phantom: PhantomData }
        } else {
            ParseError {
                message: build_annotated_message(self.message, outer.as_str()),
                phantom: PhantomData,
            }
        }
    }
}

/// Propagate collapse: re-tagging an error for the type that raised it
/// leaves the message identical, and re-tagging it for a type of a
/// different name appends exactly one annotation naming that type.
pub proof fn lemma_propagate_collapse<T: Named, U: Named>(e: ParseError<T>)
    ensures
        propagate_message(e.message_view(), T::spec_name(), T::spec_name())
            == e.message_view(),
        T::spec_name() != U::spec_name() ==> propagate_message(
            e.message_view(),
            T::spec_name(),
            U::spec_name(),
        ) == e.message_view() + " (occurred while parsing \""@ + U::spec_name() + "\")"@,
{
}

} // verus!
