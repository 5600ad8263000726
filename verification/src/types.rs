//! The capability a wire type offers: a name, a decode and an encode.

use vstd::prelude::*;
use vstd::string::StringExecFns;
use crate::error::{expected_message, ParseError};
use crate::json::{render_jval, JsonValue};

verus! {

/// A type with an externally visible name, quoted in error messages.
pub trait Named {
    /// The externally visible type name.
    spec fn spec_name() -> Seq<char>;

    /// The externally visible type name, as text.
    fn name() -> (r: String)
        ensures
            r@ == Self::spec_name(),
    ;
}

/// A type that can pass through the wire format: it parses from a JSON value
/// and converts back to one.
pub trait Type: Named + Sized {
    /// The value `parse` accepts for a given input, if any.
    spec fn spec_parse(value: JsonValue) -> Option<Self>;

    /// The wire form of a value.
    spec fn spec_encode(&self) -> JsonValue;

    /// Parses a value from its wire form; a rejected input reports the
    /// expected type and the rendered actual value.
    fn parse(value: JsonValue) -> (r: Result<Self, ParseError<Self>>)
        ensures
            match Self::spec_parse(value) {
                Some(v) => r matches Ok(x) && x == v,
                None => r matches Err(e) && e.message_view() == expected_message(
                    Self::spec_name(),
                    render_jval(value@),
                ),
            },
    ;

    /// Converts a value to its wire form.
    fn to_value(&self) -> (r: JsonValue)
        ensures
            r == self.spec_encode(),
    ;
}

/// A type whose wire form is an object produced by a schema descriptor.
pub trait SchemaType: Type {

}

impl Named for i64 {
    open spec fn spec_name() -> Seq<char> {
        "integer"@
    }

    fn name() -> (r: String)
        ensures
            r@ == Self::spec_name(),
    {
        String::from_str("integer")
    }
}

impl Type for i64 {
    open spec fn spec_parse(value: JsonValue) -> Option<i64> {
        match value {
            JsonValue::Int(i) => Some(i),
            _ => None,
        }
    }

    open spec fn spec_encode(&self) -> JsonValue {
        JsonValue::Int(*self)
    }

    fn parse(value: JsonValue) -> (r: Result<Self, ParseError<Self>>)
        ensures
            match Self::spec_parse(value) {
                Some(v) => r matches Ok(x) && x == v,
                None => r matches Err(e) && e.message_view() == expected_message(
                    Self::spec_name(),
                    render_jval(value@),
                ),
            },
    {
        match value {
            JsonValue::Int(i) => Ok(i),
            other => Err(ParseError::expected_type(&other)),
        }
    }

    fn to_value(&self) -> (r: JsonValue)
        ensures
            r == self.spec_encode(),
    {
        JsonValue::Int(*self)
    }
}

impl Named for bool {
    open spec fn spec_name() -> Seq<char> {
        "boolean"@
    }

    fn name() -> (r: String)
        ensures
            r@ == Self::spec_name(),
    {
        String::from_str("boolean")
    }
}

impl Type for bool {
    open spec fn spec_parse(value: JsonValue) -> Option<bool> {
        match value {
            JsonValue::Bool(b) => Some(b),
            _ => None,
        }
    }

    open spec fn spec_encode(&self) -> JsonValue {
        JsonValue::Bool(*self)
    }

    fn parse(value: JsonValue) -> (r: Result<Self, ParseError<Self>>)
        ensures
            match Self::spec_parse(value) {
                Some(v) => r matches Ok(x) && x == v,
                None => r matches Err(e) && e.message_view() == expected_message(
                    Self::spec_name(),
                    render_jval(value@),
                ),
            },
    {
        match value {
            JsonValue::Bool(b) => Ok(b),
            other => Err(ParseError::expected_type(&other)),
        }
    }

    fn to_value(&self) -> (r: JsonValue)
        ensures
            r == self.spec_encode(),
    {
        JsonValue::Bool(*self)
    }
}

impl Named for String {
    open spec fn spec_name() -> Seq<char> {
        "string"@
    }

    fn name() -> (r: String)
        ensures
            r@ == Self::spec_name(),
    {
        String::from_str("string")
    }
}

impl Type for String {
    open spec fn spec_parse(value: JsonValue) -> Option<String> {
        match value {
            JsonValue::Str(s) => Some(s),
            _ => None,
        }
    }

    open spec fn spec_encode(&self) -> JsonValue {
        JsonValue::Str(*self)
    }

    fn parse(value: JsonValue) -> (r: Result<Self, ParseError<Self>>)
        ensures
            match Self::spec_parse(value) {
                Some(v) => r matches Ok(x) && x == v,
                None => r matches Err(e) && e.message_view() == expected_message(
                    Self::spec_name(),
                    render_jval(value@),
                ),
            },
    {
        match value {
            JsonValue::Str(s) => Ok(s),
            other => Err(ParseError::expected_type(&other)),
        }
    }

    fn to_value(&self) -> (r: JsonValue)
        ensures
            r == self.spec_encode(),
    {
        JsonValue::Str(self.clone())
    }
}

} // verus!
