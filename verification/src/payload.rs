//! Payload contracts: the capability a typed request or response body
//! implements to take part in extraction and response conversion.

use vstd::prelude::*;
use vstd::string::StringExecFns;
use crate::handler::ErrorResponse;
use crate::json::JsonValue;
use crate::request::Request;
use crate::text::str_eq;

verus! {

/// A reference to the schema describing a payload's content.
#[derive(Debug, PartialEq)]
pub enum SchemaRef {
    Inline,
    Reference(String),
}

/// A registry the payloads register their schemas in.
#[derive(Debug)]
pub struct Registry {
    pub schemas: Vec<String>,
}

impl Registry {
    /// An empty registry.
    pub fn new() -> (r: Self)
        ensures
            r.schemas@ == Seq::<String>::empty(),
    {
        Registry { schemas: Vec::new() }
    }
}

/// A payload type: it names its content type, recognizes it on an incoming
/// request, and can describe and register its schema.
pub trait Payload {
    /// The content type of this payload.
    spec fn spec_content_type() -> Seq<char>;

    /// The content type of this payload, as text.
    fn content_type() -> (r: String)
        ensures
            r@ == Self::spec_content_type(),
    ;

    /// Checks the content type of an incoming request.
    fn check_content_type(content_type: &str) -> (r: bool)
        ensures
            r == (content_type@ == Self::spec_content_type()),
    {
        let mine = Self::content_type();
        str_eq(content_type, mine.as_str())
    }

    /// The schema reference of this payload.
    fn schema_ref() -> SchemaRef;

    /// Registers the schemas this payload depends on.
    fn register(registry: &mut Registry) {
    }
}

/// A payload that can be parsed from a request: the seam between the
/// decoder and a concrete wire format.
pub trait ParsePayload: Sized {
    /// Whether the payload must be present.
    fn is_required() -> bool;

    /// Parses the payload from the request metadata and the body.
    fn from_request(request: &Request, body: &mut Option<JsonValue>) -> Result<
        Self,
        ErrorResponse,
    >;
}

/// A plain-text payload: the body as one string.
#[derive(Debug, PartialEq)]
pub struct PlainText(pub String);

impl Payload for PlainText {
    open spec fn spec_content_type() -> Seq<char> {
        "text/plain"@
    }

    fn content_type() -> (r: String)
        ensures
            r@ == Self::spec_content_type(),
    {
        String::from_str("text/plain")
    }

    fn schema_ref() -> SchemaRef {
        SchemaRef::Reference(String::from_str("string"))
    }
}

impl ParsePayload for PlainText {
    fn is_required() -> bool {
        true
    }

    fn from_request(request: &Request, body: &mut Option<JsonValue>) -> Result<
        Self,
        ErrorResponse,
    > {
        let taken = body.take();
        match taken {
            Some(JsonValue::Str(s)) => Ok(PlainText(s)),
            _ => Err(
                ErrorResponse { status: 400, message: String::from_str("expected a text body") },
            ),
        }
    }
}

} // verus!
