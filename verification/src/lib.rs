//! Typed marshalling core of an HTTP service framework.
//!
//! The crate turns a declared data structure into a bidirectional JSON codec
//! driven by a schema descriptor, and turns a plain function into a
//! request-handling unit that extracts each parameter from an incoming
//! request and converts the return value into a response.

pub mod docs;
pub mod error;
pub mod handler;
pub mod json;
pub mod schema;
pub mod add_data;
pub mod codec;
pub mod payload;
pub mod rename;
pub mod request;
pub mod text;
pub mod types;

pub use docs::{get_crate_name, get_description, get_summary_and_description};
pub use error::ParseError;
pub use add_data::{AddData, AddDataImpl, DataValue, Endpoint, Middleware};
pub use codec::DecodeError;
pub use handler::{build_handler, ErrorResponse, HandlerError, HandlerUnit, ParamSpec, Pipeline, PipelineAction};
pub use payload::{ParsePayload, Payload, PlainText, Registry, SchemaRef};
pub use request::{Extensions, Request};
pub use json::JsonValue;
pub use schema::{build_schema, AttrValue, BuildError, ConcreteType, DeclShape, DefaultValue, DynValue, FieldDecl, FieldDescriptor, RawAttr, SchemaDescriptor, StructDecl, TypeRef};
pub use types::{Named, SchemaType, Type};
pub use rename::{RenameRule, RenameRuleExt, RenameTarget};
pub use text::chars_to_string;
pub use text::str_to_chars;
