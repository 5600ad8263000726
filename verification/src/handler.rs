//! Extraction pipeline: turns a declared function into a request-handling
//! unit that extracts each parameter in declared order, short-circuits to an
//! error response on the first failure, and only then invokes the body.

use vstd::prelude::*;
use crate::schema::DynValue;

verus! {

/// A structured error response produced by a failed extraction.
#[derive(Debug, PartialEq)]
pub struct ErrorResponse {
    pub status: u16,
    pub message: String,
}

/// Copies an error response.
pub fn clone_response(r: &ErrorResponse) -> (c: ErrorResponse)
    ensures
        c == *r,
{
    ErrorResponse { status: r.status, message: r.message.clone() }
}

/// One declared handler parameter.
#[derive(Debug)]
pub struct ParamSpec {
    pub ident: String,
    pub consumes_body: bool,
}

/// How many parameters from `i` on consume the request body.
pub open spec fn body_count(params: Seq<ParamSpec>, i: int) -> int
    decreases params.len() - i,
{
    if i < 0 || i >= params.len() {
        0
    } else {
        (if params[i].consumes_body {
            1int
        } else {
            0int
        }) + body_count(params, i + 1)
    }
}

/// A function declaration the adapter generator refuses.
#[derive(Debug, PartialEq)]
pub enum HandlerError {
    MultipleBodyConsumers,
}

/// A request-handling unit built from a function declaration.
#[derive(Debug)]
pub struct HandlerUnit {
    pub ident: String,
    pub internal: bool,
    pub params: Vec<ParamSpec>,
}

/// Builds a request-handling unit, rejecting at build time a declaration in
/// which more than one parameter would consume the request body.
pub fn build_handler(ident: String, internal: bool, params: Vec<ParamSpec>) -> (r: Result<
    HandlerUnit,
    HandlerError,
>)
    ensures
        match r {
            Ok(u) => {
                &&& body_count(params@, 0) <= 1
                &&& u.ident@ == ident@
                &&& u.internal == internal
                &&& u.params@ == params@
            },
            Err(_) => body_count(params@, 0) > 1,
        },
{
    let mut count: usize = 0;
    let mut i: usize = 0;
    proof {
        assert(body_count(params@, 0) == 0 + body_count(params@, 0));
    }
    while i < params.len()
        invariant
            i <= params@.len(),
            count <= i,
            body_count(params@, 0) == count + body_count(params@, i as int),
        decreases params@.len() - i,
    {
        if params[i].consumes_body {
            count = count + 1;
        }
        i = i + 1;
    }
    if count > 1 {
        Err(HandlerError::MultipleBodyConsumers)
    } else {
        Ok(HandlerUnit { ident, internal, params })
    }
}

impl HandlerUnit {
    /// A fresh pipeline over this unit's parameters.
    pub fn pipeline(&self) -> (p: Pipeline)
        ensures
            p.wf(),
            p.total == self.params@.len(),
            p.next == 0,
            p.failure is None,
    {
        Pipeline::new(self.params.len())
    }
}

/// What a handled request produces: the function's converted return value,
/// or a structured error.
#[derive(Debug, PartialEq)]
pub enum Response {
    Value(crate::json::JsonValue),
    Error(ErrorResponse),
}

/// The response-conversion capability: any type satisfying "can become a
/// response" may be returned by a handler function.
pub trait IntoResponse: Sized {
    /// The response the value converts to.
    spec fn spec_response(self) -> Response;

    /// Converts the value into a response.
    fn into_response(self) -> (r: Response)
        ensures
            r == self.spec_response(),
    ;
}

impl IntoResponse for crate::json::JsonValue {
    open spec fn spec_response(self) -> Response {
        Response::Value(self)
    }

    fn into_response(self) -> (r: Response)
        ensures
            r == self.spec_response(),
    {
        Response::Value(self)
    }
}

impl IntoResponse for ErrorResponse {
    open spec fn spec_response(self) -> Response {
        Response::Error(self)
    }

    fn into_response(self) -> (r: Response)
        ensures
            r == self.spec_response(),
    {
        Response::Error(self)
    }
}

/// What the pipeline asks its driver to do next.
#[derive(Debug, PartialEq)]
pub enum PipelineAction {
    Extract(usize),
    Invoke,
    Respond(ErrorResponse),
}

/// The state of one request's pipeline: which parameter is extracted next,
/// the values extracted so far, and the failure that ended extraction, if
/// one did.
#[derive(Debug)]
pub struct Pipeline {
    pub total: usize,
    pub next: usize,
    pub values: Vec<DynValue>,
    pub failure: Option<ErrorResponse>,
}

impl Pipeline {
    /// The state invariant: one value per completed extraction.
    pub open spec fn wf(&self) -> bool {
        &&& self.next <= self.total
        &&& self.values@.len() == self.next
    }

    /// What the driver must do in this state: answer a failure, extract the
    /// next parameter, or invoke the function body with all values.
    pub open spec fn spec_action(&self) -> PipelineAction {
        match self.failure {
            Some(e) => PipelineAction::Respond(e),
            None => if self.next < self.total {
                PipelineAction::Extract(self.next)
            } else {
                PipelineAction::Invoke
            },
        }
    }

    /// A fresh pipeline for a unit with `total` parameters.
    pub fn new(total: usize) -> (r: Self)
        ensures
            r.wf(),
            r.total == total,
            r.next == 0,
            r.values@ == Seq::<DynValue>::empty(),
            r.failure is None,
    {
        Pipeline { total, next: 0, values: Vec::new(), failure: None }
    }

    /// The pending action.
    pub fn action(&self) -> (a: PipelineAction)
        ensures
            a == self.spec_action(),
    {
        match &self.failure {
            Some(e) => PipelineAction::Respond(clone_response(e)),
            None => if self.next < self.total {
                PipelineAction::Extract(self.next)
            } else {
                PipelineAction::Invoke
            },
        }
    }

    /// Feeds one extraction outcome into the pipeline. A success stores the
    /// value and moves to the next parameter; a failure ends extraction, and
    /// every later parameter's extraction is never requested.
    pub fn supply(&mut self, outcome: Result<DynValue, ErrorResponse>)
        requires
            old(self).wf(),
            old(self).failure is None,
            old(self).next < old(self).total,
        ensures
            final(self).wf(),
            final(self).total == old(self).total,
            match outcome {
                Ok(v) => {
                    &&& final(self).next == old(self).next + 1
                    &&& final(self).values@ == old(self).values@.push(v)
                    &&& final(self).failure is None
                },
                Err(e) => {
                    &&& final(self).failure == Some(e)
                    &&& final(self).next == old(self).next
                    &&& final(self).values@ == old(self).values@
                },
            },
    {
        match outcome {
            Ok(v) => {
                self.values.push(v);
                self.next = self.next + 1;
            },
            Err(e) => {
                self.failure = Some(e);
            },
        }
    }

    /// The extracted values, once every parameter has one.
    pub fn into_values(self) -> (r: Vec<DynValue>)
        requires
            self.failure is None,
            self.next == self.total,
        ensures
            r@ == self.values@,
    {
        self.values
    }
}

/// Extraction short-circuit: a fresh pipeline over at least two parameters
/// first asks for parameter zero; once that extraction fails, the pending
/// action is to answer exactly that failure's response — parameter one's
/// extraction is never requested, and `supply` admits no further outcome.
pub proof fn lemma_extraction_short_circuit(p0: Pipeline, p1: Pipeline, e: ErrorResponse)
    requires
        p0.wf(),
        p0.failure is None,
        p0.next == 0,
        p0.total >= 2,
        p1.total == p0.total,
        p1.failure == Some(e),
        p1.next == p0.next,
        p1.values@ == p0.values@,
    ensures
        p0.spec_action() == PipelineAction::Extract(0),
        p1.spec_action() == PipelineAction::Respond(e),
{
}

} // verus!
