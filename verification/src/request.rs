//! The request model the extraction pipeline and the middleware see: header
//! metadata, a read-once body, and a type-keyed bag of attached values.

use vstd::prelude::*;
use crate::codec::DynVal;
use crate::json::JsonValue;
use crate::schema::DynValue;

verus! {

/// The value a lookup finds under a key: the most recently inserted one.
pub open spec fn ext_lookup(entries: Seq<(u64, DynValue)>, key: u64) -> Option<DynVal>
    decreases entries.len(),
{
    if entries.len() == 0 {
        None
    } else if entries.last().0 == key {
        Some(entries.last().1@)
    } else {
        ext_lookup(entries.drop_last(), key)
    }
}

/// A read-only bag of values attached to a request, looked up by a type
/// key; a later insertion under the same key shadows an earlier one.
#[derive(Debug)]
pub struct Extensions {
    pub entries: Vec<(u64, DynValue)>,
}

impl Extensions {
    /// An empty bag.
    pub fn new() -> (r: Self)
        ensures
            r.entries@ == Seq::<(u64, DynValue)>::empty(),
    {
        Extensions { entries: Vec::new() }
    }

    /// Attaches a value under a type key.
    pub fn insert(&mut self, key: u64, value: DynValue)
        ensures
            final(self).entries@ == old(self).entries@.push((key, value)),
    {
        self.entries.push((key, value));
    }

    /// The most recently attached value under a type key, if any.
    pub fn get(&self, key: u64) -> (r: Option<&DynValue>)
        ensures
            match r {
                Some(v) => ext_lookup(self.entries@, key) == Some(v@),
                None => ext_lookup(self.entries@, key) is None,
            },
    {
        let mut i: usize = self.entries.len();
        proof {
            assert(self.entries@.take(i as int) =~= self.entries@);
        }
        while i > 0
            invariant
                i <= self.entries@.len(),
                ext_lookup(self.entries@, key) == ext_lookup(self.entries@.take(i as int), key),
            decreases i,
        {
            proof {
                assert(self.entries@.take(i as int).last() == self.entries@[i - 1]);
                assert(self.entries@.take(i as int).drop_last() =~= self.entries@.take(i - 1));
            }
            if self.entries[i - 1].0 == key {
                return Some(&self.entries[i - 1].1);
            }
            i = i - 1;
        }
        None
    }
}

/// An inbound request: header metadata, the attached values, and the body,
/// a single-consumer resource.
#[derive(Debug)]
pub struct Request {
    pub content_type: Option<String>,
    pub extensions: Extensions,
    pub body: Option<JsonValue>,
}

impl Default for Request {
    /// An empty request.
    fn default() -> (r: Self)
        ensures
            r.content_type is None,
            r.extensions.entries@ == Seq::<(u64, DynValue)>::empty(),
            r.body is None,
    {
        Request { content_type: None, extensions: Extensions::new(), body: None }
    }
}

impl Request {
    /// Splits the request into its metadata part and its body-consuming
    /// part: the body may be consumed by at most one extractor.
    pub fn split(self) -> (r: (Request, Option<JsonValue>))
        ensures
            r.0.content_type == self.content_type,
            r.0.extensions.entries@ == self.extensions.entries@,
            r.0.body is None,
            r.1 == self.body,
    {
        let Request { content_type, extensions, body } = self;
        (Request { content_type, extensions, body: None }, body)
    }
}

} // verus!
