//! The inbound request model: the parts of an HTTP event that parameter
//! extraction reads, held as plain values.
//!
//! A request carries two ordered lists of named parameters, one taken from
//! the path and one from the query string.  Lookup by name returns the
//! first binding with that name, so duplicate query keys behave as the
//! usual first-match rule.

use vstd::prelude::*;

verus! {

/// Where a parameter is conveyed in the request.
#[derive(Clone, Copy, PartialEq, Eq, Structural, Debug)]
pub enum ParamSource {
    /// A path segment.
    Path,
    /// A query-string key.
    Query,
}

/// An inbound HTTP event, reduced to the parameter bindings that the
/// dispatcher reads.  Immutable for the duration of handling.
pub struct HttpRequest {
    /// Parameters bound by path segments, in declaration order.
    pub path_params: Vec<(String, String)>,
    /// Parameters from the query string, in order of appearance.
    pub query_params: Vec<(String, String)>,
}

/// The bindings of the chosen source.
pub open spec fn source_params(req: &HttpRequest, source: ParamSource) -> Seq<(String, String)> {
    match source {
        ParamSource::Path => req.path_params@,
        ParamSource::Query => req.query_params@,
    }
}

/// The value of the first binding named `name`, if any.
pub open spec fn find_param(params: Seq<(String, String)>, name: Seq<char>) -> Option<Seq<char>>
    decreases params.len(),
{
    if params.len() == 0 {
        None
    } else if params[0].0@ == name {
        Some(params[0].1@)
    } else {
        find_param(params.drop_first(), name)
    }
}

/// Looks up the first binding named `name` in `params`.
pub fn get_param<'a>(params: &'a Vec<(String, String)>, name: &String) -> (r: Option<&'a String>)
    ensures
        match r {
            Some(v) => find_param(params@, name@) == Some(v@),
            None => find_param(params@, name@) is None,
        },
{
    let n = params.len();
    let mut i: usize = 0;
    proof {
        assert(params@.skip(0) =~= params@);
    }
    while i < n
        invariant
            0 <= i <= n,
            n == params@.len(),
            find_param(params@, name@) == find_param(params@.skip(i as int), name@),
        decreases n - i,
    {
        proof {
            assert(params@.skip(i as int)[0] == params@[i as int]);
            assert(params@.skip(i as int).drop_first() =~= params@.skip(i + 1));
        }
        if params[i].0 == *name {
            return Some(&params[i].1);
        }
        i += 1;
    }
    proof {
        assert(params@.skip(n as int) =~= Seq::<(String, String)>::empty());
    }
    None
}

} // verus!
