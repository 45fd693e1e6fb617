use vstd::prelude::*;

verus! {

/// Why an HTTP route lookup failed.
#[derive(Clone, Debug)]
pub enum HttpMatchError {
    NotFound,
}

/// A placeholder router for method-aware HTTP routes.
#[derive(Clone, Debug)]
pub struct HttpRouter {}

impl HttpRouter {
    /// An empty HTTP router.
    pub fn new() -> (r: Self)
        ensures
            r == (HttpRouter {  }),
    {
        HttpRouter {  }
    }

    /// Evaluates a path. Matching is not implemented yet, so every path
    /// reports that no route was found.
    pub fn eval(&self, value: &str) -> (r: Result<(), HttpMatchError>)
        ensures
            r matches Err(e) && e is NotFound,
    {
        Err(HttpMatchError::NotFound)
    }
}

} // verus!
