//! The permissive cross-origin header set that every response carries.

use vstd::prelude::*;

verus! {

/// Adds cross-origin headers to responses.
pub struct CORS;

impl CORS {
    /// The four headers, in the order they are set on a response.
    pub fn response_headers() -> (r: Vec<(String, String)>)
        ensures
            r@.len() == 4,
            r@[0].0@ == "Access-Control-Allow-Origin"@ && r@[0].1@ == "*"@,
            r@[1].0@ == "Access-Control-Allow-Methods"@ && r@[1].1@
                == "POST, GET, PATCH, OPTIONS"@,
            r@[2].0@ == "Access-Control-Allow-Headers"@ && r@[2].1@ == "*"@,
            r@[3].0@ == "Access-Control-Allow-Credentials"@ && r@[3].1@ == "true"@,
    {
        let mut v: Vec<(String, String)> = Vec::new();
        v.push(("Access-Control-Allow-Origin".to_owned(), "*".to_owned()));
        v.push(("Access-Control-Allow-Methods".to_owned(), "POST, GET, PATCH, OPTIONS".to_owned()));
        v.push(("Access-Control-Allow-Headers".to_owned(), "*".to_owned()));
        v.push(("Access-Control-Allow-Credentials".to_owned(), "true".to_owned()));
        v
    }
}

} // verus!
