//! A fetched page: the address it was asked for and, where the answer was
//! HTML, its parsed document.

use vstd::prelude::*;

verus! {

/// A fetched page.
#[derive(Debug)]
pub struct Website {
    /// The address the page was asked for.
    pub request_url: String,
    /// The root of the parsed document; `None` where the answer was no
    /// HTML.
    pub dom: Option<kuchiki::NodeRef>,
}

impl Website {
    /// The page at `request_url` with the parsed document `dom`.
    pub fn new(request_url: String, dom: Option<kuchiki::NodeRef>) -> (website: Website)
        ensures
            website.request_url == request_url,
            website.dom == dom,
    {
        Website { request_url, dom }
    }
}

} // verus!
