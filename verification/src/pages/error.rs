//! Error pages.

use vstd::prelude::*;

verus! {

/// Served when even the error page itself cannot be rendered.
pub const WORST_CASE_404: &'static str = "<html>404</html>";

/// The 404 error page.
pub struct ErrorPage {
    /// Unrendered page.
    raw_page: String,
}

impl ErrorPage {
    /// The page template text.
    pub closed spec fn spec_raw_page(self) -> Seq<char> {
        self.raw_page@
    }

    /// Build the error page from its template text.
    pub fn new(raw_page: String) -> (p: Self)
        ensures
            p.spec_raw_page() == raw_page@,
    {
        ErrorPage { raw_page }
    }

    /// The page template text.
    pub fn raw_page(&self) -> (r: &String)
        ensures
            r@ == self.spec_raw_page(),
    {
        &self.raw_page
    }
}

} // verus!
