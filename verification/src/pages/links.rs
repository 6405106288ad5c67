//! Links page.

use vstd::prelude::*;

use crate::date::{sort_by_date_desc, sorted_by_date_desc, Date, Dated};

verus! {

/// Parsed link data: one shared link.
#[derive(Clone, Debug)]
pub struct Link {
    /// Title of the link/article.
    pub title: String,
    /// Short description of the link.
    pub description: String,
    /// URL of the link.
    pub url: String,
    /// Date the link was added.
    pub date: Date,
}

impl Dated for Link {
    open spec fn spec_date(&self) -> Date {
        self.date
    }

    fn date(&self) -> (d: Date) {
        self.date
    }
}

/// The links page: the link list ordered newest first, the page
/// template, and the rendered feed.
pub struct LinksPage {
    /// Unrendered links page.
    index: String,
    /// Links, newest first.
    links: Vec<Link>,
    /// The link feed document.
    feed: String,
}

impl LinksPage {
    /// The links page template text.
    pub closed spec fn spec_index(self) -> Seq<char> {
        self.index@
    }

    /// The links, as held.
    pub closed spec fn spec_links(self) -> Seq<Link> {
        self.links@
    }

    /// The feed document text.
    pub closed spec fn spec_feed(self) -> Seq<char> {
        self.feed@
    }

    /// Build the links page: the links are ordered newest first,
    /// keeping exactly the ones given.
    pub fn new(index: String, links: Vec<Link>, feed: String) -> (p: Self)
        ensures
            p.spec_index() == index@,
            p.spec_feed() == feed@,
            sorted_by_date_desc(p.spec_links()),
            p.spec_links().to_multiset() == links@.to_multiset(),
    {
        let links = sort_by_date_desc(links);
        LinksPage { index, links, feed }
    }

    /// The links page template text.
    pub fn index(&self) -> (r: &String)
        ensures
            r@ == self.spec_index(),
    {
        &self.index
    }

    /// The feed document text.
    pub fn feed(&self) -> (r: &String)
        ensures
            r@ == self.spec_feed(),
    {
        &self.feed
    }

    /// The links, newest first.
    pub fn links(&self) -> (r: &Vec<Link>)
        ensures
            r@ == self.spec_links(),
    {
        &self.links
    }
}

} // verus!
