//! Blog pages.

use vstd::prelude::*;

use crate::date::{sort_by_date_desc, sorted_by_date_desc, Date, Dated};
use crate::text::str_eq;

verus! {

/// Parsed blog data: one article.
#[derive(Clone, Debug)]
pub struct Blog {
    /// Title of the blog.
    pub name: String,
    /// Description of the blog.
    pub blurb: String,
    /// Date the blog was written.
    pub date: Date,
    /// URI for the blog.
    pub uri: String,
    /// Markdown of the blog entry.
    pub markdown: String,
}

impl Dated for Blog {
    open spec fn spec_date(&self) -> Date {
        self.date
    }

    fn date(&self) -> (d: Date) {
        self.date
    }
}

/// The blogs page and its subpages: the article list ordered newest
/// first, the two templates, and the rendered feed.
pub struct BlogsPages {
    /// Unrendered blog index page.
    index: String,
    /// Unrendered single-article page.
    article: String,
    /// Blog articles, newest first.
    blogs: Vec<Blog>,
    /// The blog feed document.
    feed: String,
}

impl BlogsPages {
    /// The blog index template text.
    pub closed spec fn spec_index(self) -> Seq<char> {
        self.index@
    }

    /// The article template text.
    pub closed spec fn spec_article(self) -> Seq<char> {
        self.article@
    }

    /// The articles, as held.
    pub closed spec fn spec_blogs(self) -> Seq<Blog> {
        self.blogs@
    }

    /// The feed document text.
    pub closed spec fn spec_feed(self) -> Seq<char> {
        self.feed@
    }

    /// Build the blogs page: the articles are ordered newest first,
    /// keeping exactly the ones given.
    pub fn new(index: String, article: String, articles: Vec<Blog>, feed: String) -> (p: Self)
        ensures
            p.spec_index() == index@,
            p.spec_article() == article@,
            p.spec_feed() == feed@,
            sorted_by_date_desc(p.spec_blogs()),
            p.spec_blogs().to_multiset() == articles@.to_multiset(),
    {
        let blogs = sort_by_date_desc(articles);
        BlogsPages { index, article, blogs, feed }
    }

    /// The blog index template text.
    pub fn index(&self) -> (r: &String)
        ensures
            r@ == self.spec_index(),
    {
        &self.index
    }

    /// The article template text.
    pub fn article(&self) -> (r: &String)
        ensures
            r@ == self.spec_article(),
    {
        &self.article
    }

    /// The feed document text.
    pub fn feed(&self) -> (r: &String)
        ensures
            r@ == self.spec_feed(),
    {
        &self.feed
    }

    /// The articles, newest first.
    pub fn blogs(&self) -> (r: &Vec<Blog>)
        ensures
            r@ == self.spec_blogs(),
    {
        &self.blogs
    }

    /// The first article stored under `path`, if any.
    pub fn get_blog(&self, path: &str) -> (r: Option<&Blog>)
        ensures
            match r {
                Some(b) => exists|i: int|
                    {
                        &&& 0 <= i < self.spec_blogs().len()
                        &&& *b == self.spec_blogs()[i]
                        &&& b.uri@ == path@
                        &&& forall|j: int| 0 <= j < i ==> self.spec_blogs()[j].uri@ != path@
                    },
                None => forall|i: int|
                    0 <= i < self.spec_blogs().len() ==> self.spec_blogs()[i].uri@ != path@,
            },
    {
        let mut idx: usize = 0;
        while idx < self.blogs.len()
            invariant
                idx <= self.blogs@.len(),
                forall|j: int| 0 <= j < idx ==> self.blogs@[j].uri@ != path@,
            decreases self.blogs@.len() - idx,
        {
            if str_eq(self.blogs[idx].uri.as_str(), path) {
                let found = &self.blogs[idx];
                proof {
                    assert(exists|i: int|
                        {
                            &&& 0 <= i < self.spec_blogs().len()
                            &&& *found == self.spec_blogs()[i]
                            &&& found.uri@ == path@
                            &&& forall|j: int| 0 <= j < i ==> self.spec_blogs()[j].uri@ != path@
                        }) by {
                        let i = idx as int;
                        assert(0 <= i < self.spec_blogs().len());
                        assert(*found == self.spec_blogs()[i]);
                        assert(found.uri@ == path@);
                        assert(forall|j: int| 0 <= j < i ==> self.spec_blogs()[j].uri@ != path@);
                    }
                }
                return Some(found);
            }
            idx += 1;
        }
        None
    }
}

} // verus!
