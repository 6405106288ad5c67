//! Site page definitions.

use vstd::prelude::*;

pub mod blog;
pub mod error;
pub mod index;
pub mod links;
pub mod projects;

verus! {

/// All pages, gathered for the request handlers.
pub struct Pages {
    pub index: index::IndexPage,
    pub error: error::ErrorPage,
    pub blogs: blog::BlogsPages,
    pub links: links::LinksPage,
    pub projects: projects::ProjectsPage,
}

impl Pages {
    /// Gather the parsed pages.
    pub fn new(
        index: index::IndexPage,
        error: error::ErrorPage,
        blogs: blog::BlogsPages,
        links: links::LinksPage,
        projects: projects::ProjectsPage,
    ) -> (p: Pages)
        ensures
            p.index == index,
            p.error == error,
            p.blogs == blogs,
            p.links == links,
            p.projects == projects,
    {
        Pages { index, error, blogs, links, projects }
    }
}

} // verus!
