//! Projects page.

use vstd::prelude::*;

use crate::date::{sort_by_date_desc, sorted_by_date_desc, Date, Dated};

verus! {

/// Parsed project data: one project card.
#[derive(Clone, Debug)]
pub struct Project {
    /// Title of the project.
    pub name: String,
    /// Description of the project.
    pub description: String,
    /// Date of the project.
    pub date: Date,
    /// Path to an image, if there is one.
    pub image: Option<String>,
    /// Named links to the project, as (label, URL) pairs.
    pub links: Vec<(String, String)>,
}

impl Dated for Project {
    open spec fn spec_date(&self) -> Date {
        self.date
    }

    fn date(&self) -> (d: Date) {
        self.date
    }
}

/// The projects page: the project list ordered newest first and the
/// page template.
pub struct ProjectsPage {
    /// Unrendered index page.
    raw_index: String,
    /// Projects, newest first.
    projects: Vec<Project>,
}

impl ProjectsPage {
    /// The projects page template text.
    pub closed spec fn spec_raw_index(self) -> Seq<char> {
        self.raw_index@
    }

    /// The projects, as held.
    pub closed spec fn spec_projects(self) -> Seq<Project> {
        self.projects@
    }

    /// Build the projects page: the projects are ordered newest
    /// first, keeping exactly the ones given.
    pub fn new(raw_index: String, projects: Vec<Project>) -> (p: Self)
        ensures
            p.spec_raw_index() == raw_index@,
            sorted_by_date_desc(p.spec_projects()),
            p.spec_projects().to_multiset() == projects@.to_multiset(),
    {
        let projects = sort_by_date_desc(projects);
        ProjectsPage { raw_index, projects }
    }

    /// The projects page template text.
    pub fn raw_index(&self) -> (r: &String)
        ensures
            r@ == self.spec_raw_index(),
    {
        &self.raw_index
    }

    /// The projects, newest first.
    pub fn projects(&self) -> (r: &Vec<Project>)
        ensures
            r@ == self.spec_projects(),
    {
        &self.projects
    }
}

} // verus!
