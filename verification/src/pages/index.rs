//! Index (home) page.

use vstd::prelude::*;

use rand::seq::IndexedRandom;

verus! {

/// The index (home) page: the raw page template and the greeting
/// phrases one of which is picked at random for each render.
pub struct IndexPage {
    /// Unrendered page.
    raw_page: String,
    /// Greeting phrases to choose from.
    phrases: Vec<String>,
}

/// Relies on rand's `IndexedRandom::choose` with the thread rng: a
/// uniformly sampled element of the slice, or nothing exactly when
/// the slice is empty.  Which element comes back is up to chance, so
/// only membership is promised.
#[verifier::external_body]
fn choose_random<'a>(items: &'a [String]) -> (r: Option<&'a String>)
    ensures
        match r {
            Some(p) => exists|i: int| 0 <= i < items@.len() && *p == items@[i],
            None => items@.len() == 0,
        },
        r is Some <==> items@.len() > 0,
{
    items.choose(&mut rand::rng())
}

impl IndexPage {
    /// The page template text.
    pub closed spec fn spec_raw_page(self) -> Seq<char> {
        self.raw_page@
    }

    /// The greeting phrases.
    pub closed spec fn spec_phrases(self) -> Seq<String> {
        self.phrases@
    }

    /// Build the index page from its template text and its phrases.
    pub fn new(raw_page: String, phrases: Vec<String>) -> (p: Self)
        ensures
            p.spec_raw_page() == raw_page@,
            p.spec_phrases() == phrases@,
    {
        IndexPage { raw_page, phrases }
    }

    /// The page template text.
    pub fn raw_page(&self) -> (r: &String)
        ensures
            r@ == self.spec_raw_page(),
    {
        &self.raw_page
    }

    /// One of the phrases, picked at random; a fixed apology when
    /// there are none.
    pub fn get_phrase(&self) -> (r: String)
        ensures
            self.spec_phrases().len() == 0 ==> r@ == "Uh oh!"@,
            self.spec_phrases().len() > 0 ==> exists|i: int|
                0 <= i < self.spec_phrases().len() && r@ == self.spec_phrases()[i]@,
    {
        match choose_random(self.phrases.as_slice()) {
            Some(phrase) => phrase.clone(),
            None => "Uh oh!".to_owned(),
        }
    }
}

} // verus!
