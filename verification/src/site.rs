//! Site configuration and template store.
//!
//! The serving shell parses command-line flags and reads the packed
//! template files; what it hands the library is the plain
//! configuration and the named template sources kept here.

use vstd::prelude::*;

use crate::cache::Timeout;
use crate::text::str_eq;

verus! {

/// The default cache timeout: five minutes, in nanoseconds.
pub const DEFAULT_CACHE_TIMEOUT_NANOS: u128 = 300_000_000_000;

/// The default port served on.
pub const DEFAULT_PORT: u16 = 8443;

/// Runtime configuration for the server.
#[derive(Clone, Debug)]
pub struct SiteConfig {
    /// Port to serve on.
    pub port: u16,
    /// Log file path.
    pub log: Option<String>,
    /// Timeout for the page cache.
    pub cache_timeout: Timeout,
    /// Debug mode: verbose logging, and every cache entry reported
    /// expired so each request re-renders.
    pub debug: bool,
}

impl Default for SiteConfig {
    /// Serve on the default port with a five-minute cache and no log
    /// file, not in debug mode.
    fn default() -> (c: Self)
        ensures
            c.port == DEFAULT_PORT,
            c.log is None,
            c.cache_timeout == Timeout::Nanos(DEFAULT_CACHE_TIMEOUT_NANOS),
            !c.debug,
    {
        SiteConfig {
            port: DEFAULT_PORT,
            log: None,
            cache_timeout: Timeout::Nanos(DEFAULT_CACHE_TIMEOUT_NANOS),
            debug: false,
        }
    }
}

/// The template sources, by name, in the order they were packed.
pub struct Templates {
    /// (template name, template text) pairs.
    entries: Vec<(String, String)>,
}

impl Templates {
    /// The held (name, text) pairs.
    pub closed spec fn spec_entries(self) -> Seq<(String, String)> {
        self.entries@
    }

    /// Gather the named template sources.
    pub fn new(entries: Vec<(String, String)>) -> (t: Self)
        ensures
            t.spec_entries() == entries@,
    {
        Templates { entries }
    }

    /// The held (name, text) pairs.
    pub fn entries(&self) -> (r: &Vec<(String, String)>)
        ensures
            r@ == self.spec_entries(),
    {
        &self.entries
    }

    /// The text of the first template stored under `name`, if any.
    pub fn get(&self, name: &str) -> (r: Option<&String>)
        ensures
            match r {
                Some(text) => exists|i: int|
                    {
                        &&& 0 <= i < self.spec_entries().len()
                        &&& self.spec_entries()[i].0@ == name@
                        &&& text@ == self.spec_entries()[i].1@
                        &&& forall|j: int| 0 <= j < i ==> self.spec_entries()[j].0@ != name@
                    },
                None => forall|i: int|
                    0 <= i < self.spec_entries().len() ==> self.spec_entries()[i].0@ != name@,
            },
    {
        let mut idx: usize = 0;
        while idx < self.entries.len()
            invariant
                idx <= self.entries@.len(),
                forall|j: int| 0 <= j < idx ==> self.entries@[j].0@ != name@,
            decreases self.entries@.len() - idx,
        {
            if str_eq(self.entries[idx].0.as_str(), name) {
                let found = &self.entries[idx].1;
                proof {
                    assert(exists|i: int|
                        {
                            &&& 0 <= i < self.spec_entries().len()
                            &&& self.spec_entries()[i].0@ == name@
                            &&& found@ == self.spec_entries()[i].1@
                            &&& forall|j: int| 0 <= j < i ==> self.spec_entries()[j].0@ != name@
                        }) by {
                        let i = idx as int;
                        assert(0 <= i < self.spec_entries().len());
                        assert(self.spec_entries()[i].0@ == name@);
                        assert(found@ == self.spec_entries()[i].1@);
                        assert(forall|j: int| 0 <= j < i ==> self.spec_entries()[j].0@ != name@);
                    }
                }
                return Some(found);
            }
            idx += 1;
        }
        None
    }
}

} // verus!
