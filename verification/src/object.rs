//! Resolved toolchain objects. Locating a pass, driver or runtime object on
//! disk is the external resolver's job; the stages receive the outcome as a
//! plain value and decide what a missing object means.

use vstd::prelude::*;

verus! {

/// A logical object name together with the path the resolver found for it,
/// or `None` when resolution failed.
pub struct ResolvedObject {
    pub name: String,
    pub path: Option<String>,
}

impl Clone for ResolvedObject {
    fn clone(&self) -> (r: Self)
        ensures
            r == *self,
    {
        ResolvedObject {
            name: self.name.clone(),
            path: match &self.path {
                Some(p) => Some(p.clone()),
                None => None,
            },
        }
    }
}

impl ResolvedObject {
    /// An object the resolver located.
    pub fn found(name: &str, path: &str) -> (r: Self)
        ensures
            r.name@ == name@,
            r.path matches Some(p) && p@ == path@,
    {
        ResolvedObject { name: name.to_owned(), path: Some(path.to_owned()) }
    }

    /// An object the resolver could not locate.
    pub fn missing(name: &str) -> (r: Self)
        ensures
            r.name@ == name@,
            r.path is None,
    {
        ResolvedObject { name: name.to_owned(), path: None }
    }
}

} // verus!
