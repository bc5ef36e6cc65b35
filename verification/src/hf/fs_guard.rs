//! The state of a guard over a temporary download file: armed, it
//! names a file to remove when the guard goes away; disarmed, nothing.
//! The removal itself is disk work done by the guard's owner with the
//! path that [`TmpGuard::take_path`] hands over.
use vstd::prelude::*;

use crate::asr::opt_text;
use crate::text::owned;

verus! {

/// Guard over a temporary file path.
#[derive(Debug)]
pub struct TmpGuard {
    path: Option<String>,
}

impl TmpGuard {
    /// The guarded path, when armed.
    pub closed spec fn path_spec(&self) -> Option<Seq<char>> {
        opt_text(self.path)
    }

    /// An armed guard over `path`.
    pub fn new(path: &str) -> (g: Self)
        ensures
            g.path_spec() == Some(path@),
    {
        TmpGuard { path: Some(owned(path)) }
    }

    /// Cancel the cleanup: the file is kept.
    pub fn disarm(&mut self)
        ensures
            final(self).path_spec() is None,
    {
        self.path = None;
    }

    /// Whether the guard still owns a path.
    pub fn is_armed(&self) -> (r: bool)
        ensures
            r == self.path_spec() is Some,
    {
        self.path.is_some()
    }

    /// The guarded path, when armed.
    pub fn path(&self) -> (r: Option<&str>)
        ensures
            match r {
                Some(p) => self.path_spec() == Some(p@),
                None => self.path_spec() is None,
            },
    {
        match &self.path {
            Some(p) => Some(p.as_str()),
            None => None,
        }
    }

    /// Hand over the path to remove and disarm: a second call gives
    /// nothing, so the file is removed at most once.
    pub fn take_path(&mut self) -> (r: Option<String>)
        ensures
            opt_text(r) == old(self).path_spec(),
            final(self).path_spec() is None,
    {
        let r = self.path.take();
        r
    }
}

} // verus!
