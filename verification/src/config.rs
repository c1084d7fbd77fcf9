//! The validated run configuration.

use vstd::prelude::*;

verus! {

/// A validated configuration: the sources to print, in order; the line
/// bound; and the optional byte bound that, when present, replaces
/// line-mode truncation for the whole run.
#[derive(Debug)]
pub struct Config {
    files: Vec<String>,
    lines: usize,
    bytes: Option<usize>,
}

impl Config {
    /// The source names, as character sequences.
    pub closed spec fn files_view(&self) -> Seq<Seq<char>> {
        self.files.deep_view()
    }

    /// The line bound.
    pub closed spec fn lines_limit(&self) -> usize {
        self.lines
    }

    /// The byte bound, when one was supplied.
    pub closed spec fn bytes_limit(&self) -> Option<usize> {
        self.bytes
    }

    /// Data-model invariant: at least one source, a positive line bound,
    /// and a positive byte bound whenever one is present.
    pub open spec fn wf(&self) -> bool {
        &&& self.files_view().len() > 0
        &&& self.lines_limit() > 0
        &&& (self.bytes_limit() matches Some(b) ==> b > 0)
    }

    /// Builds a configuration; the preconditions restate the data-model
    /// invariant.
    pub fn new(files: Vec<String>, lines: usize, bytes: Option<usize>) -> (c: Config)
        requires
            files@.len() > 0,
            lines > 0,
            bytes matches Some(b) ==> b > 0,
        ensures
            c.wf(),
            c.files_view() == files.deep_view(),
            c.lines_limit() == lines,
            c.bytes_limit() == bytes,
    {
        Config { files, lines, bytes }
    }

    /// The source names.
    pub fn files(&self) -> (r: &Vec<String>)
        ensures
            r.deep_view() == self.files_view(),
    {
        &self.files
    }

    /// The line bound.
    pub fn lines(&self) -> (r: usize)
        ensures
            r == self.lines_limit(),
    {
        self.lines
    }

    /// The byte bound, when one was supplied.
    pub fn bytes(&self) -> (r: Option<usize>)
        ensures
            r == self.bytes_limit(),
    {
        self.bytes
    }
}

} // verus!
