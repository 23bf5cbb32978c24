//! The run configuration: an ordered, non-empty list of filename tokens
//! and two mutually exclusive numbering flags.

use crate::render::Policy;
use vstd::prelude::*;

verus! {

/// Configuration for one run: which inputs to read, in order, and which
/// numbering policy to apply. The two flags are never both set, and the
/// file list is never empty; `new` enforces both.
#[derive(Debug)]
pub struct Config {
    files: Vec<String>,
    number_lines: bool,
    number_nonblank_lines: bool,
}

impl Config {
    /// The filename tokens, as sequences of characters.
    pub closed spec fn spec_files(self) -> Seq<Seq<char>> {
        self.files.deep_view()
    }

    /// Whether every line is to be numbered.
    pub closed spec fn spec_number_lines(self) -> bool {
        self.number_lines
    }

    /// Whether only non-blank lines are to be numbered.
    pub closed spec fn spec_number_nonblank_lines(self) -> bool {
        self.number_nonblank_lines
    }

    /// The configuration invariant: at least one filename token, and at
    /// most one of the two numbering flags set.
    pub open spec fn wf(self) -> bool {
        self.spec_files().len() > 0 && !(self.spec_number_lines()
            && self.spec_number_nonblank_lines())
    }

    /// The numbering policy the flags select.
    pub open spec fn spec_policy(self) -> Policy {
        if self.spec_number_lines() {
            Policy::NumberAll
        } else if self.spec_number_nonblank_lines() {
            Policy::NumberNonblank
        } else {
            Policy::Plain
        }
    }

    /// Builds a configuration from already-validated parts: the caller
    /// guarantees a non-empty file list and mutually exclusive flags.
    pub fn new(files: Vec<String>, number_lines: bool, number_nonblank_lines: bool) -> (c: Config)
        requires
            files@.len() > 0,
            !(number_lines && number_nonblank_lines),
        ensures
            c.spec_files() == files.deep_view(),
            c.spec_number_lines() == number_lines,
            c.spec_number_nonblank_lines() == number_nonblank_lines,
            c.wf(),
    {
        Config { files, number_lines, number_nonblank_lines }
    }

    /// The filename tokens, in the order they are to be processed.
    pub fn files(&self) -> (f: &Vec<String>)
        ensures
            f.deep_view() == self.spec_files(),
    {
        &self.files
    }

    /// Whether every line is to be numbered.
    pub fn number_lines(&self) -> (b: bool)
        ensures
            b == self.spec_number_lines(),
    {
        self.number_lines
    }

    /// Whether only non-blank lines are to be numbered.
    pub fn number_nonblank_lines(&self) -> (b: bool)
        ensures
            b == self.spec_number_nonblank_lines(),
    {
        self.number_nonblank_lines
    }

    /// The numbering policy this configuration selects: a one-time
    /// choice made at the start of a run.
    pub fn policy(&self) -> (p: Policy)
        ensures
            p == self.spec_policy(),
    {
        if self.number_lines {
            Policy::NumberAll
        } else if self.number_nonblank_lines {
            Policy::NumberNonblank
        } else {
            Policy::Plain
        }
    }
}

/// Defaults an empty file list to the single token `-`, which stands for
/// standard input; a non-empty list is returned unchanged.
pub fn default_files(files: Vec<String>) -> (r: Vec<String>)
    ensures
        files@.len() > 0 ==> r == files,
        files@.len() == 0 ==> r.deep_view() == seq!["-"@],
        r@.len() > 0,
{
    if files.len() == 0 {
        let mut r: Vec<String> = Vec::new();
        r.push(String::from_str("-"));
        proof {
            assert(r.deep_view() =~= seq!["-"@]);
        }
        r
    } else {
        files
    }
}

} // verus!
