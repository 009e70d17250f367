//! The input a reader operates on: its resolved format and either a file
//! path or standard input. Opening and measuring the input is done by the
//! application.
use crate::format::Format;
use vstd::prelude::*;

verus! {

/// A resolved format plus a file path, or standard input (no path).
#[derive(Debug)]
pub struct Source {
    format: Format,
    path: Option<String>,
}

impl Source {
    /// The resolved format.
    pub closed spec fn spec_format(&self) -> Format {
        self.format
    }

    /// The file path, or `None` for standard input.
    pub closed spec fn spec_path(&self) -> Option<Seq<char>> {
        match &self.path {
            Some(p) => Some(p@),
            None => None,
        }
    }

    /// A file on disk.
    pub fn from_path(path: &str, format: Format) -> (s: Source)
        ensures
            s.spec_format() == format,
            s.spec_path() == Some(path@),
    {
        Source { format, path: Some(String::from_str(path)) }
    }

    /// Standard input.
    pub fn from_stdin(format: Format) -> (s: Source)
        ensures
            s.spec_format() == format,
            s.spec_path() is None,
    {
        Source { format, path: None }
    }

    /// The resolved format.
    pub fn format(&self) -> (f: Format)
        ensures
            f == self.spec_format(),
    {
        self.format
    }

    /// The file path, when this source is a file.
    pub fn path(&self) -> (p: Option<&str>)
        ensures
            match p {
                Some(s) => self.spec_path() == Some(s@),
                None => self.spec_path() is None,
            },
    {
        match &self.path {
            Some(p) => Some(p.as_str()),
            None => None,
        }
    }

    /// What the report's input URI is: the path as given, or `-` for
    /// standard input.
    pub fn uri(&self) -> (u: String)
        ensures
            u@ == match self.spec_path() {
                Some(p) => p,
                None => "-"@,
            },
    {
        match &self.path {
            Some(p) => String::from_str(p.as_str()),
            None => String::from_str("-"),
        }
    }
}

} // verus!
