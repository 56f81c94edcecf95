//! Display metadata for an option set: the program name and the optional
//! version, usage line, summary and extended help body. The metadata is
//! accumulated in a builder and frozen into an immutable `HelpText`.

use vstd::prelude::*;
use vstd::string::*;

verus! {

/// The mathematical content of a `HelpText` or `HelpTextBuilder`: each
/// text field as a sequence of characters.
pub struct HelpModel {
    pub name: Seq<char>,
    pub version: Option<Seq<char>>,
    pub syntax: Option<Seq<char>>,
    pub summary: Option<Seq<char>>,
    pub long_help: Option<Seq<char>>,
}

/// Immutable display metadata, produced by [`HelpTextBuilder::build`].
pub struct HelpText {
    pub name: String,
    pub version: Option<String>,
    pub syntax: Option<String>,
    pub summary: Option<String>,
    pub long_help: Option<String>,
}

/// Accumulates display metadata; every setter returns the builder so the
/// calls can be chained, and `build` freezes the result.
pub struct HelpTextBuilder {
    pub name: String,
    pub version: Option<String>,
    pub syntax: Option<String>,
    pub summary: Option<String>,
    pub long_help: Option<String>,
}

pub open spec fn view_opt_string(s: Option<String>) -> Option<Seq<char>> {
    match s {
        Some(v) => Some(v@),
        None => None,
    }
}

impl View for HelpText {
    type V = HelpModel;

    open spec fn view(&self) -> HelpModel {
        HelpModel {
            name: self.name@,
            version: view_opt_string(self.version),
            syntax: view_opt_string(self.syntax),
            summary: view_opt_string(self.summary),
            long_help: view_opt_string(self.long_help),
        }
    }
}

impl View for HelpTextBuilder {
    type V = HelpModel;

    open spec fn view(&self) -> HelpModel {
        HelpModel {
            name: self.name@,
            version: view_opt_string(self.version),
            syntax: view_opt_string(self.syntax),
            summary: view_opt_string(self.summary),
            long_help: view_opt_string(self.long_help),
        }
    }
}

impl HelpTextBuilder {
    /// Starts a builder that holds only the program name.
    pub fn new(name: &str) -> (b: Self)
        ensures
            b@ == (HelpModel {
                name: name@,
                version: None,
                syntax: None,
                summary: None,
                long_help: None,
            }),
    {
        HelpTextBuilder {
            name: name.to_owned(),
            version: None,
            syntax: None,
            summary: None,
            long_help: None,
        }
    }

    /// Records the version string.
    pub fn version(self, version: &str) -> (b: Self)
        ensures
            b@ == (HelpModel { version: Some(version@), ..self@ }),
    {
        HelpTextBuilder { version: Some(version.to_owned()), ..self }
    }

    /// Records the usage line, prefixed by the program name and a space.
    pub fn syntax(self, syntax: &str) -> (b: Self)
        ensures
            b@ == (HelpModel { syntax: Some(self@.name + " "@ + syntax@), ..self@ }),
    {
        let line = self.name.clone().concat(" ").concat(syntax);
        HelpTextBuilder { syntax: Some(line), ..self }
    }

    /// Records the one-line summary.
    pub fn summary(self, summary: &str) -> (b: Self)
        ensures
            b@ == (HelpModel { summary: Some(summary@), ..self@ }),
    {
        HelpTextBuilder { summary: Some(summary.to_owned()), ..self }
    }

    /// Records the extended help body shown after the option list.
    pub fn long_help(self, long_help: &str) -> (b: Self)
        ensures
            b@ == (HelpModel { long_help: Some(long_help@), ..self@ }),
    {
        HelpTextBuilder { long_help: Some(long_help.to_owned()), ..self }
    }

    /// Freezes the accumulated metadata.
    pub fn build(self) -> (t: HelpText)
        ensures
            t@ == self@,
    {
        HelpText {
            name: self.name,
            version: self.version,
            syntax: self.syntax,
            summary: self.summary,
            long_help: self.long_help,
        }
    }
}

} // verus!
