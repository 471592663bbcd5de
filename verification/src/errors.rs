//! The error taxonomy of the library.

use vstd::prelude::*;
use vstd::string::StringExecFns;

verus! {

/// Errors surfaced by the synchronization engine. Parse and adapter
/// failures are expected and recorded per target; configuration
/// failures abort a run before any target is processed.
#[derive(Debug, Clone)]
pub enum Error {
    /// Missing or invalid runtime configuration; fatal for the run.
    Config(String),
    /// A failure of the runtime environment (for example the clock).
    Runtime(String),
    /// A document could not be decoded or encoded.
    Serde(String),
    /// A failure talking to or interpreting the provider.
    Snyk(String),
    /// A failure in the SBOM pipeline for one target.
    Sbom(String),
}

impl Error {
    /// The category label used when an error is rendered.
    pub fn label(&self) -> (r: &'static str)
        ensures
            r@ == self.label_spec(),
    {
        match self {
            Error::Config(_) => "config",
            Error::Runtime(_) => "runtime",
            Error::Serde(_) => "serde",
            Error::Snyk(_) => "snyk",
            Error::Sbom(_) => "sbom",
        }
    }

    /// The label as a mathematical value.
    pub open spec fn label_spec(&self) -> Seq<char> {
        match self {
            Error::Config(_) => "config"@,
            Error::Runtime(_) => "runtime"@,
            Error::Serde(_) => "serde"@,
            Error::Snyk(_) => "snyk"@,
            Error::Sbom(_) => "sbom"@,
        }
    }

    /// The message carried by the error, whatever its category.
    pub open spec fn message_spec(&self) -> Seq<char> {
        match self {
            Error::Config(m) => m@,
            Error::Runtime(m) => m@,
            Error::Serde(m) => m@,
            Error::Snyk(m) => m@,
            Error::Sbom(m) => m@,
        }
    }

    /// Renders the error as `label::message`.
    pub fn message(&self) -> (r: String)
        ensures
            r@ == self.rendered_spec(),
    {
        let mut out = String::new();
        out.append(self.label());
        out.append("::");
        match self {
            Error::Config(m) => out.append(m.as_str()),
            Error::Runtime(m) => out.append(m.as_str()),
            Error::Serde(m) => out.append(m.as_str()),
            Error::Snyk(m) => out.append(m.as_str()),
            Error::Sbom(m) => out.append(m.as_str()),
        }
        out
    }

    /// What `message` returns: the label, a separator, and the message.
    pub open spec fn rendered_spec(&self) -> Seq<char> {
        self.label_spec() + "::"@ + self.message_spec()
    }
}

} // verus!
