//! The command surface: which generation strategy to invoke and the
//! arguments each strategy takes. Argument parsing itself happens
//! outside the library; the strategy selector is plain logic.

use crate::strings::lower_chars;
use crate::strings::lower_eq;
use vstd::prelude::*;

verus! {

/// Enumerates which SBOM generation strategy to employ.
#[derive(Debug, Clone, Copy, PartialEq, Eq, Structural)]
pub enum SbomProviderKind {
    /// Generate a single SBOM from the local filesystem.
    FileSystem,
    /// Generate one or more SBOMs from the GitHub API.
    GitHub,
    /// Generate one or more SBOMs from the Snyk API.
    Snyk,
}

/// The strategy a selector string names, folded to lower case: full
/// names and their short forms are accepted, anything else refused.
pub open spec fn provider_kind_of(s: Seq<char>) -> Result<SbomProviderKind, ()> {
    let l = lower_chars(s);
    if l == "filesystem"@ || l == "f"@ {
        Ok(SbomProviderKind::FileSystem)
    } else if l == "github"@ || l == "gh"@ || l == "g"@ {
        Ok(SbomProviderKind::GitHub)
    } else if l == "snyk"@ || l == "s"@ {
        Ok(SbomProviderKind::Snyk)
    } else {
        Err(())
    }
}

impl SbomProviderKind {
    /// Selects the strategy a string names, case-insensitively.
    pub fn from_str(s: &str) -> (r: Result<SbomProviderKind, ()>)
        ensures
            r == provider_kind_of(s@),
    {
        if lower_eq(s, "filesystem") || lower_eq(s, "f") {
            Ok(SbomProviderKind::FileSystem)
        } else if lower_eq(s, "github") || lower_eq(s, "gh") || lower_eq(s, "g") {
            Ok(SbomProviderKind::GitHub)
        } else if lower_eq(s, "snyk") || lower_eq(s, "s") {
            Ok(SbomProviderKind::Snyk)
        } else {
            Err(())
        }
    }

    /// The canonical selector string of the strategy.
    pub fn label(&self) -> (r: &'static str)
        ensures
            (match self {
                SbomProviderKind::FileSystem => r@ == "filesystem"@,
                SbomProviderKind::GitHub => r@ == "github"@,
                SbomProviderKind::Snyk => r@ == "snyk"@,
            }),
    {
        match self {
            SbomProviderKind::FileSystem => "filesystem",
            SbomProviderKind::GitHub => "github",
            SbomProviderKind::Snyk => "snyk",
        }
    }
}

/// Arguments for generating an SBOM from the filesystem.
#[derive(Debug, Clone)]
pub struct FileSystemArgs {}

/// Arguments for generating SBOMs from a GitHub organization.
#[derive(Debug, Clone)]
pub struct GitHubArgs {}

/// Arguments for generating SBOMs from the Snyk API.
#[derive(Debug, Clone)]
pub struct SnykArgs {
    /// The Snyk organization id of the SBOM target.
    pub org_id: Option<String>,
    /// The Snyk project id of the SBOM target.
    pub project_id: Option<String>,
}

/// The arguments of the SBOM command.
#[derive(Debug)]
pub struct SbomArgs {
    /// Which SBOM provider to invoke.
    pub provider: SbomProviderKind,
    /// Whether to run against the local debug environment.
    pub debug: bool,
    /// Arguments for the filesystem provider.
    pub filesystem_args: Option<FileSystemArgs>,
    /// Arguments for the GitHub provider.
    pub github_args: Option<GitHubArgs>,
    /// Arguments for the Snyk provider.
    pub snyk_args: Option<SnykArgs>,
}

} // verus!
