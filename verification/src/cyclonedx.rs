//! A subset of the CycloneDX document model: the records the
//! normalizer and its callers exchange about organizations, SWID
//! tags and impact analysis.

use vstd::prelude::*;

verus! {

/// The rationale of why an impact analysis state was asserted.
#[derive(Debug, Clone, Copy, PartialEq, Eq, Structural)]
pub enum ImpactAnalysisJustification {
    /// The code has been removed or tree-shaken.
    CodeNotPresent,
    /// The vulnerable code is not invoked at runtime.
    CodeNotReachable,
    /// Exploitability requires a configurable option to be set.
    RequiresConfiguration,
    /// Exploitability requires a dependency that is not present.
    RequiresDependency,
    /// Exploitability requires an environment that is not present.
    RequiresEnvironment,
    /// Exploitability requires a compiler flag to be set.
    ProtectedByCompiler,
    /// Exploits are prevented at runtime.
    ProtectedAtRuntime,
    /// Attacks are blocked at the perimeter.
    ProtectedAtPerimeter,
    /// Preventative measures reduce likelihood or impact.
    ProtectedByMitigatingControl,
}

impl ImpactAnalysisJustification {
    /// The wire label of the justification.
    pub open spec fn label_spec(&self) -> Seq<char> {
        match self {
            ImpactAnalysisJustification::CodeNotPresent => "code_not_present"@,
            ImpactAnalysisJustification::CodeNotReachable => "code_not_reachable"@,
            ImpactAnalysisJustification::RequiresConfiguration => "requires_configuration"@,
            ImpactAnalysisJustification::RequiresDependency => "requires_dependency"@,
            ImpactAnalysisJustification::RequiresEnvironment => "requires_environment"@,
            ImpactAnalysisJustification::ProtectedByCompiler => "protected_by_compiler"@,
            ImpactAnalysisJustification::ProtectedAtRuntime => "protected_at_runtime"@,
            ImpactAnalysisJustification::ProtectedAtPerimeter => "protected_at_perimeter"@,
            ImpactAnalysisJustification::ProtectedByMitigatingControl => (
            "protected_by_mitigating_control"@),
        }
    }

    /// Renders the justification as its wire label.
    pub fn to_text(&self) -> (r: String)
        ensures
            r@ == self.label_spec(),
    {
        let r: &str = match self {
            ImpactAnalysisJustification::CodeNotPresent => "code_not_present",
            ImpactAnalysisJustification::CodeNotReachable => "code_not_reachable",
            ImpactAnalysisJustification::RequiresConfiguration => "requires_configuration",
            ImpactAnalysisJustification::RequiresDependency => "requires_dependency",
            ImpactAnalysisJustification::RequiresEnvironment => "requires_environment",
            ImpactAnalysisJustification::ProtectedByCompiler => "protected_by_compiler",
            ImpactAnalysisJustification::ProtectedAtRuntime => "protected_at_runtime",
            ImpactAnalysisJustification::ProtectedAtPerimeter => "protected_at_perimeter",
            ImpactAnalysisJustification::ProtectedByMitigatingControl => "protected_by_mitigating_control",
        };
        r.to_owned()
    }
}

impl Default for ImpactAnalysisJustification {
    /// The default justification.
    fn default() -> (r: Self)
        ensures
            r == ImpactAnalysisJustification::CodeNotPresent,
    {
        ImpactAnalysisJustification::CodeNotPresent
    }
}

/// A contact at an organization.
#[derive(Debug, Clone)]
pub struct OrganizationalContact {
    /// The contact's name.
    pub name: Option<String>,
    /// The contact's email address.
    pub email: Option<String>,
    /// The contact's phone number.
    pub phone: Option<String>,
}

/// An organization a document refers to.
#[derive(Debug, Clone)]
pub struct OrganizationalEntity {
    /// The name of the organization.
    pub name: Option<String>,
    /// The URLs of the organization; multiple are allowed.
    pub url: Option<Vec<String>>,
    /// Contacts at the organization; multiple are allowed.
    pub contact: Option<Vec<OrganizationalContact>>,
}

impl OrganizationalEntity {
    /// An empty organization record.
    pub fn new() -> (r: OrganizationalEntity)
        ensures
            r.name is None,
            r.url is None,
            r.contact is None,
    {
        OrganizationalEntity { name: None, url: None, contact: None }
    }
}

/// Content attached to a document field.
#[derive(Debug, Clone)]
pub struct Attachment {
    /// The attached content.
    pub content: String,
    /// The media type of the content.
    pub content_type: Option<String>,
    /// The encoding the content is stored in.
    pub encoding: Option<String>,
}

/// Metadata and content for an ISO-IEC 19770-2 Software
/// Identification (SWID) tag.
#[derive(Debug, Clone)]
pub struct Swid {
    /// Maps to the tag identifier of a software identity.
    pub tag_id: String,
    /// Maps to the name of a software identity.
    pub name: String,
    /// Maps to the version of a software identity.
    pub version: Option<String>,
    /// Maps to the tag version of a software identity.
    pub tag_version: Option<i32>,
    /// Maps to the patch flag of a software identity.
    pub patch: Option<bool>,
    /// The tag file's content.
    pub text: Option<Box<Attachment>>,
    /// The URL to the SWID file.
    pub url: Option<String>,
}

impl Swid {
    /// A tag carrying only its identifier and name.
    pub fn new(tag_id: String, name: String) -> (r: Swid)
        ensures
            r.tag_id@ == tag_id@,
            r.name@ == name@,
            r.version is None,
            r.tag_version is None,
            r.patch is None,
            r.text is None,
            r.url is None,
    {
        Swid { tag_id, name, version: None, tag_version: None, patch: None, text: None, url: None }
    }
}

} // verus!
