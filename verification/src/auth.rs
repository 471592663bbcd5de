//! The kinds of resources for which access policies can be defined.

use vstd::prelude::*;

verus! {

/// Enumerates the kinds of resources a policy can apply to.
#[derive(Debug, Clone, Copy, PartialEq, Eq, Structural)]
pub enum ResourceKind {
    /// A policy that applies to any resource.
    Any,
    /// A policy that applies to a team.
    Team,
    /// A policy that applies to a project.
    Project,
    /// A policy that applies to a codebase.
    Codebase,
    /// A policy that applies to a token.
    Token,
    /// A policy that applies to a group.
    Group,
}

impl ResourceKind {
    /// The label the kind is rendered as.
    pub open spec fn label_spec(&self) -> Seq<char> {
        match self {
            ResourceKind::Any => "*"@,
            ResourceKind::Team => "team"@,
            ResourceKind::Project => "project"@,
            ResourceKind::Codebase => "codebase"@,
            ResourceKind::Token => "token"@,
            ResourceKind::Group => "group"@,
        }
    }

    /// Renders the kind as its label.
    pub fn to_text(&self) -> (r: String)
        ensures
            r@ == self.label_spec(),
    {
        let r: &str = match self {
            ResourceKind::Any => "*",
            ResourceKind::Team => "team",
            ResourceKind::Project => "project",
            ResourceKind::Codebase => "codebase",
            ResourceKind::Token => "token",
            ResourceKind::Group => "group",
        };
        r.to_owned()
    }
}

} // verus!
