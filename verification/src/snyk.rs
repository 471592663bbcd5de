//! The provider adapter model: target descriptors as the Snyk API
//! reports them, the supported ecosystem set, and the pure response
//! shaping that turns raw adapter answers into targets or errors.
//! The network calls themselves live outside the library; these
//! functions take what the calls returned.

use crate::errors::Error;
use crate::packages::Unsupported;
use crate::strings::str_eq;
use crate::xrefs::Xref;
use vstd::prelude::*;
use vstd::string::StringExecFns;

verus! {

/// The version of the provider API documents are fetched at.
pub const API_VERSION: &'static str = "2023-03-08";

/// An organization known to the provider.
#[derive(Debug)]
pub struct Organization {
    /// The provider's identifier for the organization.
    pub id: String,
    /// The organization's name.
    pub name: String,
    /// The provider's identifier for the owning group.
    pub group_id: String,
    /// The owning group's name.
    pub group_name: String,
}

impl Clone for Organization {
    fn clone(&self) -> (res: Self)
        ensures
            res == *self,
    {
        Organization {
            id: self.id.clone(),
            name: self.name.clone(),
            group_id: self.group_id.clone(),
            group_name: self.group_name.clone(),
        }
    }
}

/// The lifecycle state of a project.
#[derive(Debug, Clone, Copy, PartialEq, Eq, Structural)]
pub enum ProjectStatus {
    /// The project is active and should be synchronized.
    Active,
    /// The project is inactive and is skipped silently.
    Inactive,
}

/// One target: a project known to the provider, in the context of
/// its organization and group.
#[derive(Debug)]
pub struct Project {
    /// The provider's identifier for the owning group.
    pub group_id: String,
    /// The owning group's name.
    pub group_name: String,
    /// The provider's identifier for the organization.
    pub org_id: String,
    /// The organization's name.
    pub org_name: String,
    /// The provider's identifier for the project.
    pub project_id: String,
    /// The project's name.
    pub project_name: String,
    /// The ecosystem or package manager of the project.
    pub package_manager: String,
    /// The lifecycle state of the project.
    pub status: ProjectStatus,
}

impl Clone for Project {
    fn clone(&self) -> (res: Self)
        ensures
            res == *self,
    {
        Project {
            group_id: self.group_id.clone(),
            group_name: self.group_name.clone(),
            org_id: self.org_id.clone(),
            org_name: self.org_name.clone(),
            project_id: self.project_id.clone(),
            project_name: self.project_name.clone(),
            package_manager: self.package_manager.clone(),
            status: self.status,
        }
    }
}

/// A reference tying a target back to the provider's identifiers.
#[derive(Debug)]
pub struct SnykRef {
    /// The provider's identifier for the organization.
    pub org_id: String,
    /// The organization's name.
    pub org_name: String,
    /// The provider's identifier for the owning group.
    pub group_id: String,
    /// The owning group's name.
    pub group_name: String,
    /// The provider's identifier for the project.
    pub project_id: String,
    /// The project's name.
    pub project_name: String,
}

impl Clone for SnykRef {
    fn clone(&self) -> (res: Self)
        ensures
            res == *self,
    {
        SnykRef {
            org_id: self.org_id.clone(),
            org_name: self.org_name.clone(),
            group_id: self.group_id.clone(),
            group_name: self.group_name.clone(),
            project_id: self.project_id.clone(),
            project_name: self.project_name.clone(),
        }
    }
}

impl SnykRef {
    /// The provenance record for this target.
    pub fn to_xref(&self) -> (r: Xref)
        ensures
            r.provider@ == "snyk"@,
            r.org_id@ == self.org_id@,
            r.project_id@ == self.project_id@,
    {
        Xref {
            provider: "snyk".to_owned(),
            org_id: self.org_id.clone(),
            project_id: self.project_id.clone(),
        }
    }
}

impl Project {
    /// The reference carrying this target's provider identifiers.
    pub fn to_snyk_ref(&self) -> (r: SnykRef)
        ensures
            r.org_id@ == self.org_id@,
            r.org_name@ == self.org_name@,
            r.group_id@ == self.group_id@,
            r.group_name@ == self.group_name@,
            r.project_id@ == self.project_id@,
            r.project_name@ == self.project_name@,
    {
        SnykRef {
            org_id: self.org_id.clone(),
            org_name: self.org_name.clone(),
            group_id: self.group_id.clone(),
            group_name: self.group_name.clone(),
            project_id: self.project_id.clone(),
            project_name: self.project_name.clone(),
        }
    }

    /// The provenance record for this target.
    pub fn to_xref(&self) -> (r: Xref)
        ensures
            r.provider@ == "snyk"@,
            r.org_id@ == self.org_id@,
            r.project_id@ == self.project_id@,
    {
        Xref {
            provider: "snyk".to_owned(),
            org_id: self.org_id.clone(),
            project_id: self.project_id.clone(),
        }
    }

    /// The unsupported marker for this target, keyed by the
    /// provider's project identifier.
    pub fn to_unsupported(&self) -> (r: Unsupported)
        ensures
            r@.external_id == self.project_id@,
            r@.name == self.project_name@,
            r@.package_manager matches Some(m) && m == self.package_manager@,
            r@.xrefs.len() == 1 && r@.xrefs[0].provider@ == "snyk"@ && r@.xrefs[0].org_id@
                == self.org_id@ && r@.xrefs[0].project_id@ == self.project_id@,
    {
        let mut xrefs: Vec<Xref> = Vec::new();
        xrefs.push(self.to_xref());
        Unsupported {
            external_id: self.project_id.clone(),
            name: self.project_name.clone(),
            package_manager: Some(self.package_manager.clone()),
            xrefs,
        }
    }
}

/// The ecosystems the normalizer supports.
pub open spec fn supported_manager(m: Seq<char>) -> bool {
    ||| m == "npm"@
    ||| m == "yarn"@
    ||| m == "maven"@
    ||| m == "gradle"@
    ||| m == "pip"@
    ||| m == "poetry"@
    ||| m == "rubygems"@
    ||| m == "nuget"@
    ||| m == "gomodules"@
    ||| m == "composer"@
    ||| m == "cargo"@
    ||| m == "cocoapods"@
    ||| m == "hex"@
    ||| m == "sbt"@
}

/// Whether a package manager is in the supported set.
pub fn is_supported_manager(m: &str) -> (r: bool)
    ensures
        r == supported_manager(m@),
{
    str_eq(m, "npm") || str_eq(m, "yarn") || str_eq(m, "maven") || str_eq(m, "gradle") || str_eq(
        m,
        "pip",
    ) || str_eq(m, "poetry") || str_eq(m, "rubygems") || str_eq(m, "nuget") || str_eq(
        m,
        "gomodules",
    ) || str_eq(m, "composer") || str_eq(m, "cargo") || str_eq(m, "cocoapods") || str_eq(m, "hex")
        || str_eq(m, "sbt")
}

/// Provides access to provider data. The network client lives
/// outside the library; the service's decision logic takes the
/// client's answers as arguments.
#[derive(Debug)]
pub struct SnykService {
    /// The API token the client authenticates with.
    pub token: String,
}

impl SnykService {
    /// Creates the service around an API token.
    pub fn new(token: String) -> (r: Self)
        ensures
            r.token@ == token@,
    {
        Self { token }
    }
}

/// Shapes the answer of the organization listing: no answer and an
/// empty listing are run-level errors, anything else is the listing.
pub fn orgs_from_response(response: Option<Vec<Organization>>) -> (r: Result<
    Vec<Organization>,
    Error,
>)
    ensures
        response is None ==> (r matches Err(e) && e matches Error::Snyk(m) && m@
            == "orgs_not_found"@),
        response matches Some(v) && v@.len() == 0 ==> (r matches Err(e) && e matches Error::Snyk(m)
            && m@ == "orgs_empty"@),
        response matches Some(v) ==> (v@.len() > 0 ==> r == Result::<Vec<Organization>,
            Error,
        >::Ok(v)),
{
    match response {
        None => Err(Error::Snyk("orgs_not_found".to_owned())),
        Some(orgs) => {
            if orgs.len() == 0 {
                Err(Error::Snyk("orgs_empty".to_owned()))
            } else {
                Ok(orgs)
            }
        },
    }
}

/// The error message for a failed project listing of one
/// organization.
pub open spec fn projects_error_message(org_name: Seq<char>, org_id: Seq<char>, tail: Seq<
    char,
>) -> Seq<char> {
    "projects::org_name::"@ + org_name + "::org_id::"@ + org_id + "::"@ + tail
}

/// Builds the error message for a failed project listing.
fn projects_error(org: &Organization, tail: &str) -> (r: String)
    ensures
        r@ == projects_error_message(org.name@, org.id@, tail@),
{
    let mut msg: String = "projects::org_name::".to_owned();
    msg.append(org.name.as_str());
    msg.append("::org_id::");
    msg.append(org.id.as_str());
    msg.append("::");
    msg.append(tail);
    msg
}

/// Shapes the answer of one organization's project listing: no
/// answer and an empty listing are errors naming the organization,
/// anything else is the listing.
pub fn projects_from_response(org: &Organization, response: Option<Vec<Project>>) -> (r: Result<
    Vec<Project>,
    Error,
>)
    ensures
        response is None ==> (r matches Err(e) && e matches Error::Snyk(m) && m@
            == projects_error_message(org.name@, org.id@, "projects_not_found"@)),
        response matches Some(v) && v@.len() == 0 ==> (r matches Err(e) && e matches Error::Snyk(m)
            && m@ == projects_error_message(org.name@, org.id@, "projects_empty"@)),
        response matches Some(v) ==> (v@.len() > 0 ==> r == Result::<Vec<Project>, Error>::Ok(v)),
{
    match response {
        None => Err(Error::Snyk(projects_error(org, "projects_not_found"))),
        Some(projects) => {
            if projects.len() == 0 {
                Err(Error::Snyk(projects_error(org, "projects_empty")))
            } else {
                Ok(projects)
            }
        },
    }
}

/// The projects gathered from a sequence of per-organization
/// listings: failed listings are skipped, successful ones extend the
/// gathering in order.
pub open spec fn collected_projects(s: Seq<Result<Vec<Project>, Error>>) -> Seq<Project>
    decreases s.len(),
{
    if s.len() == 0 {
        Seq::empty()
    } else {
        (match s[0] {
            Ok(v) => v@,
            Err(_) => Seq::<Project>::empty(),
        }) + collected_projects(s.drop_first())
    }
}

/// Gathers all projects across the per-organization listings so the
/// batch can process them linearly; a failed listing skips that
/// organization and the gathering continues.
pub fn collect_projects(results: Vec<Result<Vec<Project>, Error>>) -> (r: Vec<Project>)
    ensures
        r@ == collected_projects(results@),
{
    let ghost total = results@;
    let mut rem = results;
    let mut out: Vec<Project> = Vec::new();
    proof {
        assert(out@ + collected_projects(rem@) =~= collected_projects(total));
    }
    while rem.len() > 0
        invariant
            out@ + collected_projects(rem@) == collected_projects(total),
        decreases rem@.len(),
    {
        let ghost rem0 = rem@;
        let head = rem.remove(0);
        proof {
            assert(rem@ =~= rem0.drop_first());
            assert(head == rem0[0]);
        }
        match head {
            Ok(v) => {
                let ghost out0 = out@;
                let m = v.len();
                for j in 0..m
                    invariant
                        m == v@.len(),
                        out@ =~= out0 + v@.take(j as int),
                {
                    out.push(v[j].clone());
                    proof {
                        assert(out@ =~= out0 + v@.take(j + 1));
                    }
                }
                proof {
                    assert(v@.take(m as int) =~= v@);
                    assert(out@ + collected_projects(rem@) =~= (out0 + v@) + collected_projects(
                        rem0.drop_first(),
                    ));
                    assert((out0 + v@) + collected_projects(rem0.drop_first()) =~= out0
                        + collected_projects(rem0));
                }
            },
            Err(_) => {
                proof {
                    assert(out@ + collected_projects(rem@) =~= out@ + collected_projects(rem0));
                }
            },
        }
    }
    proof {
        assert(collected_projects(rem@) =~= Seq::<Project>::empty());
        assert(out@ + collected_projects(rem@) =~= out@);
    }
    out
}

/// Shapes the answer of a raw document fetch: no answer and an empty
/// document are errors, anything else is the document text.
pub fn sbom_raw_from_response(response: Option<String>) -> (r: Result<String, Error>)
    ensures
        response is None ==> (r matches Err(e) && e matches Error::Snyk(m) && m@
            == "sbom_raw::sbom::none"@),
        response matches Some(s) && s@.len() == 0 ==> (r matches Err(e) && e matches Error::Snyk(m)
            && m@ == "sbom_raw::sbom::empty"@),
        response matches Some(s) ==> (s@.len() > 0 ==> r == Result::<String, Error>::Ok(s)),
{
    match response {
        None => Err(Error::Snyk("sbom_raw::sbom::none".to_owned())),
        Some(raw) => {
            if raw.as_str().is_empty() {
                Err(Error::Snyk("sbom_raw::sbom::empty".to_owned()))
            } else {
                Ok(raw)
            }
        },
    }
}

} // verus!
