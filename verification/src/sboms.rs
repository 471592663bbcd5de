//! The SBOM aggregate: one record per synchronization of one target,
//! an append-only historical snapshot of the root package and its
//! dependency entries.

use crate::packages::opt_view;
use crate::packages::Component;
use crate::packages::Package;
use vstd::prelude::*;

verus! {

/// The raw encoding of a CycloneDX document.
#[derive(Debug, Clone, Copy, PartialEq, Eq, Structural)]
pub enum CdxFormat {
    /// JSON encoding.
    Json,
    /// XML encoding.
    Xml,
}

impl CdxFormat {
    /// The file extension under which raw documents are archived.
    pub open spec fn extension_spec(&self) -> Seq<char> {
        match self {
            CdxFormat::Json => "json"@,
            CdxFormat::Xml => "xml"@,
        }
    }

    /// The extension as text.
    pub fn extension(&self) -> (r: &'static str)
        ensures
            r@ == self.extension_spec(),
    {
        match self {
            CdxFormat::Json => "json",
            CdxFormat::Xml => "xml",
        }
    }
}

/// Discriminator for the strategy that produced a set of SBOMs.
#[derive(Debug, Clone)]
pub enum SbomProviderKind {
    /// Documents generated from the local filesystem.
    FileSystem,
    /// Documents generated from the GitHub API.
    GitHub,
    /// Documents generated from the Snyk API at a pinned version.
    Snyk {
        /// The API version the documents were fetched at.
        api_version: String,
    },
}

/// Where a document came from.
#[derive(Debug, Clone)]
pub enum Source {
    /// Generated by this system through a provider.
    Harbor(SbomProviderKind),
    /// Supplied by a named vendor.
    Vendor(String),
}

/// One dependency entry of an SBOM aggregate: the component the
/// document describes, if it could be extracted.
#[derive(Debug)]
pub struct Dependency {
    /// The component description, if present in the document.
    pub component: Option<Component>,
}

impl Clone for Dependency {
    fn clone(&self) -> (res: Self)
        ensures
            res == *self,
    {
        Dependency {
            component: match &self.component {
                None => None,
                Some(c) => Some(c.clone()),
            },
        }
    }
}

/// The raw package URL text of a dependency's component, if any.
pub open spec fn dependency_purl_spec(d: Dependency) -> Option<Seq<char>> {
    match d.component {
        None => None,
        Some(c) => opt_view(c.purl),
    }
}

impl Dependency {
    /// The raw package URL text carried by the entry's component.
    pub fn purl(&self) -> (r: Option<String>)
        ensures
            opt_view(r) == dependency_purl_spec(*self),
    {
        match &self.component {
            None => None,
            Some(c) => match &c.purl {
                None => None,
                Some(p) => Some(p.clone()),
            },
        }
    }
}

/// The mathematical content of an SBOM aggregate.
pub ghost struct SbomV {
    /// The identifier assigned by the store.
    pub id: Seq<char>,
    /// The provider and strategy that produced the document.
    pub source: Source,
    /// The raw encoding of the document.
    pub format: CdxFormat,
    /// The package manager the target reported, if any.
    pub package_manager: Option<Seq<char>>,
    /// The root component the document describes.
    pub component: Option<Component>,
    /// The package record the root component resolves to.
    pub package: Option<crate::packages::PackageV>,
    /// The dependency entries, in document order.
    pub dependencies: Seq<Dependency>,
    /// The iteration of this sync.
    pub instance: u32,
    /// The Unix timestamp of persistence.
    pub timestamp: u64,
    /// The provenance of the target.
    pub xrefs: Seq<crate::xrefs::Xref>,
}

/// One synchronization of one target: the root package, its
/// dependency entries, and the source and format metadata. Never
/// merged or overwritten once persisted.
#[derive(Debug)]
pub struct Sbom {
    /// The identifier assigned by the store at insertion.
    pub id: String,
    /// The provider and strategy that produced the document.
    pub source: Source,
    /// The raw encoding of the document.
    pub format: CdxFormat,
    /// The package manager the target reported, if any.
    pub package_manager: Option<String>,
    /// The root component the document describes.
    pub component: Option<Component>,
    /// The package record the root component resolves to.
    pub package: Option<Package>,
    /// The dependency entries, in document order.
    pub dependencies: Vec<Dependency>,
    /// The iteration of this sync of the root identity; stamped by
    /// the versioning resolver before persistence.
    pub instance: u32,
    /// The Unix timestamp of persistence; zero until the document is
    /// committed.
    pub timestamp: u64,
    /// The provenance of the target this document was fetched for.
    pub xrefs: Vec<crate::xrefs::Xref>,
}

impl View for Sbom {
    type V = SbomV;

    open spec fn view(&self) -> SbomV {
        SbomV {
            id: self.id@,
            source: self.source,
            format: self.format,
            package_manager: opt_view(self.package_manager),
            component: self.component,
            package: (match self.package {
                None => None,
                Some(p) => Some(p@),
            }),
            dependencies: self.dependencies@,
            instance: self.instance,
            timestamp: self.timestamp,
            xrefs: self.xrefs@,
        }
    }
}

impl Sbom {
    /// The iteration stamped on this sync.
    pub fn iteration(&self) -> (r: u32)
        ensures
            r == self.instance,
    {
        self.instance
    }

    /// The root component, if the document reported one.
    pub fn component(&self) -> (r: Option<Component>)
        ensures
            r == self.component,
    {
        match &self.component {
            None => None,
            Some(c) => Some(c.clone()),
        }
    }
}


/// The component view of a dependency entry, if the entry carries
/// one.
pub open spec fn dep_view(d: Dependency) -> Option<crate::packages::ComponentV> {
    match d.component {
        None => None,
        Some(c) => Some(c@),
    }
}

/// The dependency entry an extracted list element resolves to under
/// an ecosystem hint.
pub open spec fn dep_of_raw(
    rc: Option<crate::jsonio::RawComponentV>,
    pm: Option<Seq<char>>,
) -> Option<crate::packages::ComponentV> {
    match rc {
        None => None,
        Some(rc) => Some(crate::packages::component_from_raw(rc, pm)),
    }
}

/// Builds the component record for an extracted description under an
/// ecosystem hint.
fn build_component(rc: &crate::jsonio::RawComponent, hint: &Option<String>) -> (r: Component)
    ensures
        r@ == crate::packages::component_from_raw(rc@, opt_view(*hint)),
{
    Component {
        name: rc.name.clone(),
        version: match &rc.version {
            None => None,
            Some(v) => Some(v.clone()),
        },
        purl: match &rc.purl {
            None => None,
            Some(v) => Some(v.clone()),
        },
        package_manager: match hint {
            None => None,
            Some(m) => Some(m.clone()),
        },
        group: match &rc.group {
            None => None,
            Some(v) => Some(v.clone()),
        },
    }
}

impl Sbom {
    /// Normalizes a raw CycloneDX document into the internal
    /// aggregate: the root component from the document metadata, one
    /// dependency entry per listed component, the package record the
    /// root resolves to, and the given source and format metadata.
    /// The iteration and the timestamp stay unset until the resolver
    /// and the commit fill them. Succeeds exactly when the text
    /// parses and names a root component; the aggregate's content is
    /// fixed by what the document names.
    pub fn from_raw_cdx(
        raw: &str,
        format: CdxFormat,
        source: Source,
        package_manager: &Option<String>,
        xref: crate::xrefs::Xref,
    ) -> (r: Result<Sbom, crate::errors::Error>)
        ensures
            r is Ok <==> (crate::jsonio::json_parse_ok(raw@) && crate::jsonio::cdx_root_of(raw@)
                is Some),
            !crate::jsonio::json_parse_ok(raw@) ==> (r matches Err(e) && e matches crate::errors::Error::Serde(_m)),
            r matches Err(e) ==> (crate::jsonio::json_parse_ok(raw@) ==> (e
                matches crate::errors::Error::Sbom(m) && m@ == "metadata_component_none"@)),
            r matches Ok(s) ==> s@.id == Seq::<char>::empty() && s@.source == source && s@.format
                == format && s@.package_manager == opt_view(*package_manager) && s@.instance == 0
                && s@.timestamp == 0 && s@.xrefs == seq![xref],
            r matches Ok(s) ==> (crate::jsonio::cdx_root_of(raw@) matches Some(rc)
                && (s@.component matches Some(c) && c@ == crate::packages::component_from_raw(
                rc,
                opt_view(*package_manager),
            )) && (s@.package is Some <==> !crate::packages::raw_malformed(
                rc,
                opt_view(*package_manager),
            )) && (s@.package matches Some(p) ==> (s@.component matches Some(c2) && p
                == crate::packages::package_of_component(c2, xref)))),
            r matches Ok(s) ==> (s@.dependencies.len() == crate::jsonio::cdx_components_of(
                raw@,
            ).len() && (forall|i: int|
                0 <= i < s@.dependencies.len() ==> dep_view(#[trigger] s@.dependencies[i])
                    == dep_of_raw(
                    crate::jsonio::cdx_components_of(raw@)[i],
                    opt_view(*package_manager),
                ))),
    {
        match crate::jsonio::parse_json(raw) {
            Err(msg) => {
                return Err(crate::errors::Error::Serde(msg));
            },
            Ok(_) => {},
        }
        let root_raw = match crate::jsonio::cdx_root(raw) {
            None => {
                return Err(crate::errors::Error::Sbom("metadata_component_none".to_owned()));
            },
            Some(rc) => rc,
        };
        let ghost rootv = root_raw@;
        let root = build_component(&root_raw, package_manager);
        let package = crate::packages::Package::from_component(&root, xref.clone());
        proof {
            crate::packages::lemma_component_from_raw(root, rootv, opt_view(*package_manager));
        }
        let comps = crate::jsonio::cdx_components(raw);
        let ghost compsv = crate::jsonio::raw_seq_view(comps@);
        let mut dependencies: Vec<Dependency> = Vec::new();
        let n = comps.len();
        for i in 0..n
            invariant
                n == comps@.len(),
                compsv == crate::jsonio::raw_seq_view(comps@),
                dependencies@.len() == i,
                forall|j: int|
                    0 <= j < i ==> dep_view(#[trigger] dependencies@[j]) == dep_of_raw(
                        compsv[j],
                        opt_view(*package_manager),
                    ),
        {
            let d = match &comps[i] {
                None => Dependency { component: None },
                Some(rc) => Dependency { component: Some(build_component(rc, package_manager)) },
            };
            dependencies.push(d);
        }
        let mut xrefs: Vec<crate::xrefs::Xref> = Vec::new();
        xrefs.push(xref);
        proof {
            assert(xrefs@ =~= seq![xref]);
        }
        Ok(
            Sbom {
                id: String::new(),
                source,
                format,
                package_manager: (match package_manager {
                    None => None,
                    Some(m) => Some(m.clone()),
                }),
                component: Some(root),
                package,
                dependencies,
                instance: 0,
                timestamp: 0,
                xrefs,
            },
        )
    }
}

} // verus!
