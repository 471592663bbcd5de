//! Component identity: canonicalizes a component's coordinates into a
//! stable key used for deduplication and upsert addressing, and the
//! identity and package records stored under such keys.

use crate::errors::Error;
use crate::tasks::Task;
use crate::tasks::TaskRef;
use crate::xrefs::Xref;
use vstd::prelude::*;
use vstd::string::StringExecFns;

verus! {

/// Distinguishes a root package identity from a dependency identity.
/// Two components with the same coordinates but different kinds are
/// distinct identities.
#[derive(Debug, Clone, Copy, PartialEq, Eq, Structural)]
pub enum ComponentKind {
    /// The root package an SBOM describes.
    Package,
    /// A dependency of the root package.
    Dependency,
}

impl ComponentKind {
    /// The tag under which the kind appears in a canonical key.
    pub open spec fn tag_spec(&self) -> Seq<char> {
        match self {
            ComponentKind::Package => "package"@,
            ComponentKind::Dependency => "dependency"@,
        }
    }

    /// The tag as text.
    pub fn tag(&self) -> (r: &'static str)
        ensures
            r@ == self.tag_spec(),
    {
        match self {
            ComponentKind::Package => "package",
            ComponentKind::Dependency => "dependency",
        }
    }
}

/// The view of an optional string.
pub open spec fn opt_view(o: Option<String>) -> Option<Seq<char>> {
    match o {
        None => None,
        Some(s) => Some(s@),
    }
}

/// The mathematical content of a component description.
pub ghost struct ComponentV {
    /// The component's name.
    pub name: Seq<char>,
    /// The component's version, if reported.
    pub version: Option<Seq<char>>,
    /// The raw package URL text, if reported.
    pub purl: Option<Seq<char>>,
    /// The ecosystem or package manager, if known.
    pub package_manager: Option<Seq<char>>,
    /// The namespace (group), if reported.
    pub group: Option<Seq<char>>,
}

/// A component description as a document reports it.
#[derive(Debug)]
pub struct Component {
    /// The component's name.
    pub name: String,
    /// The component's version, if reported.
    pub version: Option<String>,
    /// The raw package URL text from the document, if reported.
    pub purl: Option<String>,
    /// The ecosystem or package manager the component belongs to.
    pub package_manager: Option<String>,
    /// The namespace (group) within the ecosystem, if reported.
    pub group: Option<String>,
}

impl View for Component {
    type V = ComponentV;

    open spec fn view(&self) -> ComponentV {
        ComponentV {
            name: self.name@,
            version: opt_view(self.version),
            purl: opt_view(self.purl),
            package_manager: opt_view(self.package_manager),
            group: opt_view(self.group),
        }
    }
}

impl Clone for Component {
    fn clone(&self) -> (res: Self)
        ensures
            res == *self,
    {
        Component {
            name: self.name.clone(),
            version: match &self.version {
                None => None,
                Some(s) => Some(s.clone()),
            },
            purl: match &self.purl {
                None => None,
                Some(s) => Some(s.clone()),
            },
            package_manager: match &self.package_manager {
                None => None,
                Some(s) => Some(s.clone()),
            },
            group: match &self.group {
                None => None,
                Some(s) => Some(s.clone()),
            },
        }
    }
}

/// Whether the component lacks the fields an identity requires: the
/// ecosystem and a nonempty name.
pub open spec fn component_malformed(c: Component) -> bool {
    ||| c.package_manager is None
    ||| c.package_manager matches Some(m) && m@.len() == 0
    ||| c.name@.len() == 0
}

/// The canonical key of a component identity: ecosystem, namespace,
/// name, version and kind, rendered in one fixed shape. Equal inputs
/// always yield an equal key.
pub open spec fn canonical_key_spec(
    ecosystem: Seq<char>,
    namespace: Option<Seq<char>>,
    name: Seq<char>,
    version: Option<Seq<char>>,
    kind: ComponentKind,
) -> Seq<char> {
    "pkg:"@ + ecosystem + "/"@ + (match namespace {
        Some(ns) => ns + "/"@,
        None => Seq::<char>::empty(),
    }) + name + (match version {
        Some(v) => "@"@ + v,
        None => Seq::<char>::empty(),
    }) + "#"@ + kind.tag_spec()
}

/// The canonical key a component resolves to under a kind.
pub open spec fn component_key_spec(c: Component, kind: ComponentKind) -> Seq<char> {
    canonical_key_spec(
        (match c.package_manager {
            Some(m) => m@,
            None => Seq::<char>::empty(),
        }),
        opt_view(c.group),
        c.name@,
        opt_view(c.version),
        kind,
    )
}

/// Builds the canonical key for a component, or reports that the
/// component is malformed (no ecosystem, or an empty name).
pub fn canonical_key(c: &Component, kind: ComponentKind) -> (r: Result<String, Error>)
    ensures
        component_malformed(*c) <==> r is Err,
        r matches Ok(s) ==> s@ == component_key_spec(*c, kind),
        r matches Err(e) ==> e matches Error::Sbom(m) && m@ == "malformed_component"@,
{
    let eco = match &c.package_manager {
        None => {
            return Err(Error::Sbom("malformed_component".to_owned()));
        },
        Some(m) => {
            if m.as_str().is_empty() {
                return Err(Error::Sbom("malformed_component".to_owned()));
            }
            m
        },
    };
    if c.name.as_str().is_empty() {
        return Err(Error::Sbom("malformed_component".to_owned()));
    }
    let mut key: String = "pkg:".to_owned();
    key.append(eco.as_str());
    key.append("/");
    match &c.group {
        Some(ns) => {
            key.append(ns.as_str());
            key.append("/");
        },
        None => {},
    }
    key.append(c.name.as_str());
    match &c.version {
        Some(v) => {
            key.append("@");
            key.append(v.as_str());
        },
        None => {},
    }
    key.append("#");
    key.append(kind.tag());
    Ok(key)
}

/// The component description an extracted record resolves to under
/// an ecosystem hint.
pub open spec fn component_from_raw(
    rc: crate::jsonio::RawComponentV,
    pm: Option<Seq<char>>,
) -> ComponentV {
    ComponentV { name: rc.name, version: rc.version, purl: rc.purl, package_manager: pm, group: rc.group }
}

/// Whether an extracted record lacks what an identity requires under
/// an ecosystem hint: the hint and a nonempty name.
pub open spec fn raw_malformed(rc: crate::jsonio::RawComponentV, pm: Option<Seq<char>>) -> bool {
    ||| pm is None
    ||| pm matches Some(m) && m.len() == 0
    ||| rc.name.len() == 0
}

/// The root-package key an extracted record resolves to under an
/// ecosystem.
pub open spec fn raw_key(rc: crate::jsonio::RawComponentV, eco: Seq<char>) -> Seq<char> {
    canonical_key_spec(eco, rc.group, rc.name, rc.version, ComponentKind::Package)
}

/// A component built from an extracted record is malformed exactly
/// when the record is, and resolves to exactly the record's key.
pub proof fn lemma_component_from_raw(
    c: Component,
    rc: crate::jsonio::RawComponentV,
    pm: Option<Seq<char>>,
)
    requires
        c@ == component_from_raw(rc, pm),
    ensures
        component_malformed(c) == raw_malformed(rc, pm),
        pm matches Some(eco) ==> component_key_spec(c, ComponentKind::Package) == raw_key(rc, eco),
{
    assert(opt_view(c.package_manager) == pm);
    assert(opt_view(c.group) == rc.group);
    assert(opt_view(c.version) == rc.version);
    assert(c.name@ == rc.name);
    match c.package_manager {
        None => {
            assert(pm is None);
        },
        Some(m) => {
            assert(pm == Some(m@));
        },
    }
}

/// LAW: identity canonicalization is deterministic. Two components
/// with equal ecosystem, namespace, name and version, canonicalized
/// under the same kind, always resolve to the same key.
pub proof fn lemma_canonical_key_deterministic(a: Component, b: Component, kind: ComponentKind)
    requires
        opt_view(a.package_manager) == opt_view(b.package_manager),
        opt_view(a.group) == opt_view(b.group),
        a.name@ == b.name@,
        opt_view(a.version) == opt_view(b.version),
    ensures
        component_key_spec(a, kind) == component_key_spec(b, kind),
{
}

/// LAW: the kind separates identities. Components canonicalized under
/// different kinds never share a key.
pub proof fn lemma_kind_separates(a: Component, b: Component)
    ensures
        component_key_spec(a, ComponentKind::Package) != component_key_spec(
            b,
            ComponentKind::Dependency,
        ),
{
    let ka = component_key_spec(a, ComponentKind::Package);
    let kb = component_key_spec(b, ComponentKind::Dependency);
    reveal_strlit("package");
    reveal_strlit("dependency");
    assert(ka.last() == 'e');
    assert(kb.last() == 'y');
}

/// The mathematical content of an identity record.
pub ghost struct PurlV {
    /// The canonical key.
    pub purl: Seq<char>,
    /// Root package or dependency.
    pub kind: ComponentKind,
    /// The component name behind the key.
    pub name: Seq<char>,
    /// The component version behind the key, if any.
    pub version: Option<Seq<char>>,
    /// The iteration of the last sync that touched this identity.
    pub iteration: u32,
    /// The task/target pairs that touched this identity.
    pub task_refs: Seq<crate::tasks::TaskRefV>,
    /// Every provenance that has observed this identity.
    pub xrefs: Seq<Xref>,
}

/// The identity record derived from a component observed by a task.
pub open spec fn purl_of_component(
    c: Component,
    kind: ComponentKind,
    task_id: Seq<char>,
    iteration: u32,
    xref: Xref,
) -> PurlV {
    PurlV {
        purl: component_key_spec(c, kind),
        kind,
        name: c.name@,
        version: opt_view(c.version),
        iteration,
        task_refs: seq![
            (crate::tasks::TaskRefV {
                task_id,
                target_id: component_key_spec(c, kind),
                iteration,
                err: None,
            }),
        ],
        xrefs: seq![xref],
    }
}

/// A package identity record: the canonical key, what it names, and
/// the provenance that has observed it. Deduplicated by key; a
/// previously seen identity is merged, never duplicated.
#[derive(Debug)]
pub struct Purl {
    /// The canonical key.
    pub purl: String,
    /// Whether this identity names a root package or a dependency.
    pub kind: ComponentKind,
    /// The component name behind the key.
    pub name: String,
    /// The component version behind the key, if any.
    pub version: Option<String>,
    /// The iteration of the last sync that touched this identity.
    pub iteration: u32,
    /// The task/target pairs that touched this identity.
    pub task_refs: Vec<TaskRef>,
    /// Every provenance that has observed this identity.
    pub xrefs: Vec<Xref>,
}

impl View for Purl {
    type V = PurlV;

    open spec fn view(&self) -> PurlV {
        PurlV {
            purl: self.purl@,
            kind: self.kind,
            name: self.name@,
            version: opt_view(self.version),
            iteration: self.iteration,
            task_refs: self.task_refs@.map(|_i: int, t: TaskRef| t@),
            xrefs: self.xrefs@,
        }
    }
}

impl Clone for Purl {
    fn clone(&self) -> (res: Self)
        ensures
            res@ == self@,
    {
        let mut task_refs: Vec<TaskRef> = Vec::new();
        let n = self.task_refs.len();
        for i in 0..n
            invariant
                n == self.task_refs@.len(),
                task_refs@ =~= self.task_refs@.take(i as int),
        {
            task_refs.push(self.task_refs[i].clone());
            proof {
                assert(task_refs@ =~= self.task_refs@.take(i + 1));
            }
        }
        let mut xrefs: Vec<Xref> = Vec::new();
        let m = self.xrefs.len();
        for i in 0..m
            invariant
                m == self.xrefs@.len(),
                xrefs@ =~= self.xrefs@.take(i as int),
        {
            xrefs.push(self.xrefs[i].clone());
            proof {
                assert(xrefs@ =~= self.xrefs@.take(i + 1));
            }
        }
        proof {
            assert(self.task_refs@.take(n as int) =~= self.task_refs@);
            assert(self.xrefs@.take(m as int) =~= self.xrefs@);
        }
        Purl {
            purl: self.purl.clone(),
            kind: self.kind,
            name: self.name.clone(),
            version: match &self.version {
                None => None,
                Some(s) => Some(s.clone()),
            },
            iteration: self.iteration,
            task_refs,
            xrefs,
        }
    }
}

impl Purl {
    /// Derives the identity record for a component observed by a task
    /// at an iteration, or reports the component malformed.
    pub fn from_component(
        component: &Component,
        kind: ComponentKind,
        task: &Task,
        iteration: u32,
        xref: Xref,
    ) -> (r: Result<Purl, Error>)
        ensures
            component_malformed(*component) <==> r is Err,
            r matches Err(e) ==> e matches Error::Sbom(m) && m@ == "malformed_component"@,
            r matches Ok(p) ==> p@ == purl_of_component(*component, kind, task.id@, iteration, xref),
    {
        let key = canonical_key(component, kind)?;
        let task_ref = TaskRef::new(task, key.clone(), iteration);
        let mut task_refs: Vec<TaskRef> = Vec::new();
        task_refs.push(task_ref);
        let mut xrefs: Vec<Xref> = Vec::new();
        xrefs.push(xref);
        proof {
            assert(task_refs@.map(|_i: int, t: TaskRef| t@) =~= purl_of_component(
                *component,
                kind,
                task.id@,
                iteration,
                xref,
            ).task_refs);
            assert(xrefs@ =~= seq![xref]);
        }
        Ok(
            Purl {
                purl: key,
                kind,
                name: component.name.clone(),
                version: match &component.version {
                    None => None,
                    Some(v) => Some(v.clone()),
                },
                iteration,
                task_refs,
                xrefs,
            },
        )
    }
}

/// The package record derived from a root component observed through
/// a provenance.
pub open spec fn package_of_component(c: Component, xref: Xref) -> PackageV {
    PackageV {
        purl: component_key_spec(c, ComponentKind::Package),
        name: c.name@,
        version: opt_view(c.version),
        xrefs: seq![xref],
    }
}

/// The mathematical content of a package record.
pub ghost struct PackageV {
    /// The canonical key of the root identity.
    pub purl: Seq<char>,
    /// The package name.
    pub name: Seq<char>,
    /// The package version, if reported.
    pub version: Option<Seq<char>>,
    /// Every provenance that has observed this package.
    pub xrefs: Seq<Xref>,
}

/// The logical software package an SBOM's root component resolves
/// to; merged by canonical key across runs.
#[derive(Debug)]
pub struct Package {
    /// The canonical key of the root identity.
    pub purl: String,
    /// The package name.
    pub name: String,
    /// The package version, if reported.
    pub version: Option<String>,
    /// Every provenance that has observed this package.
    pub xrefs: Vec<Xref>,
}

impl View for Package {
    type V = PackageV;

    open spec fn view(&self) -> PackageV {
        PackageV {
            purl: self.purl@,
            name: self.name@,
            version: opt_view(self.version),
            xrefs: self.xrefs@,
        }
    }
}

impl Clone for Package {
    fn clone(&self) -> (res: Self)
        ensures
            res@ == self@,
    {
        let mut xrefs: Vec<Xref> = Vec::new();
        let m = self.xrefs.len();
        for i in 0..m
            invariant
                m == self.xrefs@.len(),
                xrefs@ =~= self.xrefs@.take(i as int),
        {
            xrefs.push(self.xrefs[i].clone());
            proof {
                assert(xrefs@ =~= self.xrefs@.take(i + 1));
            }
        }
        proof {
            assert(self.xrefs@.take(m as int) =~= self.xrefs@);
        }
        Package {
            purl: self.purl.clone(),
            name: self.name.clone(),
            version: match &self.version {
                None => None,
                Some(s) => Some(s.clone()),
            },
            xrefs,
        }
    }
}

impl Package {
    /// Derives the package record for a root component, or `None`
    /// when the component is malformed.
    pub fn from_component(component: &Component, xref: Xref) -> (r: Option<Package>)
        ensures
            component_malformed(*component) <==> r is None,
            r matches Some(p) ==> p@ == package_of_component(*component, xref),
    {
        let key = match canonical_key(component, ComponentKind::Package) {
            Err(_) => {
                return None;
            },
            Ok(k) => k,
        };
        let mut xrefs: Vec<Xref> = Vec::new();
        xrefs.push(xref);
        proof {
            assert(xrefs@ =~= seq![xref]);
        }
        Some(
            Package {
                purl: key,
                name: component.name.clone(),
                version: match &component.version {
                    None => None,
                    Some(v) => Some(v.clone()),
                },
                xrefs,
            },
        )
    }
}


/// The mathematical content of an unsupported-target marker.
pub ghost struct UnsupportedV {
    /// The provider's identifier for the target.
    pub external_id: Seq<char>,
    /// The target's name.
    pub name: Seq<char>,
    /// The package manager that made the target unsupported.
    pub package_manager: Option<Seq<char>>,
    /// Every provenance that has observed this target.
    pub xrefs: Seq<Xref>,
}

/// A lightweight marker for a target whose ecosystem is not in the
/// supported set; upserted by the target's external id, idempotently.
#[derive(Debug)]
pub struct Unsupported {
    /// The provider's identifier for the target.
    pub external_id: String,
    /// The target's name.
    pub name: String,
    /// The package manager that made the target unsupported.
    pub package_manager: Option<String>,
    /// Every provenance that has observed this target.
    pub xrefs: Vec<Xref>,
}

impl View for Unsupported {
    type V = UnsupportedV;

    open spec fn view(&self) -> UnsupportedV {
        UnsupportedV {
            external_id: self.external_id@,
            name: self.name@,
            package_manager: opt_view(self.package_manager),
            xrefs: self.xrefs@,
        }
    }
}

} // verus!
