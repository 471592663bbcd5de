//! The synchronization engine: drives each target through fetch
//! outcome, normalization, versioning, archiving and commit, isolating
//! failures per target and per sub-entity so that one bad document
//! never aborts the run and partial progress is always committed.

use crate::blobs::blob_key;
use crate::blobs::blob_key_spec;
use crate::blobs::blob_put_spec;
use crate::blobs::BlobStore;
use crate::errmap::map_contains_key;
use crate::errmap::map_insert;
use crate::errmap::ErrorMap;
use crate::errors::Error;
use crate::packages::component_key_spec;
use crate::packages::component_malformed;
use crate::packages::purl_of_component;
use crate::packages::ComponentKind;
use crate::packages::Purl;
use crate::packages::PurlV;
use crate::packages::UnsupportedV;
use crate::sboms::dependency_purl_spec;
use crate::sboms::CdxFormat;
use crate::sboms::Dependency;
use crate::sboms::Sbom;
use crate::sboms::SbomProviderKind;
use crate::sboms::SbomV;
use crate::sboms::Source;
use crate::snyk::is_supported_manager;
use crate::snyk::supported_manager;
use crate::snyk::Project;
use crate::snyk::ProjectStatus;
use crate::snyk::SnykService;
use crate::snyk::API_VERSION;
use crate::store::commit_packages_spec;
use crate::store::upsert_dependency_spec;
use crate::store::upsert_purl_spec;
use crate::store::upsert_unsupported_spec;
use crate::store::Store;
use crate::tasks::Task;
use crate::xrefs::Xref;
use vstd::prelude::*;
use vstd::string::StrSliceExecFns;
use vstd::string::StringExecFns;

verus! {

/// The error-map key under which a dependency entry reports: the raw
/// purl text when the entry carries one, `unset` otherwise.
pub open spec fn dep_key_label(d: Dependency) -> Seq<char> {
    match dependency_purl_spec(d) {
        Some(p) => "dependency::"@ + p,
        None => "unset"@,
    }
}

/// The errors the commit records before it walks the dependencies: a
/// missing package record, and a root component that resolves to no
/// identity.
pub open spec fn base_commit_errs(sv: SbomV) -> Seq<(Seq<char>, Seq<char>)> {
    let e0 = Seq::<(Seq<char>, Seq<char>)>::empty();
    let e1 = if sv.package is None {
        map_insert(e0, "package"@, "sbom_package_none"@)
    } else {
        e0
    };
    match sv.component {
        None => e1,
        Some(c) => if component_malformed(c) {
            map_insert(e1, "purl"@, "malformed_component"@)
        } else {
            e1
        },
    }
}

/// The errors one dependency entry adds: a missing raw purl fails the
/// record upsert, a missing component and a malformed component fail
/// the identity upsert; each under the entry's key.
pub open spec fn dep_err_step(e: Seq<(Seq<char>, Seq<char>)>, d: Dependency) -> Seq<
    (Seq<char>, Seq<char>),
> {
    let ea = if dependency_purl_spec(d) is None {
        map_insert(e, "unset"@, "purl_none"@)
    } else {
        e
    };
    match d.component {
        None => map_insert(ea, dep_key_label(d), "dependency_component_none"@),
        Some(c) => if component_malformed(c) {
            map_insert(ea, dep_key_label(d), "malformed_component"@)
        } else {
            ea
        },
    }
}

/// The error map after walking all dependency entries in order.
pub open spec fn fold_dep_errs(e: Seq<(Seq<char>, Seq<char>)>, deps: Seq<Dependency>) -> Seq<
    (Seq<char>, Seq<char>),
>
    decreases deps.len(),
{
    if deps.len() == 0 {
        e
    } else {
        fold_dep_errs(dep_err_step(e, deps[0]), deps.drop_first())
    }
}

/// The full error map one commit returns: every sub-operation is
/// attempted and every failure is recorded under its own key.
pub open spec fn commit_errs_spec(sv: SbomV) -> Seq<(Seq<char>, Seq<char>)> {
    fold_dep_errs(base_commit_errs(sv), sv.dependencies)
}

/// The identity upsert for the root component, when it resolves.
pub open spec fn root_purl_step(
    purls: Seq<PurlV>,
    sv: SbomV,
    task_id: Seq<char>,
    xref: Xref,
) -> Seq<PurlV> {
    match sv.component {
        Some(c) => if !component_malformed(c) {
            upsert_purl_spec(
                purls,
                purl_of_component(c, ComponentKind::Package, task_id, sv.instance, xref),
            )
        } else {
            purls
        },
        None => purls,
    }
}

/// The identity upsert for one dependency entry, when it resolves.
pub open spec fn dep_purl_step(
    purls: Seq<PurlV>,
    d: Dependency,
    task_id: Seq<char>,
    xref: Xref,
) -> Seq<PurlV> {
    match d.component {
        Some(c) => if !component_malformed(c) {
            upsert_purl_spec(purls, purl_of_component(c, ComponentKind::Dependency, task_id, 0, xref))
        } else {
            purls
        },
        None => purls,
    }
}

/// The identity records after walking all dependency entries.
pub open spec fn fold_dep_purls(
    purls: Seq<PurlV>,
    deps: Seq<Dependency>,
    task_id: Seq<char>,
    xref: Xref,
) -> Seq<PurlV>
    decreases deps.len(),
{
    if deps.len() == 0 {
        purls
    } else {
        fold_dep_purls(dep_purl_step(purls, deps[0], task_id, xref), deps.drop_first(), task_id, xref)
    }
}

/// The identity records after one full commit: the root identity,
/// then each dependency identity, in order.
pub open spec fn commit_purls_spec(
    purls: Seq<PurlV>,
    sv: SbomV,
    task_id: Seq<char>,
    xref: Xref,
) -> Seq<PurlV> {
    fold_dep_purls(root_purl_step(purls, sv, task_id, xref), sv.dependencies, task_id, xref)
}

/// The dependency-record upsert for one entry, when it carries a raw
/// purl key.
pub open spec fn dep_store_step(store_deps: Seq<Dependency>, d: Dependency) -> Seq<Dependency> {
    match dependency_purl_spec(d) {
        Some(k) => upsert_dependency_spec(store_deps, d, k),
        None => store_deps,
    }
}

/// The dependency records after walking all entries of a commit.
pub open spec fn fold_dep_store(store_deps: Seq<Dependency>, deps: Seq<Dependency>) -> Seq<
    Dependency,
>
    decreases deps.len(),
{
    if deps.len() == 0 {
        store_deps
    } else {
        fold_dep_store(dep_store_step(store_deps, deps[0]), deps.drop_first())
    }
}

/// Whether one dependency entry commits without an error: it names a
/// component that carries a raw purl and resolves to an identity.
pub open spec fn dep_entry_clean(d: Dependency) -> bool {
    &&& dependency_purl_spec(d) is Some
    &&& d.component matches Some(c) && !component_malformed(c)
}

/// A dependency entry adds no error exactly when it is clean.
pub proof fn lemma_dep_err_step(e: Seq<(Seq<char>, Seq<char>)>, d: Dependency)
    ensures
        dep_entry_clean(d) ==> dep_err_step(e, d) == e,
        !dep_entry_clean(d) ==> dep_err_step(e, d).len() >= 1,
        dep_err_step(e, d).len() >= e.len(),
{
    let ea = if dependency_purl_spec(d) is None {
        map_insert(e, "unset"@, "purl_none"@)
    } else {
        e
    };
    crate::errmap::lemma_map_insert_len(e, "unset"@, "purl_none"@);
    crate::errmap::lemma_map_insert_len(ea, dep_key_label(d), "dependency_component_none"@);
    crate::errmap::lemma_map_insert_len(ea, dep_key_label(d), "malformed_component"@);
}

/// Walking the dependencies leaves the error map empty exactly when
/// it was empty and every entry is clean.
pub proof fn lemma_fold_dep_errs_empty(e: Seq<(Seq<char>, Seq<char>)>, deps: Seq<Dependency>)
    ensures
        fold_dep_errs(e, deps).len() == 0 <==> (e.len() == 0 && (forall|i: int|
            0 <= i < deps.len() ==> dep_entry_clean(#[trigger] deps[i]))),
    decreases deps.len(),
{
    if deps.len() > 0 {
        let step = dep_err_step(e, deps[0]);
        lemma_dep_err_step(e, deps[0]);
        lemma_fold_dep_errs_empty(step, deps.drop_first());
        assert forall|i: int|
            0 <= i < deps.drop_first().len() implies deps.drop_first()[i] == deps[i + 1] by {}
        if fold_dep_errs(e, deps).len() == 0 {
            assert(step.len() == 0);
            assert(dep_entry_clean(deps[0]));
            assert forall|i: int| 0 <= i < deps.len() implies dep_entry_clean(
                #[trigger] deps[i],
            ) by {
                if i > 0 {
                    assert(dep_entry_clean(deps.drop_first()[i - 1]));
                }
            }
        }
        if e.len() == 0 && (forall|i: int|
            0 <= i < deps.len() ==> dep_entry_clean(#[trigger] deps[i])) {
            assert(dep_entry_clean(deps[0]));
            assert(step == e);
            assert(forall|i: int|
                0 <= i < deps.drop_first().len() ==> dep_entry_clean(
                    #[trigger] deps.drop_first()[i],
                ));
        }
    }
}

/// A component's malformedness is decided by its view.
pub proof fn lemma_component_malformed_view(c: crate::packages::Component)
    ensures
        component_malformed(c) == (c@.package_manager is None || (c@.package_manager matches Some(
            m,
        ) && m.len() == 0) || c@.name.len() == 0),
{
}

/// Every stored iteration stays below a bound.
pub open spec fn purl_iters_below(purls: Seq<PurlV>, b: int) -> bool {
    forall|i: int| 0 <= i < purls.len() ==> (#[trigger] purls[i]).iteration < b
}

/// An upsert of a record whose iteration is below the bound keeps
/// every stored iteration below it.
pub proof fn lemma_upsert_purl_iters(s: Seq<PurlV>, p: PurlV, b: int)
    requires
        purl_iters_below(s, b),
        p.iteration < b,
    ensures
        purl_iters_below(upsert_purl_spec(s, p), b),
{
    let s2 = upsert_purl_spec(s, p);
    assert forall|i: int| 0 <= i < s2.len() implies (#[trigger] s2[i]).iteration < b by {
        if crate::store::purls_contain(s, p.purl) {
            let idx = crate::store::purl_index(s, p.purl);
            assert(0 <= idx < s.len());
            if i == idx {
                assert(s[idx].iteration < b);
            } else {
                assert(s2[i] == s[i]);
            }
        } else {
            if i < s.len() {
                assert(s2[i] == s[i]);
            } else {
                assert(s2[i] == p);
            }
        }
    }
}

/// Walking the dependencies keeps every stored iteration below any
/// positive bound it was below.
pub proof fn lemma_fold_dep_purls_iters(
    purls: Seq<PurlV>,
    deps: Seq<Dependency>,
    tid: Seq<char>,
    x: Xref,
    b: int,
)
    requires
        purl_iters_below(purls, b),
        b >= 1,
    ensures
        purl_iters_below(fold_dep_purls(purls, deps, tid, x), b),
    decreases deps.len(),
{
    if deps.len() > 0 {
        let step = dep_purl_step(purls, deps[0], tid, x);
        match deps[0].component {
            Some(c) => {
                if !component_malformed(c) {
                    let p = purl_of_component(c, ComponentKind::Dependency, tid, 0, x);
                    assert(p.iteration == 0);
                    lemma_upsert_purl_iters(purls, p, b);
                }
            },
            None => {},
        }
        lemma_fold_dep_purls_iters(step, deps.drop_first(), tid, x, b);
    }
}

/// A commit of an aggregate stamped at or below the bound keeps
/// every stored iteration below one past it.
pub proof fn lemma_commit_purls_iters(purls: Seq<PurlV>, sv: SbomV, tid: Seq<char>, x: Xref, b: int)
    requires
        purl_iters_below(purls, b),
        sv.instance <= b,
        b >= 1,
    ensures
        purl_iters_below(commit_purls_spec(purls, sv, tid, x), b + 1),
{
    assert(purl_iters_below(purls, b + 1));
    let after_root = root_purl_step(purls, sv, tid, x);
    match sv.component {
        Some(c) => {
            if !component_malformed(c) {
                let p = purl_of_component(c, ComponentKind::Package, tid, sv.instance, x);
                assert(p.iteration < b + 1);
                lemma_upsert_purl_iters(purls, p, b + 1);
            }
        },
        None => {},
    }
    lemma_fold_dep_purls_iters(after_root, sv.dependencies, tid, x, b + 1);
}

/// The iteration stored for an identity key: zero when the key has
/// never been seen.
pub open spec fn resolve_spec(purls: Seq<PurlV>, k: Seq<char>) -> u32 {
    if crate::store::purls_contain(purls, k) {
        purls[crate::store::purl_index(purls, k)].iteration
    } else {
        0u32
    }
}

/// Synchronizes SBOM documents for a provider into the store: the
/// per-target pipeline and the per-run bookkeeping around it.
#[derive(Debug)]
pub struct SbomSyncTask {
    /// The document store the run commits into.
    pub store: Store,
    /// The provider service whose answers drive the run.
    pub snyk: SnykService,
    /// The blob storage raw documents are archived into.
    pub blobs: BlobStore,
}

impl SbomSyncTask {
    /// The stores keep their key invariants.
    pub open spec fn wf(&self) -> bool {
        self.store.wf() && self.blobs.wf()
    }

    /// Creates the task around its store, provider service and blob
    /// storage.
    pub fn new(store: Store, snyk: SnykService, blobs: BlobStore) -> (r: Result<
        SbomSyncTask,
        Error,
    >)
        ensures
            r matches Ok(t) && t.store == store && t.snyk == snyk && t.blobs == blobs,
    {
        Ok(SbomSyncTask { store, snyk, blobs })
    }

    /// The store the run commits into.
    pub fn store(&self) -> (r: &Store)
        ensures
            r == &self.store,
    {
        &self.store
    }

    /// An inactive target is skipped silently: recorded as a no-op,
    /// not a failure.
    pub fn handle_inactive(&self, _project: &Project) -> (r: Result<(), Error>)
        ensures
            r is Ok,
    {
        Ok(())
    }

    /// The versioning resolver: stamps the aggregate with the next
    /// sequential iteration for its root identity — one when the
    /// identity has never been seen, the stored iteration plus one
    /// otherwise. Reads the store and never mutates it.
    pub fn set_instance_by_purl(&self, sbom: &mut Sbom) -> (r: Result<(), Error>)
        requires
            self.wf(),
        ensures
            r is Ok <==> (old(sbom)@.component matches Some(c) && !component_malformed(c)
                && resolve_spec(
                self.store@.purls,
                component_key_spec(c, ComponentKind::Package),
            ) < u32::MAX),
            r is Ok ==> (old(sbom)@.component matches Some(c) && final(sbom)@ == (SbomV {
                instance: (resolve_spec(
                    self.store@.purls,
                    component_key_spec(c, ComponentKind::Package),
                ) + 1) as u32,
                ..old(sbom)@
            })),
            r is Err ==> *final(sbom) == *old(sbom),
            r matches Err(e) ==> (e matches Error::Sbom(m) && m@ == (if old(sbom)@.component is None {
                "sbom_component_none"@
            } else if (old(sbom)@.component matches Some(c) && component_malformed(c)) {
                "malformed_component"@
            } else {
                "iteration_overflow"@
            })),
    {
        let key = match &sbom.component {
            None => {
                return Err(Error::Sbom("sbom_component_none".to_owned()));
            },
            Some(c) => match crate::packages::canonical_key(c, ComponentKind::Package) {
                Ok(k) => k,
                Err(_) => {
                    return Err(Error::Sbom("malformed_component".to_owned()));
                },
            },
        };
        match self.store.purl_iteration(key.as_str()) {
            None => {
                sbom.instance = 1;
                Ok(())
            },
            Some(it) => {
                if it == u32::MAX {
                    return Err(Error::Sbom("iteration_overflow".to_owned()));
                }
                sbom.instance = it + 1;
                Ok(())
            },
        }
    }

    /// Archives the raw document bytes under the key derived from the
    /// target's provenance and the document format.
    pub fn write_to_storage(&mut self, raw: Vec<u8>, sbom: &Sbom, xref: &Xref) -> (r: Result<
        (),
        Error,
    >)
        requires
            old(self).wf(),
        ensures
            final(self).wf(),
            final(self).blobs@ == blob_put_spec(
                old(self).blobs@,
                blob_key_spec(*xref, sbom.format),
                raw@,
            ),
            final(self).store == old(self).store,
            final(self).snyk == old(self).snyk,
            r is Ok,
    {
        let key = blob_key(xref, sbom.format);
        self.blobs.put(key, raw);
        Ok(())
    }
}


impl SbomSyncTask {
    /// The commit engine: persists the aggregate and its constituent
    /// entities with per-entity error isolation. The aggregate is
    /// always inserted as a new record; the package, the root
    /// identity and each dependency's record and identity are
    /// upserted independently; every failure is recorded in the
    /// returned map under its own key and never aborts the rest.
    pub fn commit_target(&mut self, task: &Task, sbom: Sbom, xref: Xref) -> (errs: ErrorMap)
        requires
            old(self).wf(),
        ensures
            final(self).wf(),
            final(self).store@.sboms == old(self).store@.sboms.push(sbom@),
            final(self).store@.packages == commit_packages_spec(
                old(self).store@.packages,
                sbom@.package,
            ),
            final(self).store@.purls == commit_purls_spec(
                old(self).store@.purls,
                sbom@,
                task.id@,
                xref,
            ),
            final(self).store@.dependencies == fold_dep_store(
                old(self).store@.dependencies,
                sbom@.dependencies,
            ),
            final(self).store@.unsupported == old(self).store@.unsupported,
            final(self).blobs@ == old(self).blobs@,
            errs@ == commit_errs_spec(sbom@),
            errs.wf(),
    {
        let ghost sv = sbom@;
        let ghost tid = task.id@;
        let ghost x = xref;
        let mut errs = ErrorMap::new();
        match &sbom.package {
            None => {
                errs.insert("package".to_owned(), "sbom_package_none".to_owned());
            },
            Some(p) => {
                self.store.upsert_package_by_purl(p.clone());
            },
        }
        match &sbom.component {
            None => {},
            Some(c) => {
                match Purl::from_component(c, ComponentKind::Package, task, sbom.instance, xref.clone()) {
                    Ok(purl) => {
                        self.store.upsert_purl(purl);
                    },
                    Err(_) => {
                        errs.insert("purl".to_owned(), "malformed_component".to_owned());
                    },
                }
            },
        }
        let ghost purls1 = self.store@.purls;
        let ghost deps1 = self.store@.dependencies;
        let ghost errs1 = errs@;
        proof {
            assert(purls1 == root_purl_step(old(self).store@.purls, sv, tid, x));
            assert(deps1 == old(self).store@.dependencies);
            assert(errs1 == base_commit_errs(sv));
            assert(sv.dependencies.skip(0) =~= sv.dependencies);
        }
        let n = sbom.dependencies.len();
        for i in 0..n
            invariant
                self.wf(),
                errs.wf(),
                n == sbom.dependencies@.len(),
                sbom@ == sv,
                xref == x,
                task.id@ == tid,
                self.store@.sboms == old(self).store@.sboms,
                self.store@.packages == commit_packages_spec(old(self).store@.packages, sv.package),
                self.store@.unsupported == old(self).store@.unsupported,
                self.blobs@ == old(self).blobs@,
                fold_dep_purls(self.store@.purls, sv.dependencies.skip(i as int), tid, x)
                    == fold_dep_purls(purls1, sv.dependencies, tid, x),
                fold_dep_store(self.store@.dependencies, sv.dependencies.skip(i as int))
                    == fold_dep_store(deps1, sv.dependencies),
                fold_dep_errs(errs@, sv.dependencies.skip(i as int)) == fold_dep_errs(
                    errs1,
                    sv.dependencies,
                ),
        {
            let ghost d = sv.dependencies[i as int];
            proof {
                assert(sv.dependencies.skip(i as int).len() > 0);
                assert(sv.dependencies.skip(i as int)[0] == d);
                assert(sv.dependencies.skip(i as int).drop_first() =~= sv.dependencies.skip(i + 1));
            }
            let dep = sbom.dependencies[i].clone();
            let dep_purl = dep.purl();
            match &dep_purl {
                None => {
                    errs.insert("unset".to_owned(), "purl_none".to_owned());
                },
                Some(k) => {
                    self.store.upsert_dependency_by_purl(dep.clone(), k.as_str());
                },
            }
            let key_label: String = match &dep_purl {
                None => "unset".to_owned(),
                Some(p) => {
                    let mut kl: String = "dependency::".to_owned();
                    kl.append(p.as_str());
                    kl
                },
            };
            proof {
                assert(key_label@ == dep_key_label(d));
            }
            match &dep.component {
                None => {
                    errs.insert(key_label, "dependency_component_none".to_owned());
                },
                Some(c) => {
                    match Purl::from_component(c, ComponentKind::Dependency, task, 0, xref.clone()) {
                        Ok(purl) => {
                            self.store.upsert_purl(purl);
                        },
                        Err(_) => {
                            errs.insert(key_label, "malformed_component".to_owned());
                        },
                    }
                },
            }
        }
        proof {
            assert(sv.dependencies.skip(n as int) =~= Seq::<Dependency>::empty());
        }
        self.store.insert_sbom(sbom);
        errs
    }
}


/// Whether both stores hold the same content.
pub open spec fn same_state(a: SbomSyncTask, b: SbomSyncTask) -> bool {
    a.store@ == b.store@ && a.blobs@ == b.blobs@
}

/// Whether everything but the unsupported markers is the same.
pub open spec fn same_but_unsupported(a: SbomSyncTask, b: SbomSyncTask) -> bool {
    a.store@.sboms == b.store@.sboms && a.store@.purls == b.store@.purls && a.store@.packages
        == b.store@.packages && a.store@.dependencies == b.store@.dependencies && a.blobs@
        == b.blobs@
}

/// An active target whose ecosystem is outside the supported set.
pub open spec fn target_unsupported(p: Project) -> bool {
    p.status == ProjectStatus::Active && !supported_manager(p.package_manager@)
}

/// An active target whose ecosystem the normalizer supports.
pub open spec fn target_runs(p: Project) -> bool {
    p.status == ProjectStatus::Active && supported_manager(p.package_manager@)
}

/// One unit of work for a run: the target descriptor and the outcome
/// of fetching its raw document. The fetch itself happens outside
/// the library; the pipeline takes what it returned.
#[derive(Debug)]
pub struct TargetInput {
    /// The target the document belongs to.
    pub project: Project,
    /// The fetched raw document text, or the fetch failure.
    pub fetched: Result<String, Error>,
}

/// Whether every dependency entry of a document commits cleanly
/// under an ecosystem: each listed element names a component that
/// carries a raw purl and resolves to an identity.
pub open spec fn deps_clean(
    comps: Seq<Option<crate::jsonio::RawComponentV>>,
    pm: Option<Seq<char>>,
) -> bool {
    forall|i: int|
        0 <= i < comps.len() ==> (#[trigger] comps[i] matches Some(rc) && rc.purl is Some
            && !crate::packages::raw_malformed(rc, pm))
}

/// The root-package key a document resolves to under an ecosystem.
pub open spec fn root_key_of(raw: Seq<char>, eco: Seq<char>) -> Seq<char> {
    match crate::jsonio::cdx_root_of(raw) {
        Some(rc) => crate::packages::raw_key(rc, eco),
        None => Seq::<char>::empty(),
    }
}

/// Whether the pipeline reaches the commit for an active, supported
/// target: the text parses to a document whose root resolves to an
/// identity, and the next iteration exists.
pub open spec fn doc_persists(purls: Seq<PurlV>, p: Project, raw: Seq<char>) -> bool {
    &&& crate::jsonio::json_parse_ok(raw)
    &&& crate::jsonio::cdx_root_of(raw) matches Some(rc) && {
        &&& !crate::packages::raw_malformed(rc, Some(p.package_manager@))
        &&& resolve_spec(purls, crate::packages::raw_key(rc, p.package_manager@)) < u32::MAX
    }
}

/// Whether processing an active, supported target with this document
/// succeeds against this identity state: the pipeline reaches the
/// commit and the commit records no error.
pub open spec fn doc_commits(purls: Seq<PurlV>, p: Project, raw: Seq<char>) -> bool {
    &&& doc_persists(purls, p, raw)
    &&& deps_clean(crate::jsonio::cdx_components_of(raw), Some(p.package_manager@))
}

/// Whether an aggregate is the normalization of a document for a
/// target: every field the document and the target determine — all
/// but the iteration stamp and the clock-supplied timestamp.
pub open spec fn normalized_view(sv: SbomV, raw: Seq<char>, pm: Seq<char>, x: Xref) -> bool {
    &&& sv.id == Seq::<char>::empty()
    &&& sv.format == CdxFormat::Json
    &&& sv.package_manager == Some(pm)
    &&& sv.xrefs == seq![x]
    &&& (sv.source matches Source::Harbor(k) && (k matches SbomProviderKind::Snyk { api_version }
        && api_version@ == API_VERSION@))
    &&& (crate::jsonio::cdx_root_of(raw) matches Some(rc) && (sv.component matches Some(c) && c@
        == crate::packages::component_from_raw(rc, Some(pm))) && (sv.package is Some
        <==> !crate::packages::raw_malformed(rc, Some(pm))) && (sv.package matches Some(pk) ==> (
    sv.component matches Some(c2) && pk == crate::packages::package_of_component(c2, x))))
    &&& sv.dependencies.len() == crate::jsonio::cdx_components_of(raw).len()
    &&& (forall|i: int|
        0 <= i < sv.dependencies.len() ==> crate::sboms::dep_view(#[trigger] sv.dependencies[i])
            == crate::sboms::dep_of_raw(crate::jsonio::cdx_components_of(raw)[i], Some(pm)))
}

/// Whether one engine state is the other after archiving and
/// committing the normalization of a document for a target: some
/// aggregate matching the document, stamped with the next iteration,
/// was appended, its entities upserted, and the raw bytes archived
/// under the derived key.
pub open spec fn committed_target(
    a: SbomSyncTask,
    b: SbomSyncTask,
    task_id: Seq<char>,
    p: Project,
    raw: Seq<char>,
) -> bool {
    exists|sv: SbomV, x: Xref|
        {
            &&& #[trigger] normalized_view(sv, raw, p.package_manager@, x)
            &&& x@ == ("snyk"@, p.org_id@, p.project_id@)
            &&& sv.instance == resolve_spec(a.store@.purls, root_key_of(raw, p.package_manager@))
                + 1
            &&& b.store@.sboms == a.store@.sboms.push(sv)
            &&& b.store@.purls == commit_purls_spec(a.store@.purls, sv, task_id, x)
            &&& b.store@.packages == commit_packages_spec(a.store@.packages, sv.package)
            &&& b.store@.dependencies == fold_dep_store(a.store@.dependencies, sv.dependencies)
            &&& b.store@.unsupported == a.store@.unsupported
            &&& b.blobs@ == blob_put_spec(
                a.blobs@,
                blob_key_spec(x, CdxFormat::Json),
                vstd::utf8::encode_utf8(raw),
            )
        }
}

/// A dependency entry built from an extracted list element is clean
/// exactly when the element names a component with a raw purl that
/// resolves to an identity.
pub proof fn lemma_dep_correspondence(
    d: Dependency,
    rc: Option<crate::jsonio::RawComponentV>,
    pm: Option<Seq<char>>,
)
    requires
        crate::sboms::dep_view(d) == crate::sboms::dep_of_raw(rc, pm),
    ensures
        dep_entry_clean(d) == (rc matches Some(r) && r.purl is Some
            && !crate::packages::raw_malformed(r, pm)),
{
    match d.component {
        Some(c) => {
            assert(rc is Some);
            let r = rc->Some_0;
            assert(c@ == crate::packages::component_from_raw(r, pm));
            lemma_component_malformed_view(c);
            assert(dependency_purl_spec(d) == c@.purl);
        },
        None => {
            assert(rc is None);
        },
    }
}

impl SbomSyncTask {
    /// The per-target pipeline: an inactive target is a silent no-op;
    /// an unsupported ecosystem upserts a marker and is no failure;
    /// otherwise the fetched document is normalized, stamped with its
    /// iteration, archived, and committed. Success is owed exactly
    /// when the fetch succeeded and the document commits cleanly;
    /// every failure names its stage, and a failure before the
    /// archive leaves both stores untouched.
    pub fn process_target(
        &mut self,
        task: &Task,
        project: &Project,
        fetched: Result<String, Error>,
    ) -> (r: Result<(), Error>)
        requires
            old(self).wf(),
        ensures
            final(self).wf(),
            project.status == ProjectStatus::Inactive ==> r is Ok && same_state(
                *final(self),
                *old(self),
            ),
            target_unsupported(*project) ==> r is Ok && same_but_unsupported(
                *final(self),
                *old(self),
            ) && (exists|u: UnsupportedV|
                final(self).store@.unsupported == upsert_unsupported_spec(
                    old(self).store@.unsupported,
                    u,
                ) && u.external_id == project.project_id@),
            target_runs(*project) ==> (r is Ok <==> (fetched matches Ok(raw) && doc_commits(
                old(self).store@.purls,
                *project,
                raw@,
            ))),
            target_runs(*project) ==> (fetched matches Ok(raw) ==> (doc_persists(
                old(self).store@.purls,
                *project,
                raw@,
            ) ==> committed_target(*old(self), *final(self), task.id@, *project, raw@))),
            target_runs(*project) ==> (fetched matches Ok(raw) ==> (!doc_persists(
                old(self).store@.purls,
                *project,
                raw@,
            ) ==> r is Err && same_state(*final(self), *old(self)))),
            target_runs(*project) && r is Err ==> (r matches Err(e) && e matches Error::Sbom(_m)),
            target_runs(*project) && fetched is Err ==> (r matches Err(e) && same_state(
                *final(self),
                *old(self),
            ) && (e matches Error::Sbom(m) && (fetched matches Err(e0) && m@
                == "process_target::sbom_raw::"@ + e0.rendered_spec()))),
            target_runs(*project) ==> (fetched matches Ok(raw)
                ==> (!crate::jsonio::json_parse_ok(raw@) ==> (r matches Err(e) && e
                matches Error::Sbom(m) && m@.len() >= "process_target::from_raw_cdx::"@.len()
                && m@.subrange(0, "process_target::from_raw_cdx::"@.len() as int)
                == "process_target::from_raw_cdx::"@))),
            target_runs(*project) ==> (fetched matches Ok(raw) ==> (crate::jsonio::json_parse_ok(
                raw@,
            ) && crate::jsonio::cdx_root_of(raw@) is None ==> (r matches Err(e) && e
                matches Error::Sbom(m) && m@ == "process_target::from_raw_cdx::"@ + "sbom"@ + "::"@
                + "metadata_component_none"@))),
            target_runs(*project) ==> (fetched matches Ok(raw) ==> (crate::jsonio::cdx_root_of(
                raw@,
            ) matches Some(rc) ==> (crate::jsonio::json_parse_ok(raw@)
                && crate::packages::raw_malformed(rc, Some(project.package_manager@)) ==> (r
                matches Err(e) && e matches Error::Sbom(m) && m@
                == "process_target::set_instance::"@ + "sbom"@ + "::"@ + "malformed_component"@)))),
            target_runs(*project) ==> (fetched matches Ok(raw) ==> (crate::jsonio::cdx_root_of(
                raw@,
            ) matches Some(rc) ==> (!crate::packages::raw_malformed(
                rc,
                Some(project.package_manager@),
            ) && crate::jsonio::json_parse_ok(raw@) && resolve_spec(
                old(self).store@.purls,
                crate::packages::raw_key(rc, project.package_manager@),
            ) == u32::MAX ==> (r matches Err(e) && e matches Error::Sbom(m) && m@
                == "process_target::set_instance::"@ + "sbom"@ + "::"@ + "iteration_overflow"@)))),
    {
        if project.status == ProjectStatus::Inactive {
            match self.handle_inactive(project) {
                Ok(_) => {
                    return Ok(());
                },
                Err(e) => {
                    return Err(e);
                },
            }
        }
        if !is_supported_manager(project.package_manager.as_str()) {
            let unsupported = project.to_unsupported();
            let ghost uv = unsupported@;
            self.store.upsert_unsupported_by_external_id(unsupported);
            proof {
                assert(self.store@.unsupported == upsert_unsupported_spec(
                    old(self).store@.unsupported,
                    uv,
                ) && uv.external_id == project.project_id@);
            }
            return Ok(());
        }
        let raw = match fetched {
            Err(e) => {
                let mut msg: String = "process_target::sbom_raw::".to_owned();
                msg.append(e.message().as_str());
                return Err(Error::Sbom(msg));
            },
            Ok(raw) => raw,
        };
        let ghost rawv = raw@;
        let package_manager = Some(project.package_manager.clone());
        let snyk_ref = project.to_snyk_ref();
        let xref = snyk_ref.to_xref();
        let ghost xv = xref;
        let mut sbom = match Sbom::from_raw_cdx(
            raw.as_str(),
            CdxFormat::Json,
            Source::Harbor(SbomProviderKind::Snyk { api_version: API_VERSION.to_owned() }),
            &package_manager,
            xref.clone(),
        ) {
            Ok(s) => s,
            Err(e) => {
                let mut msg: String = "process_target::from_raw_cdx::".to_owned();
                msg.append(e.message().as_str());
                proof {
                    assert(msg@.subrange(0, "process_target::from_raw_cdx::"@.len() as int)
                        =~= "process_target::from_raw_cdx::"@);
                }
                return Err(Error::Sbom(msg));
            },
        };
        proof {
            let rc = crate::jsonio::cdx_root_of(rawv)->Some_0;
            let c = sbom@.component->Some_0;
            crate::packages::lemma_component_from_raw(c, rc, Some(project.package_manager@));
        }
        match self.set_instance_by_purl(&mut sbom) {
            Ok(_) => {},
            Err(e) => {
                let mut msg: String = "process_target::set_instance::".to_owned();
                msg.append(e.message().as_str());
                return Err(Error::Sbom(msg));
            },
        }
        let bytes = raw.as_str().as_bytes_vec();
        proof {
            assert(bytes@ == vstd::utf8::encode_utf8(rawv));
        }
        match self.write_to_storage(bytes, &sbom, &xref) {
            Ok(_) => {},
            Err(e) => {
                let mut msg: String = "process_target::write_to_storage::".to_owned();
                msg.append(e.message().as_str());
                return Err(Error::Sbom(msg));
            },
        }
        sbom.timestamp = Task::now();
        let ghost sv = sbom@;
        let errs = self.commit_target(task, sbom, xref);
        proof {
            let pm = project.package_manager@;
            let rc = crate::jsonio::cdx_root_of(rawv)->Some_0;
            let c = sv.component->Some_0;
            crate::packages::lemma_component_from_raw(c, rc, Some(pm));
            assert(normalized_view(sv, rawv, pm, xv));
            assert(sv.instance == resolve_spec(old(self).store@.purls, root_key_of(rawv, pm)) + 1);
            assert(self.blobs@ == blob_put_spec(
                old(self).blobs@,
                blob_key_spec(xv, CdxFormat::Json),
                vstd::utf8::encode_utf8(rawv),
            ));
            assert(committed_target(*old(self), *self, task.id@, *project, rawv));
            lemma_fold_dep_errs_empty(base_commit_errs(sv), sv.dependencies);
            assert forall|i: int|
                0 <= i < sv.dependencies.len() implies dep_entry_clean(#[trigger] sv.dependencies[i])
                == (crate::jsonio::cdx_components_of(rawv)[i] matches Some(r2) && r2.purl is Some
                && !crate::packages::raw_malformed(r2, Some(pm))) by {
                lemma_dep_correspondence(
                    sv.dependencies[i],
                    crate::jsonio::cdx_components_of(rawv)[i],
                    Some(pm),
                );
            }
            let comps = crate::jsonio::cdx_components_of(rawv);
            assert(base_commit_errs(sv).len() == 0);
            if commit_errs_spec(sv).len() == 0 {
                assert(forall|i: int|
                    0 <= i < sv.dependencies.len() ==> dep_entry_clean(
                        #[trigger] sv.dependencies[i],
                    ));
                assert forall|i: int|
                    0 <= i < comps.len() implies (#[trigger] comps[i] matches Some(r2) && r2.purl
                    is Some && !crate::packages::raw_malformed(r2, Some(pm))) by {
                    assert(dep_entry_clean(sv.dependencies[i]));
                }
                assert(deps_clean(comps, Some(pm)));
                assert(doc_commits(old(self).store@.purls, *project, rawv));
            } else {
                assert(!(forall|i: int|
                    0 <= i < sv.dependencies.len() ==> dep_entry_clean(
                        #[trigger] sv.dependencies[i],
                    )));
                let i = choose|i: int|
                    0 <= i < sv.dependencies.len() && !dep_entry_clean(
                        #[trigger] sv.dependencies[i],
                    );
                assert(!(comps[i] matches Some(r2) && r2.purl is Some
                    && !crate::packages::raw_malformed(r2, Some(pm))));
                assert(!deps_clean(comps, Some(pm)));
                assert(!doc_commits(old(self).store@.purls, *project, rawv));
            }
        }
        if !errs.is_empty() {
            return Err(Error::Sbom(errs.to_text()));
        }
        Ok(())
    }
}



/// Whether an active, supported target's document commits cleanly
/// whatever the identity state: every condition of success except
/// the iteration headroom.
pub open spec fn doc_clean(p: Project, raw: Seq<char>) -> bool {
    &&& crate::jsonio::json_parse_ok(raw)
    &&& crate::jsonio::cdx_root_of(raw) matches Some(rc) && !crate::packages::raw_malformed(
        rc,
        Some(p.package_manager@),
    )
    &&& deps_clean(crate::jsonio::cdx_components_of(raw), Some(p.package_manager@))
}

impl SbomSyncTask {
    /// The batch orchestrator: walks the targets in order, processes
    /// each through the per-target pipeline, and collects every
    /// failure into an error map keyed by the target's external id. A
    /// single target's failure never aborts the run; an empty target
    /// list fails the whole run. Requires pairwise distinct target
    /// ids, as the provider reports them.
    pub fn run(&mut self, task: &mut Task, targets: Vec<TargetInput>) -> (r: Result<
        ErrorMap,
        Error,
    >)
        requires
            old(self).wf(),
            old(task).wf(),
            forall|i: int, j: int|
                0 <= i < j < targets@.len() ==> targets@[i].project.project_id@
                    != targets@[j].project.project_id@,
        ensures
            final(self).wf(),
            final(task).wf(),
            targets@.len() == 0 ==> (r matches Err(e) && e matches Error::Snyk(m) && m@
                == "no_projects"@ && *final(task) == *old(task) && same_state(
                *final(self),
                *old(self),
            )),
            targets@.len() > 0 ==> r is Ok && final(task).count == targets@.len(),
            r is Ok ==> final(task).id == old(task).id && final(task).kind == old(task).kind
                && final(task).timestamp == old(task).timestamp,
            r is Ok ==> final(task).start == old(task).start && final(task).finish == old(
                task,
            ).finish,
            r is Ok ==> final(task).duration_seconds == old(task).duration_seconds,
            r is Ok ==> final(task).status == old(task).status && final(task).err == old(
                task,
            ).err,
            r is Ok ==> final(task).ref_errs@ == old(task).ref_errs@ && final(task).err_total
                == old(task).err_total,
            r matches Ok(errs) ==> errs.wf(),
            r matches Ok(errs) ==> (forall|k: Seq<char>|
                map_contains_key(errs@, k) ==> (exists|i: int|
                    0 <= i < targets@.len() && targets@[i].project.project_id@ == k)),
            r matches Ok(errs) ==> (forall|i: int|
                0 <= i < targets@.len() && (#[trigger] targets@[i]).project.status
                    == ProjectStatus::Inactive ==> !map_contains_key(
                    errs@,
                    targets@[i].project.project_id@,
                )),
            r matches Ok(errs) ==> (forall|i: int|
                0 <= i < targets@.len() && target_unsupported(
                    (#[trigger] targets@[i]).project,
                ) ==> !map_contains_key(errs@, targets@[i].project.project_id@)),
            r matches Ok(errs) ==> (forall|i: int|
                0 <= i < targets@.len() && target_runs((#[trigger] targets@[i]).project)
                    && targets@[i].fetched is Err ==> map_contains_key(
                    errs@,
                    targets@[i].project.project_id@,
                )),
            r matches Ok(errs) ==> (forall|i: int|
                0 <= i < targets@.len() && target_runs((#[trigger] targets@[i]).project) ==> (
                targets@[i].fetched matches Ok(raw) ==> (!crate::jsonio::json_parse_ok(raw@)
                    ==> map_contains_key(errs@, targets@[i].project.project_id@)))),
            r matches Ok(errs) ==> (targets@.len() <= u32::MAX - 1 && purl_iters_below(
                old(self).store@.purls,
                u32::MAX - targets@.len(),
            ) ==> (forall|i: int|
                0 <= i < targets@.len() && target_runs((#[trigger] targets@[i]).project) ==> (
                targets@[i].fetched matches Ok(raw) ==> (doc_clean(targets@[i].project, raw@)
                    ==> !map_contains_key(errs@, targets@[i].project.project_id@))))),
            r matches Ok(errs) ==> (forall|i: int|
                0 <= i < targets@.len() && target_runs((#[trigger] targets@[i]).project) ==> (
                targets@[i].fetched matches Err(e0) ==> crate::errmap::map_value(
                    errs@,
                    targets@[i].project.project_id@,
                ) == "sbom"@ + "::"@ + ("process_target::sbom_raw::"@ + e0.rendered_spec()))),
    {
        if targets.len() == 0 {
            return Err(Error::Snyk("no_projects".to_owned()));
        }
        task.count = targets.len() as u64;
        let ghost all = targets@;
        let ghost t1 = *task;
        let ghost b0: int = u32::MAX as int - all.len() as int;
        let ghost bounded: bool = all.len() <= u32::MAX - 1 && purl_iters_below(
            self.store@.purls,
            b0,
        );
        let mut rem = targets;
        let mut errs = ErrorMap::new();
        let ghost mut done: int = 0;
        proof {
            assert(rem@ =~= all.skip(0));
        }
        while rem.len() > 0
            invariant
                self.wf(),
                errs.wf(),
                *task == t1,
                task.wf(),
                0 <= done <= all.len(),
                done + rem@.len() == all.len(),
                rem@ == all.skip(done),
                forall|i: int, j: int|
                    0 <= i < j < all.len() ==> all[i].project.project_id@
                        != all[j].project.project_id@,
                forall|k: Seq<char>|
                    map_contains_key(errs@, k) ==> (exists|i: int|
                        0 <= i < done && all[i].project.project_id@ == k),
                forall|i: int|
                    0 <= i < done && (#[trigger] all[i]).project.status == ProjectStatus::Inactive
                        ==> !map_contains_key(errs@, all[i].project.project_id@),
                forall|i: int|
                    0 <= i < done && target_unsupported((#[trigger] all[i]).project)
                        ==> !map_contains_key(errs@, all[i].project.project_id@),
                forall|i: int|
                    0 <= i < done && target_runs((#[trigger] all[i]).project) && all[i].fetched
                        is Err ==> map_contains_key(errs@, all[i].project.project_id@),
                forall|i: int|
                    0 <= i < done && target_runs((#[trigger] all[i]).project) ==> (all[i].fetched
                        matches Ok(raw) ==> (!crate::jsonio::json_parse_ok(raw@)
                        ==> map_contains_key(errs@, all[i].project.project_id@))),
                bounded == (all.len() <= u32::MAX - 1 && purl_iters_below(
                    old(self).store@.purls,
                    b0,
                )),
                b0 == u32::MAX as int - all.len() as int,
                bounded ==> purl_iters_below(self.store@.purls, b0 + done),
                bounded ==> (forall|i: int|
                    0 <= i < done && target_runs((#[trigger] all[i]).project) ==> (all[i].fetched
                        matches Ok(raw) ==> (doc_clean(all[i].project, raw@)
                        ==> !map_contains_key(errs@, all[i].project.project_id@)))),
                forall|i: int|
                    0 <= i < done && target_runs((#[trigger] all[i]).project) ==> (all[i].fetched
                        matches Err(e0) ==> crate::errmap::map_value(
                        errs@,
                        all[i].project.project_id@,
                    ) == "sbom"@ + "::"@ + ("process_target::sbom_raw::"@ + e0.rendered_spec())),
            decreases rem@.len(),
        {
            let ghost rem0 = rem@;
            let ghost errs0 = errs@;
            let input = rem.remove(0);
            proof {
                assert(rem@ =~= rem0.drop_first());
                assert(input == all[done]);
                assert(rem@ =~= all.skip(done + 1));
            }
            let pid = input.project.project_id.clone();
            let ghost prev_purls = self.store@.purls;
            let ghost prev_engine = *self;
            let res = self.process_target(task, &input.project, input.fetched);
            proof {
                if bounded {
                    assert(purl_iters_below(prev_purls, b0 + done));
                    if target_runs(all[done].project) && all[done].fetched is Ok && doc_persists(
                        prev_purls,
                        all[done].project,
                        all[done].fetched->Ok_0@,
                    ) {
                        let raw2 = all[done].fetched->Ok_0@;
                        assert(committed_target(
                            prev_engine,
                            *self,
                            t1.id@,
                            all[done].project,
                            raw2,
                        ));
                        let (sv, x): (SbomV, Xref) = choose|sv: SbomV, x: Xref|
                            {
                                &&& #[trigger] normalized_view(
                                    sv,
                                    raw2,
                                    all[done].project.package_manager@,
                                    x,
                                )
                                &&& x@ == (
                                    "snyk"@,
                                    all[done].project.org_id@,
                                    all[done].project.project_id@,
                                )
                                &&& sv.instance == resolve_spec(
                                    prev_engine.store@.purls,
                                    root_key_of(raw2, all[done].project.package_manager@),
                                ) + 1
                                &&& self.store@.sboms == prev_engine.store@.sboms.push(sv)
                                &&& self.store@.purls == commit_purls_spec(
                                    prev_engine.store@.purls,
                                    sv,
                                    t1.id@,
                                    x,
                                )
                                &&& self.store@.packages == commit_packages_spec(
                                    prev_engine.store@.packages,
                                    sv.package,
                                )
                                &&& self.store@.dependencies == fold_dep_store(
                                    prev_engine.store@.dependencies,
                                    sv.dependencies,
                                )
                                &&& self.store@.unsupported == prev_engine.store@.unsupported
                                &&& self.blobs@ == blob_put_spec(
                                    prev_engine.blobs@,
                                    blob_key_spec(x, CdxFormat::Json),
                                    vstd::utf8::encode_utf8(raw2),
                                )
                            };
                        assert(sv.instance <= b0 + done);
                        lemma_commit_purls_iters(prev_purls, sv, t1.id@, x, b0 + done);
                        assert(purl_iters_below(self.store@.purls, b0 + done + 1));
                    } else {
                        assert(self.store@.purls == prev_purls);
                        assert(purl_iters_below(self.store@.purls, b0 + done + 1));
                    }
                }
            }
            match res {
                Ok(_) => {
                    proof {
                        assert forall|i: int|
                            0 <= i < done + 1 && target_runs((#[trigger] all[i]).project) implies (
                        all[i].fetched matches Err(e0) ==> crate::errmap::map_value(
                            errs@,
                            all[i].project.project_id@,
                        ) == "sbom"@ + "::"@ + ("process_target::sbom_raw::"@
                            + e0.rendered_spec())) by {
                            if i == done {
                                assert(all[done].fetched is Ok);
                            }
                        }
                        if bounded {
                            assert forall|i: int|
                                0 <= i < done + 1 && target_runs(
                                    (#[trigger] all[i]).project,
                                ) implies (all[i].fetched matches Ok(raw) ==> (doc_clean(
                                all[i].project,
                                raw@,
                            ) ==> !map_contains_key(errs@, all[i].project.project_id@))) by {
                                if i == done {
                                    assert(!map_contains_key(
                                        errs@,
                                        all[done].project.project_id@,
                                    ));
                                }
                            }
                        }
                        done = done + 1;
                    }
                },
                Err(e) => {
                    errs.insert(pid, e.message());
                    proof {
                        assert(errs@ == map_insert(errs0, all[done].project.project_id@, e.rendered_spec()));
                        assert forall|k: Seq<char>| map_contains_key(errs@, k) implies (
                        exists|i: int| 0 <= i < done + 1 && all[i].project.project_id@ == k) by {
                            crate::errmap::lemma_map_insert_keys(
                                errs0,
                                all[done].project.project_id@,
                                e.rendered_spec(),
                                k,
                            );
                            if map_contains_key(errs0, k) {
                                let w = choose|w: int|
                                    0 <= w < done && all[w].project.project_id@ == k;
                                assert(0 <= w < done + 1 && all[w].project.project_id@ == k);
                            } else {
                                assert(all[done].project.project_id@ == k);
                            }
                        }
                        assert forall|i: int|
                            0 <= i < done + 1 && (#[trigger] all[i]).project.status
                                == ProjectStatus::Inactive implies !map_contains_key(
                            errs@,
                            all[i].project.project_id@,
                        ) by {
                            crate::errmap::lemma_map_insert_keys(
                                errs0,
                                all[done].project.project_id@,
                                e.rendered_spec(),
                                all[i].project.project_id@,
                            );
                        }
                        assert forall|i: int|
                            0 <= i < done + 1 && target_unsupported(
                                (#[trigger] all[i]).project,
                            ) implies !map_contains_key(errs@, all[i].project.project_id@) by {
                            crate::errmap::lemma_map_insert_keys(
                                errs0,
                                all[done].project.project_id@,
                                e.rendered_spec(),
                                all[i].project.project_id@,
                            );
                        }
                        assert forall|i: int|
                            0 <= i < done + 1 && target_runs((#[trigger] all[i]).project)
                                && all[i].fetched is Err implies map_contains_key(
                            errs@,
                            all[i].project.project_id@,
                        ) by {
                            crate::errmap::lemma_map_insert_keys(
                                errs0,
                                all[done].project.project_id@,
                                e.rendered_spec(),
                                all[i].project.project_id@,
                            );
                        }
                        assert forall|i: int|
                            0 <= i < done + 1 && target_runs((#[trigger] all[i]).project) implies (
                        all[i].fetched matches Ok(raw) ==> (!crate::jsonio::json_parse_ok(raw@)
                            ==> map_contains_key(errs@, all[i].project.project_id@))) by {
                            crate::errmap::lemma_map_insert_keys(
                                errs0,
                                all[done].project.project_id@,
                                e.rendered_spec(),
                                all[i].project.project_id@,
                            );
                        }
                        assert forall|i: int|
                            0 <= i < done + 1 && target_runs((#[trigger] all[i]).project) implies (
                        all[i].fetched matches Err(e0) ==> crate::errmap::map_value(
                            errs@,
                            all[i].project.project_id@,
                        ) == "sbom"@ + "::"@ + ("process_target::sbom_raw::"@
                            + e0.rendered_spec())) by {
                            crate::errmap::lemma_map_insert_value(
                                errs0,
                                all[done].project.project_id@,
                                e.rendered_spec(),
                                all[i].project.project_id@,
                            );
                            if i == done && all[i].fetched is Err {
                                assert(e.rendered_spec() == "sbom"@ + "::"@ + e.message_spec());
                            }
                        }
                        if bounded {
                            assert forall|i: int|
                                0 <= i < done + 1 && target_runs(
                                    (#[trigger] all[i]).project,
                                ) implies (all[i].fetched matches Ok(raw) ==> (doc_clean(
                                all[i].project,
                                raw@,
                            ) ==> !map_contains_key(errs@, all[i].project.project_id@))) by {
                                crate::errmap::lemma_map_insert_keys(
                                    errs0,
                                    all[done].project.project_id@,
                                    e.rendered_spec(),
                                    all[i].project.project_id@,
                                );
                                if i == done && all[i].fetched is Ok {
                                    let raw3 = all[i].fetched->Ok_0@;
                                    if doc_clean(all[i].project, raw3) {
                                        assert(purl_iters_below(prev_purls, b0 + done));
                                        let key = root_key_of(
                                            raw3,
                                            all[i].project.package_manager@,
                                        );
                                        if crate::store::purls_contain(prev_purls, key) {
                                            assert(prev_purls[crate::store::purl_index(
                                                prev_purls,
                                                key,
                                            )].iteration < b0 + done);
                                        }
                                        assert(resolve_spec(prev_purls, key) < u32::MAX);
                                        assert(doc_commits(prev_purls, all[i].project, raw3));
                                        assert(false);
                                    }
                                }
                            }
                        }
                        done = done + 1;
                    }
                },
            }
        }
        proof {
            assert(done == all.len());
        }
        Ok(errs)
    }
}


impl SbomSyncTask {
    /// Drives one full run and finishes the task record: on a
    /// run-level error the task fails with that error; otherwise the
    /// per-target error map becomes the task's error map, the error
    /// total is its size, and the task completes — `Complete` when no
    /// target failed, `CompleteWithErrors` otherwise.
    pub fn execute(&mut self, task: &mut Task, targets: Vec<TargetInput>) -> (r: Result<(), Error>)
        requires
            old(self).wf(),
            old(task).wf(),
            old(task).ref_errs@.len() == 0,
            forall|i: int, j: int|
                0 <= i < j < targets@.len() ==> targets@[i].project.project_id@
                    != targets@[j].project.project_id@,
        ensures
            final(self).wf(),
            final(task).wf(),
            targets@.len() == 0 ==> (r is Err && final(task).status == crate::tasks::TaskStatus::Failed
                && (final(task).err matches Some(m) && m@ == "snyk"@ + "::"@ + "no_projects"@) && same_state(
                *final(self),
                *old(self),
            ) && final(task).ref_errs@.len() == 0 && final(task).count == old(task).count),
            targets@.len() > 0 ==> r is Ok && final(task).count == targets@.len(),
            r is Ok ==> final(task).err_total == final(task).ref_errs@.len(),
            r is Ok ==> final(task).status == (if final(task).ref_errs@.len() == 0 {
                crate::tasks::TaskStatus::Complete
            } else {
                crate::tasks::TaskStatus::CompleteWithErrors
            }),
            r is Ok ==> (forall|k: Seq<char>|
                map_contains_key(final(task).ref_errs@, k) ==> (exists|i: int|
                    0 <= i < targets@.len() && targets@[i].project.project_id@ == k)),
            r is Ok ==> (forall|i: int|
                0 <= i < targets@.len() && (#[trigger] targets@[i]).project.status
                    == ProjectStatus::Inactive ==> !map_contains_key(
                    final(task).ref_errs@,
                    targets@[i].project.project_id@,
                )),
            r is Ok ==> (forall|i: int|
                0 <= i < targets@.len() && target_unsupported(
                    (#[trigger] targets@[i]).project,
                ) ==> !map_contains_key(final(task).ref_errs@, targets@[i].project.project_id@)),
            r is Ok ==> (forall|i: int|
                0 <= i < targets@.len() && target_runs((#[trigger] targets@[i]).project)
                    && targets@[i].fetched is Err ==> map_contains_key(
                    final(task).ref_errs@,
                    targets@[i].project.project_id@,
                )),
            r is Ok ==> (forall|i: int|
                0 <= i < targets@.len() && target_runs((#[trigger] targets@[i]).project) ==> (
                targets@[i].fetched matches Ok(raw) ==> (!crate::jsonio::json_parse_ok(raw@)
                    ==> map_contains_key(final(task).ref_errs@, targets@[i].project.project_id@)))),
            r is Ok ==> (targets@.len() <= u32::MAX - 1 && purl_iters_below(
                old(self).store@.purls,
                u32::MAX - targets@.len(),
            ) ==> (forall|i: int|
                0 <= i < targets@.len() && target_runs((#[trigger] targets@[i]).project) ==> (
                targets@[i].fetched matches Ok(raw) ==> (doc_clean(targets@[i].project, raw@)
                    ==> !map_contains_key(
                    final(task).ref_errs@,
                    targets@[i].project.project_id@,
                ))))),
            r is Ok ==> (forall|i: int|
                0 <= i < targets@.len() && target_runs((#[trigger] targets@[i]).project) ==> (
                targets@[i].fetched matches Err(e0) ==> crate::errmap::map_value(
                    final(task).ref_errs@,
                    targets@[i].project.project_id@,
                ) == "sbom"@ + "::"@ + ("process_target::sbom_raw::"@ + e0.rendered_spec()))),
    {
        let result = self.run(task, targets);
        let now = Task::now();
        let finish = if now < task.start {
            task.start
        } else {
            now
        };
        match result {
            Err(e) => {
                task.fail(e.message(), finish);
                Err(e)
            },
            Ok(errs) => {
                task.ref_errs = errs;
                task.complete(finish);
                Ok(())
            },
        }
    }
}


/// An identity upsert keeps keys pairwise distinct.
pub proof fn lemma_upsert_purl_wf(s: Seq<PurlV>, p: PurlV)
    requires
        crate::store::purls_wf(s),
    ensures
        crate::store::purls_wf(upsert_purl_spec(s, p)),
{
    let s2 = upsert_purl_spec(s, p);
    if crate::store::purls_contain(s, p.purl) {
        let idx = crate::store::purl_index(s, p.purl);
        assert(0 <= idx < s.len() && s[idx].purl == p.purl);
        assert forall|a: int, b: int| 0 <= a < b < s2.len() implies s2[a].purl != s2[b].purl by {
            assert(s[a].purl != s[b].purl);
            assert(s2[a].purl == s[a].purl);
            assert(s2[b].purl == s[b].purl);
        }
    } else {
        assert forall|a: int, b: int| 0 <= a < b < s2.len() implies s2[a].purl != s2[b].purl by {
            if b < s2.len() - 1 {
                assert(s[a].purl != s[b].purl);
            } else {
                assert(s2[b] == p);
                assert(s[a].purl != p.purl);
            }
        }
    }
}

/// After an identity upsert the upserted key is stored; its
/// iteration is the incoming one whenever that does not regress; and
/// every other key's record is untouched.
pub proof fn lemma_upsert_purl_lookup(s: Seq<PurlV>, p: PurlV, k: Seq<char>)
    requires
        crate::store::purls_wf(s),
    ensures
        crate::store::purls_contain(upsert_purl_spec(s, p), p.purl),
        k != p.purl ==> crate::store::purls_contain(upsert_purl_spec(s, p), k)
            == crate::store::purls_contain(s, k),
        k != p.purl && crate::store::purls_contain(s, k) ==> resolve_spec(upsert_purl_spec(s, p), k)
            == resolve_spec(s, k),
        p.iteration >= resolve_spec(s, p.purl) ==> resolve_spec(upsert_purl_spec(s, p), p.purl)
            == p.iteration,
{
    let s2 = upsert_purl_spec(s, p);
    lemma_upsert_purl_wf(s, p);
    if crate::store::purls_contain(s, p.purl) {
        let idx = crate::store::purl_index(s, p.purl);
        assert(0 <= idx < s.len() && s[idx].purl == p.purl);
        assert(s2[idx].purl == p.purl);
        crate::store::lemma_purl_index_unique(s2, p.purl, idx);
        assert(s2[idx] == crate::store::merge_purl(s[idx], p));
        if k != p.purl {
            if crate::store::purls_contain(s, k) {
                let w = crate::store::purl_index(s, k);
                assert(0 <= w < s.len() && s[w].purl == k);
                assert(w != idx);
                assert(s2[w] == s[w]);
                crate::store::lemma_purl_index_unique(s2, k, w);
            }
            if crate::store::purls_contain(s2, k) {
                let w = choose|w: int| 0 <= w < s2.len() && s2[w].purl == k;
                assert(w != idx);
                assert(s[w].purl == k);
            }
        }
    } else {
        let idx = s.len() as int;
        assert(s2[idx] == p);
        crate::store::lemma_purl_index_unique(s2, p.purl, idx);
        if k != p.purl {
            if crate::store::purls_contain(s, k) {
                let w = crate::store::purl_index(s, k);
                assert(0 <= w < s.len() && s[w].purl == k);
                assert(s2[w] == s[w]);
                crate::store::lemma_purl_index_unique(s2, k, w);
            }
            if crate::store::purls_contain(s2, k) {
                let w = choose|w: int| 0 <= w < s2.len() && s2[w].purl == k;
                assert(w < s.len());
                assert(s[w].purl == k);
            }
        }
    }
}

/// Walking dependency entries never touches a root-package identity:
/// every key a dependency upserts carries the dependency kind, which
/// no root key shares.
pub proof fn lemma_fold_dep_purls_root_key(
    purls: Seq<PurlV>,
    deps: Seq<Dependency>,
    tid: Seq<char>,
    x: Xref,
    c: crate::packages::Component,
)
    requires
        crate::store::purls_wf(purls),
    ensures
        crate::store::purls_wf(fold_dep_purls(purls, deps, tid, x)),
        crate::store::purls_contain(
            fold_dep_purls(purls, deps, tid, x),
            component_key_spec(c, ComponentKind::Package),
        ) == crate::store::purls_contain(purls, component_key_spec(c, ComponentKind::Package)),
        resolve_spec(fold_dep_purls(purls, deps, tid, x), component_key_spec(c, ComponentKind::Package))
            == resolve_spec(purls, component_key_spec(c, ComponentKind::Package)),
    decreases deps.len(),
{
    let k = component_key_spec(c, ComponentKind::Package);
    if deps.len() > 0 {
        let step = dep_purl_step(purls, deps[0], tid, x);
        match deps[0].component {
            Some(dc) => {
                if !component_malformed(dc) {
                    let p = purl_of_component(dc, ComponentKind::Dependency, tid, 0, x);
                    crate::packages::lemma_kind_separates(c, dc);
                    assert(p.purl != k);
                    lemma_upsert_purl_lookup(purls, p, k);
                    lemma_upsert_purl_wf(purls, p);
                }
            },
            None => {},
        }
        lemma_fold_dep_purls_root_key(step, deps.drop_first(), tid, x, c);
    }
}

/// LAW: committing an aggregate stamped by the resolver leaves the
/// stored iteration of its root identity at exactly the stamp.
/// Resolving the identity right after a commit therefore answers one
/// more than before it, so repeated syncs of the same target receive
/// strictly increasing iteration numbers.
pub proof fn lemma_iteration_advances(
    purls: Seq<PurlV>,
    sv: SbomV,
    tid: Seq<char>,
    x: Xref,
    c: crate::packages::Component,
)
    requires
        crate::store::purls_wf(purls),
        sv.component == Some(c),
        !component_malformed(c),
        resolve_spec(purls, component_key_spec(c, ComponentKind::Package)) < u32::MAX,
        sv.instance == resolve_spec(purls, component_key_spec(c, ComponentKind::Package)) + 1,
    ensures
        crate::store::purls_wf(commit_purls_spec(purls, sv, tid, x)),
        resolve_spec(
            commit_purls_spec(purls, sv, tid, x),
            component_key_spec(c, ComponentKind::Package),
        ) == sv.instance,
{
    let k = component_key_spec(c, ComponentKind::Package);
    let p = purl_of_component(c, ComponentKind::Package, tid, sv.instance, x);
    assert(p.purl == k && p.iteration == sv.instance);
    let after_root = root_purl_step(purls, sv, tid, x);
    assert(after_root == upsert_purl_spec(purls, p));
    lemma_upsert_purl_lookup(purls, p, k);
    lemma_upsert_purl_wf(purls, p);
    assert(resolve_spec(after_root, k) == sv.instance);
    lemma_fold_dep_purls_root_key(after_root, sv.dependencies, tid, x, c);
}

/// LAW: running the same target twice produces two aggregates whose
/// iteration numbers are strictly increasing — the second is exactly
/// one more than the first — while the identity record itself is
/// merged in place, never duplicated.
pub proof fn lemma_repeated_sync_iterations(
    purls0: Seq<PurlV>,
    sv1: SbomV,
    sv2: SbomV,
    tid1: Seq<char>,
    tid2: Seq<char>,
    x1: Xref,
    x2: Xref,
    c: crate::packages::Component,
)
    requires
        crate::store::purls_wf(purls0),
        sv1.component == Some(c),
        sv2.component == Some(c),
        !component_malformed(c),
        resolve_spec(purls0, component_key_spec(c, ComponentKind::Package)) + 1 < u32::MAX,
        sv1.instance == resolve_spec(purls0, component_key_spec(c, ComponentKind::Package)) + 1,
        sv2.instance == resolve_spec(
            commit_purls_spec(purls0, sv1, tid1, x1),
            component_key_spec(c, ComponentKind::Package),
        ) + 1,
    ensures
        sv2.instance == sv1.instance + 1,
        sv2.instance > sv1.instance,
{
    lemma_iteration_advances(purls0, sv1, tid1, x1, c);
}


/// Whether some target in the sequence carries the id.
pub open spec fn targets_contain_id(s: Seq<TargetInput>, k: Seq<char>) -> bool {
    exists|i: int| 0 <= i < s.len() && s[i].project.project_id@ == k
}

/// Whether a target is one of a sequence of targets.
pub open spec fn target_among(t: TargetInput, s: Seq<TargetInput>) -> bool {
    exists|j: int| 0 <= j < s.len() && s[j] == t
}

/// Walking the targets in order, keeping each one whose id has not
/// been kept yet and dropping the rest.
pub open spec fn dedup_fold(acc: Seq<TargetInput>, rem: Seq<TargetInput>) -> Seq<TargetInput>
    decreases rem.len(),
{
    if rem.len() == 0 {
        acc
    } else if targets_contain_id(acc, rem[0].project.project_id@) {
        dedup_fold(acc, rem.drop_first())
    } else {
        dedup_fold(acc.push(rem[0]), rem.drop_first())
    }
}

/// Keeps the first target reported under each id and drops later
/// duplicates, so a run can key its error map by target id. The
/// order of first occurrences is kept; no id is lost.
pub fn dedup_targets(targets: Vec<TargetInput>) -> (r: Vec<TargetInput>)
    ensures
        r@ == dedup_fold(Seq::<TargetInput>::empty(), targets@),
        forall|i: int, j: int|
            0 <= i < j < r@.len() ==> r@[i].project.project_id@ != r@[j].project.project_id@,
        forall|i: int| 0 <= i < r@.len() ==> target_among(#[trigger] r@[i], targets@),
        forall|k: Seq<char>|
            targets_contain_id(targets@, k) ==> targets_contain_id(r@, k),
        targets@.len() > 0 ==> r@.len() > 0,
{
    let ghost all = targets@;
    let mut rem = targets;
    let mut out: Vec<TargetInput> = Vec::new();
    let ghost mut done: int = 0;
    while rem.len() > 0
        invariant
            0 <= done <= all.len(),
            done + rem@.len() == all.len(),
            rem@ == all.skip(done),
            dedup_fold(out@, rem@) == dedup_fold(Seq::<TargetInput>::empty(), all),
            forall|i: int, j: int|
                0 <= i < j < out@.len() ==> out@[i].project.project_id@
                    != out@[j].project.project_id@,
            forall|i: int| 0 <= i < out@.len() ==> target_among(#[trigger] out@[i], all),
            forall|k: Seq<char>|
                targets_contain_id(all.take(done), k) ==> targets_contain_id(out@, k),
            done > 0 ==> out@.len() > 0,
        decreases rem@.len(),
    {
        let ghost rem0 = rem@;
        let ghost out0 = out@;
        let input = rem.remove(0);
        proof {
            assert(rem@ =~= rem0.drop_first());
            assert(input == all[done]);
            assert(rem@ =~= all.skip(done + 1));
        }
        let ghost kid = input.project.project_id@;
        let mut seen = false;
        let m = out.len();
        for w in 0..m
            invariant
                m == out@.len(),
                out@ == out0,
                input.project.project_id@ == kid,
                seen == (exists|v: int| 0 <= v < w && (#[trigger] out@[v]).project.project_id@
                    == kid),
        {
            if crate::strings::str_eq(
                out[w].project.project_id.as_str(),
                input.project.project_id.as_str(),
            ) {
                seen = true;
            }
            proof {
                if out@[w as int].project.project_id@ == kid {
                    assert(seen);
                }
            }
        }
        proof {
            assert(seen == targets_contain_id(out0, kid));
        }
        if !seen {
            out.push(input);
        }
        proof {
            assert(dedup_fold(out0, rem0) == dedup_fold(out@, rem@));
            assert(all.take(done + 1).drop_last() =~= all.take(done));
            assert(all.take(done + 1).last() == all[done]);
            assert forall|i: int|
                0 <= i < out@.len() implies target_among(#[trigger] out@[i], all) by {
                if i < out0.len() {
                    assert(out@[i] == out0[i]);
                    assert(target_among(out0[i], all));
                } else {
                    assert(out@[i] == all[done]);
                }
            }
            assert forall|k: Seq<char>|
                targets_contain_id(all.take(done + 1), k) implies targets_contain_id(
                out@,
                k,
            ) by {
                let u = choose|u: int|
                    0 <= u < all.take(done + 1).len() && (#[trigger] all.take(
                        done + 1,
                    )[u]).project.project_id@ == k;
                if u < done {
                    assert(all.take(done)[u] == all.take(done + 1)[u]);
                    assert(targets_contain_id(all.take(done), k));
                    assert(targets_contain_id(out0, k));
                    let v = choose|v: int|
                        0 <= v < out0.len() && (#[trigger] out0[v]).project.project_id@ == k;
                    assert(out@[v].project.project_id@ == k);
                } else {
                    assert(k == kid);
                    if seen {
                        let v = choose|v: int|
                            0 <= v < out0.len() && (#[trigger] out0[v]).project.project_id@ == kid;
                        assert(out@[v].project.project_id@ == k);
                    } else {
                        assert(out@[out@.len() - 1].project.project_id@ == k);
                    }
                }
            }
            done = done + 1;
        }
    }
    proof {
        assert(done == all.len());
        assert(all.take(done) =~= all);
        assert(dedup_fold(out@, rem@) == out@);
    }
    out
}

} // verus!
