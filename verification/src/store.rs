//! The document store model: collections of SBOM aggregates, package
//! records, identity records, dependency records and unsupported
//! markers. Aggregates are append-only history; the keyed records are
//! merged on upsert — last write wins on plain fields, xref sets are
//! unioned, iterations advance and never regress.

use crate::packages::opt_view;
use crate::packages::Package;
use crate::packages::PackageV;
use crate::packages::Purl;
use crate::packages::PurlV;
use crate::packages::Unsupported;
use crate::packages::UnsupportedV;
use crate::sboms::dependency_purl_spec;
use crate::sboms::Dependency;
use crate::sboms::Sbom;
use crate::sboms::SbomV;
use crate::strings::str_eq;
use crate::tasks::clone_task_refs;
use crate::xrefs::clone_xrefs;
use crate::xrefs::merge_xrefs;
use crate::xrefs::xref_union;
use vstd::prelude::*;

verus! {

// ---------------------------------------------------------------
// Identity records
// ---------------------------------------------------------------
/// Whether an identity with the key is stored.
pub open spec fn purls_contain(s: Seq<PurlV>, k: Seq<char>) -> bool {
    exists|i: int| 0 <= i < s.len() && s[i].purl == k
}

/// The position of the identity with the key.
pub open spec fn purl_index(s: Seq<PurlV>, k: Seq<char>) -> int {
    choose|i: int| 0 <= i < s.len() && s[i].purl == k
}

/// Identity records with pairwise distinct keys.
pub open spec fn purls_wf(s: Seq<PurlV>) -> bool {
    forall|i: int, j: int| 0 <= i < j < s.len() ==> s[i].purl != s[j].purl
}

/// With distinct keys, any matching position is the position.
pub proof fn lemma_purl_index_unique(s: Seq<PurlV>, k: Seq<char>, i: int)
    requires
        purls_wf(s),
        0 <= i < s.len(),
        s[i].purl == k,
    ensures
        purl_index(s, k) == i,
{
    let j = purl_index(s, k);
    assert(0 <= j < s.len() && s[j].purl == k);
}

/// Merging a previously seen identity with a new observation: plain
/// fields take the incoming value, the xref sets are unioned, the
/// task references accumulate, and the iteration advances but never
/// regresses.
pub open spec fn merge_purl(base: PurlV, incoming: PurlV) -> PurlV {
    PurlV {
        purl: base.purl,
        kind: incoming.kind,
        name: incoming.name,
        version: incoming.version,
        iteration: if incoming.iteration > base.iteration {
            incoming.iteration
        } else {
            base.iteration
        },
        task_refs: base.task_refs + incoming.task_refs,
        xrefs: xref_union(base.xrefs, incoming.xrefs),
    }
}

/// The effect of upserting an identity: merged in place when the key
/// is present, appended when it is new.
pub open spec fn upsert_purl_spec(s: Seq<PurlV>, p: PurlV) -> Seq<PurlV> {
    if purls_contain(s, p.purl) {
        s.update(purl_index(s, p.purl), merge_purl(s[purl_index(s, p.purl)], p))
    } else {
        s.push(p)
    }
}

/// Builds the merged identity record.
fn merged_purl(base: &Purl, incoming: Purl) -> (r: Purl)
    requires
        base@.purl == incoming@.purl,
    ensures
        r@ == merge_purl(base@, incoming@),
{
    let ghost incv = incoming@;
    let ghost inc_refs = incoming.task_refs@;
    let mut task_refs = clone_task_refs(&base.task_refs);
    let n = incoming.task_refs.len();
    for i in 0..n
        invariant
            n == incoming.task_refs@.len(),
            incoming.task_refs@ == inc_refs,
            task_refs@ =~= base.task_refs@ + inc_refs.take(i as int),
    {
        task_refs.push(incoming.task_refs[i].clone());
        proof {
            assert(task_refs@ =~= base.task_refs@ + inc_refs.take(i + 1));
        }
    }
    proof {
        assert(inc_refs.take(n as int) =~= inc_refs);
        assert(task_refs@.map(|_i: int, t: crate::tasks::TaskRef| t@) =~= base@.task_refs
            + incv.task_refs);
    }
    let mut xrefs = clone_xrefs(&base.xrefs);
    merge_xrefs(&mut xrefs, &incoming.xrefs);
    Purl {
        purl: base.purl.clone(),
        kind: incoming.kind,
        name: incoming.name,
        version: incoming.version,
        iteration: if incoming.iteration > base.iteration {
            incoming.iteration
        } else {
            base.iteration
        },
        task_refs,
        xrefs,
    }
}

// ---------------------------------------------------------------
// Package records
// ---------------------------------------------------------------
/// Whether a package with the key is stored.
pub open spec fn packages_contain(s: Seq<PackageV>, k: Seq<char>) -> bool {
    exists|i: int| 0 <= i < s.len() && s[i].purl == k
}

/// The position of the package with the key.
pub open spec fn package_index(s: Seq<PackageV>, k: Seq<char>) -> int {
    choose|i: int| 0 <= i < s.len() && s[i].purl == k
}

/// Package records with pairwise distinct keys.
pub open spec fn packages_wf(s: Seq<PackageV>) -> bool {
    forall|i: int, j: int| 0 <= i < j < s.len() ==> s[i].purl != s[j].purl
}

/// With distinct keys, any matching position is the position.
pub proof fn lemma_package_index_unique(s: Seq<PackageV>, k: Seq<char>, i: int)
    requires
        packages_wf(s),
        0 <= i < s.len(),
        s[i].purl == k,
    ensures
        package_index(s, k) == i,
{
    let j = package_index(s, k);
    assert(0 <= j < s.len() && s[j].purl == k);
}

/// Merging a package: last write wins on plain fields, xref sets are
/// unioned.
pub open spec fn merge_package(base: PackageV, incoming: PackageV) -> PackageV {
    PackageV {
        purl: base.purl,
        name: incoming.name,
        version: incoming.version,
        xrefs: xref_union(base.xrefs, incoming.xrefs),
    }
}

/// The effect of upserting a package by its canonical key.
pub open spec fn upsert_package_spec(s: Seq<PackageV>, p: PackageV) -> Seq<PackageV> {
    if packages_contain(s, p.purl) {
        s.update(package_index(s, p.purl), merge_package(s[package_index(s, p.purl)], p))
    } else {
        s.push(p)
    }
}

/// The package records after a commit: upserted when the aggregate
/// resolved a package, untouched otherwise.
pub open spec fn commit_packages_spec(s: Seq<PackageV>, pkg: Option<PackageV>) -> Seq<PackageV> {
    match pkg {
        Some(p) => upsert_package_spec(s, p),
        None => s,
    }
}

/// Builds the merged package record.
fn merged_package(base: &Package, incoming: Package) -> (r: Package)
    requires
        base@.purl == incoming@.purl,
    ensures
        r@ == merge_package(base@, incoming@),
{
    let mut xrefs = clone_xrefs(&base.xrefs);
    merge_xrefs(&mut xrefs, &incoming.xrefs);
    Package { purl: base.purl.clone(), name: incoming.name, version: incoming.version, xrefs }
}

// ---------------------------------------------------------------
// Unsupported markers
// ---------------------------------------------------------------
/// Whether a marker for the external id is stored.
pub open spec fn unsupported_contain(s: Seq<UnsupportedV>, k: Seq<char>) -> bool {
    exists|i: int| 0 <= i < s.len() && s[i].external_id == k
}

/// The position of the marker for the external id.
pub open spec fn unsupported_index(s: Seq<UnsupportedV>, k: Seq<char>) -> int {
    choose|i: int| 0 <= i < s.len() && s[i].external_id == k
}

/// Markers with pairwise distinct external ids.
pub open spec fn unsupported_wf(s: Seq<UnsupportedV>) -> bool {
    forall|i: int, j: int| 0 <= i < j < s.len() ==> s[i].external_id != s[j].external_id
}

/// With distinct keys, any matching position is the position.
pub proof fn lemma_unsupported_index_unique(s: Seq<UnsupportedV>, k: Seq<char>, i: int)
    requires
        unsupported_wf(s),
        0 <= i < s.len(),
        s[i].external_id == k,
    ensures
        unsupported_index(s, k) == i,
{
    let j = unsupported_index(s, k);
    assert(0 <= j < s.len() && s[j].external_id == k);
}

/// Merging a marker: last write wins on plain fields, xref sets are
/// unioned.
pub open spec fn merge_unsupported(base: UnsupportedV, incoming: UnsupportedV) -> UnsupportedV {
    UnsupportedV {
        external_id: base.external_id,
        name: incoming.name,
        package_manager: incoming.package_manager,
        xrefs: xref_union(base.xrefs, incoming.xrefs),
    }
}

/// The effect of upserting a marker by external id.
pub open spec fn upsert_unsupported_spec(s: Seq<UnsupportedV>, u: UnsupportedV) -> Seq<
    UnsupportedV,
> {
    if unsupported_contain(s, u.external_id) {
        s.update(
            unsupported_index(s, u.external_id),
            merge_unsupported(s[unsupported_index(s, u.external_id)], u),
        )
    } else {
        s.push(u)
    }
}

/// Builds the merged marker.
fn merged_unsupported(base: &Unsupported, incoming: Unsupported) -> (r: Unsupported)
    requires
        base@.external_id == incoming@.external_id,
    ensures
        r@ == merge_unsupported(base@, incoming@),
{
    let mut xrefs = clone_xrefs(&base.xrefs);
    merge_xrefs(&mut xrefs, &incoming.xrefs);
    Unsupported {
        external_id: base.external_id.clone(),
        name: incoming.name,
        package_manager: incoming.package_manager,
        xrefs,
    }
}

// ---------------------------------------------------------------
// Dependency records
// ---------------------------------------------------------------
/// Whether a dependency record with the raw purl key is stored.
pub open spec fn dependencies_contain(s: Seq<Dependency>, k: Seq<char>) -> bool {
    exists|i: int| 0 <= i < s.len() && dependency_purl_spec(s[i]) == Some(k)
}

/// The position of the dependency record with the key.
pub open spec fn dependency_index(s: Seq<Dependency>, k: Seq<char>) -> int {
    choose|i: int| 0 <= i < s.len() && dependency_purl_spec(s[i]) == Some(k)
}

/// Dependency records with keys, pairwise distinct.
pub open spec fn dependencies_wf(s: Seq<Dependency>) -> bool {
    &&& forall|i: int| 0 <= i < s.len() ==> dependency_purl_spec(s[i]) is Some
    &&& forall|i: int, j: int|
        0 <= i < j < s.len() ==> dependency_purl_spec(s[i]) != dependency_purl_spec(s[j])
}

/// The effect of upserting a dependency record by its raw purl key:
/// last write wins.
pub open spec fn upsert_dependency_spec(s: Seq<Dependency>, d: Dependency, k: Seq<char>) -> Seq<
    Dependency,
> {
    if dependencies_contain(s, k) {
        s.update(dependency_index(s, k), d)
    } else {
        s.push(d)
    }
}

// ---------------------------------------------------------------
// The store
// ---------------------------------------------------------------
/// The mathematical content of the store.
pub ghost struct StoreV {
    /// Append-only history of SBOM aggregates.
    pub sboms: Seq<SbomV>,
    /// Package records, keyed by canonical key.
    pub packages: Seq<PackageV>,
    /// Identity records, keyed by canonical key.
    pub purls: Seq<PurlV>,
    /// Dependency records, keyed by raw purl text.
    pub dependencies: Seq<Dependency>,
    /// Unsupported markers, keyed by external id.
    pub unsupported: Seq<UnsupportedV>,
}

/// The document store: an in-memory model of the persistence engine
/// with insert and upsert-by-key semantics.
#[derive(Debug)]
pub struct Store {
    sboms: Vec<Sbom>,
    packages: Vec<Package>,
    purls: Vec<Purl>,
    dependencies: Vec<Dependency>,
    unsupported: Vec<Unsupported>,
}

impl View for Store {
    type V = StoreV;

    closed spec fn view(&self) -> StoreV {
        StoreV {
            sboms: self.sboms@.map(|_i: int, s: Sbom| s@),
            packages: self.packages@.map(|_i: int, p: Package| p@),
            purls: self.purls@.map(|_i: int, p: Purl| p@),
            dependencies: self.dependencies@,
            unsupported: self.unsupported@.map(|_i: int, u: Unsupported| u@),
        }
    }
}

impl Store {
    /// Keyed collections hold pairwise distinct keys.
    pub open spec fn wf(&self) -> bool {
        purls_wf(self@.purls) && packages_wf(self@.packages) && unsupported_wf(self@.unsupported)
            && dependencies_wf(self@.dependencies)
    }

    /// An empty store.
    pub fn new() -> (r: Store)
        ensures
            r@.sboms == Seq::<SbomV>::empty(),
            r@.packages == Seq::<PackageV>::empty(),
            r@.purls == Seq::<PurlV>::empty(),
            r@.dependencies == Seq::<Dependency>::empty(),
            r@.unsupported == Seq::<UnsupportedV>::empty(),
            r.wf(),
    {
        let r = Store {
            sboms: Vec::new(),
            packages: Vec::new(),
            purls: Vec::new(),
            dependencies: Vec::new(),
            unsupported: Vec::new(),
        };
        proof {
            assert(r@.sboms =~= Seq::<SbomV>::empty());
            assert(r@.packages =~= Seq::<PackageV>::empty());
            assert(r@.purls =~= Seq::<PurlV>::empty());
            assert(r@.unsupported =~= Seq::<UnsupportedV>::empty());
        }
        r
    }

    /// Inserts an SBOM aggregate: always a new record, never a merge.
    pub fn insert_sbom(&mut self, s: Sbom)
        requires
            old(self).wf(),
        ensures
            final(self).wf(),
            final(self)@.sboms == old(self)@.sboms.push(s@),
            final(self)@.packages == old(self)@.packages,
            final(self)@.purls == old(self)@.purls,
            final(self)@.dependencies == old(self)@.dependencies,
            final(self)@.unsupported == old(self)@.unsupported,
    {
        self.sboms.push(s);
        proof {
            assert(self@.sboms =~= old(self)@.sboms.push(self.sboms@.last()@));
        }
    }

    /// Upserts an identity record by its canonical key, merging when
    /// the key was already seen.
    pub fn upsert_purl(&mut self, p: Purl)
        requires
            old(self).wf(),
        ensures
            final(self).wf(),
            final(self)@.purls == upsert_purl_spec(old(self)@.purls, p@),
            final(self)@.sboms == old(self)@.sboms,
            final(self)@.packages == old(self)@.packages,
            final(self)@.dependencies == old(self)@.dependencies,
            final(self)@.unsupported == old(self)@.unsupported,
    {
        let n = self.purls.len();
        for i in 0..n
            invariant
                self.wf(),
                self@ == old(self)@,
                n == self.purls@.len(),
                forall|j: int| 0 <= j < i ==> self@.purls[j].purl != p@.purl,
        {
            if str_eq(self.purls[i].purl.as_str(), p.purl.as_str()) {
                proof {
                    assert(self@.purls[i as int].purl == p@.purl);
                    lemma_purl_index_unique(self@.purls, p@.purl, i as int);
                }
                let merged = merged_purl(&self.purls[i], p);
                self.purls.set(i, merged);
                proof {
                    assert(self@.purls =~= upsert_purl_spec(old(self)@.purls, p@));
                    assert forall|a: int, b: int|
                        0 <= a < b < self@.purls.len() implies self@.purls[a].purl
                        != self@.purls[b].purl by {
                        assert(old(self)@.purls[a].purl != old(self)@.purls[b].purl);
                        assert(self@.purls[a].purl == old(self)@.purls[a].purl);
                        assert(self@.purls[b].purl == old(self)@.purls[b].purl);
                    }
                }
                return ;
            }
        }
        self.purls.push(p);
        proof {
            assert(self@.purls =~= upsert_purl_spec(old(self)@.purls, p@));
            assert forall|a: int, b: int|
                0 <= a < b < self@.purls.len() implies self@.purls[a].purl
                != self@.purls[b].purl by {
                if b < self@.purls.len() - 1 {
                    assert(old(self)@.purls[a].purl != old(self)@.purls[b].purl);
                }
            }
        }
    }

    /// Upserts a package record by its canonical key.
    pub fn upsert_package_by_purl(&mut self, p: Package)
        requires
            old(self).wf(),
        ensures
            final(self).wf(),
            final(self)@.packages == upsert_package_spec(old(self)@.packages, p@),
            final(self)@.sboms == old(self)@.sboms,
            final(self)@.purls == old(self)@.purls,
            final(self)@.dependencies == old(self)@.dependencies,
            final(self)@.unsupported == old(self)@.unsupported,
    {
        let n = self.packages.len();
        for i in 0..n
            invariant
                self.wf(),
                self@ == old(self)@,
                n == self.packages@.len(),
                forall|j: int| 0 <= j < i ==> self@.packages[j].purl != p@.purl,
        {
            if str_eq(self.packages[i].purl.as_str(), p.purl.as_str()) {
                proof {
                    assert(self@.packages[i as int].purl == p@.purl);
                    lemma_package_index_unique(self@.packages, p@.purl, i as int);
                }
                let merged = merged_package(&self.packages[i], p);
                self.packages.set(i, merged);
                proof {
                    assert(self@.packages =~= upsert_package_spec(old(self)@.packages, p@));
                    assert forall|a: int, b: int|
                        0 <= a < b < self@.packages.len() implies self@.packages[a].purl
                        != self@.packages[b].purl by {
                        assert(old(self)@.packages[a].purl != old(self)@.packages[b].purl);
                        assert(self@.packages[a].purl == old(self)@.packages[a].purl);
                        assert(self@.packages[b].purl == old(self)@.packages[b].purl);
                    }
                }
                return ;
            }
        }
        self.packages.push(p);
        proof {
            assert(self@.packages =~= upsert_package_spec(old(self)@.packages, p@));
            assert forall|a: int, b: int|
                0 <= a < b < self@.packages.len() implies self@.packages[a].purl
                != self@.packages[b].purl by {
                if b < self@.packages.len() - 1 {
                    assert(old(self)@.packages[a].purl != old(self)@.packages[b].purl);
                }
            }
        }
    }

    /// Upserts an unsupported marker by the target's external id.
    pub fn upsert_unsupported_by_external_id(&mut self, u: Unsupported)
        requires
            old(self).wf(),
        ensures
            final(self).wf(),
            final(self)@.unsupported == upsert_unsupported_spec(old(self)@.unsupported, u@),
            final(self)@.sboms == old(self)@.sboms,
            final(self)@.purls == old(self)@.purls,
            final(self)@.packages == old(self)@.packages,
            final(self)@.dependencies == old(self)@.dependencies,
    {
        let n = self.unsupported.len();
        for i in 0..n
            invariant
                self.wf(),
                self@ == old(self)@,
                n == self.unsupported@.len(),
                forall|j: int| 0 <= j < i ==> self@.unsupported[j].external_id != u@.external_id,
        {
            if str_eq(self.unsupported[i].external_id.as_str(), u.external_id.as_str()) {
                proof {
                    assert(self@.unsupported[i as int].external_id == u@.external_id);
                    lemma_unsupported_index_unique(self@.unsupported, u@.external_id, i as int);
                }
                let merged = merged_unsupported(&self.unsupported[i], u);
                self.unsupported.set(i, merged);
                proof {
                    assert(self@.unsupported =~= upsert_unsupported_spec(
                        old(self)@.unsupported,
                        u@,
                    ));
                    assert forall|a: int, b: int|
                        0 <= a < b < self@.unsupported.len() implies self@.unsupported[a].external_id
                        != self@.unsupported[b].external_id by {
                        assert(old(self)@.unsupported[a].external_id
                            != old(self)@.unsupported[b].external_id);
                        assert(self@.unsupported[a].external_id
                            == old(self)@.unsupported[a].external_id);
                        assert(self@.unsupported[b].external_id
                            == old(self)@.unsupported[b].external_id);
                    }
                }
                return ;
            }
        }
        self.unsupported.push(u);
        proof {
            assert(self@.unsupported =~= upsert_unsupported_spec(old(self)@.unsupported, u@));
            assert forall|a: int, b: int|
                0 <= a < b < self@.unsupported.len() implies self@.unsupported[a].external_id
                != self@.unsupported[b].external_id by {
                if b < self@.unsupported.len() - 1 {
                    assert(old(self)@.unsupported[a].external_id
                        != old(self)@.unsupported[b].external_id);
                }
            }
        }
    }

    /// Upserts a dependency record by its raw purl text.
    pub fn upsert_dependency_by_purl(&mut self, d: Dependency, key: &str)
        requires
            old(self).wf(),
            dependency_purl_spec(d) == Some(key@),
        ensures
            final(self).wf(),
            final(self)@.dependencies == upsert_dependency_spec(old(self)@.dependencies, d, key@),
            final(self)@.sboms == old(self)@.sboms,
            final(self)@.purls == old(self)@.purls,
            final(self)@.packages == old(self)@.packages,
            final(self)@.unsupported == old(self)@.unsupported,
    {
        let n = self.dependencies.len();
        for i in 0..n
            invariant
                self.wf(),
                self@ == old(self)@,
                n == self.dependencies@.len(),
                dependency_purl_spec(d) == Some(key@),
                forall|j: int|
                    0 <= j < i ==> dependency_purl_spec(self@.dependencies[j]) != Some(key@),
        {
            let existing = self.dependencies[i].purl();
            let matched = match existing {
                None => false,
                Some(k) => str_eq(k.as_str(), key),
            };
            if matched {
                proof {
                    let s = self@.dependencies;
                    assert(dependency_purl_spec(s[i as int]) == Some(key@));
                    let j = dependency_index(s, key@);
                    assert(0 <= j < s.len() && dependency_purl_spec(s[j]) == Some(key@));
                    assert(j == i as int);
                }
                proof {
                    assert(dependency_purl_spec(old(self)@.dependencies[i as int]) == Some(key@));
                }
                let ghost dkey = dependency_purl_spec(d);
                self.dependencies.set(i, d);
                proof {
                    let oldd = old(self)@.dependencies;
                    let newd = self@.dependencies;
                    assert(newd == oldd.update(i as int, d));
                    assert(newd =~= upsert_dependency_spec(oldd, d, key@));
                    assert(dkey == Some(key@));
                    assert forall|a: int, b: int|
                        0 <= a < b < newd.len() implies dependency_purl_spec(newd[a])
                        != dependency_purl_spec(newd[b]) by {
                        assert(dependency_purl_spec(oldd[a]) != dependency_purl_spec(oldd[b]));
                        if a == i as int {
                            assert(dependency_purl_spec(newd[a]) == dkey);
                            assert(dependency_purl_spec(oldd[a]) == Some(key@));
                            assert(dependency_purl_spec(newd[b]) == dependency_purl_spec(oldd[b]));
                        } else if b == i as int {
                            assert(dependency_purl_spec(newd[b]) == dkey);
                            assert(dependency_purl_spec(oldd[b]) == Some(key@));
                            assert(dependency_purl_spec(newd[a]) == dependency_purl_spec(oldd[a]));
                        } else {
                            assert(dependency_purl_spec(newd[a]) == dependency_purl_spec(oldd[a]));
                            assert(dependency_purl_spec(newd[b]) == dependency_purl_spec(oldd[b]));
                        }
                    }
                }
                return ;
            }
        }
        self.dependencies.push(d);
        proof {
            assert(self@.dependencies =~= upsert_dependency_spec(
                old(self)@.dependencies,
                d,
                key@,
            ));
            assert forall|a: int, b: int|
                0 <= a < b < self@.dependencies.len() implies dependency_purl_spec(
                self@.dependencies[a],
            ) != dependency_purl_spec(self@.dependencies[b]) by {
                if b < self@.dependencies.len() - 1 {
                    assert(dependency_purl_spec(old(self)@.dependencies[a])
                        != dependency_purl_spec(old(self)@.dependencies[b]));
                }
            }
        }
    }

    /// The iteration stored for an identity key, if the key has been
    /// seen.
    pub fn purl_iteration(&self, key: &str) -> (r: Option<u32>)
        requires
            self.wf(),
        ensures
            match r {
                Some(it) => purls_contain(self@.purls, key@) && it == self@.purls[purl_index(
                    self@.purls,
                    key@,
                )].iteration,
                None => !purls_contain(self@.purls, key@),
            },
    {
        let n = self.purls.len();
        for i in 0..n
            invariant
                self.wf(),
                n == self.purls@.len(),
                forall|j: int| 0 <= j < i ==> self@.purls[j].purl != key@,
        {
            if str_eq(self.purls[i].purl.as_str(), key) {
                proof {
                    assert(self@.purls[i as int].purl == key@);
                    lemma_purl_index_unique(self@.purls, key@, i as int);
                }
                return Some(self.purls[i].iteration);
            }
        }
        None
    }

    /// The stored identity record for a key, if any.
    pub fn get_purl(&self, key: &str) -> (r: Option<Purl>)
        requires
            self.wf(),
        ensures
            match r {
                Some(p) => purls_contain(self@.purls, key@) && p@ == self@.purls[purl_index(
                    self@.purls,
                    key@,
                )],
                None => !purls_contain(self@.purls, key@),
            },
    {
        let n = self.purls.len();
        for i in 0..n
            invariant
                self.wf(),
                n == self.purls@.len(),
                forall|j: int| 0 <= j < i ==> self@.purls[j].purl != key@,
        {
            if str_eq(self.purls[i].purl.as_str(), key) {
                proof {
                    assert(self@.purls[i as int].purl == key@);
                    lemma_purl_index_unique(self@.purls, key@, i as int);
                }
                return Some(self.purls[i].clone());
            }
        }
        None
    }

    /// The stored package record for a key, if any.
    pub fn get_package(&self, key: &str) -> (r: Option<Package>)
        requires
            self.wf(),
        ensures
            match r {
                Some(p) => packages_contain(self@.packages, key@) && p@
                    == self@.packages[package_index(self@.packages, key@)],
                None => !packages_contain(self@.packages, key@),
            },
    {
        let n = self.packages.len();
        for i in 0..n
            invariant
                self.wf(),
                n == self.packages@.len(),
                forall|j: int| 0 <= j < i ==> self@.packages[j].purl != key@,
        {
            if str_eq(self.packages[i].purl.as_str(), key) {
                proof {
                    assert(self@.packages[i as int].purl == key@);
                    lemma_package_index_unique(self@.packages, key@, i as int);
                }
                return Some(self.packages[i].clone());
            }
        }
        None
    }

    /// Whether an unsupported marker exists for an external id.
    pub fn has_unsupported(&self, key: &str) -> (r: bool)
        ensures
            r == unsupported_contain(self@.unsupported, key@),
    {
        let n = self.unsupported.len();
        for i in 0..n
            invariant
                n == self.unsupported@.len(),
                forall|j: int| 0 <= j < i ==> self@.unsupported[j].external_id != key@,
        {
            if str_eq(self.unsupported[i].external_id.as_str(), key) {
                proof {
                    assert(self@.unsupported[i as int].external_id == key@);
                }
                return true;
            }
        }
        false
    }

    /// The number of stored SBOM aggregates.
    pub fn sboms_count(&self) -> (r: usize)
        ensures
            r == self@.sboms.len(),
    {
        self.sboms.len()
    }

    /// The number of stored identity records.
    pub fn purls_count(&self) -> (r: usize)
        ensures
            r == self@.purls.len(),
    {
        self.purls.len()
    }

    /// The number of stored package records.
    pub fn packages_count(&self) -> (r: usize)
        ensures
            r == self@.packages.len(),
    {
        self.packages.len()
    }

    /// The number of stored dependency records.
    pub fn dependencies_count(&self) -> (r: usize)
        ensures
            r == self@.dependencies.len(),
    {
        self.dependencies.len()
    }

    /// The number of stored unsupported markers.
    pub fn unsupported_count(&self) -> (r: usize)
        ensures
            r == self@.unsupported.len(),
    {
        self.unsupported.len()
    }

    /// A stored SBOM aggregate, by position in history.
    pub fn sbom_at(&self, i: usize) -> (r: &Sbom)
        requires
            i < self@.sboms.len(),
        ensures
            r@ == self@.sboms[i as int],
    {
        &self.sboms[i]
    }
}

} // verus!
