//! The store models: merge-on-upsert semantics and the blob archive
//! round trip.

use harbcore::blobs::blob_key;
use harbcore::blobs::BlobStore;
use harbcore::packages::Package;
use harbcore::packages::Purl;
use harbcore::packages::ComponentKind;
use harbcore::sboms::CdxFormat;
use harbcore::store::Store;
use harbcore::xrefs::Xref;

fn xref(org: &str, project: &str) -> Xref {
    Xref {
        provider: "snyk".to_string(),
        org_id: org.to_string(),
        project_id: project.to_string(),
    }
}

fn purl_record(key: &str, iteration: u32, x: Xref) -> Purl {
    Purl {
        purl: key.to_string(),
        kind: ComponentKind::Package,
        name: "demo".to_string(),
        version: Some("1.0".to_string()),
        iteration,
        task_refs: Vec::new(),
        xrefs: vec![x],
    }
}

#[test]
fn purl_upsert_merges_one_logical_record() {
    let mut store = Store::new();
    store.upsert_purl(purl_record("pkg:npm/demo@1.0#package", 1, xref("o1", "p1")));
    store.upsert_purl(purl_record("pkg:npm/demo@1.0#package", 2, xref("o1", "p2")));
    assert_eq!(store.purls_count(), 1);
    let stored = store.get_purl("pkg:npm/demo@1.0#package").unwrap();
    assert_eq!(stored.iteration, 2);
    assert_eq!(stored.xrefs.len(), 2);
}

#[test]
fn purl_merge_never_regresses_iteration() {
    let mut store = Store::new();
    store.upsert_purl(purl_record("k#package", 5, xref("o", "p")));
    store.upsert_purl(purl_record("k#package", 3, xref("o", "p")));
    let stored = store.get_purl("k#package").unwrap();
    assert_eq!(stored.iteration, 5);
}

#[test]
fn purl_merge_unions_duplicate_xrefs() {
    let mut store = Store::new();
    store.upsert_purl(purl_record("k#package", 1, xref("o", "p")));
    store.upsert_purl(purl_record("k#package", 2, xref("o", "p")));
    let stored = store.get_purl("k#package").unwrap();
    assert_eq!(stored.xrefs.len(), 1);
}

#[test]
fn package_upsert_by_key() {
    let mut store = Store::new();
    let p1 = Package {
        purl: "pkg:npm/demo@1.0#package".to_string(),
        name: "demo".to_string(),
        version: Some("1.0".to_string()),
        xrefs: vec![xref("o1", "p1")],
    };
    let p2 = Package {
        purl: "pkg:npm/demo@1.0#package".to_string(),
        name: "demo".to_string(),
        version: Some("1.0".to_string()),
        xrefs: vec![xref("o2", "p2")],
    };
    store.upsert_package_by_purl(p1);
    store.upsert_package_by_purl(p2);
    assert_eq!(store.packages_count(), 1);
    let stored = store.get_package("pkg:npm/demo@1.0#package").unwrap();
    assert_eq!(stored.xrefs.len(), 2);
}

#[test]
fn blob_round_trip_returns_identical_bytes() {
    let mut blobs = BlobStore::new();
    let payload: Vec<u8> = vec![0, 155, 7, 42, 255, 10];
    blobs.put("snyk/org/proj.json".to_string(), payload.clone());
    let back = blobs.get("snyk/org/proj.json").unwrap();
    assert_eq!(back, payload);
}

#[test]
fn blob_put_overwrites_under_same_key() {
    let mut blobs = BlobStore::new();
    blobs.put("k".to_string(), vec![1, 2, 3]);
    blobs.put("k".to_string(), vec![9]);
    assert_eq!(blobs.len(), 1);
    assert_eq!(blobs.get("k").unwrap(), vec![9]);
}

#[test]
fn blob_get_missing_key() {
    let blobs = BlobStore::new();
    assert!(blobs.get("absent").is_none());
}

#[test]
fn blob_key_is_derived_from_provenance() {
    let x = xref("org-1", "proj-9");
    assert_eq!(blob_key(&x, CdxFormat::Json), "snyk/org-1/proj-9.json");
    assert_eq!(blob_key(&x, CdxFormat::Xml), "snyk/org-1/proj-9.xml");
}
