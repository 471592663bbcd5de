//! The batch pipeline end to end: iteration stamping across repeated
//! syncs, per-target error accounting, run statuses, and commit
//! behavior for degenerate dependencies.

use harbcore::blobs::BlobStore;
use harbcore::errors::Error;
use harbcore::provider::SbomSyncTask;
use harbcore::provider::TargetInput;
use harbcore::sboms::SbomProviderKind;
use harbcore::snyk::Project;
use harbcore::snyk::ProjectStatus;
use harbcore::snyk::SnykService;
use harbcore::store::Store;
use harbcore::tasks::Task;
use harbcore::tasks::TaskKind;
use harbcore::tasks::TaskStatus;

const GOOD_DOC: &str = r#"{"bomFormat":"CycloneDX","metadata":{"component":{"name":"demo","version":"1.0.0","purl":"pkg:npm/demo@1.0.0"}},"components":[{"name":"left-pad","version":"1.3.0","purl":"pkg:npm/left-pad@1.3.0"},{"name":"ms","version":"2.1.2","purl":"pkg:npm/ms@2.1.2"}]}"#;

fn task() -> Task {
    Task::new(TaskKind::Sbom(SbomProviderKind::Snyk {
        api_version: "test".to_string(),
    }))
    .unwrap()
}

fn sync_task() -> SbomSyncTask {
    SbomSyncTask::new(
        Store::new(),
        SnykService::new("test-token".to_string()),
        BlobStore::new(),
    )
    .unwrap()
}

fn project(id: &str, manager: &str, status: ProjectStatus) -> Project {
    Project {
        group_id: "g1".to_string(),
        group_name: "group".to_string(),
        org_id: "o1".to_string(),
        org_name: "org".to_string(),
        project_id: id.to_string(),
        project_name: format!("project {}", id),
        package_manager: manager.to_string(),
        status,
    }
}

fn input(id: &str, manager: &str, status: ProjectStatus, doc: Result<&str, &str>) -> TargetInput {
    TargetInput {
        project: project(id, manager, status),
        fetched: match doc {
            Ok(d) => Ok(d.to_string()),
            Err(m) => Err(Error::Snyk(m.to_string())),
        },
    }
}

#[test]
fn repeated_sync_increments_iteration() {
    let mut engine = sync_task();
    let mut t1 = task();
    let r1 = engine.execute(&mut t1, vec![input("p1", "npm", ProjectStatus::Active, Ok(GOOD_DOC))]);
    assert!(r1.is_ok());
    assert_eq!(t1.status, TaskStatus::Complete);
    let mut t2 = task();
    let r2 = engine.execute(&mut t2, vec![input("p1", "npm", ProjectStatus::Active, Ok(GOOD_DOC))]);
    assert!(r2.is_ok());
    assert_eq!(t2.status, TaskStatus::Complete);

    // Two append-only aggregate records with strictly increasing iterations.
    assert_eq!(engine.store.sboms_count(), 2);
    assert_eq!(engine.store.sbom_at(0).instance, 1);
    assert_eq!(engine.store.sbom_at(1).instance, 2);

    // One logical identity record, advanced to the second iteration.
    let root = engine.store.get_purl("pkg:npm/demo@1.0.0#package").unwrap();
    assert_eq!(root.iteration, 2);

    // One logical package record.
    assert_eq!(engine.store.packages_count(), 1);
}

#[test]
fn parse_failures_are_counted_per_target() {
    let mut engine = sync_task();
    let mut t = task();
    let targets = vec![
        input("p1", "npm", ProjectStatus::Active, Ok(GOOD_DOC)),
        input("p2", "npm", ProjectStatus::Active, Ok("this is not json")),
        input("p3", "npm", ProjectStatus::Active, Ok("{broken")),
    ];
    let r = engine.execute(&mut t, targets);
    assert!(r.is_ok());
    assert_eq!(t.count, 3);
    assert_eq!(t.err_total, 2);
    assert_eq!(t.status, TaskStatus::CompleteWithErrors);
    assert_eq!(t.ref_errs.len(), 2);
    assert!(!t.ref_errs.contains("p1"));
    assert!(t.ref_errs.contains("p2"));
    assert!(t.ref_errs.contains("p3"));
    // The one good target still committed.
    assert_eq!(engine.store.sboms_count(), 1);
}

#[test]
fn empty_target_list_fails_the_run() {
    let mut engine = sync_task();
    let mut t = task();
    let r = engine.execute(&mut t, Vec::new());
    match r {
        Err(Error::Snyk(m)) => assert_eq!(m, "no_projects"),
        _ => panic!("expected a run-level error"),
    }
    assert_eq!(t.status, TaskStatus::Failed);
    assert_eq!(t.err.as_deref(), Some("snyk::no_projects"));
    // No target references, aggregates or identities were created.
    assert_eq!(engine.store.sboms_count(), 0);
    assert_eq!(engine.store.purls_count(), 0);
    assert_eq!(engine.store.packages_count(), 0);
}

#[test]
fn dependency_without_identity_does_not_abort_commit() {
    // The second listed component has no name, so its entry carries
    // no component and no identity.
    let doc = r#"{"metadata":{"component":{"name":"demo","version":"1.0.0"}},"components":[{"name":"ms","version":"2.1.2","purl":"pkg:npm/ms@2.1.2"},{"version":"0.0.1"}]}"#;
    let mut engine = sync_task();
    let mut t = task();
    let r = engine.execute(&mut t, vec![input("p1", "npm", ProjectStatus::Active, Ok(doc))]);
    assert!(r.is_ok());
    // The target is marked failed...
    assert_eq!(t.status, TaskStatus::CompleteWithErrors);
    let message = t.ref_errs.get("p1").unwrap();
    assert!(message.contains("dependency_component_none"));
    // ...but the aggregate, the package, and the healthy dependency
    // remain persisted.
    assert_eq!(engine.store.sboms_count(), 1);
    assert_eq!(engine.store.packages_count(), 1);
    assert!(engine.store.get_purl("pkg:npm/demo@1.0.0#package").is_some());
    assert!(engine.store.get_purl("pkg:npm/ms@2.1.2#dependency").is_some());
    // The raw document is archived and the aggregate stamped even
    // though the target is marked failed.
    assert!(engine.blobs.get("snyk/o1/p1.json").is_some());
    assert_eq!(engine.store.sbom_at(0).instance, 1);
}

#[test]
fn inactive_target_is_a_silent_no_op() {
    let mut engine = sync_task();
    let mut t = task();
    let targets = vec![
        input("p1", "npm", ProjectStatus::Inactive, Ok(GOOD_DOC)),
        input("p2", "npm", ProjectStatus::Active, Ok(GOOD_DOC)),
    ];
    let r = engine.execute(&mut t, targets);
    assert!(r.is_ok());
    assert_eq!(t.count, 2);
    assert_eq!(t.status, TaskStatus::Complete);
    assert_eq!(t.err_total, 0);
    assert!(!t.ref_errs.contains("p1"));
    // Only the active target produced an aggregate.
    assert_eq!(engine.store.sboms_count(), 1);
    assert_eq!(engine.store.unsupported_count(), 0);
}

#[test]
fn unsupported_ecosystem_writes_a_marker_and_no_error() {
    let mut engine = sync_task();
    let mut t = task();
    let r = engine.execute(
        &mut t,
        vec![input("p1", "brew", ProjectStatus::Active, Ok(GOOD_DOC))],
    );
    assert!(r.is_ok());
    assert_eq!(t.status, TaskStatus::Complete);
    assert_eq!(engine.store.sboms_count(), 0);
    assert_eq!(engine.store.unsupported_count(), 1);
    assert!(engine.store.has_unsupported("p1"));
}

#[test]
fn fetch_failure_is_recorded_per_target() {
    let mut engine = sync_task();
    let mut t = task();
    let targets = vec![
        input("p1", "npm", ProjectStatus::Active, Err("connection reset")),
        input("p2", "npm", ProjectStatus::Active, Ok(GOOD_DOC)),
    ];
    let r = engine.execute(&mut t, targets);
    assert!(r.is_ok());
    assert_eq!(t.status, TaskStatus::CompleteWithErrors);
    assert_eq!(t.err_total, 1);
    let message = t.ref_errs.get("p1").unwrap();
    assert!(message.contains("process_target::sbom_raw::"));
    assert_eq!(engine.store.sboms_count(), 1);
}

#[test]
fn raw_document_is_archived_under_the_derived_key() {
    let mut engine = sync_task();
    let mut t = task();
    let r = engine.execute(&mut t, vec![input("p1", "npm", ProjectStatus::Active, Ok(GOOD_DOC))]);
    assert!(r.is_ok());
    let archived = engine.blobs.get("snyk/o1/p1.json").unwrap();
    assert_eq!(archived, GOOD_DOC.as_bytes().to_vec());
}

#[test]
fn document_without_root_component_fails_the_target() {
    let mut engine = sync_task();
    let mut t = task();
    let r = engine.execute(
        &mut t,
        vec![input("p1", "npm", ProjectStatus::Active, Ok(r#"{"components":[]}"#))],
    );
    assert!(r.is_ok());
    assert_eq!(t.status, TaskStatus::CompleteWithErrors);
    let message = t.ref_errs.get("p1").unwrap();
    assert!(message.contains("process_target::from_raw_cdx::"));
    assert_eq!(engine.store.sboms_count(), 0);
}

#[test]
fn duplicate_target_ids_keep_the_first() {
    let targets = vec![
        input("p1", "npm", ProjectStatus::Active, Ok(GOOD_DOC)),
        input("p2", "npm", ProjectStatus::Active, Ok(GOOD_DOC)),
        input("p1", "brew", ProjectStatus::Active, Ok(GOOD_DOC)),
    ];
    let distinct = harbcore::provider::dedup_targets(targets);
    assert_eq!(distinct.len(), 2);
    assert_eq!(distinct[0].project.project_id, "p1");
    assert_eq!(distinct[0].project.package_manager, "npm");
    assert_eq!(distinct[1].project.project_id, "p2");
}
