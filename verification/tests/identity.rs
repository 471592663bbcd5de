//! Identity canonicalization: deterministic keys, kind separation,
//! malformed components, and the provider selector.

use harbcore::commands::SbomProviderKind;
use harbcore::errors::Error;
use harbcore::packages::canonical_key;
use harbcore::packages::Component;
use harbcore::packages::ComponentKind;

fn component(name: &str, version: Option<&str>, manager: Option<&str>, group: Option<&str>) -> Component {
    Component {
        name: name.to_string(),
        version: version.map(|v| v.to_string()),
        purl: None,
        package_manager: manager.map(|m| m.to_string()),
        group: group.map(|g| g.to_string()),
    }
}

#[test]
fn canonical_key_exact() {
    let c = component("lodash", Some("4.17.21"), Some("npm"), None);
    let key = canonical_key(&c, ComponentKind::Package).unwrap();
    assert_eq!(key, "pkg:npm/lodash@4.17.21#package");
}

#[test]
fn canonical_key_with_namespace_and_no_version() {
    let c = component("guava", None, Some("maven"), Some("com.google"));
    let key = canonical_key(&c, ComponentKind::Dependency).unwrap();
    assert_eq!(key, "pkg:maven/com.google/guava#dependency");
}

#[test]
fn canonical_key_deterministic() {
    let a = component("serde", Some("1.0.0"), Some("cargo"), None);
    let b = component("serde", Some("1.0.0"), Some("cargo"), None);
    let ka = canonical_key(&a, ComponentKind::Package).unwrap();
    let kb = canonical_key(&b, ComponentKind::Package).unwrap();
    assert_eq!(ka, kb);
}

#[test]
fn kinds_are_distinct_identities() {
    let c = component("serde", Some("1.0.0"), Some("cargo"), None);
    let root = canonical_key(&c, ComponentKind::Package).unwrap();
    let dep = canonical_key(&c, ComponentKind::Dependency).unwrap();
    assert_ne!(root, dep);
}

#[test]
fn missing_ecosystem_is_malformed() {
    let c = component("lodash", Some("1.0"), None, None);
    match canonical_key(&c, ComponentKind::Package) {
        Err(Error::Sbom(m)) => assert_eq!(m, "malformed_component"),
        _ => panic!("expected a malformed component error"),
    }
}

#[test]
fn empty_name_is_malformed() {
    let c = component("", Some("1.0"), Some("npm"), None);
    assert!(canonical_key(&c, ComponentKind::Package).is_err());
}

#[test]
fn empty_ecosystem_is_malformed() {
    let c = component("lodash", None, Some(""), None);
    assert!(canonical_key(&c, ComponentKind::Package).is_err());
}

#[test]
fn provider_selector_accepts_names_and_short_forms() {
    assert_eq!(SbomProviderKind::from_str("filesystem"), Ok(SbomProviderKind::FileSystem));
    assert_eq!(SbomProviderKind::from_str("f"), Ok(SbomProviderKind::FileSystem));
    assert_eq!(SbomProviderKind::from_str("github"), Ok(SbomProviderKind::GitHub));
    assert_eq!(SbomProviderKind::from_str("gh"), Ok(SbomProviderKind::GitHub));
    assert_eq!(SbomProviderKind::from_str("g"), Ok(SbomProviderKind::GitHub));
    assert_eq!(SbomProviderKind::from_str("snyk"), Ok(SbomProviderKind::Snyk));
    assert_eq!(SbomProviderKind::from_str("s"), Ok(SbomProviderKind::Snyk));
}

#[test]
fn provider_selector_folds_case() {
    assert_eq!(SbomProviderKind::from_str("SNYK"), Ok(SbomProviderKind::Snyk));
    assert_eq!(SbomProviderKind::from_str("FileSystem"), Ok(SbomProviderKind::FileSystem));
    assert_eq!(SbomProviderKind::from_str("GH"), Ok(SbomProviderKind::GitHub));
}

#[test]
fn provider_selector_rejects_unknown() {
    assert_eq!(SbomProviderKind::from_str("gitlab"), Err(()));
    assert_eq!(SbomProviderKind::from_str(""), Err(()));
}

#[test]
fn provider_labels() {
    assert_eq!(SbomProviderKind::FileSystem.label(), "filesystem");
    assert_eq!(SbomProviderKind::GitHub.label(), "github");
    assert_eq!(SbomProviderKind::Snyk.label(), "snyk");
}
