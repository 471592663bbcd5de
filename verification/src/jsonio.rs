//! The trusted boundary to the JSON reader. Raw documents are parsed
//! by serde_json; what the library consumes of them — the root
//! component, the component list, a configuration record — comes
//! back as plain values, and each extraction's outcome carries a
//! name: the parser is a function of the text alone, so the same
//! text always names the same result.

use vstd::prelude::*;

verus! {

#[verifier::external_type_specification]
#[verifier::external_body]
pub struct ExValue(serde_json::Value);

/// Whether a string parses as JSON. The outcome is a function of the
/// text alone, so it has a stable name; nothing else is assumed of
/// it.
pub uninterp spec fn json_parse_ok(s: Seq<char>) -> bool;

/// Relies on `serde_json::from_str::<Value>`: parses the text into a
/// JSON value tree, failing exactly when the parser refuses the text
/// (not JSON, or nested past the parser's limits); a failure is
/// rendered as its message.
#[verifier::external_body]
pub fn parse_json(s: &str) -> (r: Result<serde_json::Value, String>)
    ensures
        r is Ok <==> json_parse_ok(s@),
{
    serde_json::from_str::<serde_json::Value>(s).map_err(|e| e.to_string())
}

/// The mathematical content of an extracted component description.
pub ghost struct RawComponentV {
    /// The component's name.
    pub name: Seq<char>,
    /// The component's version, if reported.
    pub version: Option<Seq<char>>,
    /// The raw package URL text, if reported.
    pub purl: Option<Seq<char>>,
    /// The namespace (group), if reported.
    pub group: Option<Seq<char>>,
}

/// A component description as extracted from a document: the plain
/// fields the normalizer consumes.
#[derive(Debug)]
pub struct RawComponent {
    /// The component's name.
    pub name: String,
    /// The component's version, if reported.
    pub version: Option<String>,
    /// The raw package URL text, if reported.
    pub purl: Option<String>,
    /// The namespace (group), if reported.
    pub group: Option<String>,
}

impl View for RawComponent {
    type V = RawComponentV;

    open spec fn view(&self) -> RawComponentV {
        RawComponentV {
            name: self.name@,
            version: (match self.version {
                None => None,
                Some(ref s) => Some(s@),
            }),
            purl: (match self.purl {
                None => None,
                Some(ref s) => Some(s@),
            }),
            group: (match self.group {
                None => None,
                Some(ref s) => Some(s@),
            }),
        }
    }
}

/// The view of an optional extracted component.
pub open spec fn opt_raw_view(r: Option<RawComponent>) -> Option<RawComponentV> {
    match r {
        None => None,
        Some(c) => Some(c@),
    }
}

/// The root component a document describes under its metadata, by
/// name, version, purl and group — or nothing, when the text does
/// not parse or no named root component is present. A function of
/// the text alone.
pub uninterp spec fn cdx_root_of(s: Seq<char>) -> Option<RawComponentV>;

/// The document's component list, one entry per listed element: the
/// extracted description where the element names a component,
/// nothing where it does not. Empty when the text does not parse or
/// lists no components. A function of the text alone.
pub uninterp spec fn cdx_components_of(s: Seq<char>) -> Seq<Option<RawComponentV>>;

/// Relies on `serde_json::from_str` and `Value::{get, as_str}`: the
/// named root component under the document's `metadata.component`.
#[verifier::external_body]
pub fn cdx_root(s: &str) -> (r: Option<RawComponent>)
    ensures
        opt_raw_view(r) == cdx_root_of(s@),
        !json_parse_ok(s@) ==> r is None,
{
    let v: serde_json::Value = serde_json::from_str(s).ok()?;
    let c = v.get("metadata")?.get("component")?;
    let f = |k: &str| c.get(k).and_then(|x| x.as_str()).map(|x| x.to_string());
    Some(RawComponent { name: f("name")?, version: f("version"), purl: f("purl"), group: f("group") })
}

/// The views of a vector of optional extracted components.
pub open spec fn raw_seq_view(r: Seq<Option<RawComponent>>) -> Seq<Option<RawComponentV>> {
    r.map(|_i: int, c: Option<RawComponent>| opt_raw_view(c))
}

/// Relies on `serde_json::from_str` and `Value::{get, as_str,
/// as_array}`: the document's `components` array, one entry per
/// element, named elements extracted and nameless ones kept as gaps.
#[verifier::external_body]
pub fn cdx_components(s: &str) -> (r: Vec<Option<RawComponent>>)
    ensures
        raw_seq_view(r@) == cdx_components_of(s@),
        !json_parse_ok(s@) ==> r@.len() == 0,
{
    let mut out = Vec::new();
    let parsed: Option<serde_json::Value> = serde_json::from_str(s).ok();
    if let Some(arr) = parsed.and_then(|v| v.get("components").and_then(|x| x.as_array()).cloned()) {
        for c in &arr {
            let f = |k: &str| c.get(k).and_then(|x| x.as_str()).map(|x| x.to_string());
            let entry = f("name").map(|name| RawComponent {
                name,
                version: f("version"),
                purl: f("purl"),
                group: f("group"),
            });
            out.push(entry);
        }
    }
    out
}

/// The mathematical content of an extracted store configuration.
pub ghost struct RawDocDbConfigV {
    /// The user the connection authenticates as.
    pub username: Seq<char>,
    /// The user's password.
    pub password: Seq<char>,
    /// The engine the deployment runs.
    pub engine: Seq<char>,
    /// The port, as the document carries it.
    pub port: u64,
    /// The deployment's host name.
    pub host: Seq<char>,
    /// Whether the connection uses TLS.
    pub ssl: bool,
    /// The deployment's instance identifier.
    pub db_instance_identifier: Seq<char>,
}

/// A store configuration as its JSON document reports it.
#[derive(Debug)]
pub struct RawDocDbConfig {
    /// The user the connection authenticates as.
    pub username: String,
    /// The user's password.
    pub password: String,
    /// The engine the deployment runs.
    pub engine: String,
    /// The port, as the document carries it.
    pub port: u64,
    /// The deployment's host name.
    pub host: String,
    /// Whether the connection uses TLS.
    pub ssl: bool,
    /// The deployment's instance identifier.
    pub db_instance_identifier: String,
}

impl View for RawDocDbConfig {
    type V = RawDocDbConfigV;

    open spec fn view(&self) -> RawDocDbConfigV {
        RawDocDbConfigV {
            username: self.username@,
            password: self.password@,
            engine: self.engine@,
            port: self.port,
            host: self.host@,
            ssl: self.ssl,
            db_instance_identifier: self.db_instance_identifier@,
        }
    }
}

/// The view of an optional extracted configuration.
pub open spec fn opt_config_view(r: Option<RawDocDbConfig>) -> Option<RawDocDbConfigV> {
    match r {
        None => None,
        Some(c) => Some(c@),
    }
}

/// The store configuration a document carries — or nothing, when the
/// text does not parse or any expected field is missing or of the
/// wrong shape. A function of the text alone.
pub uninterp spec fn docdb_config_of(s: Seq<char>) -> Option<RawDocDbConfigV>;

/// Relies on `serde_json::from_str` and `Value::{get, as_str,
/// as_u64, as_bool}`: the configuration fields of a store
/// configuration document.
#[verifier::external_body]
pub fn read_docdb_config(s: &str) -> (r: Option<RawDocDbConfig>)
    ensures
        opt_config_view(r) == docdb_config_of(s@),
        !json_parse_ok(s@) ==> r is None,
{
    let v: serde_json::Value = serde_json::from_str(s).ok()?;
    Some(RawDocDbConfig {
        username: v.get("username")?.as_str()?.to_string(),
        password: v.get("password")?.as_str()?.to_string(),
        engine: v.get("engine")?.as_str()?.to_string(),
        port: v.get("port")?.as_u64()?,
        host: v.get("host")?.as_str()?.to_string(),
        ssl: v.get("ssl")?.as_bool()?,
        db_instance_identifier: v.get("dbInstanceIdentifier")?.as_str()?.to_string(),
    })
}

} // verus!
