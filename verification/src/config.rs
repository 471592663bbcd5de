//! Runtime configuration: the store contexts the engine connects
//! through, built from plain values. Reading the environment happens
//! outside the library; these functions take what was read.

use crate::errors::Error;
use crate::strings::dec_digits;
use crate::strings::u32_string;
use crate::strings::url_encode;
use crate::strings::url_encoded;
use vstd::prelude::*;
use vstd::string::StringExecFns;

verus! {

/// Connection settings for the document store.
#[derive(Debug)]
pub struct Context {
    /// The store's host name.
    pub host: String,
    /// The user the connection authenticates as.
    pub username: String,
    /// The user's password.
    pub password: String,
    /// The store's port.
    pub port: u32,
    /// The database to use.
    pub db_name: String,
    /// The field every record is keyed by.
    pub key_name: String,
    /// A full connection string, overriding the separate fields.
    pub connection_uri: Option<String>,
}

impl Clone for Context {
    fn clone(&self) -> (res: Self)
        ensures
            res == *self,
    {
        Context {
            host: self.host.clone(),
            username: self.username.clone(),
            password: self.password.clone(),
            port: self.port,
            db_name: self.db_name.clone(),
            key_name: self.key_name.clone(),
            connection_uri: match &self.connection_uri {
                None => None,
                Some(u) => Some(u.clone()),
            },
        }
    }
}

/// The provider API token, from the value of its configuration
/// variable: missing configuration is a fatal error.
pub fn snyk_token(value: Option<String>) -> (r: Result<String, Error>)
    ensures
        value is None ==> (r matches Err(e) && e matches Error::Config(m) && m@
            == "Snyk token not set"@),
        value matches Some(v) ==> r == Result::<String, Error>::Ok(v),
{
    match value {
        None => Err(Error::Config("Snyk token not set".to_owned())),
        Some(v) => Ok(v),
    }
}

/// The blob storage bucket name, from the value of its configuration
/// variable: missing configuration is a fatal error.
pub fn harbor_bucket(value: Option<String>) -> (r: Result<String, Error>)
    ensures
        value is None ==> (r matches Err(e) && e matches Error::Config(m) && m@
            == "Harbor bucket not set"@),
        value matches Some(v) ==> r == Result::<String, Error>::Ok(v),
{
    match value {
        None => Err(Error::Config("Harbor bucket not set".to_owned())),
        Some(v) => Ok(v),
    }
}

/// The context for the local development environment: fixed
/// credentials against a local store, with the default database name
/// unless one is given.
pub fn dev_context(db_name: Option<&str>) -> (r: Result<Context, Error>)
    ensures
        r matches Ok(c) && c.host@ == "mongo"@ && c.username@ == "root"@ && c.password@
            == "harbor"@ && c.port == 27017 && c.key_name@ == "id"@ && c.connection_uri is None,
        r matches Ok(c) ==> c.db_name@ == (match db_name {
            None => "harbor"@,
            Some(n) => n@,
        }),
{
    let name: String = match db_name {
        None => "harbor".to_owned(),
        Some(n) => n.to_owned(),
    };
    Ok(
        Context {
            host: "mongo".to_owned(),
            username: "root".to_owned(),
            password: "harbor".to_owned(),
            port: 27017,
            db_name: name,
            key_name: "id".to_owned(),
            connection_uri: None,
        },
    )
}

/// Connection settings for a managed document-store deployment, as
/// its configuration document reports them.
#[derive(Debug)]
pub struct DocDbConfig {
    /// The user the connection authenticates as.
    pub username: String,
    /// The user's password.
    pub password: String,
    /// The engine the deployment runs.
    pub engine: String,
    /// The port the deployment listens on.
    pub port: u32,
    /// The deployment's host name.
    pub host: String,
    /// Whether the connection uses TLS.
    pub ssl: bool,
    /// The deployment's instance identifier.
    pub db_instance_identifier: String,
}

/// The connection string given its settings: the credentials
/// percent-encoded, the host and port as given, and the fixed TLS
/// and retry settings.
pub open spec fn connection_uri_from(
    username: Seq<char>,
    password: Seq<char>,
    host: Seq<char>,
    port: int,
    ssl: bool,
) -> Seq<char> {
    "mongodb://"@ + url_encoded(username) + ":"@ + url_encoded(password) + "@"@ + host + ":"@
        + dec_digits(port) + "/?ssl="@ + (if ssl {
        "true"@
    } else {
        "false"@
    }) + "&tlsCAFile=rds-combined-ca-bundle.pem&retryWrites=false"@
}

/// The connection string a deployment configuration resolves to.
pub open spec fn connection_uri_spec(cfg: DocDbConfig) -> Seq<char> {
    connection_uri_from(cfg.username@, cfg.password@, cfg.host@, cfg.port as int, cfg.ssl)
}

impl DocDbConfig {
    /// Reads a deployment configuration out of its JSON document:
    /// succeeds exactly when the document carries every expected
    /// field and the port fits the port type.
    pub fn from_json(raw: &str) -> (r: Result<DocDbConfig, Error>)
        ensures
            r is Ok <==> (crate::jsonio::docdb_config_of(raw@) matches Some(c) && c.port
                <= u32::MAX),
            r matches Ok(cfg) ==> (crate::jsonio::docdb_config_of(raw@) matches Some(c)
                && cfg.username@ == c.username && cfg.password@ == c.password && cfg.engine@
                == c.engine && cfg.port == c.port && cfg.host@ == c.host && cfg.ssl == c.ssl
                && cfg.db_instance_identifier@ == c.db_instance_identifier),
            r matches Err(e) ==> (e matches Error::Serde(m) && m@ == "invalid DocumentDB config"@),
    {
        let c = match crate::jsonio::read_docdb_config(raw) {
            None => {
                return Err(Error::Serde("invalid DocumentDB config".to_owned()));
            },
            Some(c) => c,
        };
        if c.port > u32::MAX as u64 {
            return Err(Error::Serde("invalid DocumentDB config".to_owned()));
        }
        Ok(
            DocDbConfig {
                username: c.username,
                password: c.password,
                engine: c.engine,
                port: c.port as u32,
                host: c.host,
                ssl: c.ssl,
                db_instance_identifier: c.db_instance_identifier,
            },
        )
    }

    /// The context for this deployment: everything is carried by the
    /// connection string, which encodes the credentials and pins the
    /// TLS and retry settings.
    pub fn to_context(&self) -> (r: Context)
        ensures
            r.host@ == Seq::<char>::empty(),
            r.username@ == Seq::<char>::empty(),
            r.password@ == Seq::<char>::empty(),
            r.port == 0,
            r.db_name@ == "harbor"@,
            r.key_name@ == "id"@,
            r.connection_uri matches Some(u) && u@ == connection_uri_spec(*self),
    {
        let mut uri: String = "mongodb://".to_owned();
        uri.append(url_encode(self.username.as_str()).as_str());
        uri.append(":");
        uri.append(url_encode(self.password.as_str()).as_str());
        uri.append("@");
        uri.append(self.host.as_str());
        uri.append(":");
        uri.append(u32_string(self.port).as_str());
        uri.append("/?ssl=");
        uri.append(if self.ssl {
            "true"
        } else {
            "false"
        });
        uri.append("&tlsCAFile=rds-combined-ca-bundle.pem&retryWrites=false");
        Context {
            host: String::new(),
            username: String::new(),
            password: String::new(),
            port: 0,
            db_name: "harbor".to_owned(),
            key_name: "id".to_owned(),
            connection_uri: Some(uri),
        }
    }
}

/// The context for a managed deployment, from the value of its
/// configuration variable: missing configuration is a fatal error, an
/// unreadable document a decode error, and a well-formed document
/// always yields its context.
pub fn harbor_context(raw_config: Option<String>) -> (r: Result<Context, Error>)
    ensures
        raw_config is None ==> (r matches Err(e) && e matches Error::Config(m) && m@
            == "DocumentDB config not set"@),
        r is Ok <==> (raw_config matches Some(j) && crate::jsonio::docdb_config_of(j@) matches Some(
            c,
        ) && c.port <= u32::MAX),
        r matches Ok(ctx) ==> (raw_config matches Some(j) && crate::jsonio::docdb_config_of(j@)
            matches Some(c) && ctx.db_name@ == "harbor"@ && ctx.key_name@ == "id"@
            && (ctx.connection_uri matches Some(u) && u@ == connection_uri_from(
            c.username,
            c.password,
            c.host,
            c.port as int,
            c.ssl,
        ))),
        raw_config matches Some(j) ==> (r matches Err(e) ==> e matches Error::Serde(m) && m@
            == "invalid DocumentDB config"@),
{
    let raw = match raw_config {
        None => {
            return Err(Error::Config("DocumentDB config not set".to_owned()));
        },
        Some(raw) => raw,
    };
    let cfg = match DocDbConfig::from_json(raw.as_str()) {
        Err(e) => {
            return Err(e);
        },
        Ok(cfg) => cfg,
    };
    Ok(cfg.to_context())
}

} // verus!
