//! `--storage` selector: which backend the daemon opens, and on what.

use crate::text;
use vstd::prelude::*;

verus! {

/// The chosen backend kind.
#[derive(Debug, Clone, Copy, PartialEq, Eq, Structural)]
pub enum StorageKind {
    /// A local SQLite file. Always available.
    Sqlite,
    /// A Postgres connection. Needs the `storage-postgres` feature.
    Postgres,
    /// Parquet files on an object store. Needs the `storage-duckdb-object` feature.
    DuckdbObject,
}

/// The kind that a value of `--storage` names.
pub open spec fn kind_named(s: Seq<char>) -> Option<StorageKind> {
    if s == "sqlite"@ {
        Some(StorageKind::Sqlite)
    } else if s == "postgres"@ {
        Some(StorageKind::Postgres)
    } else if s == "duckdb-object"@ || s == "duckdb_object"@ {
        Some(StorageKind::DuckdbObject)
    } else {
        None
    }
}

impl StorageKind {
    /// Reads a value of `--storage`. `duckdb_object` stands for `duckdb-object`.
    pub fn parse(s: &str) -> (r: Result<Self, String>)
        ensures
            match r {
                Ok(k) => kind_named(s@) == Some(k),
                Err(e) => kind_named(s@) is None && e@ == "unknown --storage value `"@ + s@
                    + "` (expected sqlite | postgres | duckdb-object)"@,
            },
    {
        if text::same(s, "sqlite") {
            Ok(StorageKind::Sqlite)
        } else if text::same(s, "postgres") {
            Ok(StorageKind::Postgres)
        } else if text::same(s, "duckdb-object") || text::same(s, "duckdb_object") {
            Ok(StorageKind::DuckdbObject)
        } else {
            let mut e = String::from_str("unknown --storage value `");
            e.append(s);
            e.append("` (expected sqlite | postgres | duckdb-object)");
            Err(e)
        }
    }
}

/// Resolved storage configuration.
#[derive(Debug, Clone)]
pub struct StorageSpec {
    /// Selected backend.
    pub kind: StorageKind,
    /// SQLite database file path (for `Sqlite`).
    pub sqlite_path: Option<String>,
    /// Connection or object-store URI (for `Postgres` and `DuckdbObject`).
    pub uri: Option<String>,
}

/// Which optional backends a build holds.
#[derive(Debug, Clone, Copy)]
pub struct StorageFeatures {
    /// The `storage-postgres` feature.
    pub postgres: bool,
    /// The `storage-duckdb-object` feature.
    pub duckdb_object: bool,
}

/// What to open.
#[derive(Debug)]
pub enum StoreTarget {
    /// The SQLite file at this path.
    SqliteFile(String),
    /// The Postgres server behind this URI.
    PostgresServer(String),
    /// The object store in this local directory.
    LocalObjects(String),
}

/// Why no store was opened.
#[derive(Debug)]
pub enum SelectError {
    /// The requested backend was not compiled in.
    FeatureDisabled {
        /// Backend kind requested.
        kind: &'static str,
        /// Feature that would unlock it.
        feature: &'static str,
    },
    /// The caller did not pass the URI or path that the backend needs.
    MissingUri {
        /// Backend kind requested.
        kind: &'static str,
        /// The flag to pass.
        flag: &'static str,
    },
    /// The backend rejected the open call.
    Open(String),
}

impl SelectError {
    /// The message of the error.
    pub open spec fn message(self) -> Seq<char> {
        match self {
            SelectError::FeatureDisabled { kind, feature } => "--storage "@ + kind@
                + " requires the `"@ + feature@
                + "` Cargo feature; rebuild ctxd with `--features "@ + feature@ + "`"@,
            SelectError::MissingUri { kind, flag } => "--storage "@ + kind@ + " needs "@ + flag@,
            SelectError::Open(e) => "backend open failed: "@ + e@,
        }
    }

    /// Writes the message of the error.
    pub fn to_string(&self) -> (r: String)
        ensures
            r@ == self.message(),
    {
        match self {
            SelectError::FeatureDisabled { kind, feature } => {
                let mut s = String::from_str("--storage ");
                s.append(kind);
                s.append(" requires the `");
                s.append(feature);
                s.append("` Cargo feature; rebuild ctxd with `--features ");
                s.append(feature);
                s.append("`");
                s
            },
            SelectError::MissingUri { kind, flag } => {
                let mut s = String::from_str("--storage ");
                s.append(kind);
                s.append(" needs ");
                s.append(flag);
                s
            },
            SelectError::Open(e) => {
                let mut s = String::from_str("backend open failed: ");
                s.append(e);
                s
            },
        }
    }
}

/// The URI names a store in the cloud.
pub open spec fn is_cloud(uri: Seq<char>) -> bool {
    ||| "s3://"@.is_prefix_of(uri)
    ||| "r2://"@.is_prefix_of(uri)
    ||| "gs://"@.is_prefix_of(uri)
}

/// The local directory that a URI names: what follows `file://`, or the URI itself.
pub open spec fn local_path(uri: Seq<char>) -> Seq<char> {
    if "file://"@.is_prefix_of(uri) {
        uri.skip("file://"@.len() as int)
    } else {
        uri
    }
}

/// The message on a URI in the cloud.
pub open spec fn cloud_message(uri: Seq<char>) -> Seq<char> {
    "v0.3 ships --storage duckdb-object with local-fs and explicit object_store handles only; cloud URIs ("@
        + uri
        + ") are tracked for v0.4 \u{2014} see docs/storage-duckdb-object.md for the construction snippet"@
}

/// What [`open_duckobj`] makes of a URI.
pub open spec fn objects_at(uri: Seq<char>, r: Result<StoreTarget, SelectError>) -> bool {
    match r {
        Ok(StoreTarget::LocalObjects(p)) => !is_cloud(uri) && p@ == local_path(uri),
        Err(SelectError::Open(e)) => is_cloud(uri) && e@ == cloud_message(uri),
        _ => false,
    }
}

/// The directory of an object store. A URI in the cloud is refused.
pub fn open_duckobj(uri: &str) -> (r: Result<StoreTarget, SelectError>)
    ensures
        objects_at(uri@, r),
{
    proof {
        reveal_strlit("file://");
        reveal_strlit("s3://");
        reveal_strlit("r2://");
        reveal_strlit("gs://");
    }
    match text::strip_prefix(uri, "file://") {
        Some(rest) => {
            assert(uri@[0] == 'f');
            assert(uri@.skip("file://"@.len() as int) =~= rest@);
            proof {
                assert("file://"@.is_prefix_of(uri@)) by {
                    assert(uri@.subrange(0, "file://"@.len() as int) =~= "file://"@);
                }
                assert(!is_cloud(uri@)) by {
                    if "s3://"@.is_prefix_of(uri@) {
                        assert(uri@[0] == "s3://"@[0]);
                    }
                    if "r2://"@.is_prefix_of(uri@) {
                        assert(uri@[0] == "r2://"@[0]);
                    }
                    if "gs://"@.is_prefix_of(uri@) {
                        assert(uri@[0] == "gs://"@[0]);
                    }
                }
            }
            Ok(StoreTarget::LocalObjects(rest))
        },
        None => {
            if text::starts_with(uri, "s3://") || text::starts_with(uri, "r2://")
                || text::starts_with(uri, "gs://") {
                let mut e = String::from_str(
                    "v0.3 ships --storage duckdb-object with local-fs and explicit object_store handles only; cloud URIs (",
                );
                e.append(uri);
                e.append(
                    ") are tracked for v0.4 \u{2014} see docs/storage-duckdb-object.md for the construction snippet",
                );
                Err(SelectError::Open(e))
            } else {
                Ok(StoreTarget::LocalObjects(String::from_str(uri)))
            }
        },
    }
}

/// What [`select_store`] makes of a configuration.
pub open spec fn selection(
    spec: StorageSpec,
    features: StorageFeatures,
    r: Result<StoreTarget, SelectError>,
) -> bool {
    match spec.kind {
        StorageKind::Sqlite => match spec.sqlite_path {
            Some(path) => r matches Ok(StoreTarget::SqliteFile(p)) && p@ == path@,
            None => r matches Err(SelectError::MissingUri { kind, flag }) && kind@ == "sqlite"@
                && flag@ == "--db <path>"@,
        },
        StorageKind::Postgres => if !features.postgres {
            r matches Err(SelectError::FeatureDisabled { kind, feature }) && kind@ == "postgres"@
                && feature@ == "storage-postgres"@
        } else {
            match spec.uri {
                Some(uri) => r matches Ok(StoreTarget::PostgresServer(u)) && u@ == uri@,
                None => r matches Err(SelectError::MissingUri { kind, flag }) && kind@
                    == "postgres"@ && flag@ == "--storage-uri postgres://..."@,
            }
        },
        StorageKind::DuckdbObject => if !features.duckdb_object {
            r matches Err(SelectError::FeatureDisabled { kind, feature }) && kind@
                == "duckdb-object"@ && feature@ == "storage-duckdb-object"@
        } else {
            match spec.uri {
                Some(uri) => objects_at(uri@, r),
                None => r matches Err(SelectError::MissingUri { kind, flag }) && kind@
                    == "duckdb-object"@ && flag@
                    == "--storage-uri file:///path or s3://bucket/prefix"@,
            }
        },
    }
}

/// Which store to open for a configuration, in a build with these features.
pub fn select_store(spec: &StorageSpec, features: StorageFeatures) -> (r: Result<
    StoreTarget,
    SelectError,
>)
    ensures
        selection(*spec, features, r),
{
    match spec.kind {
        StorageKind::Sqlite => match &spec.sqlite_path {
            Some(path) => Ok(StoreTarget::SqliteFile(String::from_str(path))),
            None => Err(SelectError::MissingUri { kind: "sqlite", flag: "--db <path>" }),
        },
        StorageKind::Postgres => if !features.postgres {
            Err(SelectError::FeatureDisabled { kind: "postgres", feature: "storage-postgres" })
        } else {
            match &spec.uri {
                Some(uri) => Ok(StoreTarget::PostgresServer(String::from_str(uri))),
                None => Err(
                    SelectError::MissingUri {
                        kind: "postgres",
                        flag: "--storage-uri postgres://...",
                    },
                ),
            }
        },
        StorageKind::DuckdbObject => if !features.duckdb_object {
            Err(
                SelectError::FeatureDisabled {
                    kind: "duckdb-object",
                    feature: "storage-duckdb-object",
                },
            )
        } else {
            match &spec.uri {
                Some(uri) => open_duckobj(uri),
                None => Err(
                    SelectError::MissingUri {
                        kind: "duckdb-object",
                        flag: "--storage-uri file:///path or s3://bucket/prefix",
                    },
                ),
            }
        },
    }
}

/// Which store is opened. SQLite needs only the path of its file, whatever else was given; the
/// others need their feature and a URI. An object store lies in a local directory, with or
/// without `file://` before it, and never in the cloud. What is opened is what was named.
pub proof fn law_which_store_is_opened(
    spec: &StorageSpec,
    features: StorageFeatures,
    r: Result<StoreTarget, SelectError>,
    dir: Seq<char>,
)
    requires
        call_ensures(select_store, (spec, features), r),
    ensures
        spec.kind is Sqlite ==> (r is Ok <==> spec.sqlite_path is Some),
        spec.kind is Postgres ==> (r is Ok <==> features.postgres && spec.uri is Some),
        spec.kind is DuckdbObject ==> (r is Ok <==> features.duckdb_object && (
        spec.uri matches Some(u) && !"s3://"@.is_prefix_of(u@) && !"r2://"@.is_prefix_of(u@)
            && !"gs://"@.is_prefix_of(u@))),
        r matches Ok(StoreTarget::SqliteFile(p)) ==> spec.kind is Sqlite && p@
            == spec.sqlite_path->0@,
        r matches Ok(StoreTarget::PostgresServer(u)) ==> spec.kind is Postgres && u@
            == spec.uri->0@,
        r matches Ok(StoreTarget::LocalObjects(p)) ==> spec.kind is DuckdbObject && (
        spec.uri->0@ == "file://"@ + dir ==> p@ == dir) && (!"file://"@.is_prefix_of(spec.uri->0@)
            ==> p@ == spec.uri->0@),
        !(spec.kind is Sqlite) && r is Err && spec.uri is None ==> (r matches Err(e)
            && !(e is Open)),
{
    reveal_strlit("file://");
    if spec.uri is Some && spec.uri->0@ == "file://"@ + dir {
        let u = spec.uri->0@;
        assert("file://"@.is_prefix_of(u)) by {
            assert(u.take(7) =~= "file://"@);
        }
        assert(u.skip(7) =~= dir);
    }
}

/// Each store is named by one word, and no other word names one.
pub proof fn law_stores_are_named(s: &str, r: Result<StorageKind, String>)
    requires
        call_ensures(StorageKind::parse, (s,), r),
    ensures
        r == Ok::<StorageKind, String>(StorageKind::Sqlite) <==> s@ == "sqlite"@,
        r == Ok::<StorageKind, String>(StorageKind::Postgres) <==> s@ == "postgres"@,
        r == Ok::<StorageKind, String>(StorageKind::DuckdbObject) <==> s@ == "duckdb-object"@
            || s@ == "duckdb_object"@,
{
    reveal_strlit("sqlite");
    reveal_strlit("postgres");
    reveal_strlit("duckdb-object");
    reveal_strlit("duckdb_object");
    assert("sqlite"@[0] == 's' && "postgres"@[0] == 'p');
    assert("duckdb-object"@[0] == 'd' && "duckdb_object"@[0] == 'd');
}

} // verus!
