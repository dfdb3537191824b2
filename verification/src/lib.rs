//! A locally cached, versioned snapshot of a remote package database, and an
//! audit pass that reconciles a declared package set against that snapshot.
//!
//! The crate is organised around pure decision logic: staleness of the cache,
//! selection between a primary and a fallback source, extraction and
//! normalization of installed-package identities, and the per-package
//! availability verdicts.  All network, file and database traffic is left to
//! the caller, which hands the results back in as plain values.

use vstd::prelude::*;

pub mod assoc;
pub mod audit;
pub mod cache;
pub mod db;
pub mod desktop;
pub mod extract;
pub mod fetch;
pub mod text;
pub mod version;

verus! {

/// Errors surfaced by the cache, fetch and audit layers.
///
/// `DownloadError` carries the last URL attempted and the HTTP status it
/// answered with.
#[derive(Debug)]
pub enum AuditError {
    /// Neither the primary nor the fallback version endpoint answered.
    VersionResolutionError,
    /// Version resolution failed and no previously cached artifact exists.
    NoConnectivityAndNoCache,
    /// Neither snapshot endpoint returned a success response.
    DownloadError { url: String, status: u16 },
    /// The downloaded payload could not be decompressed, or decompressed to
    /// nothing.
    DecompressionError,
    /// The package table could not be materialized: a duplicate key broke
    /// the unique-attribute schema.
    DatabaseBuildError,
    /// An external document could not be parsed.
    DocumentParseError,
    /// The alias oracle itself could not be invoked.
    AliasOracleError,
}

impl AuditError {
    /// True exactly for `DecompressionError`; lets callers outside the
    /// verified world branch on the one error the fetch pipeline promises.
    pub fn is_decompression_error(&self) -> (r: bool)
        ensures
            r == (self is DecompressionError),
    {
        match self {
            AuditError::DecompressionError => true,
            _ => false,
        }
    }
}

} // verus!
