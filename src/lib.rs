//! IBAN validation, bank registry lookup, a manual blacklist, and the
//! ingestion of per-country registry source files into a bank directory.
//!
//! - `checksum`: the MOD 97-10 check.
//! - `country`: the supported countries and the canonical bank record.
//! - `db`: the per-country bank directory and the blacklist.
//! - `iban`: the verification pipeline.
//! - `source`, `ingest`: reading registry files and rebuilding a table.
//! - `interface`: the operations offered to clients.
pub mod checksum;
pub mod country;
pub mod db;
pub mod iban;
pub mod ingest;
pub mod interface;
pub mod source;
pub mod text;
