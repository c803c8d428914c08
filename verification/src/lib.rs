//! A backend-agnostic mapping of key-value operations (get, list keys,
//! upsert, delete a key, drop a bucket) onto SQL statements.
//!
//! Each operation is composed out of two caller-supplied functions: a query
//! builder producing statement text from a [`bucket::Bucket`], and an
//! executor running that text against a caller-supplied client or
//! transaction handle.  The factories here fuse the two into one operation
//! function and carry contracts relating every outcome of the composed
//! operation to the outcomes its parts allow.

pub mod bucket;
pub mod del;
pub mod evt;
pub mod get;
pub mod item;
pub mod list;
pub mod text;
pub mod upsert;
