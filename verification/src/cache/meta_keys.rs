//! The keys of the cache's `meta` table.
use vstd::prelude::*;

verus! {

pub const PROJECTS_SCANNED_AT: &'static str = "projects_scanned_at";

pub const FOLDERS_SCANNED_AT: &'static str = "folders_scanned_at";

pub const ORGANIZATIONS_SCANNED_AT: &'static str = "organizations_scanned_at";

pub const ENTITLEMENTS_SCANNED_AT: &'static str = "entitlements_scanned_at";

pub const CACHE_SCHEMA_VERSION: &'static str = "cache_schema_version";

pub const STATE_SCHEMA_VERSION: &'static str = "state_schema_version";

} // verus!
