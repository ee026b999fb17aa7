//! The rows of the four catalog tables, the request payloads that create or
//! change them, and the error kind of the store operations.

use vstd::prelude::*;

use crate::pagination::PaginationQuery;
use crate::text::contains_ci;
use crate::text::contains_str_ci;

verus! {

/// Why a store operation was refused: a missing row, or a request that the
/// validation rules reject (duplicates, bad references).
#[derive(Clone, Copy, Debug, PartialEq, Eq, Structural)]
pub enum StoreError {
    NotFound,
    BadRequest,
}

/// Clones an optional string; the copy holds the same value.
pub fn clone_opt_string(o: &Option<String>) -> (r: Option<String>)
    ensures
        r == *o,
{
    match o {
        Some(s) => Some(s.clone()),
        None => None,
    }
}

/// A distribution platform: static reference data.
#[derive(Debug)]
pub struct PlatformRecord {
    pub id: i32,
    pub name: String,
    pub code: u16,
    pub icon_url: Option<String>,
    pub created_at: i64,
    pub updated_at: i64,
}

impl Clone for PlatformRecord {
    fn clone(&self) -> (r: Self)
        ensures
            r == *self,
    {
        PlatformRecord {
            id: self.id,
            name: self.name.clone(),
            code: self.code,
            icon_url: clone_opt_string(&self.icon_url),
            created_at: self.created_at,
            updated_at: self.updated_at,
        }
    }
}

/// The payload that creates or replaces a platform.
pub struct CreatePlatform {
    pub name: String,
    pub code: u16,
    pub icon_url: Option<String>,
}

/// An uploaded binary's metadata; `path` is the storage key and
/// `checksum_sha256` the hex digest of the stored bytes.
#[derive(Debug)]
pub struct FileRecord {
    pub id: i32,
    pub name: String,
    pub mime: String,
    pub size_bytes: i64,
    pub path: String,
    pub checksum_sha256: String,
    pub description: Option<String>,
    pub created_at: i64,
    pub updated_at: i64,
}

impl Clone for FileRecord {
    fn clone(&self) -> (r: Self)
        ensures
            r == *self,
    {
        FileRecord {
            id: self.id,
            name: self.name.clone(),
            mime: self.mime.clone(),
            size_bytes: self.size_bytes,
            path: self.path.clone(),
            checksum_sha256: self.checksum_sha256.clone(),
            description: clone_opt_string(&self.description),
            created_at: self.created_at,
            updated_at: self.updated_at,
        }
    }
}

/// The update payload of a file: only the description is metadata that a
/// caller may change.
pub struct Params {
    pub description: Option<String>,
}

/// A stored blob: the bytes kept by the storage backend under a key.
pub struct BlobEntry {
    pub key: String,
    pub data: Vec<u8>,
}

/// An app of the catalog; `current_version_id`, when set, points to a
/// version of this same app.
#[derive(Debug)]
pub struct AppRecord {
    pub id: i32,
    pub name: String,
    pub bundle_id: String,
    pub icon_file_id: Option<i32>,
    pub current_version_id: Option<i32>,
    pub description: Option<String>,
    pub platform_id: i32,
    pub created_at: i64,
    pub updated_at: i64,
}

impl Clone for AppRecord {
    fn clone(&self) -> (r: Self)
        ensures
            r == *self,
    {
        AppRecord {
            id: self.id,
            name: self.name.clone(),
            bundle_id: self.bundle_id.clone(),
            icon_file_id: self.icon_file_id,
            current_version_id: self.current_version_id,
            description: clone_opt_string(&self.description),
            platform_id: self.platform_id,
            created_at: self.created_at,
            updated_at: self.updated_at,
        }
    }
}

/// The payload that creates or replaces an app.
pub struct CreateApp {
    pub name: String,
    pub bundle_id: String,
    pub icon_file_id: Option<i32>,
    pub current_version_id: Option<i32>,
    pub description: Option<String>,
    pub platform_id: i32,
}

/// One release of an app; `published_at` is set exactly while the version
/// is published.
#[derive(Debug)]
pub struct AppVersionRecord {
    pub id: i32,
    pub app_id: i32,
    pub version_code: String,
    pub version_name: String,
    pub release_notes: Option<String>,
    pub apk_file_id: Option<i32>,
    pub published_at: Option<i64>,
    pub created_at: i64,
    pub updated_at: i64,
}

impl Clone for AppVersionRecord {
    fn clone(&self) -> (r: Self)
        ensures
            r == *self,
    {
        AppVersionRecord {
            id: self.id,
            app_id: self.app_id,
            version_code: self.version_code.clone(),
            version_name: self.version_name.clone(),
            release_notes: clone_opt_string(&self.release_notes),
            apk_file_id: self.apk_file_id,
            published_at: self.published_at,
            created_at: self.created_at,
            updated_at: self.updated_at,
        }
    }
}

/// The payload that creates a version of an app.
pub struct CreateAppVersion {
    pub app_id: i32,
    pub version_code: String,
    pub version_name: String,
    pub release_notes: Option<String>,
    pub apk_file_id: i32,
    pub publish_immediately: Option<bool>,
}

/// A partial update of a version: absent fields stay as they are.
pub struct PatchAppVersion {
    pub version_code: Option<String>,
    pub version_name: Option<String>,
    pub release_notes: Option<String>,
}

/// The body of the publish endpoint.
pub struct PublishPayload {
    pub publish: bool,
}

/// The client-reported revision handed to the update check.
pub struct Revision {
    pub version_name: String,
    pub build_number: usize,
}

/// What the update check reports back.
pub struct UpdateInfo {
    pub update_available: bool,
    pub latest_version: Option<LatestVersionInfo>,
}

impl Default for UpdateInfo {
    /// No update available, no latest version.
    fn default() -> (r: Self)
        ensures
            r.update_available == false,
            r.latest_version is None,
    {
        UpdateInfo { update_available: false, latest_version: None }
    }
}

impl UpdateInfo {
    pub fn new(update_available: bool, latest_version: Option<LatestVersionInfo>) -> (r: Self)
        ensures
            r.update_available == update_available,
            r.latest_version == latest_version,
    {
        UpdateInfo { update_available, latest_version }
    }
}

/// The current version that the update check points a client at.
#[derive(Debug)]
pub struct LatestVersionInfo {
    pub id: i32,
    pub name: String,
    pub build_number: String,
    pub file_url: String,
}

/// The filters and pagination of the app list endpoint.
pub struct AppQuery {
    pub name: Option<String>,
    pub bundle_id: Option<String>,
    pub description: Option<String>,
    pub platform_id: Option<i32>,
    pub pagination: PaginationQuery,
}

/// The filters and pagination of the version list endpoint.
pub struct AppVersionQuery {
    pub version_name: Option<String>,
    pub version_code: Option<String>,
    pub pagination: PaginationQuery,
}

/// The filters and pagination of the file list endpoint.
pub struct FileQuery {
    pub name: Option<String>,
    pub mime: Option<String>,
    pub pagination: PaginationQuery,
}

/// An absent filter matches everything; a present one asks for a
/// case-insensitive substring match.
pub open spec fn filter_matches(field: Seq<char>, filter: Option<String>) -> bool {
    match filter {
        None => true,
        Some(pat) => contains_ci(field, pat@),
    }
}

/// As `filter_matches`, on a nullable column: a present filter never
/// matches an absent value.
pub open spec fn opt_filter_matches(field: Option<String>, filter: Option<String>) -> bool {
    match filter {
        None => true,
        Some(pat) => match field {
            None => false,
            Some(v) => contains_ci(v@, pat@),
        },
    }
}

/// Which apps the app list filters keep: AND of all present filters.
pub open spec fn app_matches(a: AppRecord, q: AppQuery) -> bool {
    &&& filter_matches(a.name@, q.name)
    &&& filter_matches(a.bundle_id@, q.bundle_id)
    &&& opt_filter_matches(a.description, q.description)
    &&& match q.platform_id {
        None => true,
        Some(p) => a.platform_id == p,
    }
}

/// Which versions the version list filters keep.
pub open spec fn app_version_matches(v: AppVersionRecord, q: AppVersionQuery) -> bool {
    &&& filter_matches(v.version_name@, q.version_name)
    &&& filter_matches(v.version_code@, q.version_code)
}

/// Which files the file list filters keep.
pub open spec fn file_matches(f: FileRecord, q: FileQuery) -> bool {
    &&& filter_matches(f.name@, q.name)
    &&& filter_matches(f.mime@, q.mime)
}

fn filter_matches_ex(field: &String, filter: &Option<String>) -> (r: bool)
    ensures
        r == filter_matches(field@, *filter),
{
    match filter {
        None => true,
        Some(pat) => contains_str_ci(field.as_str(), pat.as_str()),
    }
}

fn opt_filter_matches_ex(field: &Option<String>, filter: &Option<String>) -> (r: bool)
    ensures
        r == opt_filter_matches(*field, *filter),
{
    match filter {
        None => true,
        Some(pat) => match field {
            None => false,
            Some(v) => contains_str_ci(v.as_str(), pat.as_str()),
        },
    }
}

/// Whether an app passes the list filters.
pub fn app_matches_ex(a: &AppRecord, q: &AppQuery) -> (r: bool)
    ensures
        r == app_matches(*a, *q),
{
    filter_matches_ex(&a.name, &q.name) && filter_matches_ex(&a.bundle_id, &q.bundle_id)
        && opt_filter_matches_ex(&a.description, &q.description) && (match q.platform_id {
        None => true,
        Some(p) => a.platform_id == p,
    })
}

/// Whether a version passes the list filters.
pub fn app_version_matches_ex(v: &AppVersionRecord, q: &AppVersionQuery) -> (r: bool)
    ensures
        r == app_version_matches(*v, *q),
{
    filter_matches_ex(&v.version_name, &q.version_name) && filter_matches_ex(
        &v.version_code,
        &q.version_code,
    )
}

/// Whether a file passes the list filters.
pub fn file_matches_ex(f: &FileRecord, q: &FileQuery) -> (r: bool)
    ensures
        r == file_matches(*f, *q),
{
    filter_matches_ex(&f.name, &q.name) && filter_matches_ex(&f.mime, &q.mime)
}

} // verus!
