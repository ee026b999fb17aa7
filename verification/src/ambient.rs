//! Operations stamped from the ambient world: the wall clock's reading for
//! the row timestamps, and a fresh random storage key for uploads. Each
//! reading is drawn behind a trusted wrapper; the operations state what
//! holds whatever value came back.

use vstd::prelude::*;

use crate::checksum::hex_of;
use crate::checksum::sha256_of;
use crate::records::AppRecord;
use crate::records::AppVersionRecord;
use crate::records::CreateApp;
use crate::records::CreateAppVersion;
use crate::records::CreatePlatform;
use crate::records::FileRecord;
use crate::records::Params;
use crate::records::PatchAppVersion;
use crate::records::PlatformRecord;
use crate::records::StoreError;
use crate::store::Store;
use crate::store::has_blob;
use crate::store::has_file;
use crate::store::has_platform;
use crate::store::has_version;
use crate::store::new_platform_record;
use crate::store::platform_by_id;
use crate::store::platform_code_taken;
use crate::store::updated_platform_record;
use crate::store::with_platform_created;
use crate::store::with_platform_updated;
use crate::store::app_by_id;
use crate::store::file_by_id;
use crate::store::version_by_id;
use crate::store_apps::app_create_err;
use crate::store_apps::app_create_ok;
use crate::store_apps::app_update_err;
use crate::store_apps::app_update_ok;
use crate::store_apps::new_app_record;
use crate::store_apps::updated_app_record;
use crate::store_apps::with_app_created;
use crate::store_apps::with_app_updated;
use crate::store_files::updated_file_record;
use crate::store_files::with_file_updated;
use crate::store_versions::new_version_record;
use crate::store_versions::patched_version_record;
use crate::store_versions::version_create_err;
use crate::store_versions::version_create_ok;
use crate::store_versions::version_patch_ok;
use crate::store_versions::with_version_created;
use crate::store_versions::with_version_patched;
use crate::store_versions::with_version_published;

verus! {

/// Relies on chrono's `Utc::now`: the reading is whatever the system clock
/// says, in microseconds since the epoch; nothing is promised of it.
#[verifier::external_body]
pub(crate) fn now_micros() -> i64 {
    chrono::Utc::now().timestamp_micros()
}

/// Relies on uuid's `Uuid::new_v4`, rendered in the standard hyphenated
/// form: a random key of 36 characters; nothing more is promised of it.
#[verifier::external_body]
pub(crate) fn fresh_storage_key() -> (r: String)
    ensures
        r@.len() == 36,
{
    uuid::Uuid::new_v4().to_string()
}

impl Store {
    /// As `create_platform`, stamped with the clock's current reading.
    pub fn create_platform_now(&mut self, data: &CreatePlatform) -> (r: Result<
        PlatformRecord,
        StoreError,
    >)
        requires
            old(self).wf(),
            old(self)@.next_platform_id < i32::MAX,
        ensures
            final(self).wf(),
            match r {
                Ok(rec) => !platform_code_taken(old(self)@.platforms, data.code, None) && exists|
                    t: i64,
                |
                    rec == new_platform_record(old(self)@, *data, t) && final(self)@
                        == #[trigger] with_platform_created(old(self)@, *data, t),
                Err(e) => final(self)@ == old(self)@ && platform_code_taken(
                    old(self)@.platforms,
                    data.code,
                    None,
                ) && e == StoreError::BadRequest,
            },
    {
        let now = now_micros();
        self.create_platform(data, now)
    }

    /// As `update_platform`, stamped with the clock's current reading.
    pub fn update_platform_now(&mut self, id: i32, data: &CreatePlatform) -> (r: Result<
        PlatformRecord,
        StoreError,
    >)
        requires
            old(self).wf(),
        ensures
            final(self).wf(),
            match r {
                Ok(rec) => has_platform(old(self)@.platforms, id) && !platform_code_taken(
                    old(self)@.platforms,
                    data.code,
                    Some(id),
                ) && exists|t: i64|
                    rec == updated_platform_record(
                        platform_by_id(old(self)@.platforms, id),
                        *data,
                        t,
                    ) && final(self)@ == #[trigger] with_platform_updated(old(self)@, id, *data, t),
                Err(e) => final(self)@ == old(self)@ && ((e == StoreError::NotFound
                    && !has_platform(old(self)@.platforms, id)) || (e == StoreError::BadRequest
                    && has_platform(old(self)@.platforms, id) && platform_code_taken(
                    old(self)@.platforms,
                    data.code,
                    Some(id),
                ))),
            },
    {
        let now = now_micros();
        self.update_platform(id, data, now)
    }

    /// As `create_app`, stamped with the clock's current reading.
    pub fn create_app_now(&mut self, data: &CreateApp) -> (r: Result<AppRecord, StoreError>)
        requires
            old(self).wf(),
            old(self)@.next_app_id < i32::MAX,
        ensures
            final(self).wf(),
            match r {
                Ok(rec) => app_create_ok(old(self)@, *data) && exists|t: i64|
                    rec == new_app_record(old(self)@, *data, t) && final(self)@
                        == #[trigger] with_app_created(old(self)@, *data, t),
                Err(e) => final(self)@ == old(self)@ && !app_create_ok(old(self)@, *data) && e
                    == app_create_err(old(self)@, *data),
            },
    {
        let now = now_micros();
        self.create_app(data, now)
    }

    /// As `update_app`, stamped with the clock's current reading.
    pub fn update_app_now(&mut self, id: i32, data: &CreateApp) -> (r: Result<AppRecord, StoreError>)
        requires
            old(self).wf(),
        ensures
            final(self).wf(),
            match r {
                Ok(rec) => app_update_ok(old(self)@, id, *data) && exists|t: i64|
                    rec == updated_app_record(app_by_id(old(self)@.apps, id), *data, t)
                        && final(self)@ == #[trigger] with_app_updated(old(self)@, id, *data, t),
                Err(e) => final(self)@ == old(self)@ && !app_update_ok(old(self)@, id, *data) && e
                    == app_update_err(old(self)@, id, *data),
            },
    {
        let now = now_micros();
        self.update_app(id, data, now)
    }

    /// As `create_app_version`, stamped with the clock's current reading.
    pub fn create_app_version_now(&mut self, data: &CreateAppVersion) -> (r: Result<
        AppVersionRecord,
        StoreError,
    >)
        requires
            old(self).wf(),
            old(self)@.next_version_id < i32::MAX,
        ensures
            final(self).wf(),
            match r {
                Ok(rec) => version_create_ok(old(self)@, *data) && exists|t: i64|
                    rec == new_version_record(old(self)@, *data, t) && final(self)@
                        == #[trigger] with_version_created(old(self)@, *data, t),
                Err(e) => final(self)@ == old(self)@ && !version_create_ok(old(self)@, *data) && e
                    == version_create_err(old(self)@, *data),
            },
    {
        let now = now_micros();
        self.create_app_version(data, now)
    }

    /// As `update_app_version`, stamped with the clock's current reading.
    pub fn update_app_version_now(&mut self, id: i32, patch: &PatchAppVersion) -> (r: Result<
        AppVersionRecord,
        StoreError,
    >)
        requires
            old(self).wf(),
        ensures
            final(self).wf(),
            match r {
                Ok(rec) => version_patch_ok(old(self)@, id, *patch) && exists|t: i64|
                    rec == patched_version_record(
                        version_by_id(old(self)@.versions, id),
                        *patch,
                        t,
                    ) && final(self)@ == #[trigger] with_version_patched(old(self)@, id, *patch, t),
                Err(e) => final(self)@ == old(self)@ && !version_patch_ok(old(self)@, id, *patch)
                    && ((e == StoreError::NotFound && !has_version(old(self)@.versions, id)) || (e
                    == StoreError::BadRequest && has_version(old(self)@.versions, id))),
            },
    {
        let now = now_micros();
        self.update_app_version(id, patch, now)
    }

    /// As `publish_app_version`, stamped with the clock's current reading.
    pub fn publish_app_version_now(&mut self, id: i32, publish: bool) -> (r: Result<
        (),
        StoreError,
    >)
        requires
            old(self).wf(),
        ensures
            final(self).wf(),
            match r {
                Ok(_) => has_version(old(self)@.versions, id) && exists|t: i64|
                    final(self)@ == #[trigger] with_version_published(old(self)@, id, publish, t),
                Err(e) => final(self)@ == old(self)@ && !has_version(old(self)@.versions, id) && e
                    == StoreError::NotFound,
            },
    {
        let now = now_micros();
        self.publish_app_version(id, publish, now)
    }

    /// As `update_file`, stamped with the clock's current reading.
    pub fn update_file_now(&mut self, id: i32, params: &Params) -> (r: Result<
        FileRecord,
        StoreError,
    >)
        requires
            old(self).wf(),
        ensures
            final(self).wf(),
            match r {
                Ok(rec) => has_file(old(self)@.files, id) && exists|t: i64|
                    rec == updated_file_record(file_by_id(old(self)@.files, id), *params, t)
                        && final(self)@ == #[trigger] with_file_updated(old(self)@, id, *params, t),
                Err(e) => final(self)@ == old(self)@ && !has_file(old(self)@.files, id) && e
                    == StoreError::NotFound,
            },
    {
        let now = now_micros();
        self.update_file(id, params, now)
    }

    /// The upload endpoint's work: stores the bytes under a fresh random
    /// key, stamped with the clock's current reading. The returned row
    /// carries the drawn key and stamp; its checksum is the SHA-256 hex
    /// digest of exactly the uploaded bytes and its size their count.
    /// `BadRequest` can only mean the drawn key was already in use.
    pub fn upload(&mut self, name: String, mime: String, data: Vec<u8>, description: Option<
        String,
    >) -> (r: Result<FileRecord, StoreError>)
        requires
            old(self).wf(),
            old(self)@.next_file_id < i32::MAX,
            data@.len() <= i64::MAX,
        ensures
            final(self).wf(),
            match r {
                Ok(rec) => {
                    &&& !has_blob(old(self)@.blobs, rec.path@)
                    &&& rec.id == old(self)@.next_file_id
                    &&& rec.name == name
                    &&& rec.mime == mime
                    &&& rec.size_bytes == data@.len()
                    &&& rec.checksum_sha256@ == hex_of(sha256_of(data@))
                    &&& rec.description == description
                    &&& rec.created_at == rec.updated_at
                    &&& final(self)@.files == old(self)@.files.push(rec)
                    &&& final(self)@.blobs.len() == old(self)@.blobs.len() + 1
                    &&& final(self)@.blobs.last().key == rec.path
                    &&& final(self)@.blobs.last().data@ == data@
                    &&& forall|k: int|
                        0 <= k < old(self)@.blobs.len() ==> final(self)@.blobs[k] == old(
                            self,
                        )@.blobs[k]
                    &&& final(self)@.next_file_id == old(self)@.next_file_id + 1
                    &&& final(self)@.platforms == old(self)@.platforms
                    &&& final(self)@.apps == old(self)@.apps
                    &&& final(self)@.versions == old(self)@.versions
                },
                Err(e) => final(self)@ == old(self)@ && e == StoreError::BadRequest,
            },
    {
        let key = fresh_storage_key();
        let now = now_micros();
        self.upload_file(key, name, mime, data, description, now)
    }
}

} // verus!
