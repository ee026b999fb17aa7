//! Version rows: creation with the (app, name, code) uniqueness rule and
//! optional immediate publication, partial update, and the publish /
//! unpublish switch that also moves the owning app's current-version
//! pointer — both row changes of one operation happen together.

use vstd::prelude::*;

use crate::records::AppRecord;
use crate::records::AppVersionRecord;
use crate::records::CreateAppVersion;
use crate::records::PatchAppVersion;
use crate::records::StoreError;
use crate::records::clone_opt_string;
use crate::store::Store;
use crate::store::StoreModel;
use crate::store::app_by_id;
use crate::store::app_index;
use crate::store::app_refs_ok;
use crate::store::apps_wf;
use crate::store::blobs_wf;
use crate::store::files_wf;
use crate::store::has_app;
use crate::store::has_file;
use crate::store::has_version;
use crate::store::lemma_app_found;
use crate::store::lemma_version_found;
use crate::store::platforms_wf;
use crate::store::store_wf;
use crate::store::triple_taken;
use crate::store::version_by_id;
use crate::store::version_index;
use crate::store::version_refs_ok;
use crate::store::versions_wf;

verus! {

/// Whether a creation request asks for immediate publication.
pub open spec fn wants_publish(data: CreateAppVersion) -> bool {
    data.publish_immediately == Some(true)
}

/// A creation request is accepted when the (app, name, code) triple is free
/// and the referenced app and APK file exist.
pub open spec fn version_create_ok(m: StoreModel, data: CreateAppVersion) -> bool {
    &&& !triple_taken(m.versions, data.app_id, data.version_name@, data.version_code@, None)
    &&& has_app(m.apps, data.app_id)
    &&& has_file(m.files, data.apk_file_id)
}

/// The error of a refused creation: `BadRequest` for a duplicate triple,
/// `NotFound` for a missing app or APK file.
pub open spec fn version_create_err(m: StoreModel, data: CreateAppVersion) -> StoreError {
    if triple_taken(m.versions, data.app_id, data.version_name@, data.version_code@, None) {
        StoreError::BadRequest
    } else {
        StoreError::NotFound
    }
}

/// The row a creation request inserts: published right away exactly when
/// the request says so.
pub open spec fn new_version_record(m: StoreModel, data: CreateAppVersion, now: i64) -> AppVersionRecord {
    AppVersionRecord {
        id: m.next_version_id,
        app_id: data.app_id,
        version_code: data.version_code,
        version_name: data.version_name,
        release_notes: data.release_notes,
        apk_file_id: Some(data.apk_file_id),
        published_at: if wants_publish(data) {
            Some(now)
        } else {
            None
        },
        created_at: now,
        updated_at: now,
    }
}

/// An app row with its current-version pointer moved.
pub open spec fn app_with_current(a: AppRecord, cv: Option<i32>, now: i64) -> AppRecord {
    AppRecord { current_version_id: cv, updated_at: now, ..a }
}

/// The state after a version was created: the row is inserted, and on
/// immediate publication the owning app's pointer moves to it in the same
/// step — no state with one change but not the other exists.
pub open spec fn with_version_created(m: StoreModel, data: CreateAppVersion, now: i64) -> StoreModel {
    let rec = new_version_record(m, data, now);
    let base = StoreModel {
        versions: m.versions.push(rec),
        next_version_id: (m.next_version_id + 1) as i32,
        ..m
    };
    if wants_publish(data) {
        StoreModel {
            apps: m.apps.update(
                app_index(m.apps, data.app_id),
                app_with_current(app_by_id(m.apps, data.app_id), Some(rec.id), now),
            ),
            ..base
        }
    } else {
        base
    }
}

/// A version row with its publication state switched.
pub open spec fn published_version_record(v: AppVersionRecord, publish: bool, now: i64) -> AppVersionRecord {
    AppVersionRecord {
        published_at: if publish {
            Some(now)
        } else {
            None
        },
        updated_at: now,
        ..v
    }
}

/// The state after a version was published or unpublished: its timestamp
/// and the owning app's pointer change together.
pub open spec fn with_version_published(m: StoreModel, id: i32, publish: bool, now: i64) -> StoreModel {
    let vi = version_index(m.versions, id);
    let v = m.versions[vi];
    let ai = app_index(m.apps, v.app_id);
    let a = m.apps[ai];
    StoreModel {
        versions: m.versions.update(vi, published_version_record(v, publish, now)),
        apps: m.apps.update(
            ai,
            app_with_current(
                a,
                if publish {
                    Some(id)
                } else {
                    None
                },
                now,
            ),
        ),
        ..m
    }
}

/// A version row with the fields of a partial update merged in.
pub open spec fn patched_version_record(v: AppVersionRecord, patch: PatchAppVersion, now: i64) -> AppVersionRecord {
    AppVersionRecord {
        version_code: match patch.version_code {
            None => v.version_code,
            Some(c) => c,
        },
        version_name: match patch.version_name {
            None => v.version_name,
            Some(n) => n,
        },
        release_notes: match patch.release_notes {
            None => v.release_notes,
            Some(n) => Some(n),
        },
        updated_at: now,
        ..v
    }
}

/// A partial update is accepted when the row exists and the merged triple
/// is not taken by another row.
pub open spec fn version_patch_ok(m: StoreModel, id: i32, patch: PatchAppVersion) -> bool {
    &&& has_version(m.versions, id)
    &&& {
        let merged = patched_version_record(version_by_id(m.versions, id), patch, 0);
        !triple_taken(m.versions, merged.app_id, merged.version_name@, merged.version_code@, Some(id))
    }
}

/// The state after a version was patched.
pub open spec fn with_version_patched(m: StoreModel, id: i32, patch: PatchAppVersion, now: i64) -> StoreModel {
    StoreModel {
        versions: m.versions.update(
            version_index(m.versions, id),
            patched_version_record(version_by_id(m.versions, id), patch, now),
        ),
        ..m
    }
}

impl Store {
    fn triple_search(&self, app_id: i32, name: &String, code: &String, except: Option<i32>) -> (r:
        bool)
        ensures
            r == triple_taken(self@.versions, app_id, name@, code@, except),
    {
        let mut i: usize = 0;
        while i < self.versions_len()
            invariant
                i <= self@.versions.len(),
                forall|k: int|
                    0 <= k < i ==> !((#[trigger] self@.versions[k]).app_id == app_id
                        && self@.versions[k].version_name@ == name@
                        && self@.versions[k].version_code@ == code@ && match except {
                        None => true,
                        Some(e) => self@.versions[k].id != e,
                    }),
            decreases self@.versions.len() - i,
        {
            let candidate = self.version_at(i).app_id == app_id && self.version_at(i).version_name
                == *name && self.version_at(i).version_code == *code && match except {
                None => true,
                Some(e) => self.version_at(i).id != e,
            };
            if candidate {
                return true;
            }
            i += 1;
        }
        false
    }

    /// Creates a version; fails with `BadRequest` when the (app, name,
    /// code) triple already exists, with `NotFound` when the app or APK
    /// file is missing. On failure no row is created and no pointer moves.
    pub fn create_app_version(&mut self, data: &CreateAppVersion, now: i64) -> (r: Result<
        AppVersionRecord,
        StoreError,
    >)
        requires
            old(self).wf(),
            old(self)@.next_version_id < i32::MAX,
        ensures
            final(self).wf(),
            match r {
                Ok(rec) => version_create_ok(old(self)@, *data) && rec == new_version_record(
                    old(self)@,
                    *data,
                    now,
                ) && final(self)@ == with_version_created(old(self)@, *data, now),
                Err(e) => final(self)@ == old(self)@ && !version_create_ok(old(self)@, *data) && e
                    == version_create_err(old(self)@, *data),
            },
    {
        if self.triple_search(data.app_id, &data.version_name, &data.version_code, None) {
            return Err(StoreError::BadRequest);
        }
        let ai = match self.find_app(data.app_id) {
            Some(ai) => ai,
            None => {
                return Err(StoreError::NotFound);
            },
        };
        if self.find_file(data.apk_file_id).is_none() {
            return Err(StoreError::NotFound);
        }
        proof {
            lemma_app_found(self@, ai as int);
        }
        let publish = match data.publish_immediately {
            Some(true) => true,
            _ => false,
        };
        let vid = self.next_version_id_val();
        let rec = AppVersionRecord {
            id: vid,
            app_id: data.app_id,
            version_code: data.version_code.clone(),
            version_name: data.version_name.clone(),
            release_notes: clone_opt_string(&data.release_notes),
            apk_file_id: Some(data.apk_file_id),
            published_at: if publish {
                Some(now)
            } else {
                None
            },
            created_at: now,
            updated_at: now,
        };
        let result = rec.clone();
        let ghost m = self@;
        self.push_version(rec);
        if publish {
            let a = self.app_at(ai);
            let a2 = AppRecord {
                id: a.id,
                name: a.name.clone(),
                bundle_id: a.bundle_id.clone(),
                icon_file_id: a.icon_file_id,
                current_version_id: Some(vid),
                description: clone_opt_string(&a.description),
                platform_id: a.platform_id,
                created_at: a.created_at,
                updated_at: now,
            };
            self.set_app(ai, a2);
        }
        proof {
            let m2 = self@;
            assert(m2 =~= with_version_created(m, *data, now));
            lemma_version_create_wf(m, *data, now);
        }
        Ok(result)
    }

    /// Fetches a version by id; fails with `NotFound` exactly when no row
    /// has the id.
    pub fn get_app_version(&self, id: i32) -> (r: Result<AppVersionRecord, StoreError>)
        requires
            self.wf(),
        ensures
            match r {
                Ok(rec) => has_version(self@.versions, id) && rec == version_by_id(
                    self@.versions,
                    id,
                ),
                Err(e) => !has_version(self@.versions, id) && e == StoreError::NotFound,
            },
    {
        match self.find_version(id) {
            Some(i) => {
                proof {
                    lemma_version_found(self@, i as int);
                }
                Ok(self.version_at(i).clone())
            },
            None => Err(StoreError::NotFound),
        }
    }

    /// Publishes or unpublishes a version: sets or clears its publication
    /// timestamp and points the owning app's current-version reference at
    /// it or at nothing — both changes in one step.
    pub fn publish_app_version(&mut self, id: i32, publish: bool, now: i64) -> (r: Result<
        (),
        StoreError,
    >)
        requires
            old(self).wf(),
        ensures
            final(self).wf(),
            match r {
                Ok(_) => has_version(old(self)@.versions, id) && final(self)@
                    == with_version_published(old(self)@, id, publish, now),
                Err(e) => final(self)@ == old(self)@ && !has_version(old(self)@.versions, id) && e
                    == StoreError::NotFound,
            },
    {
        let vi = match self.find_version(id) {
            Some(vi) => vi,
            None => {
                return Err(StoreError::NotFound);
            },
        };
        proof {
            lemma_version_found(self@, vi as int);
        }
        let app_id = self.version_at(vi).app_id;
        let ai = match self.find_app(app_id) {
            Some(ai) => ai,
            None => {
                proof {
                    assert(false);
                }
                return Err(StoreError::NotFound);
            },
        };
        proof {
            lemma_app_found(self@, ai as int);
        }
        let v = self.version_at(vi);
        let v2 = AppVersionRecord {
            id: v.id,
            app_id: v.app_id,
            version_code: v.version_code.clone(),
            version_name: v.version_name.clone(),
            release_notes: clone_opt_string(&v.release_notes),
            apk_file_id: v.apk_file_id,
            published_at: if publish {
                Some(now)
            } else {
                None
            },
            created_at: v.created_at,
            updated_at: now,
        };
        let a = self.app_at(ai);
        let a2 = AppRecord {
            id: a.id,
            name: a.name.clone(),
            bundle_id: a.bundle_id.clone(),
            icon_file_id: a.icon_file_id,
            current_version_id: if publish {
                Some(id)
            } else {
                None
            },
            description: clone_opt_string(&a.description),
            platform_id: a.platform_id,
            created_at: a.created_at,
            updated_at: now,
        };
        let ghost m = self@;
        self.set_version(vi, v2);
        self.set_app(ai, a2);
        proof {
            let m2 = self@;
            assert(m2 =~= with_version_published(m, id, publish, now));
            lemma_version_publish_wf(m, id, publish, now);
        }
        Ok(())
    }

    /// Partially updates a version; the merged (app, name, code) triple
    /// must not be taken by another row. The publication state is not
    /// touched.
    pub fn update_app_version(&mut self, id: i32, patch: &PatchAppVersion, now: i64) -> (r: Result<
        AppVersionRecord,
        StoreError,
    >)
        requires
            old(self).wf(),
        ensures
            final(self).wf(),
            match r {
                Ok(rec) => version_patch_ok(old(self)@, id, *patch) && rec == patched_version_record(
                    version_by_id(old(self)@.versions, id),
                    *patch,
                    now,
                ) && final(self)@ == with_version_patched(old(self)@, id, *patch, now),
                Err(e) => final(self)@ == old(self)@ && !version_patch_ok(old(self)@, id, *patch)
                    && ((e == StoreError::NotFound && !has_version(old(self)@.versions, id)) || (e
                    == StoreError::BadRequest && has_version(old(self)@.versions, id))),
            },
    {
        let vi = match self.find_version(id) {
            Some(vi) => vi,
            None => {
                return Err(StoreError::NotFound);
            },
        };
        proof {
            lemma_version_found(self@, vi as int);
        }
        let v = self.version_at(vi);
        let merged_code = match &patch.version_code {
            None => v.version_code.clone(),
            Some(c) => c.clone(),
        };
        let merged_name = match &patch.version_name {
            None => v.version_name.clone(),
            Some(n) => n.clone(),
        };
        let merged_notes = match &patch.release_notes {
            None => clone_opt_string(&v.release_notes),
            Some(n) => Some(n.clone()),
        };
        let app_id = v.app_id;
        if self.triple_search(app_id, &merged_name, &merged_code, Some(id)) {
            return Err(StoreError::BadRequest);
        }
        let v = self.version_at(vi);
        let v2 = AppVersionRecord {
            id: v.id,
            app_id: v.app_id,
            version_code: merged_code,
            version_name: merged_name,
            release_notes: merged_notes,
            apk_file_id: v.apk_file_id,
            published_at: v.published_at,
            created_at: v.created_at,
            updated_at: now,
        };
        let result = v2.clone();
        let ghost m = self@;
        self.set_version(vi, v2);
        proof {
            let m2 = self@;
            assert(m2 =~= with_version_patched(m, id, *patch, now));
            lemma_version_patch_wf(m, id, *patch, now);
        }
        Ok(result)
    }
}

/// Creating a validated version, with or without immediate publication,
/// keeps the store well-formed.
pub(crate) proof fn lemma_version_create_wf(m: StoreModel, data: CreateAppVersion, now: i64)
    requires
        store_wf(m),
        m.next_version_id < i32::MAX,
        version_create_ok(m, data),
    ensures
        store_wf(with_version_created(m, data, now)),
{
    let rec = new_version_record(m, data, now);
    let m2 = with_version_created(m, data, now);
    let n = m.versions.len() as int;
    let ai = app_index(m.apps, data.app_id);
    lemma_app_found(m, ai);
    assert(versions_wf(m2)) by {
        assert forall|i: int, j: int|
            0 <= i < j < m2.versions.len() implies #[trigger] m2.versions[i].id
            < #[trigger] m2.versions[j].id && !(m2.versions[i].app_id == m2.versions[j].app_id
            && m2.versions[i].version_name@ == m2.versions[j].version_name@
            && m2.versions[i].version_code@ == m2.versions[j].version_code@) by {
            if j < n {
                assert(m2.versions[i] == m.versions[i]);
                assert(m2.versions[j] == m.versions[j]);
            } else {
                assert(m2.versions[i] == m.versions[i]);
                assert(m2.versions[j] == rec);
            }
        }
        assert forall|i: int| 0 <= i < m2.versions.len() implies 1 <= (
        #[trigger] m2.versions[i]).id < m2.next_version_id && version_refs_ok(
            m2.apps,
            m2.files,
            m2.versions[i],
        ) by {
            let v = if i < n {
                m.versions[i]
            } else {
                rec
            };
            assert(m2.versions[i] == v);
            if i < n {
                assert(version_refs_ok(m.apps, m.files, m.versions[i]));
            }
            let k = app_index(m.apps, v.app_id);
            lemma_app_found_if(m, v.app_id);
            assert(m2.apps.len() == m.apps.len());
            if wants_publish(data) && k == ai {
                assert(m2.apps[k].id == m.apps[k].id);
            } else if wants_publish(data) {
                assert(m2.apps[k] == m.apps[k]);
            } else {
                assert(m2.apps == m.apps);
            }
            assert(has_app(m2.apps, v.app_id));
        }
    }
    assert(apps_wf(m2)) by {
        assert forall|i: int, j: int| 0 <= i < j < m2.apps.len() implies #[trigger] m2.apps[i].id
            < #[trigger] m2.apps[j].id && m2.apps[i].bundle_id@ != m2.apps[j].bundle_id@ by {
            assert(m2.apps[i].id == m.apps[i].id && m2.apps[i].bundle_id == m.apps[i].bundle_id);
            assert(m2.apps[j].id == m.apps[j].id && m2.apps[j].bundle_id == m.apps[j].bundle_id);
        }
        assert forall|i: int| 0 <= i < m2.apps.len() implies 1 <= (#[trigger] m2.apps[i]).id
            < m2.next_app_id && app_refs_ok(m2.platforms, m2.files, m2.versions, m2.apps[i]) by {
            assert(app_refs_ok(m.platforms, m.files, m.versions, m.apps[i]));
            if wants_publish(data) && i == ai {
                assert(m2.apps[i] == app_with_current(m.apps[ai], Some(rec.id), now));
                assert(m2.versions.last() == rec);
                assert(has_version(m2.versions, rec.id));
                lemma_version_unique_in(m2, rec.id, m.versions.len() as int);
            } else {
                assert(m2.apps[i] == m.apps[i]);
                match m.apps[i].current_version_id {
                    None => {
                    },
                    Some(cv) => {
                        let k = version_index(m.versions, cv);
                        assert(m2.versions[k] == m.versions[k]);
                        assert(has_version(m2.versions, cv));
                        lemma_version_unique_in(m2, cv, k);
                    },
                }
            }
        }
    }
    assert(platforms_wf(m2));
    assert(files_wf(m2));
    assert(blobs_wf(m2));
}

/// In a version table with strictly ascending ids, the row found at a
/// position is the row any id lookup returns.
pub(crate) proof fn lemma_version_unique_in(m: StoreModel, id: i32, i: int)
    requires
        0 <= i < m.versions.len(),
        m.versions[i].id == id,
        forall|a: int, b: int|
            #![trigger m.versions[a], m.versions[b]]
            0 <= a < b < m.versions.len() ==> m.versions[a].id < m.versions[b].id,
    ensures
        has_version(m.versions, id),
        version_index(m.versions, id) == i,
        version_by_id(m.versions, id) == m.versions[i],
{
    assert(has_version(m.versions, id));
    let j = version_index(m.versions, id);
    if i < j {
        assert(m.versions[i].id < m.versions[j].id);
    } else if j < i {
        assert(m.versions[j].id < m.versions[i].id);
    }
}

/// `has_app` holds of any id some row carries.
proof fn lemma_app_found_if(m: StoreModel, id: i32)
    requires
        apps_wf(m),
        has_app(m.apps, id),
    ensures
        0 <= app_index(m.apps, id) < m.apps.len(),
        m.apps[app_index(m.apps, id)].id == id,
{
}

/// Publishing or unpublishing an existing version keeps the store
/// well-formed.
pub(crate) proof fn lemma_version_publish_wf(m: StoreModel, id: i32, publish: bool, now: i64)
    requires
        store_wf(m),
        has_version(m.versions, id),
    ensures
        store_wf(with_version_published(m, id, publish, now)),
{
    let m2 = with_version_published(m, id, publish, now);
    let vi = version_index(m.versions, id);
    let v = m.versions[vi];
    let v2 = published_version_record(v, publish, now);
    let ai = app_index(m.apps, v.app_id);
    lemma_app_found_if(m, v.app_id);
    let a = m.apps[ai];
    assert(versions_wf(m2)) by {
        assert forall|i: int, j: int|
            0 <= i < j < m2.versions.len() implies #[trigger] m2.versions[i].id
            < #[trigger] m2.versions[j].id && !(m2.versions[i].app_id == m2.versions[j].app_id
            && m2.versions[i].version_name@ == m2.versions[j].version_name@
            && m2.versions[i].version_code@ == m2.versions[j].version_code@) by {
            assert(m2.versions[i].id == m.versions[i].id && m2.versions[i].app_id
                == m.versions[i].app_id && m2.versions[i].version_name == m.versions[i].version_name
                && m2.versions[i].version_code == m.versions[i].version_code);
            assert(m2.versions[j].id == m.versions[j].id && m2.versions[j].app_id
                == m.versions[j].app_id && m2.versions[j].version_name == m.versions[j].version_name
                && m2.versions[j].version_code == m.versions[j].version_code);
        }
        assert forall|i: int| 0 <= i < m2.versions.len() implies 1 <= (
        #[trigger] m2.versions[i]).id < m2.next_version_id && version_refs_ok(
            m2.apps,
            m2.files,
            m2.versions[i],
        ) by {
            assert(m2.versions[i].id == m.versions[i].id && m2.versions[i].app_id
                == m.versions[i].app_id && m2.versions[i].apk_file_id == m.versions[i].apk_file_id);
            assert(version_refs_ok(m.apps, m.files, m.versions[i]));
            let k = app_index(m.apps, m.versions[i].app_id);
            if k == ai {
                assert(m2.apps[k].id == a.id);
            } else {
                assert(m2.apps[k] == m.apps[k]);
            }
            assert(has_app(m2.apps, m.versions[i].app_id));
        }
    }
    assert(apps_wf(m2)) by {
        assert forall|i: int, j: int| 0 <= i < j < m2.apps.len() implies #[trigger] m2.apps[i].id
            < #[trigger] m2.apps[j].id && m2.apps[i].bundle_id@ != m2.apps[j].bundle_id@ by {
            assert(m2.apps[i].id == m.apps[i].id && m2.apps[i].bundle_id == m.apps[i].bundle_id);
            assert(m2.apps[j].id == m.apps[j].id && m2.apps[j].bundle_id == m.apps[j].bundle_id);
        }
        assert forall|i: int| 0 <= i < m2.apps.len() implies 1 <= (#[trigger] m2.apps[i]).id
            < m2.next_app_id && app_refs_ok(m2.platforms, m2.files, m2.versions, m2.apps[i]) by {
            assert(app_refs_ok(m.platforms, m.files, m.versions, m.apps[i]));
            if i == ai {
                assert(m2.apps[i] == app_with_current(
                    a,
                    if publish {
                        Some(id)
                    } else {
                        None
                    },
                    now,
                ));
                if publish {
                    assert(m2.versions[vi] == v2);
                    assert(m2.versions[vi].id == id);
                    assert(has_version(m2.versions, id));
                    lemma_version_unique_in(m2, id, vi);
                    assert(version_by_id(m2.versions, id).app_id == v.app_id);
                    assert(a.id == m.apps[ai].id);
                }
            } else {
                assert(m2.apps[i] == m.apps[i]);
                match m.apps[i].current_version_id {
                    None => {
                    },
                    Some(cv) => {
                        let k = version_index(m.versions, cv);
                        assert(m2.versions[k].id == m.versions[k].id);
                        assert(has_version(m2.versions, cv));
                        lemma_version_unique_in(m2, cv, k);
                        assert(m2.versions[k].app_id == m.versions[k].app_id);
                    },
                }
            }
        }
    }
    assert(platforms_wf(m2));
    assert(files_wf(m2));
    assert(blobs_wf(m2));
}

/// Patching a version, with the merged triple free, keeps the store
/// well-formed.
proof fn lemma_version_patch_wf(m: StoreModel, id: i32, patch: PatchAppVersion, now: i64)
    requires
        store_wf(m),
        version_patch_ok(m, id, patch),
    ensures
        store_wf(with_version_patched(m, id, patch, now)),
{
    let m2 = with_version_patched(m, id, patch, now);
    let vi = version_index(m.versions, id);
    let v = m.versions[vi];
    let v2 = patched_version_record(v, patch, now);
    assert(v2.version_name@ == patched_version_record(v, patch, 0).version_name@);
    assert(v2.version_code@ == patched_version_record(v, patch, 0).version_code@);
    assert(versions_wf(m2)) by {
        assert forall|i: int, j: int|
            0 <= i < j < m2.versions.len() implies #[trigger] m2.versions[i].id
            < #[trigger] m2.versions[j].id && !(m2.versions[i].app_id == m2.versions[j].app_id
            && m2.versions[i].version_name@ == m2.versions[j].version_name@
            && m2.versions[i].version_code@ == m2.versions[j].version_code@) by {
            if i != vi && j != vi {
                assert(m2.versions[i] == m.versions[i]);
                assert(m2.versions[j] == m.versions[j]);
            } else if i == vi {
                assert(m2.versions[j] == m.versions[j]);
                assert(m.versions[j].id != id);
            } else {
                assert(m2.versions[i] == m.versions[i]);
                assert(m.versions[i].id != id);
            }
        }
        assert forall|i: int| 0 <= i < m2.versions.len() implies 1 <= (
        #[trigger] m2.versions[i]).id < m2.next_version_id && version_refs_ok(
            m2.apps,
            m2.files,
            m2.versions[i],
        ) by {
            if i != vi {
                assert(m2.versions[i] == m.versions[i]);
            }
            assert(m2.versions[i].app_id == m.versions[i].app_id && m2.versions[i].apk_file_id
                == m.versions[i].apk_file_id && m2.versions[i].id == m.versions[i].id);
            assert(version_refs_ok(m.apps, m.files, m.versions[i]));
        }
    }
    assert(apps_wf(m2)) by {
        assert forall|i: int| 0 <= i < m2.apps.len() implies 1 <= (#[trigger] m2.apps[i]).id
            < m2.next_app_id && app_refs_ok(m2.platforms, m2.files, m2.versions, m2.apps[i]) by {
            assert(app_refs_ok(m.platforms, m.files, m.versions, m.apps[i]));
            match m.apps[i].current_version_id {
                None => {
                },
                Some(cv) => {
                    let k = version_index(m.versions, cv);
                    assert(m2.versions[k].id == m.versions[k].id);
                    assert(has_version(m2.versions, cv));
                    lemma_version_unique_in(m2, cv, k);
                    assert(m2.versions[k].app_id == m.versions[k].app_id);
                },
            }
        }
    }
    assert(platforms_wf(m2));
    assert(files_wf(m2));
    assert(blobs_wf(m2));
}

} // verus!
