//! App rows: creation with the bundle-id uniqueness rule, fetch, full
//! update, and the update-availability check.

use vstd::prelude::*;

use crate::records::AppRecord;
use crate::records::AppVersionRecord;
use crate::records::CreateApp;
use crate::records::LatestVersionInfo;
use crate::records::Revision;
use crate::records::StoreError;
use crate::records::UpdateInfo;
use crate::records::clone_opt_string;
use crate::store::Store;
use crate::store::StoreModel;
use crate::store::app_by_id;
use crate::store::app_index;
use crate::store::app_refs_ok;
use crate::store::apps_wf;
use crate::store::blobs_wf;
use crate::store::bundle_taken;
use crate::store::file_by_id;
use crate::store::files_wf;
use crate::store::has_app;
use crate::store::has_file;
use crate::store::has_platform;
use crate::store::has_version;
use crate::store::lemma_app_found;
use crate::store::lemma_file_found;
use crate::store::lemma_version_found;
use crate::store::platforms_wf;
use crate::store::store_wf;
use crate::store::version_by_id;
use crate::store::version_refs_ok;
use crate::store::versions_wf;
use crate::text::is_decimal;
use crate::text::matches_decimal;

verus! {

/// A creation request is accepted when the bundle id is free, no current
/// version is named (a fresh app owns no version yet), and the referenced
/// platform and icon file exist.
pub open spec fn app_create_ok(m: StoreModel, data: CreateApp) -> bool {
    &&& !bundle_taken(m.apps, data.bundle_id@, None)
    &&& data.current_version_id is None
    &&& has_platform(m.platforms, data.platform_id)
    &&& match data.icon_file_id {
        None => true,
        Some(f) => has_file(m.files, f),
    }
}

/// The error of a refused creation: `BadRequest` for a taken bundle id or a
/// named current version, `NotFound` for a missing platform or icon file.
pub open spec fn app_create_err(m: StoreModel, data: CreateApp) -> StoreError {
    if bundle_taken(m.apps, data.bundle_id@, None) || data.current_version_id is Some {
        StoreError::BadRequest
    } else {
        StoreError::NotFound
    }
}

/// The row a creation request inserts.
pub open spec fn new_app_record(m: StoreModel, data: CreateApp, now: i64) -> AppRecord {
    AppRecord {
        id: m.next_app_id,
        name: data.name,
        bundle_id: data.bundle_id,
        icon_file_id: data.icon_file_id,
        current_version_id: data.current_version_id,
        description: data.description,
        platform_id: data.platform_id,
        created_at: now,
        updated_at: now,
    }
}

/// The state after an app was created.
pub open spec fn with_app_created(m: StoreModel, data: CreateApp, now: i64) -> StoreModel {
    StoreModel {
        apps: m.apps.push(new_app_record(m, data, now)),
        next_app_id: (m.next_app_id + 1) as i32,
        ..m
    }
}

/// An update request is accepted when the row exists, the new bundle id is
/// not taken by another row, the referenced platform and icon file exist,
/// and the named current version, if any, belongs to this app.
pub open spec fn app_update_ok(m: StoreModel, id: i32, data: CreateApp) -> bool {
    &&& has_app(m.apps, id)
    &&& !bundle_taken(m.apps, data.bundle_id@, Some(id))
    &&& has_platform(m.platforms, data.platform_id)
    &&& match data.icon_file_id {
        None => true,
        Some(f) => has_file(m.files, f),
    }
    &&& match data.current_version_id {
        None => true,
        Some(cv) => has_version(m.versions, cv) && version_by_id(m.versions, cv).app_id == id,
    }
}

/// The error of a refused update, in the order the checks run.
pub open spec fn app_update_err(m: StoreModel, id: i32, data: CreateApp) -> StoreError {
    if !has_app(m.apps, id) {
        StoreError::NotFound
    } else if bundle_taken(m.apps, data.bundle_id@, Some(id)) {
        StoreError::BadRequest
    } else if !has_platform(m.platforms, data.platform_id) {
        StoreError::NotFound
    } else if match data.icon_file_id {
        None => false,
        Some(f) => !has_file(m.files, f),
    } {
        StoreError::NotFound
    } else {
        StoreError::BadRequest
    }
}

/// An app row with the fields a full update replaces.
pub open spec fn updated_app_record(old_rec: AppRecord, data: CreateApp, now: i64) -> AppRecord {
    AppRecord {
        id: old_rec.id,
        name: data.name,
        bundle_id: data.bundle_id,
        icon_file_id: data.icon_file_id,
        current_version_id: data.current_version_id,
        description: data.description,
        platform_id: data.platform_id,
        created_at: old_rec.created_at,
        updated_at: now,
    }
}

/// The state after an app was updated.
pub open spec fn with_app_updated(m: StoreModel, id: i32, data: CreateApp, now: i64) -> StoreModel {
    StoreModel {
        apps: m.apps.update(
            app_index(m.apps, id),
            updated_app_record(app_by_id(m.apps, id), data, now),
        ),
        ..m
    }
}

/// The reported revision names the version: same version name, and the
/// version code is exactly the decimal rendering of the build number.
pub open spec fn revision_is_current(v: AppVersionRecord, rev: Revision) -> bool {
    v.version_name@ == rev.version_name@ && is_decimal(v.version_code@, rev.build_number as nat)
}

/// What the update check answers on a given store state.
pub open spec fn check_update_spec(m: StoreModel, id: i32, rev: Revision) -> Result<
    UpdateInfo,
    StoreError,
> {
    if !has_app(m.apps, id) {
        Err(StoreError::NotFound)
    } else {
        let a = app_by_id(m.apps, id);
        match a.current_version_id {
            None => Ok(UpdateInfo { update_available: false, latest_version: None }),
            Some(cv) => {
                let v = version_by_id(m.versions, cv);
                if revision_is_current(v, rev) {
                    Ok(UpdateInfo { update_available: false, latest_version: None })
                } else {
                    match v.apk_file_id {
                        None => Err(StoreError::NotFound),
                        Some(f) => if !has_file(m.files, f) {
                            Err(StoreError::NotFound)
                        } else {
                            Ok(
                                UpdateInfo {
                                    update_available: true,
                                    latest_version: Some(
                                        LatestVersionInfo {
                                            id: v.id,
                                            name: v.version_name,
                                            build_number: v.version_code,
                                            file_url: file_by_id(m.files, f).path,
                                        },
                                    ),
                                },
                            )
                        },
                    }
                }
            },
        }
    }
}

impl Store {
    pub(crate) fn find_app(&self, id: i32) -> (r: Option<usize>)
        ensures
            match r {
                Some(i) => 0 <= i < self@.apps.len() && self@.apps[i as int].id == id,
                None => !has_app(self@.apps, id),
            },
    {
        let mut i: usize = 0;
        while i < self.apps_len()
            invariant
                i <= self@.apps.len(),
                forall|k: int| 0 <= k < i ==> (#[trigger] self@.apps[k]).id != id,
            decreases self@.apps.len() - i,
        {
            if self.app_at(i).id == id {
                return Some(i);
            }
            i += 1;
        }
        None
    }

    fn bundle_search(&self, bundle: &String, except: Option<i32>) -> (r: bool)
        ensures
            r == bundle_taken(self@.apps, bundle@, except),
    {
        let mut i: usize = 0;
        while i < self.apps_len()
            invariant
                i <= self@.apps.len(),
                forall|k: int|
                    0 <= k < i ==> !((#[trigger] self@.apps[k]).bundle_id@ == bundle@
                        && match except {
                        None => true,
                        Some(e) => self@.apps[k].id != e,
                    }),
            decreases self@.apps.len() - i,
        {
            let candidate = self.app_at(i).bundle_id == *bundle && match except {
                None => true,
                Some(e) => self.app_at(i).id != e,
            };
            if candidate {
                return true;
            }
            i += 1;
        }
        false
    }

    /// Creates an app; fails with `BadRequest` when the bundle id already
    /// exists or a current version is named, with `NotFound` when the
    /// platform or icon file is missing. On failure no row is created.
    pub fn create_app(&mut self, data: &CreateApp, now: i64) -> (r: Result<AppRecord, StoreError>)
        requires
            old(self).wf(),
            old(self)@.next_app_id < i32::MAX,
        ensures
            final(self).wf(),
            match r {
                Ok(rec) => app_create_ok(old(self)@, *data) && rec == new_app_record(
                    old(self)@,
                    *data,
                    now,
                ) && final(self)@ == with_app_created(old(self)@, *data, now),
                Err(e) => final(self)@ == old(self)@ && !app_create_ok(old(self)@, *data) && e
                    == app_create_err(old(self)@, *data),
            },
    {
        if self.bundle_search(&data.bundle_id, None) {
            return Err(StoreError::BadRequest);
        }
        if data.current_version_id.is_some() {
            return Err(StoreError::BadRequest);
        }
        if self.find_platform(data.platform_id).is_none() {
            return Err(StoreError::NotFound);
        }
        match data.icon_file_id {
            None => (),
            Some(f) => {
                if self.find_file(f).is_none() {
                    return Err(StoreError::NotFound);
                }
            },
        }
        let rec = AppRecord {
            id: self.next_app_id_val(),
            name: data.name.clone(),
            bundle_id: data.bundle_id.clone(),
            icon_file_id: data.icon_file_id,
            current_version_id: data.current_version_id,
            description: clone_opt_string(&data.description),
            platform_id: data.platform_id,
            created_at: now,
            updated_at: now,
        };
        let result = rec.clone();
        let ghost m = self@;
        self.push_app(rec);
        proof {
            let m2 = self@;
            assert(m2 =~= with_app_created(m, *data, now));
            lemma_app_push_wf(m, m2);
        }
        Ok(result)
    }

    /// Fetches an app by id; fails with `NotFound` exactly when no row has
    /// the id.
    pub fn get_app(&self, id: i32) -> (r: Result<AppRecord, StoreError>)
        requires
            self.wf(),
        ensures
            match r {
                Ok(rec) => has_app(self@.apps, id) && rec == app_by_id(self@.apps, id),
                Err(e) => !has_app(self@.apps, id) && e == StoreError::NotFound,
            },
    {
        match self.find_app(id) {
            Some(i) => {
                proof {
                    lemma_app_found(self@, i as int);
                }
                Ok(self.app_at(i).clone())
            },
            None => Err(StoreError::NotFound),
        }
    }

    /// Replaces an app's fields; the bundle id must not be taken by another
    /// row and the named current version, if any, must belong to this app.
    pub fn update_app(&mut self, id: i32, data: &CreateApp, now: i64) -> (r: Result<
        AppRecord,
        StoreError,
    >)
        requires
            old(self).wf(),
        ensures
            final(self).wf(),
            match r {
                Ok(rec) => app_update_ok(old(self)@, id, *data) && rec == updated_app_record(
                    app_by_id(old(self)@.apps, id),
                    *data,
                    now,
                ) && final(self)@ == with_app_updated(old(self)@, id, *data, now),
                Err(e) => final(self)@ == old(self)@ && !app_update_ok(old(self)@, id, *data) && e
                    == app_update_err(old(self)@, id, *data),
            },
    {
        let i = match self.find_app(id) {
            Some(i) => i,
            None => {
                return Err(StoreError::NotFound);
            },
        };
        proof {
            lemma_app_found(self@, i as int);
        }
        if self.bundle_search(&data.bundle_id, Some(id)) {
            return Err(StoreError::BadRequest);
        }
        if self.find_platform(data.platform_id).is_none() {
            return Err(StoreError::NotFound);
        }
        match data.icon_file_id {
            None => (),
            Some(f) => {
                if self.find_file(f).is_none() {
                    return Err(StoreError::NotFound);
                }
            },
        }
        match data.current_version_id {
            None => (),
            Some(cv) => {
                match self.find_version(cv) {
                    None => {
                        return Err(StoreError::BadRequest);
                    },
                    Some(vi) => {
                        proof {
                            lemma_version_found(self@, vi as int);
                        }
                        if self.version_at(vi).app_id != id {
                            return Err(StoreError::BadRequest);
                        }
                    },
                }
            },
        }
        let rec = AppRecord {
            id,
            name: data.name.clone(),
            bundle_id: data.bundle_id.clone(),
            icon_file_id: data.icon_file_id,
            current_version_id: data.current_version_id,
            description: clone_opt_string(&data.description),
            platform_id: data.platform_id,
            created_at: self.app_at(i).created_at,
            updated_at: now,
        };
        let result = rec.clone();
        let ghost m = self@;
        self.set_app(i, rec);
        proof {
            let m2 = self@;
            assert(m2 =~= with_app_updated(m, id, *data, now));
            lemma_app_update_wf(m, m2, i as int, id, *data, now);
        }
        Ok(result)
    }

    /// The update-availability check: compares the reported revision with
    /// the app's current version and points at the APK file on a mismatch.
    pub fn check_update(&self, id: i32, revision: &Revision) -> (r: Result<UpdateInfo, StoreError>)
        requires
            self.wf(),
        ensures
            r == check_update_spec(self@, id, *revision),
    {
        let i = match self.find_app(id) {
            Some(i) => i,
            None => {
                return Err(StoreError::NotFound);
            },
        };
        proof {
            lemma_app_found(self@, i as int);
        }
        let cv = match self.app_at(i).current_version_id {
            None => {
                return Ok(UpdateInfo::new(false, None));
            },
            Some(cv) => cv,
        };
        let vi = match self.find_version(cv) {
            Some(vi) => vi,
            None => {
                proof {
                    assert(false);
                }
                return Err(StoreError::NotFound);
            },
        };
        proof {
            lemma_version_found(self@, vi as int);
        }
        let same_name = self.version_at(vi).version_name == revision.version_name;
        let same_code = matches_decimal(
            self.version_at(vi).version_code.as_str(),
            revision.build_number,
        );
        if same_name && same_code {
            return Ok(UpdateInfo::new(false, None));
        }
        let f = match self.version_at(vi).apk_file_id {
            None => {
                return Err(StoreError::NotFound);
            },
            Some(f) => f,
        };
        let fi = match self.find_file(f) {
            Some(fi) => fi,
            None => {
                proof {
                    assert(false);
                }
                return Err(StoreError::NotFound);
            },
        };
        proof {
            lemma_file_found(self@, fi as int);
        }
        Ok(
            UpdateInfo::new(
                true,
                Some(
                    LatestVersionInfo {
                        id: self.version_at(vi).id,
                        name: self.version_at(vi).version_name.clone(),
                        build_number: self.version_at(vi).version_code.clone(),
                        file_url: self.file_at(fi).path.clone(),
                    },
                ),
            ),
        )
    }
}

/// Pushing a fresh, fully validated app row keeps the store well-formed.
proof fn lemma_app_push_wf(m: StoreModel, m2: StoreModel)
    requires
        store_wf(m),
        m.next_app_id < i32::MAX,
        m2.apps.len() == m.apps.len() + 1,
        forall|k: int| 0 <= k < m.apps.len() ==> m2.apps[k] == m.apps[k],
        m2.apps.last().id == m.next_app_id,
        !bundle_taken(m.apps, m2.apps.last().bundle_id@, None),
        has_platform(m.platforms, m2.apps.last().platform_id),
        match m2.apps.last().icon_file_id {
            None => true,
            Some(f) => has_file(m.files, f),
        },
        m2.apps.last().current_version_id is None,
        m2.next_app_id == m.next_app_id + 1,
        m2.platforms == m.platforms,
        m2.files == m.files,
        m2.versions == m.versions,
        m2.blobs == m.blobs,
        m2.next_platform_id == m.next_platform_id,
        m2.next_file_id == m.next_file_id,
        m2.next_version_id == m.next_version_id,
    ensures
        store_wf(m2),
{
    let n = m.apps.len() as int;
    assert(apps_wf(m2)) by {
        assert forall|i: int, j: int| 0 <= i < j < m2.apps.len() implies #[trigger] m2.apps[i].id
            < #[trigger] m2.apps[j].id && m2.apps[i].bundle_id@ != m2.apps[j].bundle_id@ by {
            if j < n {
                assert(m.apps[i].id < m.apps[j].id);
            } else {
                assert(m2.apps[i] == m.apps[i]);
                assert(m2.apps[j] == m2.apps.last());
            }
        }
        assert forall|i: int| 0 <= i < m2.apps.len() implies 1 <= (#[trigger] m2.apps[i]).id
            < m2.next_app_id && app_refs_ok(m2.platforms, m2.files, m2.versions, m2.apps[i]) by {
            if i < n {
                assert(m2.apps[i] == m.apps[i]);
                assert(app_refs_ok(m.platforms, m.files, m.versions, m.apps[i]));
            } else {
                assert(m2.apps[i] == m2.apps.last());
            }
        }
    }
    assert(versions_wf(m2)) by {
        assert forall|i: int| 0 <= i < m2.versions.len() implies 1 <= (
        #[trigger] m2.versions[i]).id < m2.next_version_id && version_refs_ok(
            m2.apps,
            m2.files,
            m2.versions[i],
        ) by {
            assert(version_refs_ok(m.apps, m.files, m.versions[i]));
            let k = app_index(m.apps, m.versions[i].app_id);
            assert(m2.apps[k] == m.apps[k]);
            assert(has_app(m2.apps, m.versions[i].app_id));
        }
    }
    assert(platforms_wf(m2));
    assert(files_wf(m2));
    assert(blobs_wf(m2));
}

/// Updating an app row in place, with its id kept and all references
/// validated, keeps the store well-formed.
proof fn lemma_app_update_wf(m: StoreModel, m2: StoreModel, i: int, id: i32, data: CreateApp, now: i64)
    requires
        store_wf(m),
        0 <= i < m.apps.len(),
        m.apps[i].id == id,
        app_update_ok(m, id, data),
        m2 == with_app_updated(m, id, data, now),
    ensures
        store_wf(m2),
{
    lemma_app_found(m, i);
    let rec = updated_app_record(m.apps[i], data, now);
    assert(m2.apps == m.apps.update(i, rec));
    assert(apps_wf(m2)) by {
        assert forall|a: int, b: int| 0 <= a < b < m2.apps.len() implies #[trigger] m2.apps[a].id
            < #[trigger] m2.apps[b].id && m2.apps[a].bundle_id@ != m2.apps[b].bundle_id@ by {
            if a != i && b != i {
                assert(m2.apps[a] == m.apps[a]);
                assert(m2.apps[b] == m.apps[b]);
            } else if a == i {
                assert(m2.apps[b] == m.apps[b]);
                assert(m.apps[b].id != id);
            } else {
                assert(m2.apps[a] == m.apps[a]);
                assert(m.apps[a].id != id);
            }
        }
        assert forall|a: int| 0 <= a < m2.apps.len() implies 1 <= (#[trigger] m2.apps[a]).id
            < m2.next_app_id && app_refs_ok(m2.platforms, m2.files, m2.versions, m2.apps[a]) by {
            if a != i {
                assert(m2.apps[a] == m.apps[a]);
                assert(app_refs_ok(m.platforms, m.files, m.versions, m.apps[a]));
            } else {
                assert(m2.apps[a] == rec);
            }
        }
    }
    assert(versions_wf(m2)) by {
        assert forall|a: int| 0 <= a < m2.versions.len() implies 1 <= (
        #[trigger] m2.versions[a]).id < m2.next_version_id && version_refs_ok(
            m2.apps,
            m2.files,
            m2.versions[a],
        ) by {
            assert(version_refs_ok(m.apps, m.files, m.versions[a]));
            let k = app_index(m.apps, m.versions[a].app_id);
            if k == i {
                assert(m2.apps[i].id == id);
                assert(has_app(m2.apps, m.versions[a].app_id));
            } else {
                assert(m2.apps[k] == m.apps[k]);
                assert(has_app(m2.apps, m.versions[a].app_id));
            }
        }
    }
    assert(platforms_wf(m2));
    assert(files_wf(m2));
    assert(blobs_wf(m2));
}

} // verus!
