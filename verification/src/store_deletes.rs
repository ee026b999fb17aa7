//! Deletion by primary key, cascading along the declared references:
//! deleting a platform removes its apps and their versions; deleting an app
//! removes its versions; deleting a version removes the app that holds it
//! as current (and then that app's versions); deleting a file removes the
//! apps and versions that reference it (and what cascades from those).
//! Stored blobs are never removed: an orphaned blob is tolerated.

use vstd::prelude::*;

use crate::records::AppRecord;
use crate::records::AppVersionRecord;
use crate::records::FileRecord;
use crate::records::PlatformRecord;
use crate::records::StoreError;
use crate::seq_helpers::lemma_filter_ascending;
use crate::seq_helpers::lemma_filter_elements;
use crate::seq_helpers::lemma_filter_preserves_distinct;
use crate::seq_helpers::lemma_filter_take_step;
use crate::seq_helpers::lemma_take_all;
use crate::store::Store;
use crate::store::StoreModel;
use crate::store::app_by_id;
use crate::store::app_index;
use crate::store::app_refs_ok;
use crate::store::apps_wf;
use crate::store::blobs_wf;
use crate::store::file_index;
use crate::store::files_wf;
use crate::store::has_app;
use crate::store::has_blob;
use crate::store::has_file;
use crate::store::has_platform;
use crate::store::has_version;
use crate::store::lemma_app_found;
use crate::store::lemma_version_found;
use crate::store::platform_index;
use crate::store::platforms_wf;
use crate::store::store_wf;
use crate::store::version_by_id;
use crate::store::version_index;
use crate::store::version_refs_ok;
use crate::store::versions_wf;

verus! {

/// An app survives the deletion of this platform.
pub open spec fn app_keeps_platform(pid: i32, a: AppRecord) -> bool {
    a.platform_id != pid
}

/// A version survives the deletion of this platform: its owning app does.
pub open spec fn version_keeps_platform(m: StoreModel, pid: i32, v: AppVersionRecord) -> bool {
    app_by_id(m.apps, v.app_id).platform_id != pid
}

/// The state after a platform was deleted, with the cascade.
pub open spec fn with_platform_deleted(m: StoreModel, pid: i32) -> StoreModel {
    StoreModel {
        platforms: m.platforms.filter(|p: PlatformRecord| p.id != pid),
        apps: m.apps.filter(|a: AppRecord| app_keeps_platform(pid, a)),
        versions: m.versions.filter(|v: AppVersionRecord| version_keeps_platform(m, pid, v)),
        ..m
    }
}

/// The state after an app was deleted, with the cascade.
pub open spec fn with_app_deleted(m: StoreModel, id: i32) -> StoreModel {
    StoreModel {
        apps: m.apps.filter(|a: AppRecord| a.id != id),
        versions: m.versions.filter(|v: AppVersionRecord| v.app_id != id),
        ..m
    }
}

/// An app survives the deletion of this version: it does not hold it as
/// its current version.
pub open spec fn app_keeps_version(vid: i32, a: AppRecord) -> bool {
    a.current_version_id != Some(vid)
}

/// A version survives the deletion of this version: it is not the one, and
/// its owning app survives.
pub open spec fn version_keeps_version(m: StoreModel, vid: i32, v: AppVersionRecord) -> bool {
    v.id != vid && app_keeps_version(vid, app_by_id(m.apps, v.app_id))
}

/// The state after a version was deleted, with the cascade.
pub open spec fn with_version_deleted(m: StoreModel, vid: i32) -> StoreModel {
    StoreModel {
        apps: m.apps.filter(|a: AppRecord| app_keeps_version(vid, a)),
        versions: m.versions.filter(|v: AppVersionRecord| version_keeps_version(m, vid, v)),
        ..m
    }
}

/// An app survives the deletion of this file: neither its icon nor its
/// current version's APK is that file.
pub open spec fn app_keeps_file(m: StoreModel, fid: i32, a: AppRecord) -> bool {
    &&& a.icon_file_id != Some(fid)
    &&& match a.current_version_id {
        None => true,
        Some(cv) => version_by_id(m.versions, cv).apk_file_id != Some(fid),
    }
}

/// A version survives the deletion of this file: its APK is not that file
/// and its owning app survives.
pub open spec fn version_keeps_file(m: StoreModel, fid: i32, v: AppVersionRecord) -> bool {
    v.apk_file_id != Some(fid) && app_keeps_file(m, fid, app_by_id(m.apps, v.app_id))
}

/// The state after a file was deleted, with the cascade. The stored blob
/// stays behind, orphaned.
pub open spec fn with_file_deleted(m: StoreModel, fid: i32) -> StoreModel {
    StoreModel {
        files: m.files.filter(|f: FileRecord| f.id != fid),
        apps: m.apps.filter(|a: AppRecord| app_keeps_file(m, fid, a)),
        versions: m.versions.filter(|v: AppVersionRecord| version_keeps_file(m, fid, v)),
        ..m
    }
}

impl Store {
    /// Deletes an app and, by cascade, its versions. Fails with `NotFound`
    /// exactly when no row has the id.
    pub fn delete_app(&mut self, id: i32) -> (r: Result<(), StoreError>)
        requires
            old(self).wf(),
        ensures
            final(self).wf(),
            match r {
                Ok(_) => has_app(old(self)@.apps, id) && final(self)@ == with_app_deleted(
                    old(self)@,
                    id,
                ),
                Err(e) => final(self)@ == old(self)@ && !has_app(old(self)@.apps, id) && e
                    == StoreError::NotFound,
            },
    {
        if self.find_app(id).is_none() {
            return Err(StoreError::NotFound);
        }
        let ghost m = self@;
        let mut kept_apps: Vec<AppRecord> = Vec::new();
        let mut i: usize = 0;
        while i < self.apps_len()
            invariant
                self@ == m,
                i <= m.apps.len(),
                kept_apps@ == m.apps.take(i as int).filter(|a: AppRecord| a.id != id),
            decreases m.apps.len() - i,
        {
            proof {
                lemma_filter_take_step(m.apps, |a: AppRecord| a.id != id, i as int);
            }
            if self.app_at(i).id != id {
                kept_apps.push(self.app_at(i).clone());
            }
            i += 1;
        }
        let mut kept_versions: Vec<AppVersionRecord> = Vec::new();
        let mut j: usize = 0;
        while j < self.versions_len()
            invariant
                self@ == m,
                j <= m.versions.len(),
                kept_versions@ == m.versions.take(j as int).filter(
                    |v: AppVersionRecord| v.app_id != id,
                ),
            decreases m.versions.len() - j,
        {
            proof {
                lemma_filter_take_step(m.versions, |v: AppVersionRecord| v.app_id != id, j as int);
            }
            if self.version_at(j).app_id != id {
                kept_versions.push(self.version_at(j).clone());
            }
            j += 1;
        }
        proof {
            lemma_take_all(m.apps);
            lemma_take_all(m.versions);
        }
        self.replace_apps(kept_apps);
        self.replace_versions(kept_versions);
        proof {
            assert(self@ =~= with_app_deleted(m, id));
            lemma_app_delete_wf(m, id);
        }
        Ok(())
    }

    /// Deletes a platform and, by cascade, its apps and their versions.
    /// Fails with `NotFound` exactly when no row has the id.
    pub fn delete_platform(&mut self, pid: i32) -> (r: Result<(), StoreError>)
        requires
            old(self).wf(),
        ensures
            final(self).wf(),
            match r {
                Ok(_) => has_platform(old(self)@.platforms, pid) && final(self)@
                    == with_platform_deleted(old(self)@, pid),
                Err(e) => final(self)@ == old(self)@ && !has_platform(old(self)@.platforms, pid)
                    && e == StoreError::NotFound,
            },
    {
        if self.find_platform(pid).is_none() {
            return Err(StoreError::NotFound);
        }
        let ghost m = self@;
        let mut kept_platforms: Vec<PlatformRecord> = Vec::new();
        let mut i: usize = 0;
        while i < self.platforms_len()
            invariant
                self@ == m,
                i <= m.platforms.len(),
                kept_platforms@ == m.platforms.take(i as int).filter(
                    |p: PlatformRecord| p.id != pid,
                ),
            decreases m.platforms.len() - i,
        {
            proof {
                lemma_filter_take_step(m.platforms, |p: PlatformRecord| p.id != pid, i as int);
            }
            if self.platform_at(i).id != pid {
                kept_platforms.push(self.platform_at(i).clone());
            }
            i += 1;
        }
        let mut kept_apps: Vec<AppRecord> = Vec::new();
        let mut j: usize = 0;
        while j < self.apps_len()
            invariant
                self@ == m,
                j <= m.apps.len(),
                kept_apps@ == m.apps.take(j as int).filter(
                    |a: AppRecord| app_keeps_platform(pid, a),
                ),
            decreases m.apps.len() - j,
        {
            proof {
                lemma_filter_take_step(
                    m.apps,
                    |a: AppRecord| app_keeps_platform(pid, a),
                    j as int,
                );
            }
            if self.app_at(j).platform_id != pid {
                kept_apps.push(self.app_at(j).clone());
            }
            j += 1;
        }
        let mut kept_versions: Vec<AppVersionRecord> = Vec::new();
        let mut k: usize = 0;
        while k < self.versions_len()
            invariant
                self.wf(),
                self@ == m,
                k <= m.versions.len(),
                kept_versions@ == m.versions.take(k as int).filter(
                    |v: AppVersionRecord| version_keeps_platform(m, pid, v),
                ),
            decreases m.versions.len() - k,
        {
            proof {
                lemma_filter_take_step(
                    m.versions,
                    |v: AppVersionRecord| version_keeps_platform(m, pid, v),
                    k as int,
                );
            }
            let app_id = self.version_at(k).app_id;
            let keep = match self.find_app(app_id) {
                Some(ai) => {
                    proof {
                        lemma_app_found(m, ai as int);
                    }
                    self.app_at(ai).platform_id != pid
                },
                None => {
                    proof {
                        assert(false);
                    }
                    true
                },
            };
            if keep {
                kept_versions.push(self.version_at(k).clone());
            }
            k += 1;
        }
        proof {
            lemma_take_all(m.platforms);
            lemma_take_all(m.apps);
            lemma_take_all(m.versions);
        }
        self.replace_platforms(kept_platforms);
        self.replace_apps(kept_apps);
        self.replace_versions(kept_versions);
        proof {
            assert(self@ =~= with_platform_deleted(m, pid));
            lemma_platform_delete_wf(m, pid);
        }
        Ok(())
    }
}

impl Store {
    fn app_keeps_file_ex(&self, j: usize, fid: i32) -> (r: bool)
        requires
            self.wf(),
            j < self@.apps.len(),
        ensures
            r == app_keeps_file(self@, fid, self@.apps[j as int]),
    {
        let icon_ok = match self.app_at(j).icon_file_id {
            Some(g) => g != fid,
            None => true,
        };
        if !icon_ok {
            return false;
        }
        match self.app_at(j).current_version_id {
            None => true,
            Some(cv) => {
                match self.find_version(cv) {
                    Some(vi) => {
                        proof {
                            lemma_version_found(self@, vi as int);
                        }
                        match self.version_at(vi).apk_file_id {
                            Some(g) => g != fid,
                            None => true,
                        }
                    },
                    None => {
                        proof {
                            assert(false);
                        }
                        true
                    },
                }
            },
        }
    }

    /// Deletes a version and, by cascade, the app that holds it as current
    /// (and then that app's versions). Fails with `NotFound` exactly when
    /// no row has the id.
    pub fn delete_app_version(&mut self, vid: i32) -> (r: Result<(), StoreError>)
        requires
            old(self).wf(),
        ensures
            final(self).wf(),
            match r {
                Ok(_) => has_version(old(self)@.versions, vid) && final(self)@
                    == with_version_deleted(old(self)@, vid),
                Err(e) => final(self)@ == old(self)@ && !has_version(old(self)@.versions, vid) && e
                    == StoreError::NotFound,
            },
    {
        if self.find_version(vid).is_none() {
            return Err(StoreError::NotFound);
        }
        let ghost m = self@;
        let mut kept_apps: Vec<AppRecord> = Vec::new();
        let mut i: usize = 0;
        while i < self.apps_len()
            invariant
                self@ == m,
                i <= m.apps.len(),
                kept_apps@ == m.apps.take(i as int).filter(
                    |a: AppRecord| app_keeps_version(vid, a),
                ),
            decreases m.apps.len() - i,
        {
            proof {
                lemma_filter_take_step(m.apps, |a: AppRecord| app_keeps_version(vid, a), i as int);
            }
            let keep = match self.app_at(i).current_version_id {
                Some(cv) => cv != vid,
                None => true,
            };
            if keep {
                kept_apps.push(self.app_at(i).clone());
            }
            i += 1;
        }
        let mut kept_versions: Vec<AppVersionRecord> = Vec::new();
        let mut k: usize = 0;
        while k < self.versions_len()
            invariant
                self.wf(),
                self@ == m,
                k <= m.versions.len(),
                kept_versions@ == m.versions.take(k as int).filter(
                    |v: AppVersionRecord| version_keeps_version(m, vid, v),
                ),
            decreases m.versions.len() - k,
        {
            proof {
                lemma_filter_take_step(
                    m.versions,
                    |v: AppVersionRecord| version_keeps_version(m, vid, v),
                    k as int,
                );
            }
            let keep = self.version_at(k).id != vid && {
                let app_id = self.version_at(k).app_id;
                match self.find_app(app_id) {
                    Some(ai) => {
                        proof {
                            lemma_app_found(m, ai as int);
                        }
                        match self.app_at(ai).current_version_id {
                            Some(cv) => cv != vid,
                            None => true,
                        }
                    },
                    None => {
                        proof {
                            assert(false);
                        }
                        true
                    },
                }
            };
            if keep {
                kept_versions.push(self.version_at(k).clone());
            }
            k += 1;
        }
        proof {
            lemma_take_all(m.apps);
            lemma_take_all(m.versions);
        }
        self.replace_apps(kept_apps);
        self.replace_versions(kept_versions);
        proof {
            assert(self@ =~= with_version_deleted(m, vid));
            lemma_version_delete_wf(m, vid);
        }
        Ok(())
    }

    /// Deletes a file and, by cascade, the apps and versions that reference
    /// it. The stored blob stays behind, orphaned. Fails with `NotFound`
    /// exactly when no row has the id.
    pub fn delete_file(&mut self, fid: i32) -> (r: Result<(), StoreError>)
        requires
            old(self).wf(),
        ensures
            final(self).wf(),
            match r {
                Ok(_) => has_file(old(self)@.files, fid) && final(self)@ == with_file_deleted(
                    old(self)@,
                    fid,
                ),
                Err(e) => final(self)@ == old(self)@ && !has_file(old(self)@.files, fid) && e
                    == StoreError::NotFound,
            },
    {
        if self.find_file(fid).is_none() {
            return Err(StoreError::NotFound);
        }
        let ghost m = self@;
        let mut kept_files: Vec<FileRecord> = Vec::new();
        let mut i: usize = 0;
        while i < self.files_len()
            invariant
                self@ == m,
                i <= m.files.len(),
                kept_files@ == m.files.take(i as int).filter(|f: FileRecord| f.id != fid),
            decreases m.files.len() - i,
        {
            proof {
                lemma_filter_take_step(m.files, |f: FileRecord| f.id != fid, i as int);
            }
            if self.file_at(i).id != fid {
                kept_files.push(self.file_at(i).clone());
            }
            i += 1;
        }
        let mut kept_apps: Vec<AppRecord> = Vec::new();
        let mut j: usize = 0;
        while j < self.apps_len()
            invariant
                self.wf(),
                self@ == m,
                j <= m.apps.len(),
                kept_apps@ == m.apps.take(j as int).filter(
                    |a: AppRecord| app_keeps_file(m, fid, a),
                ),
            decreases m.apps.len() - j,
        {
            proof {
                lemma_filter_take_step(m.apps, |a: AppRecord| app_keeps_file(m, fid, a), j as int);
            }
            if self.app_keeps_file_ex(j, fid) {
                kept_apps.push(self.app_at(j).clone());
            }
            j += 1;
        }
        let mut kept_versions: Vec<AppVersionRecord> = Vec::new();
        let mut k: usize = 0;
        while k < self.versions_len()
            invariant
                self.wf(),
                self@ == m,
                k <= m.versions.len(),
                kept_versions@ == m.versions.take(k as int).filter(
                    |v: AppVersionRecord| version_keeps_file(m, fid, v),
                ),
            decreases m.versions.len() - k,
        {
            proof {
                lemma_filter_take_step(
                    m.versions,
                    |v: AppVersionRecord| version_keeps_file(m, fid, v),
                    k as int,
                );
            }
            let apk_ok = match self.version_at(k).apk_file_id {
                Some(g) => g != fid,
                None => true,
            };
            let keep = apk_ok && {
                let app_id = self.version_at(k).app_id;
                match self.find_app(app_id) {
                    Some(ai) => {
                        proof {
                            lemma_app_found(m, ai as int);
                        }
                        self.app_keeps_file_ex(ai, fid)
                    },
                    None => {
                        proof {
                            assert(false);
                        }
                        true
                    },
                }
            };
            if keep {
                kept_versions.push(self.version_at(k).clone());
            }
            k += 1;
        }
        proof {
            lemma_take_all(m.files);
            lemma_take_all(m.apps);
            lemma_take_all(m.versions);
        }
        self.replace_files(kept_files);
        self.replace_apps(kept_apps);
        self.replace_versions(kept_versions);
        proof {
            assert(self@ =~= with_file_deleted(m, fid));
            lemma_file_delete_wf(m, fid);
        }
        Ok(())
    }
}

/// Deleting a version together with the app that held it as current keeps
/// the store well-formed.
proof fn lemma_version_delete_wf(m: StoreModel, vid: i32)
    requires
        store_wf(m),
    ensures
        store_wf(with_version_deleted(m, vid)),
{
    let m2 = with_version_deleted(m, vid);
    let ak = |a: AppRecord| app_keeps_version(vid, a);
    let vk = |v: AppVersionRecord| version_keeps_version(m, vid, v);
    lemma_filter_ascending(m.apps, ak, |a: AppRecord| a.id as int);
    lemma_filter_elements(m.apps, ak);
    assert forall|i: int, j: int|
        0 <= i < m.apps.len() && 0 <= j < m.apps.len() && i != j implies m.apps[i].bundle_id@
        != m.apps[j].bundle_id@ by {
        if i < j {
            assert(m.apps[i].bundle_id@ != m.apps[j].bundle_id@);
        } else {
            assert(m.apps[j].bundle_id@ != m.apps[i].bundle_id@);
        }
    }
    lemma_filter_preserves_distinct(
        m.apps,
        ak,
        |a: AppRecord| a.id as int,
        |a: AppRecord, b: AppRecord| a.bundle_id@ != b.bundle_id@,
    );
    lemma_filter_ascending(m.versions, vk, |v: AppVersionRecord| v.id as int);
    lemma_filter_elements(m.versions, vk);
    assert forall|i: int, j: int|
        0 <= i < m.versions.len() && 0 <= j < m.versions.len() && i != j implies !(m.versions[i].app_id
        == m.versions[j].app_id && m.versions[i].version_name@ == m.versions[j].version_name@
        && m.versions[i].version_code@ == m.versions[j].version_code@) by {
        if i < j {
            assert(m.versions[i].id < m.versions[j].id);
        } else {
            assert(m.versions[j].id < m.versions[i].id);
        }
    }
    lemma_filter_preserves_distinct(
        m.versions,
        vk,
        |v: AppVersionRecord| v.id as int,
        |u: AppVersionRecord, w: AppVersionRecord|
            !(u.app_id == w.app_id && u.version_name@ == w.version_name@ && u.version_code@
                == w.version_code@),
    );
    assert(apps_wf(m2)) by {
        assert forall|i: int| 0 <= i < m2.apps.len() implies 1 <= (#[trigger] m2.apps[i]).id
            < m2.next_app_id && app_refs_ok(m2.platforms, m2.files, m2.versions, m2.apps[i]) by {
            let a = m2.apps[i];
            assert(m.apps.contains(a) && ak(a));
            let ka = choose|k: int| 0 <= k < m.apps.len() && m.apps[k] == a;
            assert(app_refs_ok(m.platforms, m.files, m.versions, a));
            match a.current_version_id {
                None => {
                },
                Some(cv) => {
                    let v = version_by_id(m.versions, cv);
                    let kv = version_index(m.versions, cv);
                    lemma_app_found(m, ka);
                    assert(app_by_id(m.apps, v.app_id) == a);
                    assert(cv != vid);
                    assert(vk(v));
                    m.versions.lemma_filter_contains(vk, kv);
                    lemma_id_lookup_after_filter_version(m, m2.versions, cv);
                },
            }
        }
    }
    assert(versions_wf(m2)) by {
        assert forall|i: int| 0 <= i < m2.versions.len() implies 1 <= (
        #[trigger] m2.versions[i]).id < m2.next_version_id && version_refs_ok(
            m2.apps,
            m2.files,
            m2.versions[i],
        ) by {
            let v = m2.versions[i];
            assert(m.versions.contains(v) && vk(v));
            assert(version_refs_ok(m.apps, m.files, v));
            let ka = app_index(m.apps, v.app_id);
            assert(m.apps[ka].id == v.app_id);
            lemma_app_found(m, ka);
            assert(app_by_id(m.apps, v.app_id) == m.apps[ka]);
            assert(ak(m.apps[ka]));
            m.apps.lemma_filter_contains(ak, ka);
            assert(m2.apps.contains(m.apps[ka]));
            let j = choose|j: int| 0 <= j < m2.apps.len() && m2.apps[j] == m.apps[ka];
            assert(has_app(m2.apps, v.app_id));
        }
    }
    assert(platforms_wf(m2));
    assert(files_wf(m2));
    assert(blobs_wf(m2));
}

/// Deleting a file together with the apps and versions that reference it
/// keeps the store well-formed.
proof fn lemma_file_delete_wf(m: StoreModel, fid: i32)
    requires
        store_wf(m),
    ensures
        store_wf(with_file_deleted(m, fid)),
{
    let m2 = with_file_deleted(m, fid);
    let fk = |f: FileRecord| f.id != fid;
    let ak = |a: AppRecord| app_keeps_file(m, fid, a);
    let vk = |v: AppVersionRecord| version_keeps_file(m, fid, v);
    lemma_filter_ascending(m.files, fk, |f: FileRecord| f.id as int);
    lemma_filter_elements(m.files, fk);
    assert forall|i: int, j: int|
        0 <= i < m.files.len() && 0 <= j < m.files.len() && i != j implies m.files[i].path@
        != m.files[j].path@ by {
        if i < j {
            assert(m.files[i].path@ != m.files[j].path@);
        } else {
            assert(m.files[j].path@ != m.files[i].path@);
        }
    }
    lemma_filter_preserves_distinct(
        m.files,
        fk,
        |f: FileRecord| f.id as int,
        |f: FileRecord, g: FileRecord| f.path@ != g.path@,
    );
    lemma_filter_ascending(m.apps, ak, |a: AppRecord| a.id as int);
    lemma_filter_elements(m.apps, ak);
    assert forall|i: int, j: int|
        0 <= i < m.apps.len() && 0 <= j < m.apps.len() && i != j implies m.apps[i].bundle_id@
        != m.apps[j].bundle_id@ by {
        if i < j {
            assert(m.apps[i].bundle_id@ != m.apps[j].bundle_id@);
        } else {
            assert(m.apps[j].bundle_id@ != m.apps[i].bundle_id@);
        }
    }
    lemma_filter_preserves_distinct(
        m.apps,
        ak,
        |a: AppRecord| a.id as int,
        |a: AppRecord, b: AppRecord| a.bundle_id@ != b.bundle_id@,
    );
    lemma_filter_ascending(m.versions, vk, |v: AppVersionRecord| v.id as int);
    lemma_filter_elements(m.versions, vk);
    assert forall|i: int, j: int|
        0 <= i < m.versions.len() && 0 <= j < m.versions.len() && i != j implies !(m.versions[i].app_id
        == m.versions[j].app_id && m.versions[i].version_name@ == m.versions[j].version_name@
        && m.versions[i].version_code@ == m.versions[j].version_code@) by {
        if i < j {
            assert(m.versions[i].id < m.versions[j].id);
        } else {
            assert(m.versions[j].id < m.versions[i].id);
        }
    }
    lemma_filter_preserves_distinct(
        m.versions,
        vk,
        |v: AppVersionRecord| v.id as int,
        |u: AppVersionRecord, w: AppVersionRecord|
            !(u.app_id == w.app_id && u.version_name@ == w.version_name@ && u.version_code@
                == w.version_code@),
    );
    assert(files_wf(m2)) by {
        assert forall|i: int| 0 <= i < m2.files.len() implies 1 <= (#[trigger] m2.files[i]).id
            < m2.next_file_id && has_blob(m2.blobs, m2.files[i].path@) by {
            let f = m2.files[i];
            assert(m.files.contains(f));
            let kf = choose|k: int| 0 <= k < m.files.len() && m.files[k] == f;
            assert(has_blob(m.blobs, m.files[kf].path@));
        }
    }
    assert(apps_wf(m2)) by {
        assert forall|i: int| 0 <= i < m2.apps.len() implies 1 <= (#[trigger] m2.apps[i]).id
            < m2.next_app_id && app_refs_ok(m2.platforms, m2.files, m2.versions, m2.apps[i]) by {
            let a = m2.apps[i];
            assert(m.apps.contains(a) && ak(a));
            let ka = choose|k: int| 0 <= k < m.apps.len() && m.apps[k] == a;
            assert(app_refs_ok(m.platforms, m.files, m.versions, a));
            match a.icon_file_id {
                None => {
                },
                Some(g) => {
                    let kg = file_index(m.files, g);
                    assert(m.files[kg].id == g && g != fid);
                    m.files.lemma_filter_contains(fk, kg);
                    assert(m2.files.contains(m.files[kg]));
                    let jg = choose|j: int| 0 <= j < m2.files.len() && m2.files[j] == m.files[kg];
                    assert(has_file(m2.files, g));
                },
            }
            match a.current_version_id {
                None => {
                },
                Some(cv) => {
                    let v = version_by_id(m.versions, cv);
                    let kv = version_index(m.versions, cv);
                    lemma_app_found(m, ka);
                    assert(app_by_id(m.apps, v.app_id) == a);
                    assert(vk(v));
                    m.versions.lemma_filter_contains(vk, kv);
                    lemma_id_lookup_after_filter_version(m, m2.versions, cv);
                },
            }
        }
    }
    assert(versions_wf(m2)) by {
        assert forall|i: int| 0 <= i < m2.versions.len() implies 1 <= (
        #[trigger] m2.versions[i]).id < m2.next_version_id && version_refs_ok(
            m2.apps,
            m2.files,
            m2.versions[i],
        ) by {
            let v = m2.versions[i];
            assert(m.versions.contains(v) && vk(v));
            assert(version_refs_ok(m.apps, m.files, v));
            let ka = app_index(m.apps, v.app_id);
            assert(m.apps[ka].id == v.app_id);
            lemma_app_found(m, ka);
            assert(app_by_id(m.apps, v.app_id) == m.apps[ka]);
            assert(ak(m.apps[ka]));
            m.apps.lemma_filter_contains(ak, ka);
            assert(m2.apps.contains(m.apps[ka]));
            let j = choose|j: int| 0 <= j < m2.apps.len() && m2.apps[j] == m.apps[ka];
            assert(has_app(m2.apps, v.app_id));
            match v.apk_file_id {
                None => {
                },
                Some(g) => {
                    let kg = file_index(m.files, g);
                    assert(m.files[kg].id == g && g != fid);
                    m.files.lemma_filter_contains(fk, kg);
                    assert(m2.files.contains(m.files[kg]));
                    let jg = choose|jj: int|
                        0 <= jj < m2.files.len() && m2.files[jj] == m.files[kg];
                    assert(has_file(m2.files, g));
                },
            }
        }
    }
    assert(platforms_wf(m2));
    assert(blobs_wf(m2));
}

/// Deleting an app together with its versions keeps the store well-formed.
proof fn lemma_app_delete_wf(m: StoreModel, id: i32)
    requires
        store_wf(m),
    ensures
        store_wf(with_app_deleted(m, id)),
{
    let m2 = with_app_deleted(m, id);
    let ak = |a: AppRecord| a.id != id;
    let vk = |v: AppVersionRecord| v.app_id != id;
    lemma_filter_ascending(m.apps, ak, |a: AppRecord| a.id as int);
    lemma_filter_elements(m.apps, ak);
    lemma_filter_ascending(m.versions, vk, |v: AppVersionRecord| v.id as int);
    lemma_filter_elements(m.versions, vk);
    assert forall|i: int, j: int|
        0 <= i < m.apps.len() && 0 <= j < m.apps.len() && i != j implies m.apps[i].bundle_id@
        != m.apps[j].bundle_id@ by {
        if i < j {
            assert(m.apps[i].bundle_id@ != m.apps[j].bundle_id@);
        } else {
            assert(m.apps[j].bundle_id@ != m.apps[i].bundle_id@);
        }
    }
    lemma_filter_preserves_distinct(
        m.apps,
        ak,
        |a: AppRecord| a.id as int,
        |a: AppRecord, b: AppRecord| a.bundle_id@ != b.bundle_id@,
    );
    assert forall|i: int, j: int|
        0 <= i < m.versions.len() && 0 <= j < m.versions.len() && i != j implies !(m.versions[i].app_id
        == m.versions[j].app_id && m.versions[i].version_name@ == m.versions[j].version_name@
        && m.versions[i].version_code@ == m.versions[j].version_code@) by {
        if i < j {
            assert(m.versions[i].id < m.versions[j].id);
        } else {
            assert(m.versions[j].id < m.versions[i].id);
        }
    }
    lemma_filter_preserves_distinct(
        m.versions,
        vk,
        |v: AppVersionRecord| v.id as int,
        |u: AppVersionRecord, w: AppVersionRecord|
            !(u.app_id == w.app_id && u.version_name@ == w.version_name@ && u.version_code@
                == w.version_code@),
    );
    assert(apps_wf(m2)) by {
        assert forall|i: int| 0 <= i < m2.apps.len() implies 1 <= (#[trigger] m2.apps[i]).id
            < m2.next_app_id && app_refs_ok(m2.platforms, m2.files, m2.versions, m2.apps[i]) by {
            let a = m2.apps[i];
            assert(m.apps.contains(a) && ak(a));
            let ka = choose|k: int| 0 <= k < m.apps.len() && m.apps[k] == a;
            assert(app_refs_ok(m.platforms, m.files, m.versions, a));
            match a.current_version_id {
                None => {
                },
                Some(cv) => {
                    let v = version_by_id(m.versions, cv);
                    let kv = version_index(m.versions, cv);
                    assert(v.app_id == a.id && a.id != id);
                    m.versions.lemma_filter_contains(vk, kv);
                    assert(m2.versions.contains(v));
                    lemma_id_lookup_after_filter_version(m, m2.versions, cv);
                    assert(version_by_id(m2.versions, cv) == v);
                },
            }
        }
    }
    assert(versions_wf(m2)) by {
        assert forall|i: int| 0 <= i < m2.versions.len() implies 1 <= (
        #[trigger] m2.versions[i]).id < m2.next_version_id && version_refs_ok(
            m2.apps,
            m2.files,
            m2.versions[i],
        ) by {
            let v = m2.versions[i];
            assert(m.versions.contains(v) && vk(v));
            assert(version_refs_ok(m.apps, m.files, v));
            let ka = app_index(m.apps, v.app_id);
            assert(m.apps[ka].id == v.app_id && v.app_id != id);
            m.apps.lemma_filter_contains(ak, ka);
            assert(m2.apps.contains(m.apps[ka]));
            let j = choose|j: int| 0 <= j < m2.apps.len() && m2.apps[j] == m.apps[ka];
            assert(has_app(m2.apps, v.app_id));
        }
    }
    assert(platforms_wf(m2));
    assert(files_wf(m2));
    assert(blobs_wf(m2));
}

/// In a strictly ascending filtered version table, looking an id up finds
/// the same row as in the original table.
proof fn lemma_id_lookup_after_filter_version(m: StoreModel, vs2: Seq<AppVersionRecord>, id: i32)
    requires
        versions_wf(m),
        has_version(m.versions, id),
        forall|k: int| 0 <= k < vs2.len() ==> m.versions.contains(#[trigger] vs2[k]),
        exists|k: int| 0 <= k < vs2.len() && (#[trigger] vs2[k]).id == id,
    ensures
        has_version(vs2, id),
        version_by_id(vs2, id) == version_by_id(m.versions, id),
{
    let j = version_index(vs2, id);
    assert(0 <= j < vs2.len() && vs2[j].id == id);
    let w = vs2[j];
    assert(m.versions.contains(w));
    let kw = choose|k: int| 0 <= k < m.versions.len() && m.versions[k] == w;
    lemma_version_found(m, kw);
}

/// As the version lookup lemma, for apps.
proof fn lemma_id_lookup_after_filter_app(m: StoreModel, apps2: Seq<AppRecord>, id: i32)
    requires
        apps_wf(m),
        has_app(m.apps, id),
        forall|k: int| 0 <= k < apps2.len() ==> m.apps.contains(#[trigger] apps2[k]),
        exists|k: int| 0 <= k < apps2.len() && (#[trigger] apps2[k]).id == id,
    ensures
        has_app(apps2, id),
        app_by_id(apps2, id) == app_by_id(m.apps, id),
{
    let j = app_index(apps2, id);
    assert(0 <= j < apps2.len() && apps2[j].id == id);
    let w = apps2[j];
    assert(m.apps.contains(w));
    let kw = choose|k: int| 0 <= k < m.apps.len() && m.apps[k] == w;
    lemma_app_found(m, kw);
}

/// Deleting a platform together with its apps and their versions keeps the
/// store well-formed.
proof fn lemma_platform_delete_wf(m: StoreModel, pid: i32)
    requires
        store_wf(m),
    ensures
        store_wf(with_platform_deleted(m, pid)),
{
    let m2 = with_platform_deleted(m, pid);
    let pk = |p: PlatformRecord| p.id != pid;
    let ak = |a: AppRecord| app_keeps_platform(pid, a);
    let vk = |v: AppVersionRecord| version_keeps_platform(m, pid, v);
    lemma_filter_ascending(m.platforms, pk, |p: PlatformRecord| p.id as int);
    lemma_filter_elements(m.platforms, pk);
    assert forall|i: int, j: int|
        0 <= i < m.platforms.len() && 0 <= j < m.platforms.len() && i != j implies m.platforms[i].code
        != m.platforms[j].code by {
        if i < j {
            assert(m.platforms[i].code != m.platforms[j].code);
        } else {
            assert(m.platforms[j].code != m.platforms[i].code);
        }
    }
    lemma_filter_preserves_distinct(
        m.platforms,
        pk,
        |p: PlatformRecord| p.id as int,
        |p: PlatformRecord, q: PlatformRecord| p.code != q.code,
    );
    lemma_filter_ascending(m.apps, ak, |a: AppRecord| a.id as int);
    lemma_filter_elements(m.apps, ak);
    assert forall|i: int, j: int|
        0 <= i < m.apps.len() && 0 <= j < m.apps.len() && i != j implies m.apps[i].bundle_id@
        != m.apps[j].bundle_id@ by {
        if i < j {
            assert(m.apps[i].bundle_id@ != m.apps[j].bundle_id@);
        } else {
            assert(m.apps[j].bundle_id@ != m.apps[i].bundle_id@);
        }
    }
    lemma_filter_preserves_distinct(
        m.apps,
        ak,
        |a: AppRecord| a.id as int,
        |a: AppRecord, b: AppRecord| a.bundle_id@ != b.bundle_id@,
    );
    lemma_filter_ascending(m.versions, vk, |v: AppVersionRecord| v.id as int);
    lemma_filter_elements(m.versions, vk);
    assert forall|i: int, j: int|
        0 <= i < m.versions.len() && 0 <= j < m.versions.len() && i != j implies !(m.versions[i].app_id
        == m.versions[j].app_id && m.versions[i].version_name@ == m.versions[j].version_name@
        && m.versions[i].version_code@ == m.versions[j].version_code@) by {
        if i < j {
            assert(m.versions[i].id < m.versions[j].id);
        } else {
            assert(m.versions[j].id < m.versions[i].id);
        }
    }
    lemma_filter_preserves_distinct(
        m.versions,
        vk,
        |v: AppVersionRecord| v.id as int,
        |u: AppVersionRecord, w: AppVersionRecord|
            !(u.app_id == w.app_id && u.version_name@ == w.version_name@ && u.version_code@
                == w.version_code@),
    );
    assert(apps_wf(m2)) by {
        assert forall|i: int| 0 <= i < m2.apps.len() implies 1 <= (#[trigger] m2.apps[i]).id
            < m2.next_app_id && app_refs_ok(m2.platforms, m2.files, m2.versions, m2.apps[i]) by {
            let a = m2.apps[i];
            assert(m.apps.contains(a) && ak(a));
            let ka = choose|k: int| 0 <= k < m.apps.len() && m.apps[k] == a;
            assert(app_refs_ok(m.platforms, m.files, m.versions, a));
            let kp = platform_index(m.platforms, a.platform_id);
            assert(m.platforms[kp].id == a.platform_id && a.platform_id != pid);
            m.platforms.lemma_filter_contains(pk, kp);
            assert(m2.platforms.contains(m.platforms[kp]));
            let jp = choose|j: int|
                0 <= j < m2.platforms.len() && m2.platforms[j] == m.platforms[kp];
            assert(has_platform(m2.platforms, a.platform_id));
            match a.current_version_id {
                None => {
                },
                Some(cv) => {
                    let v = version_by_id(m.versions, cv);
                    let kv = version_index(m.versions, cv);
                    lemma_app_found(m, ka);
                    assert(app_by_id(m.apps, v.app_id) == a);
                    assert(vk(v));
                    m.versions.lemma_filter_contains(vk, kv);
                    lemma_id_lookup_after_filter_version(m, m2.versions, cv);
                },
            }
        }
    }
    assert(versions_wf(m2)) by {
        assert forall|i: int| 0 <= i < m2.versions.len() implies 1 <= (
        #[trigger] m2.versions[i]).id < m2.next_version_id && version_refs_ok(
            m2.apps,
            m2.files,
            m2.versions[i],
        ) by {
            let v = m2.versions[i];
            assert(m.versions.contains(v) && vk(v));
            assert(version_refs_ok(m.apps, m.files, v));
            let ka = app_index(m.apps, v.app_id);
            assert(m.apps[ka].id == v.app_id);
            lemma_app_found(m, ka);
            assert(app_by_id(m.apps, v.app_id) == m.apps[ka]);
            assert(ak(m.apps[ka]));
            m.apps.lemma_filter_contains(ak, ka);
            assert(m2.apps.contains(m.apps[ka]));
            let j = choose|j: int| 0 <= j < m2.apps.len() && m2.apps[j] == m.apps[ka];
            assert(has_app(m2.apps, v.app_id));
        }
    }
    assert(platforms_wf(m2)) by {
        assert forall|i: int| 0 <= i < m2.platforms.len() implies 1 <= (
        #[trigger] m2.platforms[i]).id < m2.next_platform_id by {
            assert(m.platforms.contains(m2.platforms[i]));
            let k = choose|k: int| 0 <= k < m.platforms.len() && m.platforms[k] == m2.platforms[i];
        }
    }
    assert(files_wf(m2));
    assert(blobs_wf(m2));
}

} // verus!
