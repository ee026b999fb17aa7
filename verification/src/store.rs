//! The catalog store: four tables (platforms, files, apps, app versions),
//! the stored blobs, and the id counters, with the well-formedness rules the
//! operations preserve: ids strictly ascending and below the counters,
//! platform codes / bundle ids / version triples / storage paths unique,
//! every reference resolving, and an app's current version belonging to
//! that same app.

use vstd::prelude::*;

use crate::records::AppRecord;
use crate::records::AppVersionRecord;
use crate::records::BlobEntry;
use crate::records::CreatePlatform;
use crate::records::FileRecord;
use crate::records::PlatformRecord;
use crate::records::StoreError;
use crate::records::clone_opt_string;

verus! {

/// The mathematical state of a [`Store`]: the rows of each table in id
/// order, the stored blobs, and the next id of each table.
#[verifier::ext_equal]
pub ghost struct StoreModel {
    pub platforms: Seq<PlatformRecord>,
    pub files: Seq<FileRecord>,
    pub apps: Seq<AppRecord>,
    pub versions: Seq<AppVersionRecord>,
    pub blobs: Seq<BlobEntry>,
    pub next_platform_id: i32,
    pub next_file_id: i32,
    pub next_app_id: i32,
    pub next_version_id: i32,
}

/// The catalog store. Rows are kept in ascending id order; ids are assigned
/// from per-table counters and never reused.
pub struct Store {
    platforms: Vec<PlatformRecord>,
    files: Vec<FileRecord>,
    apps: Vec<AppRecord>,
    versions: Vec<AppVersionRecord>,
    blobs: Vec<BlobEntry>,
    next_platform_id: i32,
    next_file_id: i32,
    next_app_id: i32,
    next_version_id: i32,
}

impl View for Store {
    type V = StoreModel;

    closed spec fn view(&self) -> StoreModel {
        StoreModel {
            platforms: self.platforms@,
            files: self.files@,
            apps: self.apps@,
            versions: self.versions@,
            blobs: self.blobs@,
            next_platform_id: self.next_platform_id,
            next_file_id: self.next_file_id,
            next_app_id: self.next_app_id,
            next_version_id: self.next_version_id,
        }
    }
}

// Lookups over the table contents.
/// Some platform row has this id.
pub open spec fn has_platform(ps: Seq<PlatformRecord>, id: i32) -> bool {
    exists|i: int| 0 <= i < ps.len() && (#[trigger] ps[i]).id == id
}

/// The position of the platform row with this id.
pub open spec fn platform_index(ps: Seq<PlatformRecord>, id: i32) -> int {
    choose|i: int| 0 <= i < ps.len() && (#[trigger] ps[i]).id == id
}

/// The platform row with this id.
pub open spec fn platform_by_id(ps: Seq<PlatformRecord>, id: i32) -> PlatformRecord {
    ps[platform_index(ps, id)]
}

/// Some platform row other than `except` carries this code.
pub open spec fn platform_code_taken(ps: Seq<PlatformRecord>, code: u16, except: Option<i32>) -> bool {
    exists|i: int|
        0 <= i < ps.len() && (#[trigger] ps[i]).code == code && match except {
            None => true,
            Some(e) => ps[i].id != e,
        }
}

/// Some file row has this id.
pub open spec fn has_file(fs: Seq<FileRecord>, id: i32) -> bool {
    exists|i: int| 0 <= i < fs.len() && (#[trigger] fs[i]).id == id
}

/// The position of the file row with this id.
pub open spec fn file_index(fs: Seq<FileRecord>, id: i32) -> int {
    choose|i: int| 0 <= i < fs.len() && (#[trigger] fs[i]).id == id
}

/// The file row with this id.
pub open spec fn file_by_id(fs: Seq<FileRecord>, id: i32) -> FileRecord {
    fs[file_index(fs, id)]
}

/// Some file row stores its bytes under this key.
pub open spec fn has_file_path(fs: Seq<FileRecord>, key: Seq<char>) -> bool {
    exists|i: int| 0 <= i < fs.len() && (#[trigger] fs[i]).path@ == key
}

/// The position of the file row with this storage key.
pub open spec fn file_path_index(fs: Seq<FileRecord>, key: Seq<char>) -> int {
    choose|i: int| 0 <= i < fs.len() && (#[trigger] fs[i]).path@ == key
}

/// Some app row has this id.
pub open spec fn has_app(apps: Seq<AppRecord>, id: i32) -> bool {
    exists|i: int| 0 <= i < apps.len() && (#[trigger] apps[i]).id == id
}

/// The position of the app row with this id.
pub open spec fn app_index(apps: Seq<AppRecord>, id: i32) -> int {
    choose|i: int| 0 <= i < apps.len() && (#[trigger] apps[i]).id == id
}

/// The app row with this id.
pub open spec fn app_by_id(apps: Seq<AppRecord>, id: i32) -> AppRecord {
    apps[app_index(apps, id)]
}

/// Some app row other than `except` carries this bundle identifier.
pub open spec fn bundle_taken(apps: Seq<AppRecord>, bundle: Seq<char>, except: Option<i32>) -> bool {
    exists|i: int|
        0 <= i < apps.len() && (#[trigger] apps[i]).bundle_id@ == bundle && match except {
            None => true,
            Some(e) => apps[i].id != e,
        }
}

/// Some version row has this id.
pub open spec fn has_version(vs: Seq<AppVersionRecord>, id: i32) -> bool {
    exists|i: int| 0 <= i < vs.len() && (#[trigger] vs[i]).id == id
}

/// The position of the version row with this id.
pub open spec fn version_index(vs: Seq<AppVersionRecord>, id: i32) -> int {
    choose|i: int| 0 <= i < vs.len() && (#[trigger] vs[i]).id == id
}

/// The version row with this id.
pub open spec fn version_by_id(vs: Seq<AppVersionRecord>, id: i32) -> AppVersionRecord {
    vs[version_index(vs, id)]
}

/// Some version row other than `except` carries this
/// (app, version name, version code) triple.
pub open spec fn triple_taken(
    vs: Seq<AppVersionRecord>,
    app_id: i32,
    version_name: Seq<char>,
    version_code: Seq<char>,
    except: Option<i32>,
) -> bool {
    exists|i: int|
        0 <= i < vs.len() && (#[trigger] vs[i]).app_id == app_id && vs[i].version_name@
            == version_name && vs[i].version_code@ == version_code && match except {
            None => true,
            Some(e) => vs[i].id != e,
        }
}

/// Some blob is stored under this key.
pub open spec fn has_blob(bs: Seq<BlobEntry>, key: Seq<char>) -> bool {
    exists|i: int| 0 <= i < bs.len() && (#[trigger] bs[i]).key@ == key
}

/// The position of the blob stored under this key.
pub open spec fn blob_index(bs: Seq<BlobEntry>, key: Seq<char>) -> int {
    choose|i: int| 0 <= i < bs.len() && (#[trigger] bs[i]).key@ == key
}

// Well-formedness.
/// Every reference of an app row resolves, and its current version, if any,
/// belongs to this very app.
pub open spec fn app_refs_ok(
    ps: Seq<PlatformRecord>,
    fs: Seq<FileRecord>,
    vs: Seq<AppVersionRecord>,
    a: AppRecord,
) -> bool {
    &&& has_platform(ps, a.platform_id)
    &&& match a.icon_file_id {
        None => true,
        Some(f) => has_file(fs, f),
    }
    &&& match a.current_version_id {
        None => true,
        Some(cv) => has_version(vs, cv) && version_by_id(vs, cv).app_id == a.id,
    }
}

/// Every reference of a version row resolves.
pub open spec fn version_refs_ok(
    apps: Seq<AppRecord>,
    fs: Seq<FileRecord>,
    v: AppVersionRecord,
) -> bool {
    &&& has_app(apps, v.app_id)
    &&& match v.apk_file_id {
        None => true,
        Some(f) => has_file(fs, f),
    }
}

pub open spec fn platforms_wf(m: StoreModel) -> bool {
    &&& 1 <= m.next_platform_id
    &&& forall|i: int, j: int|
        #![trigger m.platforms[i], m.platforms[j]]
        0 <= i < j < m.platforms.len() ==> m.platforms[i].id < m.platforms[j].id
            && m.platforms[i].code != m.platforms[j].code
    &&& forall|i: int|
        0 <= i < m.platforms.len() ==> 1 <= (#[trigger] m.platforms[i]).id < m.next_platform_id
}

pub open spec fn files_wf(m: StoreModel) -> bool {
    &&& 1 <= m.next_file_id
    &&& forall|i: int, j: int|
        #![trigger m.files[i], m.files[j]]
        0 <= i < j < m.files.len() ==> m.files[i].id < m.files[j].id && m.files[i].path@
            != m.files[j].path@
    &&& forall|i: int|
        0 <= i < m.files.len() ==> 1 <= (#[trigger] m.files[i]).id < m.next_file_id && has_blob(
            m.blobs,
            m.files[i].path@,
        )
}

pub open spec fn apps_wf(m: StoreModel) -> bool {
    &&& 1 <= m.next_app_id
    &&& forall|i: int, j: int|
        #![trigger m.apps[i], m.apps[j]]
        0 <= i < j < m.apps.len() ==> m.apps[i].id < m.apps[j].id && m.apps[i].bundle_id@
            != m.apps[j].bundle_id@
    &&& forall|i: int|
        0 <= i < m.apps.len() ==> 1 <= (#[trigger] m.apps[i]).id < m.next_app_id && app_refs_ok(
            m.platforms,
            m.files,
            m.versions,
            m.apps[i],
        )
}

pub open spec fn versions_wf(m: StoreModel) -> bool {
    &&& 1 <= m.next_version_id
    &&& forall|i: int, j: int|
        #![trigger m.versions[i], m.versions[j]]
        0 <= i < j < m.versions.len() ==> m.versions[i].id < m.versions[j].id && !(m.versions[i].app_id
            == m.versions[j].app_id && m.versions[i].version_name@ == m.versions[j].version_name@
            && m.versions[i].version_code@ == m.versions[j].version_code@)
    &&& forall|i: int|
        0 <= i < m.versions.len() ==> 1 <= (#[trigger] m.versions[i]).id < m.next_version_id
            && version_refs_ok(m.apps, m.files, m.versions[i])
}

pub open spec fn blobs_wf(m: StoreModel) -> bool {
    forall|i: int, j: int|
        #![trigger m.blobs[i], m.blobs[j]]
        0 <= i < j < m.blobs.len() ==> m.blobs[i].key@ != m.blobs[j].key@
}

/// The invariant of the whole store.
pub open spec fn store_wf(m: StoreModel) -> bool {
    platforms_wf(m) && files_wf(m) && apps_wf(m) && versions_wf(m) && blobs_wf(m)
}

// Rows with equal ids stand at equal positions.
pub proof fn lemma_platform_found(m: StoreModel, i: int)
    requires
        platforms_wf(m),
        0 <= i < m.platforms.len(),
    ensures
        has_platform(m.platforms, m.platforms[i].id),
        platform_index(m.platforms, m.platforms[i].id) == i,
        platform_by_id(m.platforms, m.platforms[i].id) == m.platforms[i],
{
    let id = m.platforms[i].id;
    assert(has_platform(m.platforms, id));
    let j = platform_index(m.platforms, id);
    if i < j {
        assert(m.platforms[i].id < m.platforms[j].id);
    } else if j < i {
        assert(m.platforms[j].id < m.platforms[i].id);
    }
}

pub proof fn lemma_file_found(m: StoreModel, i: int)
    requires
        files_wf(m),
        0 <= i < m.files.len(),
    ensures
        has_file(m.files, m.files[i].id),
        file_index(m.files, m.files[i].id) == i,
        file_by_id(m.files, m.files[i].id) == m.files[i],
{
    let id = m.files[i].id;
    assert(has_file(m.files, id));
    let j = file_index(m.files, id);
    if i < j {
        assert(m.files[i].id < m.files[j].id);
    } else if j < i {
        assert(m.files[j].id < m.files[i].id);
    }
}

pub proof fn lemma_file_path_found(m: StoreModel, i: int)
    requires
        files_wf(m),
        0 <= i < m.files.len(),
    ensures
        has_file_path(m.files, m.files[i].path@),
        file_path_index(m.files, m.files[i].path@) == i,
{
    let key = m.files[i].path@;
    assert(has_file_path(m.files, key));
    let j = file_path_index(m.files, key);
    if i < j {
        assert(m.files[i].path@ != m.files[j].path@);
    } else if j < i {
        assert(m.files[j].path@ != m.files[i].path@);
    }
}

pub proof fn lemma_app_found(m: StoreModel, i: int)
    requires
        apps_wf(m),
        0 <= i < m.apps.len(),
    ensures
        has_app(m.apps, m.apps[i].id),
        app_index(m.apps, m.apps[i].id) == i,
        app_by_id(m.apps, m.apps[i].id) == m.apps[i],
{
    let id = m.apps[i].id;
    assert(has_app(m.apps, id));
    let j = app_index(m.apps, id);
    if i < j {
        assert(m.apps[i].id < m.apps[j].id);
    } else if j < i {
        assert(m.apps[j].id < m.apps[i].id);
    }
}

pub proof fn lemma_version_found(m: StoreModel, i: int)
    requires
        versions_wf(m),
        0 <= i < m.versions.len(),
    ensures
        has_version(m.versions, m.versions[i].id),
        version_index(m.versions, m.versions[i].id) == i,
        version_by_id(m.versions, m.versions[i].id) == m.versions[i],
{
    let id = m.versions[i].id;
    assert(has_version(m.versions, id));
    let j = version_index(m.versions, id);
    if i < j {
        assert(m.versions[i].id < m.versions[j].id);
    } else if j < i {
        assert(m.versions[j].id < m.versions[i].id);
    }
}

pub proof fn lemma_blob_found(m: StoreModel, i: int)
    requires
        blobs_wf(m),
        0 <= i < m.blobs.len(),
    ensures
        has_blob(m.blobs, m.blobs[i].key@),
        blob_index(m.blobs, m.blobs[i].key@) == i,
{
    let key = m.blobs[i].key@;
    assert(has_blob(m.blobs, key));
    let j = blob_index(m.blobs, key);
    if i < j {
        assert(m.blobs[i].key@ != m.blobs[j].key@);
    } else if j < i {
        assert(m.blobs[j].key@ != m.blobs[i].key@);
    }
}

// The platform rows produced by creation and update.
/// The row a creation request inserts.
pub open spec fn new_platform_record(m: StoreModel, data: CreatePlatform, now: i64) -> PlatformRecord {
    PlatformRecord {
        id: m.next_platform_id,
        name: data.name,
        code: data.code,
        icon_url: data.icon_url,
        created_at: now,
        updated_at: now,
    }
}

/// The state after a platform was created.
pub open spec fn with_platform_created(m: StoreModel, data: CreatePlatform, now: i64) -> StoreModel {
    StoreModel {
        platforms: m.platforms.push(new_platform_record(m, data, now)),
        next_platform_id: (m.next_platform_id + 1) as i32,
        ..m
    }
}

/// A platform row with the fields a full update replaces.
pub open spec fn updated_platform_record(
    old_rec: PlatformRecord,
    data: CreatePlatform,
    now: i64,
) -> PlatformRecord {
    PlatformRecord {
        id: old_rec.id,
        name: data.name,
        code: data.code,
        icon_url: data.icon_url,
        created_at: old_rec.created_at,
        updated_at: now,
    }
}

/// The state after a platform was updated.
pub open spec fn with_platform_updated(
    m: StoreModel,
    id: i32,
    data: CreatePlatform,
    now: i64,
) -> StoreModel {
    StoreModel {
        platforms: m.platforms.update(
            platform_index(m.platforms, id),
            updated_platform_record(platform_by_id(m.platforms, id), data, now),
        ),
        ..m
    }
}

impl Store {
    /// The store's invariant; every operation requires and preserves it.
    pub open spec fn wf(&self) -> bool {
        store_wf(self@)
    }

    /// An empty catalog.
    pub fn new() -> (s: Store)
        ensures
            s.wf(),
            s@.platforms.len() == 0,
            s@.files.len() == 0,
            s@.apps.len() == 0,
            s@.versions.len() == 0,
            s@.blobs.len() == 0,
            s@.next_platform_id == 1,
            s@.next_file_id == 1,
            s@.next_app_id == 1,
            s@.next_version_id == 1,
    {
        Store {
            platforms: Vec::new(),
            files: Vec::new(),
            apps: Vec::new(),
            versions: Vec::new(),
            blobs: Vec::new(),
            next_platform_id: 1,
            next_file_id: 1,
            next_app_id: 1,
            next_version_id: 1,
        }
    }

    // Internal accessors: the fields stay private, so the sibling modules
    // work through these contracts.
    pub(crate) fn platforms_len(&self) -> (n: usize)
        ensures
            n == self@.platforms.len(),
    {
        self.platforms.len()
    }

    pub(crate) fn platform_at(&self, i: usize) -> (r: &PlatformRecord)
        requires
            i < self@.platforms.len(),
        ensures
            *r == self@.platforms[i as int],
    {
        &self.platforms[i]
    }

    pub(crate) fn files_len(&self) -> (n: usize)
        ensures
            n == self@.files.len(),
    {
        self.files.len()
    }

    pub(crate) fn file_at(&self, i: usize) -> (r: &FileRecord)
        requires
            i < self@.files.len(),
        ensures
            *r == self@.files[i as int],
    {
        &self.files[i]
    }

    pub(crate) fn apps_len(&self) -> (n: usize)
        ensures
            n == self@.apps.len(),
    {
        self.apps.len()
    }

    pub(crate) fn app_at(&self, i: usize) -> (r: &AppRecord)
        requires
            i < self@.apps.len(),
        ensures
            *r == self@.apps[i as int],
    {
        &self.apps[i]
    }

    pub(crate) fn versions_len(&self) -> (n: usize)
        ensures
            n == self@.versions.len(),
    {
        self.versions.len()
    }

    pub(crate) fn version_at(&self, i: usize) -> (r: &AppVersionRecord)
        requires
            i < self@.versions.len(),
        ensures
            *r == self@.versions[i as int],
    {
        &self.versions[i]
    }

    pub(crate) fn blob_at(&self, i: usize) -> (r: &BlobEntry)
        requires
            i < self@.blobs.len(),
        ensures
            *r == self@.blobs[i as int],
    {
        &self.blobs[i]
    }

    pub fn next_platform_id_val(&self) -> (r: i32)
        ensures
            r == self@.next_platform_id,
    {
        self.next_platform_id
    }

    pub fn next_file_id_val(&self) -> (r: i32)
        ensures
            r == self@.next_file_id,
    {
        self.next_file_id
    }

    pub fn next_app_id_val(&self) -> (r: i32)
        ensures
            r == self@.next_app_id,
    {
        self.next_app_id
    }

    pub fn next_version_id_val(&self) -> (r: i32)
        ensures
            r == self@.next_version_id,
    {
        self.next_version_id
    }

    pub(crate) fn push_app(&mut self, rec: AppRecord)
        requires
            old(self)@.next_app_id < i32::MAX,
        ensures
            final(self)@ == (StoreModel {
                apps: old(self)@.apps.push(rec),
                next_app_id: (old(self)@.next_app_id + 1) as i32,
                ..old(self)@
            }),
    {
        self.apps.push(rec);
        self.next_app_id = self.next_app_id + 1;
        proof {
            assert(self@ =~= (StoreModel {
                apps: old(self)@.apps.push(rec),
                next_app_id: (old(self)@.next_app_id + 1) as i32,
                ..old(self)@
            }));
        }
    }

    pub(crate) fn set_app(&mut self, i: usize, rec: AppRecord)
        requires
            i < old(self)@.apps.len(),
        ensures
            final(self)@ == (StoreModel { apps: old(self)@.apps.update(i as int, rec), ..old(self)@ }),
    {
        self.apps.set(i, rec);
        proof {
            assert(self@ =~= (StoreModel {
                apps: old(self)@.apps.update(i as int, rec),
                ..old(self)@
            }));
        }
    }

    pub(crate) fn push_version(&mut self, rec: AppVersionRecord)
        requires
            old(self)@.next_version_id < i32::MAX,
        ensures
            final(self)@ == (StoreModel {
                versions: old(self)@.versions.push(rec),
                next_version_id: (old(self)@.next_version_id + 1) as i32,
                ..old(self)@
            }),
    {
        self.versions.push(rec);
        self.next_version_id = self.next_version_id + 1;
        proof {
            assert(self@ =~= (StoreModel {
                versions: old(self)@.versions.push(rec),
                next_version_id: (old(self)@.next_version_id + 1) as i32,
                ..old(self)@
            }));
        }
    }

    pub(crate) fn set_version(&mut self, i: usize, rec: AppVersionRecord)
        requires
            i < old(self)@.versions.len(),
        ensures
            final(self)@ == (StoreModel {
                versions: old(self)@.versions.update(i as int, rec),
                ..old(self)@
            }),
    {
        self.versions.set(i, rec);
        proof {
            assert(self@ =~= (StoreModel {
                versions: old(self)@.versions.update(i as int, rec),
                ..old(self)@
            }));
        }
    }

    pub(crate) fn push_file(&mut self, rec: FileRecord)
        requires
            old(self)@.next_file_id < i32::MAX,
        ensures
            final(self)@ == (StoreModel {
                files: old(self)@.files.push(rec),
                next_file_id: (old(self)@.next_file_id + 1) as i32,
                ..old(self)@
            }),
    {
        self.files.push(rec);
        self.next_file_id = self.next_file_id + 1;
        proof {
            assert(self@ =~= (StoreModel {
                files: old(self)@.files.push(rec),
                next_file_id: (old(self)@.next_file_id + 1) as i32,
                ..old(self)@
            }));
        }
    }

    pub(crate) fn set_file(&mut self, i: usize, rec: FileRecord)
        requires
            i < old(self)@.files.len(),
        ensures
            final(self)@ == (StoreModel { files: old(self)@.files.update(i as int, rec), ..old(self)@ }),
    {
        self.files.set(i, rec);
        proof {
            assert(self@ =~= (StoreModel {
                files: old(self)@.files.update(i as int, rec),
                ..old(self)@
            }));
        }
    }

    pub(crate) fn push_blob(&mut self, b: BlobEntry)
        ensures
            final(self)@ == (StoreModel { blobs: old(self)@.blobs.push(b), ..old(self)@ }),
    {
        self.blobs.push(b);
        proof {
            assert(self@ =~= (StoreModel { blobs: old(self)@.blobs.push(b), ..old(self)@ }));
        }
    }

    pub(crate) fn replace_platforms(&mut self, v: Vec<PlatformRecord>)
        ensures
            final(self)@ == (StoreModel { platforms: v@, ..old(self)@ }),
    {
        self.platforms = v;
        proof {
            assert(self@ =~= (StoreModel { platforms: v@, ..old(self)@ }));
        }
    }

    pub(crate) fn replace_files(&mut self, v: Vec<FileRecord>)
        ensures
            final(self)@ == (StoreModel { files: v@, ..old(self)@ }),
    {
        self.files = v;
        proof {
            assert(self@ =~= (StoreModel { files: v@, ..old(self)@ }));
        }
    }

    pub(crate) fn replace_apps(&mut self, v: Vec<AppRecord>)
        ensures
            final(self)@ == (StoreModel { apps: v@, ..old(self)@ }),
    {
        self.apps = v;
        proof {
            assert(self@ =~= (StoreModel { apps: v@, ..old(self)@ }));
        }
    }

    pub(crate) fn replace_versions(&mut self, v: Vec<AppVersionRecord>)
        ensures
            final(self)@ == (StoreModel { versions: v@, ..old(self)@ }),
    {
        self.versions = v;
        proof {
            assert(self@ =~= (StoreModel { versions: v@, ..old(self)@ }));
        }
    }

    pub(crate) fn find_file(&self, id: i32) -> (r: Option<usize>)
        ensures
            match r {
                Some(i) => 0 <= i < self@.files.len() && self@.files[i as int].id == id,
                None => !has_file(self@.files, id),
            },
    {
        let mut i: usize = 0;
        while i < self.files.len()
            invariant
                i <= self@.files.len(),
                forall|k: int| 0 <= k < i ==> (#[trigger] self@.files[k]).id != id,
            decreases self@.files.len() - i,
        {
            if self.files[i].id == id {
                return Some(i);
            }
            i += 1;
        }
        None
    }

    pub(crate) fn find_file_by_path(&self, key: &String) -> (r: Option<usize>)
        ensures
            match r {
                Some(i) => 0 <= i < self@.files.len() && self@.files[i as int].path@ == key@,
                None => !has_file_path(self@.files, key@),
            },
    {
        let mut i: usize = 0;
        while i < self.files.len()
            invariant
                i <= self@.files.len(),
                forall|k: int| 0 <= k < i ==> (#[trigger] self@.files[k]).path@ != key@,
            decreases self@.files.len() - i,
        {
            if self.files[i].path == *key {
                return Some(i);
            }
            i += 1;
        }
        None
    }

    pub(crate) fn find_version(&self, id: i32) -> (r: Option<usize>)
        ensures
            match r {
                Some(i) => 0 <= i < self@.versions.len() && self@.versions[i as int].id == id,
                None => !has_version(self@.versions, id),
            },
    {
        let mut i: usize = 0;
        while i < self.versions.len()
            invariant
                i <= self@.versions.len(),
                forall|k: int| 0 <= k < i ==> (#[trigger] self@.versions[k]).id != id,
            decreases self@.versions.len() - i,
        {
            if self.versions[i].id == id {
                return Some(i);
            }
            i += 1;
        }
        None
    }

    pub(crate) fn find_blob(&self, key: &String) -> (r: Option<usize>)
        ensures
            match r {
                Some(i) => 0 <= i < self@.blobs.len() && self@.blobs[i as int].key@ == key@,
                None => !has_blob(self@.blobs, key@),
            },
    {
        let mut i: usize = 0;
        while i < self.blobs.len()
            invariant
                i <= self@.blobs.len(),
                forall|k: int| 0 <= k < i ==> (#[trigger] self@.blobs[k]).key@ != key@,
            decreases self@.blobs.len() - i,
        {
            if self.blobs[i].key == *key {
                return Some(i);
            }
            i += 1;
        }
        None
    }

    pub(crate) fn find_platform(&self, id: i32) -> (r: Option<usize>)
        ensures
            match r {
                Some(i) => 0 <= i < self@.platforms.len() && self@.platforms[i as int].id == id,
                None => !has_platform(self@.platforms, id),
            },
    {
        let mut i: usize = 0;
        while i < self.platforms.len()
            invariant
                i <= self@.platforms.len(),
                forall|k: int| 0 <= k < i ==> (#[trigger] self@.platforms[k]).id != id,
            decreases self@.platforms.len() - i,
        {
            if self.platforms[i].id == id {
                return Some(i);
            }
            i += 1;
        }
        None
    }

    fn platform_code_search(&self, code: u16, except: Option<i32>) -> (r: bool)
        ensures
            r == platform_code_taken(self@.platforms, code, except),
    {
        let mut i: usize = 0;
        while i < self.platforms.len()
            invariant
                i <= self@.platforms.len(),
                forall|k: int|
                    0 <= k < i ==> !((#[trigger] self@.platforms[k]).code == code && match except {
                        None => true,
                        Some(e) => self@.platforms[k].id != e,
                    }),
            decreases self@.platforms.len() - i,
        {
            let candidate = self.platforms[i].code == code && match except {
                None => true,
                Some(e) => self.platforms[i].id != e,
            };
            if candidate {
                return true;
            }
            i += 1;
        }
        false
    }

    /// Creates a platform; fails with `BadRequest` exactly when the code is
    /// already taken.
    pub fn create_platform(&mut self, data: &CreatePlatform, now: i64) -> (r: Result<
        PlatformRecord,
        StoreError,
    >)
        requires
            old(self).wf(),
            old(self)@.next_platform_id < i32::MAX,
        ensures
            final(self).wf(),
            match r {
                Ok(rec) => !platform_code_taken(old(self)@.platforms, data.code, None) && rec
                    == new_platform_record(old(self)@, *data, now) && final(self)@
                    == with_platform_created(old(self)@, *data, now),
                Err(e) => final(self)@ == old(self)@ && platform_code_taken(
                    old(self)@.platforms,
                    data.code,
                    None,
                ) && e == StoreError::BadRequest,
            },
    {
        if self.platform_code_search(data.code, None) {
            return Err(StoreError::BadRequest);
        }
        let rec = PlatformRecord {
            id: self.next_platform_id,
            name: data.name.clone(),
            code: data.code,
            icon_url: clone_opt_string(&data.icon_url),
            created_at: now,
            updated_at: now,
        };
        let result = rec.clone();
        let ghost m = self@;
        self.platforms.push(rec);
        self.next_platform_id = self.next_platform_id + 1;
        proof {
            let m2 = self@;
            assert(m2 =~= with_platform_created(m, *data, now));
            lemma_platform_push_wf(m, m2);
        }
        Ok(result)
    }

    /// Fetches a platform by id; fails with `NotFound` exactly when no row
    /// has the id.
    pub fn get_platform(&self, id: i32) -> (r: Result<PlatformRecord, StoreError>)
        requires
            self.wf(),
        ensures
            match r {
                Ok(rec) => has_platform(self@.platforms, id) && rec == platform_by_id(
                    self@.platforms,
                    id,
                ),
                Err(e) => !has_platform(self@.platforms, id) && e == StoreError::NotFound,
            },
    {
        match self.find_platform(id) {
            Some(i) => {
                proof {
                    lemma_platform_found(self@, i as int);
                }
                Ok(self.platforms[i].clone())
            },
            None => Err(StoreError::NotFound),
        }
    }

    /// All platforms, in ascending id order.
    pub fn list_platforms(&self) -> (r: Vec<PlatformRecord>)
        ensures
            r@ == self@.platforms,
    {
        let mut out: Vec<PlatformRecord> = Vec::new();
        let mut i: usize = 0;
        while i < self.platforms.len()
            invariant
                i <= self@.platforms.len(),
                out@ == self@.platforms.take(i as int),
            decreases self@.platforms.len() - i,
        {
            out.push(self.platforms[i].clone());
            proof {
                assert(out@ =~= self@.platforms.take(i + 1));
            }
            i += 1;
        }
        proof {
            assert(out@ =~= self@.platforms);
        }
        out
    }

    /// Replaces a platform's fields; fails with `NotFound` when no row has
    /// the id, with `BadRequest` when the new code is taken by another row.
    pub fn update_platform(&mut self, id: i32, data: &CreatePlatform, now: i64) -> (r: Result<
        PlatformRecord,
        StoreError,
    >)
        requires
            old(self).wf(),
        ensures
            final(self).wf(),
            match r {
                Ok(rec) => has_platform(old(self)@.platforms, id) && !platform_code_taken(
                    old(self)@.platforms,
                    data.code,
                    Some(id),
                ) && rec == updated_platform_record(
                    platform_by_id(old(self)@.platforms, id),
                    *data,
                    now,
                ) && final(self)@ == with_platform_updated(old(self)@, id, *data, now),
                Err(e) => final(self)@ == old(self)@ && ((e == StoreError::NotFound
                    && !has_platform(old(self)@.platforms, id)) || (e == StoreError::BadRequest
                    && has_platform(old(self)@.platforms, id) && platform_code_taken(
                    old(self)@.platforms,
                    data.code,
                    Some(id),
                ))),
            },
    {
        let i = match self.find_platform(id) {
            Some(i) => i,
            None => {
                return Err(StoreError::NotFound);
            },
        };
        if self.platform_code_search(data.code, Some(id)) {
            return Err(StoreError::BadRequest);
        }
        proof {
            lemma_platform_found(self@, i as int);
        }
        let rec = PlatformRecord {
            id,
            name: data.name.clone(),
            code: data.code,
            icon_url: clone_opt_string(&data.icon_url),
            created_at: self.platforms[i].created_at,
            updated_at: now,
        };
        let result = rec.clone();
        let ghost m = self@;
        self.platforms.set(i, rec);
        proof {
            let m2 = self@;
            assert(m2 =~= with_platform_updated(m, id, *data, now));
            lemma_platform_update_wf(m, m2, i as int, id, *data, now);
        }
        Ok(result)
    }
}

/// Pushing a fresh platform row keeps the store well-formed.
proof fn lemma_platform_push_wf(m: StoreModel, m2: StoreModel)
    requires
        store_wf(m),
        m.next_platform_id < i32::MAX,
        m2.platforms.len() == m.platforms.len() + 1,
        forall|k: int| 0 <= k < m.platforms.len() ==> m2.platforms[k] == m.platforms[k],
        m2.platforms.last().id == m.next_platform_id,
        !platform_code_taken(m.platforms, m2.platforms.last().code, None),
        m2.next_platform_id == m.next_platform_id + 1,
        m2.files == m.files,
        m2.apps == m.apps,
        m2.versions == m.versions,
        m2.blobs == m.blobs,
        m2.next_file_id == m.next_file_id,
        m2.next_app_id == m.next_app_id,
        m2.next_version_id == m.next_version_id,
    ensures
        store_wf(m2),
{
    let n = m.platforms.len() as int;
    assert(platforms_wf(m2)) by {
        assert forall|i: int, j: int|
            0 <= i < j < m2.platforms.len() implies #[trigger] m2.platforms[i].id
            < #[trigger] m2.platforms[j].id && m2.platforms[i].code != m2.platforms[j].code by {
            if j < n {
                assert(m.platforms[i].id < m.platforms[j].id);
            } else {
                assert(m2.platforms[i] == m.platforms[i]);
                assert(m2.platforms[j] == m2.platforms.last());
            }
        }
    }
    assert(apps_wf(m2)) by {
        assert forall|i: int| 0 <= i < m2.apps.len() implies 1 <= (#[trigger] m2.apps[i]).id
            < m2.next_app_id && app_refs_ok(m2.platforms, m2.files, m2.versions, m2.apps[i]) by {
            assert(app_refs_ok(m.platforms, m.files, m.versions, m.apps[i]));
            let k = platform_index(m.platforms, m.apps[i].platform_id);
            assert(m2.platforms[k] == m.platforms[k]);
            assert(has_platform(m2.platforms, m.apps[i].platform_id));
        }
    }
    assert(versions_wf(m2));
    assert(files_wf(m2));
}

/// Updating a platform row in place, with its id kept and a code no other
/// row carries, keeps the store well-formed.
proof fn lemma_platform_update_wf(
    m: StoreModel,
    m2: StoreModel,
    i: int,
    id: i32,
    data: CreatePlatform,
    now: i64,
)
    requires
        store_wf(m),
        0 <= i < m.platforms.len(),
        m.platforms[i].id == id,
        !platform_code_taken(m.platforms, data.code, Some(id)),
        m2 == with_platform_updated(m, id, data, now),
    ensures
        store_wf(m2),
{
    lemma_platform_found(m, i);
    let rec = updated_platform_record(m.platforms[i], data, now);
    assert(m2.platforms == m.platforms.update(i, rec));
    assert(platforms_wf(m2)) by {
        assert forall|a: int, b: int|
            0 <= a < b < m2.platforms.len() implies #[trigger] m2.platforms[a].id
            < #[trigger] m2.platforms[b].id && m2.platforms[a].code != m2.platforms[b].code by {
            if a != i && b != i {
                assert(m2.platforms[a] == m.platforms[a]);
                assert(m2.platforms[b] == m.platforms[b]);
            } else if a == i {
                assert(m2.platforms[b] == m.platforms[b]);
                assert(m.platforms[b].id != id);
            } else {
                assert(m2.platforms[a] == m.platforms[a]);
                assert(m.platforms[a].id != id);
            }
        }
        assert forall|a: int| 0 <= a < m2.platforms.len() implies 1 <= (
        #[trigger] m2.platforms[a]).id < m2.next_platform_id by {
            if a != i {
                assert(m2.platforms[a] == m.platforms[a]);
            }
        }
    }
    assert(apps_wf(m2)) by {
        assert forall|a: int| 0 <= a < m2.apps.len() implies 1 <= (#[trigger] m2.apps[a]).id
            < m2.next_app_id && app_refs_ok(m2.platforms, m2.files, m2.versions, m2.apps[a]) by {
            assert(app_refs_ok(m.platforms, m.files, m.versions, m.apps[a]));
            let k = platform_index(m.platforms, m.apps[a].platform_id);
            if k == i {
                assert(m2.platforms[i].id == id);
                assert(has_platform(m2.platforms, m.apps[a].platform_id));
            } else {
                assert(m2.platforms[k] == m.platforms[k]);
                assert(has_platform(m2.platforms, m.apps[a].platform_id));
            }
        }
    }
    assert(versions_wf(m2));
    assert(files_wf(m2));
}

} // verus!
