//! File rows and their blobs: upload stores the bytes under a fresh key
//! and records size and SHA-256 hex digest of exactly those bytes; download
//! looks the row up by its storage key and returns the stored bytes.

use vstd::prelude::*;

use crate::checksum::hex_of;
use crate::checksum::sha256_hex;
use crate::checksum::sha256_of;
use crate::records::BlobEntry;
use crate::records::FileRecord;
use crate::records::Params;
use crate::records::StoreError;
use crate::records::clone_opt_string;
use crate::store::Store;
use crate::store::StoreModel;
use crate::store::app_refs_ok;
use crate::store::apps_wf;
use crate::store::blob_index;
use crate::store::blobs_wf;
use crate::store::file_by_id;
use crate::store::file_index;
use crate::store::file_path_index;
use crate::store::files_wf;
use crate::store::has_blob;
use crate::store::has_file;
use crate::store::has_file_path;
use crate::store::lemma_blob_found;
use crate::store::lemma_file_found;
use crate::store::lemma_file_path_found;
use crate::store::platforms_wf;
use crate::store::store_wf;
use crate::store::version_refs_ok;
use crate::store::versions_wf;

verus! {

/// A file row with the one field a metadata update replaces.
pub open spec fn updated_file_record(old_rec: FileRecord, params: Params, now: i64) -> FileRecord {
    FileRecord { description: params.description, updated_at: now, ..old_rec }
}

/// The state after a file's metadata was updated.
pub open spec fn with_file_updated(m: StoreModel, id: i32, params: Params, now: i64) -> StoreModel {
    StoreModel {
        files: m.files.update(
            file_index(m.files, id),
            updated_file_record(file_by_id(m.files, id), params, now),
        ),
        ..m
    }
}

fn copy_bytes(v: &Vec<u8>) -> (r: Vec<u8>)
    ensures
        r@ == v@,
{
    let mut out: Vec<u8> = Vec::new();
    let mut i: usize = 0;
    while i < v.len()
        invariant
            i <= v@.len(),
            out@ == v@.take(i as int),
        decreases v@.len() - i,
    {
        out.push(v[i]);
        proof {
            assert(out@ =~= v@.take(i + 1));
        }
        i += 1;
    }
    proof {
        assert(out@ =~= v@);
    }
    out
}

impl Store {
    /// Stores the uploaded bytes under `key` and records their metadata:
    /// the size is the byte count and the checksum the SHA-256 hex digest
    /// of exactly the stored bytes. Fails with `BadRequest` when the key is
    /// already in use; then nothing is stored and no row is created.
    pub fn upload_file(
        &mut self,
        key: String,
        name: String,
        mime: String,
        data: Vec<u8>,
        description: Option<String>,
        now: i64,
    ) -> (r: Result<FileRecord, StoreError>)
        requires
            old(self).wf(),
            old(self)@.next_file_id < i32::MAX,
            data@.len() <= i64::MAX,
        ensures
            final(self).wf(),
            match r {
                Ok(rec) => {
                    &&& !has_blob(old(self)@.blobs, key@)
                    &&& rec.id == old(self)@.next_file_id
                    &&& rec.name == name
                    &&& rec.mime == mime
                    &&& rec.size_bytes == data@.len()
                    &&& rec.path == key
                    &&& rec.checksum_sha256@ == hex_of(sha256_of(data@))
                    &&& rec.description == description
                    &&& rec.created_at == now
                    &&& rec.updated_at == now
                    &&& final(self)@.files == old(self)@.files.push(rec)
                    &&& final(self)@.blobs.len() == old(self)@.blobs.len() + 1
                    &&& final(self)@.blobs.last().key == key
                    &&& final(self)@.blobs.last().data@ == data@
                    &&& forall|k: int|
                        0 <= k < old(self)@.blobs.len() ==> final(self)@.blobs[k] == old(
                            self,
                        )@.blobs[k]
                    &&& final(self)@.next_file_id == old(self)@.next_file_id + 1
                    &&& final(self)@.platforms == old(self)@.platforms
                    &&& final(self)@.apps == old(self)@.apps
                    &&& final(self)@.versions == old(self)@.versions
                    &&& final(self)@.next_platform_id == old(self)@.next_platform_id
                    &&& final(self)@.next_app_id == old(self)@.next_app_id
                    &&& final(self)@.next_version_id == old(self)@.next_version_id
                },
                Err(e) => final(self)@ == old(self)@ && has_blob(old(self)@.blobs, key@) && e
                    == StoreError::BadRequest,
            },
    {
        if self.find_blob(&key).is_some() {
            return Err(StoreError::BadRequest);
        }
        let size = data.len();
        let checksum = sha256_hex(data.as_slice());
        let rec = FileRecord {
            id: self.next_file_id_val(),
            name,
            mime,
            size_bytes: size as i64,
            path: key.clone(),
            checksum_sha256: checksum,
            description,
            created_at: now,
            updated_at: now,
        };
        let result = rec.clone();
        let ghost m = self@;
        let ghost the_rec = rec;
        self.push_file(rec);
        self.push_blob(BlobEntry { key, data });
        proof {
            lemma_file_upload_wf(m, self@, the_rec);
        }
        Ok(result)
    }

    /// Fetches a file's metadata by id; fails with `NotFound` exactly when
    /// no row has the id.
    pub fn get_file(&self, id: i32) -> (r: Result<FileRecord, StoreError>)
        requires
            self.wf(),
        ensures
            match r {
                Ok(rec) => has_file(self@.files, id) && rec == file_by_id(self@.files, id),
                Err(e) => !has_file(self@.files, id) && e == StoreError::NotFound,
            },
    {
        match self.find_file(id) {
            Some(i) => {
                proof {
                    lemma_file_found(self@, i as int);
                }
                Ok(self.file_at(i).clone())
            },
            None => Err(StoreError::NotFound),
        }
    }

    /// Updates a file's description — metadata only, never the bytes or
    /// the checksum. Fails with `NotFound` exactly when no row has the id.
    pub fn update_file(&mut self, id: i32, params: &Params, now: i64) -> (r: Result<
        FileRecord,
        StoreError,
    >)
        requires
            old(self).wf(),
        ensures
            final(self).wf(),
            match r {
                Ok(rec) => has_file(old(self)@.files, id) && rec == updated_file_record(
                    file_by_id(old(self)@.files, id),
                    *params,
                    now,
                ) && final(self)@ == with_file_updated(old(self)@, id, *params, now),
                Err(e) => final(self)@ == old(self)@ && !has_file(old(self)@.files, id) && e
                    == StoreError::NotFound,
            },
    {
        let i = match self.find_file(id) {
            Some(i) => i,
            None => {
                return Err(StoreError::NotFound);
            },
        };
        proof {
            lemma_file_found(self@, i as int);
        }
        let f = self.file_at(i);
        let f2 = FileRecord {
            id: f.id,
            name: f.name.clone(),
            mime: f.mime.clone(),
            size_bytes: f.size_bytes,
            path: f.path.clone(),
            checksum_sha256: f.checksum_sha256.clone(),
            description: clone_opt_string(&params.description),
            created_at: f.created_at,
            updated_at: now,
        };
        let result = f2.clone();
        let ghost m = self@;
        self.set_file(i, f2);
        proof {
            let m2 = self@;
            assert(m2 =~= with_file_updated(m, id, *params, now));
            lemma_file_update_wf(m, id, *params, now);
        }
        Ok(result)
    }

    /// Serves a stored file by its storage key: the row whose path is the
    /// key, and exactly the bytes stored under it. Fails with `NotFound`
    /// exactly when no row carries the key.
    pub fn download(&self, key: &String) -> (r: Result<(FileRecord, Vec<u8>), StoreError>)
        requires
            self.wf(),
        ensures
            match r {
                Ok(pair) => has_file_path(self@.files, key@) && pair.0 == self@.files[file_path_index(
                    self@.files,
                    key@,
                )] && has_blob(self@.blobs, key@) && pair.1@ == self@.blobs[blob_index(
                    self@.blobs,
                    key@,
                )].data@,
                Err(e) => !has_file_path(self@.files, key@) && e == StoreError::NotFound,
            },
    {
        let i = match self.find_file_by_path(key) {
            Some(i) => i,
            None => {
                return Err(StoreError::NotFound);
            },
        };
        proof {
            lemma_file_path_found(self@, i as int);
        }
        let bi = match self.find_blob(key) {
            Some(bi) => bi,
            None => {
                proof {
                    assert(false);
                }
                return Err(StoreError::NotFound);
            },
        };
        proof {
            lemma_blob_found(self@, bi as int);
        }
        let rec = self.file_at(i).clone();
        let bytes = copy_bytes(&self.blob_at(bi).data);
        Ok((rec, bytes))
    }
}

/// Storing fresh bytes under a fresh key and recording their row keeps the
/// store well-formed.
proof fn lemma_file_upload_wf(m: StoreModel, m2: StoreModel, rec: FileRecord)
    requires
        store_wf(m),
        m.next_file_id < i32::MAX,
        !has_blob(m.blobs, rec.path@),
        rec.id == m.next_file_id,
        m2.files == m.files.push(rec),
        m2.blobs.len() == m.blobs.len() + 1,
        forall|k: int| 0 <= k < m.blobs.len() ==> m2.blobs[k] == m.blobs[k],
        m2.blobs.last().key@ == rec.path@,
        m2.next_file_id == m.next_file_id + 1,
        m2.platforms == m.platforms,
        m2.apps == m.apps,
        m2.versions == m.versions,
        m2.next_platform_id == m.next_platform_id,
        m2.next_app_id == m.next_app_id,
        m2.next_version_id == m.next_version_id,
    ensures
        store_wf(m2),
{
    let n = m.files.len() as int;
    assert(blobs_wf(m2)) by {
        assert forall|i: int, j: int|
            0 <= i < j < m2.blobs.len() implies #[trigger] m2.blobs[i].key@
            != #[trigger] m2.blobs[j].key@ by {
            if j < m.blobs.len() {
                assert(m2.blobs[i] == m.blobs[i]);
                assert(m2.blobs[j] == m.blobs[j]);
            } else {
                assert(m2.blobs[i] == m.blobs[i]);
                assert(m2.blobs[j] == m2.blobs.last());
            }
        }
    }
    assert(files_wf(m2)) by {
        assert forall|i: int, j: int| 0 <= i < j < m2.files.len() implies #[trigger] m2.files[i].id
            < #[trigger] m2.files[j].id && m2.files[i].path@ != m2.files[j].path@ by {
            if j < n {
                assert(m2.files[i] == m.files[i]);
                assert(m2.files[j] == m.files[j]);
            } else {
                assert(m2.files[i] == m.files[i]);
                assert(m2.files[j] == rec);
                assert(has_blob(m.blobs, m.files[i].path@));
            }
        }
        assert forall|i: int| 0 <= i < m2.files.len() implies 1 <= (#[trigger] m2.files[i]).id
            < m2.next_file_id && has_blob(m2.blobs, m2.files[i].path@) by {
            if i < n {
                assert(m2.files[i] == m.files[i]);
                assert(has_blob(m.blobs, m.files[i].path@));
                let k = blob_index(m.blobs, m.files[i].path@);
                assert(m2.blobs[k] == m.blobs[k]);
                assert(has_blob(m2.blobs, m.files[i].path@));
            } else {
                assert(m2.files[i] == rec);
                assert(m2.blobs[m.blobs.len() as int] == m2.blobs.last());
                assert(has_blob(m2.blobs, rec.path@));
            }
        }
    }
    assert(apps_wf(m2)) by {
        assert forall|i: int| 0 <= i < m2.apps.len() implies 1 <= (#[trigger] m2.apps[i]).id
            < m2.next_app_id && app_refs_ok(m2.platforms, m2.files, m2.versions, m2.apps[i]) by {
            assert(app_refs_ok(m.platforms, m.files, m.versions, m.apps[i]));
            match m.apps[i].icon_file_id {
                None => {
                },
                Some(f) => {
                    let k = file_index(m.files, f);
                    assert(m2.files[k] == m.files[k]);
                    assert(has_file(m2.files, f));
                },
            }
        }
    }
    assert(versions_wf(m2)) by {
        assert forall|i: int| 0 <= i < m2.versions.len() implies 1 <= (
        #[trigger] m2.versions[i]).id < m2.next_version_id && version_refs_ok(
            m2.apps,
            m2.files,
            m2.versions[i],
        ) by {
            assert(version_refs_ok(m.apps, m.files, m.versions[i]));
            match m.versions[i].apk_file_id {
                None => {
                },
                Some(f) => {
                    let k = file_index(m.files, f);
                    assert(m2.files[k] == m.files[k]);
                    assert(has_file(m2.files, f));
                },
            }
        }
    }
    assert(platforms_wf(m2));
}

/// Replacing a file's description in place keeps the store well-formed.
proof fn lemma_file_update_wf(m: StoreModel, id: i32, params: Params, now: i64)
    requires
        store_wf(m),
        has_file(m.files, id),
    ensures
        store_wf(with_file_updated(m, id, params, now)),
{
    let m2 = with_file_updated(m, id, params, now);
    let fi = file_index(m.files, id);
    assert(files_wf(m2)) by {
        assert forall|i: int, j: int| 0 <= i < j < m2.files.len() implies #[trigger] m2.files[i].id
            < #[trigger] m2.files[j].id && m2.files[i].path@ != m2.files[j].path@ by {
            assert(m2.files[i].id == m.files[i].id && m2.files[i].path == m.files[i].path);
            assert(m2.files[j].id == m.files[j].id && m2.files[j].path == m.files[j].path);
        }
        assert forall|i: int| 0 <= i < m2.files.len() implies 1 <= (#[trigger] m2.files[i]).id
            < m2.next_file_id && has_blob(m2.blobs, m2.files[i].path@) by {
            assert(m2.files[i].id == m.files[i].id && m2.files[i].path == m.files[i].path);
            assert(has_blob(m.blobs, m.files[i].path@));
        }
    }
    assert(apps_wf(m2)) by {
        assert forall|i: int| 0 <= i < m2.apps.len() implies 1 <= (#[trigger] m2.apps[i]).id
            < m2.next_app_id && app_refs_ok(m2.platforms, m2.files, m2.versions, m2.apps[i]) by {
            assert(app_refs_ok(m.platforms, m.files, m.versions, m.apps[i]));
            match m.apps[i].icon_file_id {
                None => {
                },
                Some(f) => {
                    let k = file_index(m.files, f);
                    assert(m2.files[k].id == m.files[k].id);
                    assert(has_file(m2.files, f));
                },
            }
        }
    }
    assert(versions_wf(m2)) by {
        assert forall|i: int| 0 <= i < m2.versions.len() implies 1 <= (
        #[trigger] m2.versions[i]).id < m2.next_version_id && version_refs_ok(
            m2.apps,
            m2.files,
            m2.versions[i],
        ) by {
            assert(version_refs_ok(m.apps, m.files, m.versions[i]));
            match m.versions[i].apk_file_id {
                None => {
                },
                Some(f) => {
                    let k = file_index(m.files, f);
                    assert(m2.files[k].id == m.files[k].id);
                    assert(has_file(m2.files, f));
                },
            }
        }
    }
    assert(platforms_wf(m2));
    assert(blobs_wf(m2));
}

} // verus!
