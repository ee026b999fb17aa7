//! The catalog's laws: what the operations' contracts add up to, stated
//! and proved over the store model.

use vstd::prelude::*;

use crate::pagination::effective_page_size;
use crate::pagination::pages_of;
use crate::records::AppQuery;
use crate::records::CreateApp;
use crate::records::CreateAppVersion;
use crate::records::Revision;
use crate::records::StoreError;
use crate::store::StoreModel;
use crate::store::app_by_id;
use crate::store::app_index;
use crate::store::blob_index;
use crate::store::bundle_taken;
use crate::store::file_by_id;
use crate::store::file_path_index;
use crate::store::has_app;
use crate::store::has_blob;
use crate::store::has_file;
use crate::store::has_file_path;
use crate::store::has_version;
use crate::store::lemma_app_found;
use crate::store::lemma_blob_found;
use crate::store::lemma_file_path_found;
use crate::store::lemma_version_found;
use crate::store::store_wf;
use crate::store::triple_taken;
use crate::store::version_by_id;
use crate::store::version_index;
use crate::store_apps::app_create_err;
use crate::store_apps::app_create_ok;
use crate::store_apps::check_update_spec;
use crate::store_apps::revision_is_current;
use crate::store_deletes::app_keeps_file;
use crate::store_deletes::with_app_deleted;
use crate::store_deletes::with_file_deleted;
use crate::store_queries::matched_apps;
use crate::store_versions::lemma_version_create_wf;
use crate::store_versions::lemma_version_publish_wf;
use crate::store_versions::new_version_record;
use crate::store_versions::version_create_err;
use crate::store_versions::version_create_ok;
use crate::store_versions::wants_publish;
use crate::store_versions::with_version_created;
use crate::store_versions::with_version_published;

verus! {

/// Creating an app whose bundle id an existing row already carries is
/// refused with `BadRequest`; by `create_app`'s contract the store is then
/// unchanged, so no row is created.
pub proof fn lemma_duplicate_bundle_rejected(m: StoreModel, data: CreateApp, i: int)
    requires
        store_wf(m),
        0 <= i < m.apps.len(),
        m.apps[i].bundle_id@ == data.bundle_id@,
    ensures
        !app_create_ok(m, data),
        app_create_err(m, data) == StoreError::BadRequest,
{
    assert(bundle_taken(m.apps, data.bundle_id@, None));
}

/// Creating a version whose (app, version name, version code) triple an
/// existing row already carries is refused with `BadRequest`; by
/// `create_app_version`'s contract the store is then unchanged.
pub proof fn lemma_duplicate_triple_rejected(m: StoreModel, data: CreateAppVersion, i: int)
    requires
        store_wf(m),
        0 <= i < m.versions.len(),
        m.versions[i].app_id == data.app_id,
        m.versions[i].version_name@ == data.version_name@,
        m.versions[i].version_code@ == data.version_code@,
    ensures
        !version_create_ok(m, data),
        version_create_err(m, data) == StoreError::BadRequest,
{
    assert(triple_taken(m.versions, data.app_id, data.version_name@, data.version_code@, None));
}

/// Creating a version with immediate publication leaves the parent app's
/// current-version reference equal to the new row's id — in the very state
/// the creation produces, so no state with the row inserted but the pointer
/// unset exists.
pub proof fn lemma_publish_immediately_sets_current(m: StoreModel, data: CreateAppVersion, now: i64)
    requires
        store_wf(m),
        m.next_version_id < i32::MAX,
        version_create_ok(m, data),
        wants_publish(data),
    ensures
        ({
            let m2 = with_version_created(m, data, now);
            let rec = new_version_record(m, data, now);
            &&& store_wf(m2)
            &&& has_app(m2.apps, data.app_id)
            &&& app_by_id(m2.apps, data.app_id).current_version_id == Some(rec.id)
            &&& rec.published_at == Some(now)
        }),
{
    lemma_version_create_wf(m, data, now);
    let m2 = with_version_created(m, data, now);
    let ai = app_index(m.apps, data.app_id);
    assert(0 <= ai < m.apps.len() && m.apps[ai].id == data.app_id);
    assert(m2.apps[ai].id == data.app_id);
    lemma_app_found(m2, ai);
}

/// Publishing a version stamps its publication timestamp with a value (it
/// is non-null) and points the owning app's current-version reference at
/// it.
pub proof fn lemma_publish_sets_timestamp_and_pointer(m: StoreModel, id: i32, now: i64)
    requires
        store_wf(m),
        has_version(m.versions, id),
    ensures
        ({
            let m2 = with_version_published(m, id, true, now);
            let owner = version_by_id(m.versions, id).app_id;
            &&& store_wf(m2)
            &&& has_version(m2.versions, id)
            &&& version_by_id(m2.versions, id).published_at == Some(now)
            &&& has_app(m2.apps, owner)
            &&& app_by_id(m2.apps, owner).current_version_id == Some(id)
        }),
{
    lemma_version_publish_wf(m, id, true, now);
    let m2 = with_version_published(m, id, true, now);
    let vi = version_index(m.versions, id);
    let owner = m.versions[vi].app_id;
    let ai = app_index(m.apps, owner);
    assert(0 <= ai < m.apps.len() && m.apps[ai].id == owner);
    assert(m2.versions[vi].id == id);
    lemma_version_found(m2, vi);
    assert(m2.apps[ai].id == owner);
    lemma_app_found(m2, ai);
}

/// Unpublishing a version clears its publication timestamp and nulls the
/// owning app's current-version reference.
pub proof fn lemma_unpublish_clears_timestamp_and_pointer(m: StoreModel, id: i32, now: i64)
    requires
        store_wf(m),
        has_version(m.versions, id),
    ensures
        ({
            let m2 = with_version_published(m, id, false, now);
            let owner = version_by_id(m.versions, id).app_id;
            &&& store_wf(m2)
            &&& has_version(m2.versions, id)
            &&& version_by_id(m2.versions, id).published_at is None
            &&& has_app(m2.apps, owner)
            &&& app_by_id(m2.apps, owner).current_version_id is None
        }),
{
    lemma_version_publish_wf(m, id, false, now);
    let m2 = with_version_published(m, id, false, now);
    let vi = version_index(m.versions, id);
    let owner = m.versions[vi].app_id;
    let ai = app_index(m.apps, owner);
    assert(0 <= ai < m.apps.len() && m.apps[ai].id == owner);
    assert(m2.versions[vi].id == id);
    lemma_version_found(m2, vi);
    assert(m2.apps[ai].id == owner);
    lemma_app_found(m2, ai);
}

/// An app without a current version never reports an update.
pub proof fn lemma_check_update_no_current(m: StoreModel, id: i32, rev: Revision)
    requires
        store_wf(m),
        has_app(m.apps, id),
        app_by_id(m.apps, id).current_version_id is None,
    ensures
        ({
            let r = check_update_spec(m, id, rev);
            &&& r matches Ok(info)
            &&& r matches Ok(info) ==> info.update_available == false && info.latest_version
                is None
        }),
{
}

/// A revision that names the current version exactly reports no update.
pub proof fn lemma_check_update_same_revision(m: StoreModel, id: i32, rev: Revision, cv: i32)
    requires
        store_wf(m),
        has_app(m.apps, id),
        app_by_id(m.apps, id).current_version_id == Some(cv),
        revision_is_current(version_by_id(m.versions, cv), rev),
    ensures
        ({
            let r = check_update_spec(m, id, rev);
            &&& r matches Ok(info)
            &&& r matches Ok(info) ==> info.update_available == false && info.latest_version
                is None
        }),
{
}

/// A revision that differs from the current version in either field
/// reports an update carrying the current version's id, name, build number
/// and file path.
pub proof fn lemma_check_update_differs(m: StoreModel, id: i32, rev: Revision, cv: i32, f: i32)
    requires
        store_wf(m),
        has_app(m.apps, id),
        app_by_id(m.apps, id).current_version_id == Some(cv),
        !revision_is_current(version_by_id(m.versions, cv), rev),
        version_by_id(m.versions, cv).apk_file_id == Some(f),
    ensures
        ({
            let r = check_update_spec(m, id, rev);
            let v = version_by_id(m.versions, cv);
            &&& r matches Ok(info)
            &&& r matches Ok(info) ==> {
                &&& info.update_available == true
                &&& info.latest_version matches Some(latest)
                &&& info.latest_version matches Some(latest) ==> latest.id == v.id && latest.name
                    == v.version_name && latest.build_number == v.version_code && latest.file_url
                    == file_by_id(m.files, f).path
            }
        }),
{
    let ai = app_index(m.apps, id);
    let v = version_by_id(m.versions, cv);
    let vi = version_index(m.versions, cv);
    assert(has_version(m.versions, cv) && v.app_id == m.apps[ai].id);
    assert(0 <= vi < m.versions.len() && m.versions[vi] == v);
    assert(has_file(m.files, f));
}

/// After an upload, downloading by the fresh storage key finds exactly the
/// new row and the stored blob: with `upload_file`'s and `download`'s
/// contracts, the bytes come back exactly as uploaded.
pub proof fn lemma_upload_then_download(m2: StoreModel, key: Seq<char>)
    requires
        store_wf(m2),
        m2.files.len() > 0,
        m2.blobs.len() > 0,
        m2.files.last().path@ == key,
        m2.blobs.last().key@ == key,
    ensures
        has_file_path(m2.files, key),
        m2.files[file_path_index(m2.files, key)] == m2.files.last(),
        has_blob(m2.blobs, key),
        m2.blobs[blob_index(m2.blobs, key)] == m2.blobs.last(),
{
    lemma_file_path_found(m2, m2.files.len() - 1);
    lemma_blob_found(m2, m2.blobs.len() - 1);
}

/// On an empty table every listing is empty: no items, zero pages.
pub proof fn lemma_query_empty_table(m: StoreModel, q: AppQuery)
    requires
        m.apps.len() == 0,
    ensures
        matched_apps(m, q).len() == 0,
        pages_of(matched_apps(m, q).len(), effective_page_size(q.pagination.page_size) as nat)
            == 0,
{
    let pred = |a: crate::records::AppRecord| crate::records::app_matches(a, q);
    m.apps.lemma_filter_len(pred);
    let size = effective_page_size(q.pagination.page_size) as nat;
    assert(0nat / size == 0 && 0nat % size == 0) by (nonlinear_arith)
        requires
            size >= 1,
    ;
}

/// Deleting a file removes every app whose icon it was; with
/// `delete_file`'s contract this is the state the operation leaves behind.
pub proof fn lemma_delete_file_removes_icon_referrers(m: StoreModel, fid: i32, i: int)
    requires
        store_wf(m),
        0 <= i < m.apps.len(),
        m.apps[i].icon_file_id == Some(fid),
    ensures
        !has_app(with_file_deleted(m, fid).apps, m.apps[i].id),
{
    let m2 = with_file_deleted(m, fid);
    let ak = |a: crate::records::AppRecord| app_keeps_file(m, fid, a);
    crate::seq_helpers::lemma_filter_elements(m.apps, ak);
    assert forall|k: int| 0 <= k < m2.apps.len() implies (#[trigger] m2.apps[k]).id
        != m.apps[i].id by {
        let a = m2.apps[k];
        assert(m.apps.contains(a) && ak(a));
        let ka = choose|kk: int| 0 <= kk < m.apps.len() && m.apps[kk] == a;
        if a.id == m.apps[i].id {
            if ka < i {
                assert(m.apps[ka].id < m.apps[i].id);
            } else if i < ka {
                assert(m.apps[i].id < m.apps[ka].id);
            }
            assert(a == m.apps[i]);
        }
    }
}

/// Deleting an app removes every version that belonged to it; with
/// `delete_app`'s contract this is the state the operation leaves behind.
pub proof fn lemma_delete_app_removes_versions(m: StoreModel, id: i32, i: int)
    requires
        store_wf(m),
        0 <= i < m.versions.len(),
        m.versions[i].app_id == id,
    ensures
        !has_version(with_app_deleted(m, id).versions, m.versions[i].id),
{
    let m2 = with_app_deleted(m, id);
    let vk = |v: crate::records::AppVersionRecord| v.app_id != id;
    crate::seq_helpers::lemma_filter_elements(m.versions, vk);
    assert forall|k: int| 0 <= k < m2.versions.len() implies (#[trigger] m2.versions[k]).id
        != m.versions[i].id by {
        let v = m2.versions[k];
        assert(m.versions.contains(v) && vk(v));
        let kv = choose|kk: int| 0 <= kk < m.versions.len() && m.versions[kk] == v;
        if v.id == m.versions[i].id {
            if kv < i {
                assert(m.versions[kv].id < m.versions[i].id);
            } else if i < kv {
                assert(m.versions[i].id < m.versions[kv].id);
            }
            assert(v == m.versions[i]);
        }
    }
}

} // verus!
