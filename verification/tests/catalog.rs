use apkraft::records::CreateApp;
use apkraft::records::CreateAppVersion;
use apkraft::records::CreatePlatform;
use apkraft::records::Params;
use apkraft::records::PatchAppVersion;
use apkraft::records::Revision;
use apkraft::records::StoreError;
use apkraft::store::Store;

fn platform(name: &str, code: u16) -> CreatePlatform {
    CreatePlatform { name: String::from(name), code, icon_url: None }
}

fn app(name: &str, bundle: &str, platform_id: i32) -> CreateApp {
    CreateApp {
        name: String::from(name),
        bundle_id: String::from(bundle),
        icon_file_id: None,
        current_version_id: None,
        description: None,
        platform_id,
    }
}

fn version(app_id: i32, name: &str, code: &str, apk_file_id: i32) -> CreateAppVersion {
    CreateAppVersion {
        app_id,
        version_code: String::from(code),
        version_name: String::from(name),
        release_notes: None,
        apk_file_id,
        publish_immediately: None,
    }
}

/// A store holding one platform, one uploaded file and one app.
fn seeded() -> (Store, i32, i32, i32) {
    let mut s = Store::new();
    let p = s.create_platform(&platform("android", 1), 1_000).unwrap();
    let f = s
        .upload_file(
            String::from("key-1"),
            String::from("app.apk"),
            String::from("application/octet-stream"),
            vec![1, 2, 3, 4],
            None,
            1_001,
        )
        .unwrap();
    let a = s.create_app(&app("demo", "com.example.demo", p.id), 1_002).unwrap();
    (s, p.id, f.id, a.id)
}

#[test]
fn create_platform_assigns_ids_and_stamps() {
    let mut s = Store::new();
    let p = s.create_platform(&platform("android", 7), 42).unwrap();
    assert_eq!(p.id, 1);
    assert_eq!(p.code, 7);
    assert_eq!(p.created_at, 42);
    assert_eq!(p.updated_at, 42);
    let got = s.get_platform(p.id).unwrap();
    assert_eq!(got.name, "android");
    let all = s.list_platforms();
    assert_eq!(all.len(), 1);
}

#[test]
fn duplicate_platform_code_is_bad_request() {
    let mut s = Store::new();
    s.create_platform(&platform("android", 7), 1).unwrap();
    match s.create_platform(&platform("other", 7), 2) {
        Err(e) => assert_eq!(e, StoreError::BadRequest),
        Ok(_) => panic!("duplicate platform code accepted"),
    }
    assert_eq!(s.list_platforms().len(), 1);
}

#[test]
fn update_platform_replaces_fields_and_keeps_created_at() {
    let mut s = Store::new();
    let p = s.create_platform(&platform("android", 7), 10).unwrap();
    let updated = s.update_platform(p.id, &platform("ios", 9), 20).unwrap();
    assert_eq!(updated.id, p.id);
    assert_eq!(updated.code, 9);
    assert_eq!(updated.created_at, 10);
    assert_eq!(updated.updated_at, 20);
}

#[test]
fn duplicate_bundle_id_is_rejected_and_creates_no_row() {
    let (mut s, pid, _fid, _aid) = seeded();
    let before = s.query_apps(&apkraft::records::AppQuery {
        name: None,
        bundle_id: None,
        description: None,
        platform_id: None,
        pagination: apkraft::pagination::PaginationQuery::default(),
    });
    let r = s.create_app(&app("copy", "com.example.demo", pid), 2_000);
    match r {
        Err(e) => assert_eq!(e, StoreError::BadRequest),
        Ok(_) => panic!("duplicate bundle id accepted"),
    }
    let after = s.query_apps(&apkraft::records::AppQuery {
        name: None,
        bundle_id: None,
        description: None,
        platform_id: None,
        pagination: apkraft::pagination::PaginationQuery::default(),
    });
    assert_eq!(before.total_items, after.total_items);
}

#[test]
fn create_app_with_missing_platform_is_not_found() {
    let mut s = Store::new();
    let r = s.create_app(&app("demo", "com.example.demo", 99), 1);
    match r {
        Err(e) => assert_eq!(e, StoreError::NotFound),
        Ok(_) => panic!("missing platform accepted"),
    }
}

#[test]
fn create_app_naming_a_current_version_is_bad_request() {
    let (mut s, pid, _fid, _aid) = seeded();
    let mut data = app("fresh", "com.example.fresh", pid);
    data.current_version_id = Some(1);
    match s.create_app(&data, 3_000) {
        Err(e) => assert_eq!(e, StoreError::BadRequest),
        Ok(_) => panic!("current version on a fresh app accepted"),
    }
}

#[test]
fn duplicate_version_triple_is_rejected_and_creates_no_row() {
    let (mut s, _pid, fid, aid) = seeded();
    s.create_app_version(&version(aid, "1.0", "100", fid), 5_000).unwrap();
    let r = s.create_app_version(&version(aid, "1.0", "100", fid), 5_001);
    match r {
        Err(e) => assert_eq!(e, StoreError::BadRequest),
        Ok(_) => panic!("duplicate triple accepted"),
    }
    let q = apkraft::records::AppVersionQuery {
        version_name: None,
        version_code: None,
        pagination: apkraft::pagination::PaginationQuery::default(),
    };
    assert_eq!(s.query_app_versions(&q).total_items, 1);
}

#[test]
fn same_name_and_code_under_another_app_is_accepted() {
    let (mut s, pid, fid, aid) = seeded();
    s.create_app_version(&version(aid, "1.0", "100", fid), 5_000).unwrap();
    let other = s.create_app(&app("second", "com.example.second", pid), 5_001).unwrap();
    assert!(s.create_app_version(&version(other.id, "1.0", "100", fid), 5_002).is_ok());
}

#[test]
fn publish_immediately_points_the_app_at_the_new_version() {
    let (mut s, _pid, fid, aid) = seeded();
    let mut data = version(aid, "2.0", "15", fid);
    data.publish_immediately = Some(true);
    let v = s.create_app_version(&data, 6_000).unwrap();
    assert_eq!(v.published_at, Some(6_000));
    let a = s.get_app(aid).unwrap();
    assert_eq!(a.current_version_id, Some(v.id));
}

#[test]
fn create_without_publish_leaves_the_pointer_alone() {
    let (mut s, _pid, fid, aid) = seeded();
    let v = s.create_app_version(&version(aid, "2.0", "15", fid), 6_000).unwrap();
    assert_eq!(v.published_at, None);
    let a = s.get_app(aid).unwrap();
    assert_eq!(a.current_version_id, None);
}

#[test]
fn publish_sets_timestamp_and_pointer_and_unpublish_clears_both() {
    let (mut s, _pid, fid, aid) = seeded();
    let v = s.create_app_version(&version(aid, "2.0", "15", fid), 6_000).unwrap();
    s.publish_app_version(v.id, true, 7_000).unwrap();
    let published = s.get_app_version(v.id).unwrap();
    assert_eq!(published.published_at, Some(7_000));
    assert_eq!(s.get_app(aid).unwrap().current_version_id, Some(v.id));

    s.publish_app_version(v.id, false, 8_000).unwrap();
    let unpublished = s.get_app_version(v.id).unwrap();
    assert_eq!(unpublished.published_at, None);
    assert_eq!(s.get_app(aid).unwrap().current_version_id, None);
}

#[test]
fn patch_updates_only_named_fields() {
    let (mut s, _pid, fid, aid) = seeded();
    let v = s.create_app_version(&version(aid, "2.0", "15", fid), 6_000).unwrap();
    let patch = PatchAppVersion {
        version_code: Some(String::from("16")),
        version_name: None,
        release_notes: Some(String::from("fixes")),
    };
    let patched = s.update_app_version(v.id, &patch, 6_500).unwrap();
    assert_eq!(patched.version_code, "16");
    assert_eq!(patched.version_name, "2.0");
    assert_eq!(patched.release_notes, Some(String::from("fixes")));
    assert_eq!(patched.created_at, 6_000);
    assert_eq!(patched.updated_at, 6_500);
}

#[test]
fn patch_into_an_existing_triple_is_bad_request() {
    let (mut s, _pid, fid, aid) = seeded();
    s.create_app_version(&version(aid, "1.0", "100", fid), 5_000).unwrap();
    let v = s.create_app_version(&version(aid, "1.1", "101", fid), 5_001).unwrap();
    let patch = PatchAppVersion {
        version_code: Some(String::from("100")),
        version_name: Some(String::from("1.0")),
        release_notes: None,
    };
    match s.update_app_version(v.id, &patch, 5_002) {
        Err(e) => assert_eq!(e, StoreError::BadRequest),
        Ok(_) => panic!("patch into a taken triple accepted"),
    }
}

#[test]
fn check_update_without_current_version_reports_nothing() {
    let (s, _pid, _fid, aid) = seeded();
    let info = s
        .check_update(aid, &Revision { version_name: String::from("1.0"), build_number: 1 })
        .unwrap();
    assert!(!info.update_available);
    assert!(info.latest_version.is_none());
}

#[test]
fn check_update_with_matching_revision_reports_nothing() {
    let (mut s, _pid, fid, aid) = seeded();
    let mut data = version(aid, "2.0", "15", fid);
    data.publish_immediately = Some(true);
    s.create_app_version(&data, 6_000).unwrap();
    let info = s
        .check_update(aid, &Revision { version_name: String::from("2.0"), build_number: 15 })
        .unwrap();
    assert!(!info.update_available);
    assert!(info.latest_version.is_none());
}

#[test]
fn check_update_with_differing_revision_points_at_the_current_version() {
    let (mut s, _pid, fid, aid) = seeded();
    let mut data = version(aid, "2.0", "15", fid);
    data.publish_immediately = Some(true);
    let v = s.create_app_version(&data, 6_000).unwrap();
    let apk = s.get_file(fid).unwrap();
    let info = s
        .check_update(aid, &Revision { version_name: String::from("1.9"), build_number: 14 })
        .unwrap();
    assert!(info.update_available);
    let latest = info.latest_version.expect("an update must name the version");
    assert_eq!(latest.id, v.id);
    assert_eq!(latest.name, "2.0");
    assert_eq!(latest.build_number, "15");
    assert_eq!(latest.file_url, apk.path);
}

#[test]
fn check_update_treats_either_field_as_a_difference() {
    let (mut s, _pid, fid, aid) = seeded();
    let mut data = version(aid, "2.0", "15", fid);
    data.publish_immediately = Some(true);
    s.create_app_version(&data, 6_000).unwrap();
    let same_name = s
        .check_update(aid, &Revision { version_name: String::from("2.0"), build_number: 14 })
        .unwrap();
    assert!(same_name.update_available);
    let same_build = s
        .check_update(aid, &Revision { version_name: String::from("2.1"), build_number: 15 })
        .unwrap();
    assert!(same_build.update_available);
}

#[test]
fn check_update_on_unknown_app_is_not_found() {
    let s = Store::new();
    let r = s.check_update(5, &Revision { version_name: String::from("1"), build_number: 1 });
    match r {
        Err(e) => assert_eq!(e, StoreError::NotFound),
        Ok(_) => panic!("unknown app answered"),
    }
}

#[test]
fn upload_records_checksum_and_size_of_the_exact_bytes() {
    let mut s = Store::new();
    let rec = s
        .upload_file(
            String::from("key-abc"),
            String::from("a.bin"),
            String::from("application/octet-stream"),
            b"abc".to_vec(),
            Some(String::from("sample")),
            9_000,
        )
        .unwrap();
    assert_eq!(
        rec.checksum_sha256,
        "ba7816bf8f01cfea414140de5dae2223b00361a396177a9cb410ff61f20015ad"
    );
    assert_eq!(rec.size_bytes, 3);
    assert_eq!(rec.path, "key-abc");
    assert_eq!(rec.name, "a.bin");
    assert_eq!(rec.description, Some(String::from("sample")));
}

#[test]
fn upload_with_a_taken_key_is_bad_request() {
    let mut s = Store::new();
    s.upload_file(
        String::from("key-abc"),
        String::from("a.bin"),
        String::from("text/plain"),
        vec![1],
        None,
        1,
    )
    .unwrap();
    let r = s.upload_file(
        String::from("key-abc"),
        String::from("b.bin"),
        String::from("text/plain"),
        vec![2],
        None,
        2,
    );
    match r {
        Err(e) => assert_eq!(e, StoreError::BadRequest),
        Ok(_) => panic!("key collision accepted"),
    }
}

#[test]
fn download_returns_the_uploaded_bytes() {
    let mut s = Store::new();
    let payload = vec![9, 8, 7, 6, 5];
    let rec = s
        .upload_file(
            String::from("key-dl"),
            String::from("a.bin"),
            String::from("application/octet-stream"),
            payload.clone(),
            None,
            1,
        )
        .unwrap();
    let (row, bytes) = s.download(&String::from("key-dl")).unwrap();
    assert_eq!(bytes, payload);
    assert_eq!(row.id, rec.id);
    assert_eq!(row.mime, "application/octet-stream");
    assert_eq!(bytes.len() as i64, row.size_bytes);
}

#[test]
fn download_of_an_unknown_key_is_not_found() {
    let s = Store::new();
    match s.download(&String::from("nope")) {
        Err(e) => assert_eq!(e, StoreError::NotFound),
        Ok(_) => panic!("unknown key served"),
    }
}

#[test]
fn file_update_touches_only_the_description() {
    let mut s = Store::new();
    let rec = s
        .upload_file(
            String::from("key-1"),
            String::from("a.bin"),
            String::from("text/plain"),
            b"abc".to_vec(),
            None,
            1,
        )
        .unwrap();
    let updated = s
        .update_file(rec.id, &Params { description: Some(String::from("notes")) }, 2)
        .unwrap();
    assert_eq!(updated.description, Some(String::from("notes")));
    assert_eq!(updated.checksum_sha256, rec.checksum_sha256);
    assert_eq!(updated.size_bytes, rec.size_bytes);
    assert_eq!(updated.updated_at, 2);
    assert_eq!(updated.created_at, 1);
}

#[test]
fn deleting_an_app_cascades_to_its_versions() {
    let (mut s, _pid, fid, aid) = seeded();
    let v = s.create_app_version(&version(aid, "1.0", "100", fid), 5_000).unwrap();
    s.delete_app(aid).unwrap();
    match s.get_app(aid) {
        Err(e) => assert_eq!(e, StoreError::NotFound),
        Ok(_) => panic!("deleted app still there"),
    }
    match s.get_app_version(v.id) {
        Err(e) => assert_eq!(e, StoreError::NotFound),
        Ok(_) => panic!("version survived its app"),
    }
}

#[test]
fn deleting_a_platform_cascades_to_apps_and_versions() {
    let (mut s, pid, fid, aid) = seeded();
    let v = s.create_app_version(&version(aid, "1.0", "100", fid), 5_000).unwrap();
    s.delete_platform(pid).unwrap();
    assert!(s.get_platform(pid).is_err());
    assert!(s.get_app(aid).is_err());
    assert!(s.get_app_version(v.id).is_err());
    assert!(s.get_file(fid).is_ok());
}

#[test]
fn deleting_an_icon_file_cascades_to_the_referring_app() {
    let (mut s, pid, fid, _aid) = seeded();
    let mut data = app("icons", "com.example.icons", pid);
    data.icon_file_id = Some(fid);
    let a = s.create_app(&data, 4_000).unwrap();
    s.delete_file(fid).unwrap();
    assert!(s.get_file(fid).is_err());
    match s.get_app(a.id) {
        Err(e) => assert_eq!(e, StoreError::NotFound),
        Ok(_) => panic!("app survived its icon file"),
    }
}

#[test]
fn deleting_an_apk_file_cascades_to_the_referring_version() {
    let (mut s, _pid, fid, aid) = seeded();
    let v = s.create_app_version(&version(aid, "1.0", "100", fid), 5_000).unwrap();
    s.delete_file(fid).unwrap();
    assert!(s.get_app_version(v.id).is_err());
    assert!(s.get_app(aid).is_ok());
}

#[test]
fn deleting_the_current_version_cascades_to_the_holding_app() {
    let (mut s, _pid, fid, aid) = seeded();
    let mut data = version(aid, "1.0", "100", fid);
    data.publish_immediately = Some(true);
    let v = s.create_app_version(&data, 5_000).unwrap();
    s.delete_app_version(v.id).unwrap();
    assert!(s.get_app_version(v.id).is_err());
    assert!(s.get_app(aid).is_err());
}

#[test]
fn deleting_an_uncurrent_version_spares_its_app() {
    let (mut s, _pid, fid, aid) = seeded();
    let v = s.create_app_version(&version(aid, "1.0", "100", fid), 5_000).unwrap();
    s.delete_app_version(v.id).unwrap();
    assert!(s.get_app_version(v.id).is_err());
    assert!(s.get_app(aid).is_ok());
}

#[test]
fn delete_of_missing_rows_is_not_found() {
    let mut s = Store::new();
    assert!(s.delete_platform(1).is_err());
    assert!(s.delete_app(1).is_err());
    assert!(s.delete_app_version(1).is_err());
    assert!(s.delete_file(1).is_err());
}

#[test]
fn ambient_upload_draws_a_fresh_key_and_checksums() {
    let mut s = Store::new();
    let rec = s
        .upload(
            String::from("a.bin"),
            String::from("text/plain"),
            b"abc".to_vec(),
            None,
        )
        .unwrap();
    assert_eq!(rec.path.len(), 36);
    assert_eq!(
        rec.checksum_sha256,
        "ba7816bf8f01cfea414140de5dae2223b00361a396177a9cb410ff61f20015ad"
    );
    let (_row, bytes) = s.download(&rec.path).unwrap();
    assert_eq!(bytes, b"abc".to_vec());
}

#[test]
fn ambient_publish_stamps_a_timestamp() {
    let (mut s, _pid, fid, aid) = seeded();
    let v = s.create_app_version(&version(aid, "1.0", "100", fid), 5_000).unwrap();
    s.publish_app_version_now(v.id, true).unwrap();
    assert!(s.get_app_version(v.id).unwrap().published_at.is_some());
    assert_eq!(s.get_app(aid).unwrap().current_version_id, Some(v.id));
}

#[test]
fn clock_stamped_operations_mirror_their_timed_twins() {
    let mut s = Store::new();
    let p = s.create_platform_now(&platform("android", 1)).unwrap();
    let a = s.create_app_now(&app("demo", "com.example.demo", p.id)).unwrap();
    assert_eq!(a.created_at, a.updated_at);
    match s.create_app_now(&app("copy", "com.example.demo", p.id)) {
        Err(e) => assert_eq!(e, StoreError::BadRequest),
        Ok(_) => panic!("duplicate bundle id accepted"),
    }
    let f = s
        .upload(String::from("a.bin"), String::from("text/plain"), vec![1], None)
        .unwrap();
    let touched = s
        .update_file_now(f.id, &Params { description: Some(String::from("d")) })
        .unwrap();
    assert_eq!(touched.description, Some(String::from("d")));
    let renamed = s.update_app_now(a.id, &app("demo2", "com.example.demo", p.id)).unwrap();
    assert_eq!(renamed.name, "demo2");
    let repl = s.update_platform_now(p.id, &platform("android-tv", 2)).unwrap();
    assert_eq!(repl.code, 2);
}

#[test]
fn update_app_can_point_at_an_own_version_only() {
    let (mut s, pid, fid, aid) = seeded();
    let v = s.create_app_version(&version(aid, "1.0", "100", fid), 5_000).unwrap();
    let other = s.create_app(&app("other", "com.example.other", pid), 5_001).unwrap();

    let mut own = app("demo", "com.example.demo", pid);
    own.current_version_id = Some(v.id);
    assert!(s.update_app(aid, &own, 5_002).is_ok());
    assert_eq!(s.get_app(aid).unwrap().current_version_id, Some(v.id));

    let mut foreign = app("other", "com.example.other", pid);
    foreign.current_version_id = Some(v.id);
    match s.update_app(other.id, &foreign, 5_003) {
        Err(e) => assert_eq!(e, StoreError::BadRequest),
        Ok(_) => panic!("another app's version accepted as current"),
    }
}

#[test]
fn update_app_rejects_a_taken_bundle_id() {
    let (mut s, pid, _fid, aid) = seeded();
    s.create_app(&app("other", "com.example.other", pid), 5_000).unwrap();
    let stolen = app("demo", "com.example.other", pid);
    match s.update_app(aid, &stolen, 5_001) {
        Err(e) => assert_eq!(e, StoreError::BadRequest),
        Ok(_) => panic!("taken bundle id accepted on update"),
    }
}
