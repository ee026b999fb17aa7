use apkraft::pagination::PaginationQuery;
use apkraft::records::AppQuery;
use apkraft::records::AppVersionQuery;
use apkraft::records::CreateApp;
use apkraft::records::CreateAppVersion;
use apkraft::records::CreatePlatform;
use apkraft::records::FileQuery;
use apkraft::store::Store;

fn paging(page: u64, page_size: u64) -> PaginationQuery {
    PaginationQuery { page, page_size }
}

fn app_query(
    name: Option<&str>,
    bundle_id: Option<&str>,
    description: Option<&str>,
    platform_id: Option<i32>,
    pagination: PaginationQuery,
) -> AppQuery {
    AppQuery {
        name: name.map(String::from),
        bundle_id: bundle_id.map(String::from),
        description: description.map(String::from),
        platform_id,
        pagination,
    }
}

/// A store with two platforms and three apps.
fn populated() -> (Store, i32, i32, Vec<i32>) {
    let mut s = Store::new();
    let android = s
        .create_platform(&CreatePlatform { name: String::from("android"), code: 1, icon_url: None }, 1)
        .unwrap();
    let ios = s
        .create_platform(&CreatePlatform { name: String::from("ios"), code: 2, icon_url: None }, 2)
        .unwrap();
    let mut ids = Vec::new();
    let apps = [
        ("Alpha Notes", "com.example.alpha", Some("note taking"), android.id),
        ("Beta Mail", "com.example.beta", Some("a MAIL client"), android.id),
        ("Gamma Maps", "org.sample.gamma", None, ios.id),
    ];
    for (i, (name, bundle, descr, pid)) in apps.iter().enumerate() {
        let a = s
            .create_app(
                &CreateApp {
                    name: String::from(*name),
                    bundle_id: String::from(*bundle),
                    icon_file_id: None,
                    current_version_id: None,
                    description: descr.map(String::from),
                    platform_id: *pid,
                },
                100 + i as i64,
            )
            .unwrap();
        ids.push(a.id);
    }
    (s, android.id, ios.id, ids)
}

#[test]
fn empty_table_lists_nothing_with_zero_totals() {
    let s = Store::new();
    let r = s.query_files(&FileQuery { name: None, mime: None, pagination: paging(1, 20) });
    assert!(r.page.is_empty());
    assert_eq!(r.total_items, 0);
    assert_eq!(r.total_pages, 0);
}

#[test]
fn listing_is_newest_first() {
    let (s, _android, _ios, ids) = populated();
    let r = s.query_apps(&app_query(None, None, None, None, paging(1, 20)));
    assert_eq!(r.total_items, 3);
    assert_eq!(r.total_pages, 1);
    let listed: Vec<i32> = r.page.iter().map(|a| a.id).collect();
    assert_eq!(listed, vec![ids[2], ids[1], ids[0]]);
}

#[test]
fn pages_slice_the_listing() {
    let (s, _android, _ios, ids) = populated();
    let first = s.query_apps(&app_query(None, None, None, None, paging(1, 2)));
    assert_eq!(first.total_pages, 2);
    assert_eq!(first.page.len(), 2);
    assert_eq!(first.page[0].id, ids[2]);
    let second = s.query_apps(&app_query(None, None, None, None, paging(2, 2)));
    assert_eq!(second.page.len(), 1);
    assert_eq!(second.page[0].id, ids[0]);
    let beyond = s.query_apps(&app_query(None, None, None, None, paging(3, 2)));
    assert!(beyond.page.is_empty());
    assert_eq!(beyond.total_items, 3);
}

#[test]
fn out_of_range_pagination_values_fall_back() {
    let (s, _android, _ios, _ids) = populated();
    let r = s.query_apps(&app_query(None, None, None, None, paging(0, 0)));
    assert_eq!(r.page.len(), 3);
    assert_eq!(r.total_pages, 1);
}

#[test]
fn name_filter_is_a_case_insensitive_substring() {
    let (s, _android, _ios, ids) = populated();
    let r = s.query_apps(&app_query(Some("alpha"), None, None, None, paging(1, 20)));
    assert_eq!(r.total_items, 1);
    assert_eq!(r.page[0].id, ids[0]);
}

#[test]
fn bundle_filter_narrows_the_listing() {
    let (s, _android, _ios, ids) = populated();
    let r = s.query_apps(&app_query(None, Some("com.example"), None, None, paging(1, 20)));
    assert_eq!(r.total_items, 2);
    let listed: Vec<i32> = r.page.iter().map(|a| a.id).collect();
    assert_eq!(listed, vec![ids[1], ids[0]]);
}

#[test]
fn description_filter_skips_rows_without_a_description() {
    let (s, _android, _ios, ids) = populated();
    let r = s.query_apps(&app_query(None, None, Some("mail"), None, paging(1, 20)));
    assert_eq!(r.total_items, 1);
    assert_eq!(r.page[0].id, ids[1]);
}

#[test]
fn platform_filter_is_an_exact_match() {
    let (s, android, ios, ids) = populated();
    let on_android = s.query_apps(&app_query(None, None, None, Some(android), paging(1, 20)));
    assert_eq!(on_android.total_items, 2);
    let on_ios = s.query_apps(&app_query(None, None, None, Some(ios), paging(1, 20)));
    assert_eq!(on_ios.total_items, 1);
    assert_eq!(on_ios.page[0].id, ids[2]);
}

#[test]
fn filters_combine_with_and_semantics() {
    let (s, android, _ios, _ids) = populated();
    let r = s.query_apps(&app_query(Some("maps"), None, None, Some(android), paging(1, 20)));
    assert_eq!(r.total_items, 0);
}

#[test]
fn version_filters_read_their_own_columns() {
    let mut s = Store::new();
    let p = s
        .create_platform(&CreatePlatform { name: String::from("android"), code: 1, icon_url: None }, 1)
        .unwrap();
    let f = s
        .upload_file(
            String::from("key-1"),
            String::from("app.apk"),
            String::from("application/octet-stream"),
            vec![1],
            None,
            2,
        )
        .unwrap();
    let a = s
        .create_app(
            &CreateApp {
                name: String::from("demo"),
                bundle_id: String::from("com.example.demo"),
                icon_file_id: None,
                current_version_id: None,
                description: None,
                platform_id: p.id,
            },
            3,
        )
        .unwrap();
    let first = s
        .create_app_version(
            &CreateAppVersion {
                app_id: a.id,
                version_code: String::from("100"),
                version_name: String::from("1.0"),
                release_notes: None,
                apk_file_id: f.id,
                publish_immediately: None,
            },
            4,
        )
        .unwrap();
    let second = s
        .create_app_version(
            &CreateAppVersion {
                app_id: a.id,
                version_code: String::from("200"),
                version_name: String::from("2.0"),
                release_notes: None,
                apk_file_id: f.id,
                publish_immediately: None,
            },
            5,
        )
        .unwrap();

    let by_code = s.query_app_versions(&AppVersionQuery {
        version_name: None,
        version_code: Some(String::from("200")),
        pagination: paging(1, 20),
    });
    assert_eq!(by_code.total_items, 1);
    assert_eq!(by_code.page[0].id, second.id);

    let by_name = s.query_app_versions(&AppVersionQuery {
        version_name: Some(String::from("1.0")),
        version_code: None,
        pagination: paging(1, 20),
    });
    assert_eq!(by_name.total_items, 1);
    assert_eq!(by_name.page[0].id, first.id);
}

#[test]
fn file_filters_match_name_and_mime() {
    let mut s = Store::new();
    s.upload_file(
        String::from("k1"),
        String::from("Report.PDF"),
        String::from("application/pdf"),
        vec![1],
        None,
        1,
    )
    .unwrap();
    s.upload_file(
        String::from("k2"),
        String::from("photo.png"),
        String::from("image/png"),
        vec![2],
        None,
        2,
    )
    .unwrap();
    let by_name = s.query_files(&FileQuery {
        name: Some(String::from("report")),
        mime: None,
        pagination: paging(1, 20),
    });
    assert_eq!(by_name.total_items, 1);
    assert_eq!(by_name.page[0].name, "Report.PDF");
    let by_mime = s.query_files(&FileQuery {
        name: None,
        mime: Some(String::from("image/")),
        pagination: paging(1, 20),
    });
    assert_eq!(by_mime.total_items, 1);
    assert_eq!(by_mime.page[0].name, "photo.png");
    let both = s.query_files(&FileQuery {
        name: Some(String::from("photo")),
        mime: Some(String::from("application")),
        pagination: paging(1, 20),
    });
    assert_eq!(both.total_items, 0);
}
