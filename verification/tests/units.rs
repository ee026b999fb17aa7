use apkraft::api_response::ApiResponse;
use apkraft::api_response::ApiResponseCode;
use apkraft::api_response::PageInfo;
use apkraft::api_response::PaginationResponse;
use apkraft::api_response::ToApiResponse;
use apkraft::checksum::sha256_hex;
use apkraft::pagination::PageResponse;
use apkraft::pagination::PaginationQuery;
use apkraft::pagination::page_bounds;
use apkraft::pagination::total_pages;
use apkraft::text::contains_str_ci;
use apkraft::text::matches_decimal;

#[test]
fn sha256_hex_of_known_bytes() {
    assert_eq!(
        sha256_hex(b"abc"),
        "ba7816bf8f01cfea414140de5dae2223b00361a396177a9cb410ff61f20015ad"
    );
}

#[test]
fn sha256_hex_of_empty_input() {
    assert_eq!(
        sha256_hex(b""),
        "e3b0c44298fc1c149afbf4c8996fb92427ae41e4649b934ca495991b7852b855"
    );
}

#[test]
fn substring_search_is_case_insensitive() {
    assert!(contains_str_ci("Hello World", "o w"));
    assert!(contains_str_ci("HELLO", "hello"));
    assert!(contains_str_ci("com.example.App", "EXAMPLE"));
}

#[test]
fn substring_search_rejects_absent_needles() {
    assert!(!contains_str_ci("abc", "zz"));
    assert!(!contains_str_ci("", "a"));
    assert!(!contains_str_ci("short", "much longer needle"));
}

#[test]
fn substring_search_accepts_empty_needle() {
    assert!(contains_str_ci("anything", ""));
    assert!(contains_str_ci("", ""));
}

#[test]
fn decimal_match_is_exact() {
    assert!(matches_decimal("15", 15));
    assert!(matches_decimal("0", 0));
    assert!(!matches_decimal("015", 15));
    assert!(!matches_decimal("14", 15));
    assert!(!matches_decimal("", 0));
}

#[test]
fn response_codes_carry_their_numbers() {
    assert_eq!(ApiResponseCode::Success.as_u16(), 0);
    assert_eq!(ApiResponseCode::BadRequest.as_u16(), 400);
    assert_eq!(ApiResponseCode::Unauthorized.as_u16(), 401);
    assert_eq!(ApiResponseCode::Forbidden.as_u16(), 403);
    assert_eq!(ApiResponseCode::NotFound.as_u16(), 404);
    assert_eq!(ApiResponseCode::InternalError.as_u16(), 500);
    assert_eq!(ApiResponseCode::ServiceUnavailable.as_u16(), 503);
}

#[test]
fn total_pages_rounds_up() {
    assert_eq!(total_pages(0, 20), 0);
    assert_eq!(total_pages(1, 20), 1);
    assert_eq!(total_pages(20, 20), 1);
    assert_eq!(total_pages(21, 20), 2);
    assert_eq!(total_pages(7, 1), 7);
}

#[test]
fn page_bounds_clip_to_the_listing() {
    assert_eq!(page_bounds(5, 1, 2), (0, 2));
    assert_eq!(page_bounds(5, 3, 2), (4, 5));
    assert_eq!(page_bounds(5, 4, 2), (5, 5));
    assert_eq!(page_bounds(5, u64::MAX, u64::MAX), (5, 5));
}

#[test]
fn pagination_defaults_are_first_page_of_twenty() {
    let q = PaginationQuery::default();
    assert_eq!(q.page, 1);
    assert_eq!(q.page_size, 20);
}

#[test]
fn ok_envelope_wraps_data() {
    let r: ApiResponse<u32, PageInfo> = ApiResponse::ok(7, None);
    assert_eq!(r.code.as_u16(), 0);
    assert_eq!(r.data, Some(7));
    assert!(r.info.is_none());
    assert!(r.error.is_none());
}

#[test]
fn error_envelope_wraps_message() {
    let r: ApiResponse<u32, PageInfo> =
        ApiResponse::error(ApiResponseCode::NotFound, String::from("no such row"));
    assert_eq!(r.code.as_u16(), 404);
    assert!(r.data.is_none());
    assert_eq!(r.error, Some(String::from("no such row")));
}

#[test]
fn error_envelope_with_info_keeps_info() {
    let info = PageInfo { total_items: 3, total_pages: 1 };
    let r: ApiResponse<u32, PageInfo> = ApiResponse::error_with_info(
        ApiResponseCode::BadRequest,
        String::from("bad"),
        Some(info),
    );
    assert_eq!(r.code.as_u16(), 400);
    assert_eq!(r.info, Some(info));
}

#[test]
fn page_response_becomes_success_envelope() {
    let page: PageResponse<u32> = PageResponse { page: vec![3, 2, 1], total_pages: 1, total_items: 3 };
    let r = page.to_api_response();
    assert_eq!(r.code.as_u16(), 0);
    assert_eq!(r.data, Some(vec![3, 2, 1]));
    assert_eq!(r.info, Some(PageInfo { total_items: 3, total_pages: 1 }));
    assert!(r.error.is_none());
}

#[test]
fn pagination_response_echoes_the_query() {
    let page = PageResponse { page: Vec::new(), total_pages: 0, total_items: 0 };
    let q = PaginationQuery { page: 2, page_size: 5 };
    let r = PaginationResponse::new(page, &q);
    assert_eq!(r.page, 2);
    assert_eq!(r.page_size, 5);
    assert_eq!(r.total_pages, 0);
    assert_eq!(r.total_items, 0);
    assert!(r.results.is_empty());
}
