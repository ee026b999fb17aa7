//! The JSON response envelope of the API: a code, optional data, optional
//! pagination info, optional error text.

use vstd::prelude::*;

use crate::pagination::PageResponse;
use crate::pagination::PaginationQuery;
use crate::records::AppRecord;

verus! {

/// The envelope's code: success, or the failure class of the request.
#[derive(Clone, Copy, Debug, PartialEq, Eq, Structural)]
pub enum ApiResponseCode {
    Success,
    BadRequest,
    Unauthorized,
    Forbidden,
    NotFound,
    InternalError,
    ServiceUnavailable,
}

impl ApiResponseCode {
    /// The number each code is carried as on the wire: zero for success,
    /// else the matching HTTP status number.
    pub open spec fn spec_u16(self) -> u16 {
        match self {
            ApiResponseCode::Success => 0,
            ApiResponseCode::BadRequest => 400,
            ApiResponseCode::Unauthorized => 401,
            ApiResponseCode::Forbidden => 403,
            ApiResponseCode::NotFound => 404,
            ApiResponseCode::InternalError => 500,
            ApiResponseCode::ServiceUnavailable => 503,
        }
    }

    pub fn as_u16(&self) -> (r: u16)
        ensures
            r == self.spec_u16(),
    {
        match self {
            ApiResponseCode::Success => 0,
            ApiResponseCode::BadRequest => 400,
            ApiResponseCode::Unauthorized => 401,
            ApiResponseCode::Forbidden => 403,
            ApiResponseCode::NotFound => 404,
            ApiResponseCode::InternalError => 500,
            ApiResponseCode::ServiceUnavailable => 503,
        }
    }
}

/// The response envelope: absent parts are left out of the rendered JSON.
pub struct ApiResponse<T, I> {
    pub code: ApiResponseCode,
    pub data: Option<T>,
    pub info: Option<I>,
    pub error: Option<String>,
}

/// What a value answers a request with.
pub trait ToApiResponse<T, I> {
    fn to_api_response(self) -> ApiResponse<T, I>;
}

impl<T, I> ApiResponse<T, I> {
    pub fn new(code: ApiResponseCode, data: Option<T>, info: Option<I>, error: Option<String>) -> (r:
        Self)
        ensures
            r.code == code,
            r.data == data,
            r.info == info,
            r.error == error,
    {
        ApiResponse { code, data, info, error }
    }

    /// A success envelope around data.
    pub fn ok(data: T, info: Option<I>) -> (r: Self)
        ensures
            r.code == ApiResponseCode::Success,
            r.data == Some(data),
            r.info == info,
            r.error is None,
    {
        Self::new(ApiResponseCode::Success, Some(data), info, None)
    }

    /// A failure envelope around an error text.
    pub fn error(error_code: ApiResponseCode, error_msg: String) -> (r: Self)
        ensures
            r.code == error_code,
            r.data is None,
            r.info is None,
            r.error == Some(error_msg),
    {
        Self::new(error_code, None, None, Some(error_msg))
    }

    /// A failure envelope that still carries info.
    pub fn error_with_info(error_code: ApiResponseCode, error_msg: String, info: Option<I>) -> (r:
        Self)
        ensures
            r.code == error_code,
            r.data is None,
            r.info == info,
            r.error == Some(error_msg),
    {
        Self::new(error_code, None, info, Some(error_msg))
    }
}

/// The pagination totals of a list response.
#[derive(Clone, Copy, Debug, PartialEq, Eq, Structural)]
pub struct PageInfo {
    pub total_items: u64,
    pub total_pages: u64,
}

impl<T> ToApiResponse<Vec<T>, PageInfo> for PageResponse<T> {
    /// A success envelope around one page of results, with the totals as
    /// its info part.
    fn to_api_response(self) -> (r: ApiResponse<Vec<T>, PageInfo>)
        ensures
            r.code == ApiResponseCode::Success,
            r.data == Some(self.page),
            r.info == Some(PageInfo { total_items: self.total_items, total_pages: self.total_pages }),
            r.error is None,
    {
        let info = PageInfo { total_items: self.total_items, total_pages: self.total_pages };
        ApiResponse::ok(self.page, Some(info))
    }
}

/// A rendered page of the app listing together with how it was requested.
pub struct PaginationResponse {
    pub results: Vec<AppRecord>,
    pub page: u64,
    pub page_size: u64,
    pub total_pages: u64,
    pub total_items: u64,
}

impl PaginationResponse {
    pub fn new(data: PageResponse<AppRecord>, pagination_query: &PaginationQuery) -> (r: Self)
        ensures
            r.results == data.page,
            r.page == pagination_query.page,
            r.page_size == pagination_query.page_size,
            r.total_pages == data.total_pages,
            r.total_items == data.total_items,
    {
        PaginationResponse {
            results: data.page,
            page: pagination_query.page,
            page_size: pagination_query.page_size,
            total_pages: data.total_pages,
            total_items: data.total_items,
        }
    }
}

} // verus!
