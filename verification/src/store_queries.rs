//! The list endpoints: filters AND-combined, newest row (highest id)
//! first, paginated.

use vstd::prelude::*;

use crate::pagination::PageResponse;
use crate::pagination::effective_page;
use crate::pagination::effective_page_size;
use crate::pagination::page_bounds;
use crate::pagination::page_end;
use crate::pagination::page_start;
use crate::pagination::pages_of;
use crate::pagination::total_pages;
use crate::records::AppQuery;
use crate::records::AppRecord;
use crate::records::AppVersionQuery;
use crate::records::AppVersionRecord;
use crate::records::FileQuery;
use crate::records::FileRecord;
use crate::records::app_matches;
use crate::records::app_matches_ex;
use crate::records::app_version_matches;
use crate::records::app_version_matches_ex;
use crate::records::file_matches;
use crate::records::file_matches_ex;
use crate::seq_helpers::lemma_filter_take_step;
use crate::seq_helpers::lemma_take_all;
use crate::store::Store;
use crate::store::StoreModel;

verus! {

/// The apps the filters keep, in table (ascending id) order.
pub open spec fn matched_apps(m: StoreModel, q: AppQuery) -> Seq<AppRecord> {
    m.apps.filter(|a: AppRecord| app_matches(a, q))
}

/// The versions the filters keep, in table (ascending id) order.
pub open spec fn matched_versions(m: StoreModel, q: AppVersionQuery) -> Seq<AppVersionRecord> {
    m.versions.filter(|v: AppVersionRecord| app_version_matches(v, q))
}

/// The files the filters keep, in table (ascending id) order.
pub open spec fn matched_files(m: StoreModel, q: FileQuery) -> Seq<FileRecord> {
    m.files.filter(|f: FileRecord| file_matches(f, q))
}

impl Store {
    /// The filtered app listing, newest first, one page of it.
    pub fn query_apps(&self, q: &AppQuery) -> (r: PageResponse<AppRecord>)
        ensures
            ({
                let listing = matched_apps(self@, *q).reverse();
                let page = effective_page(q.pagination.page) as nat;
                let size = effective_page_size(q.pagination.page_size) as nat;
                &&& r.total_items == listing.len()
                &&& r.total_pages == pages_of(listing.len(), size)
                &&& r.page@ == listing.subrange(
                    page_start(listing.len(), page, size) as int,
                    page_end(listing.len(), page, size) as int,
                )
            }),
    {
        let mut filtered: Vec<AppRecord> = Vec::new();
        let mut i: usize = 0;
        while i < self.apps_len()
            invariant
                i <= self@.apps.len(),
                filtered@ == self@.apps.take(i as int).filter(
                    |a: AppRecord| app_matches(a, *q),
                ),
            decreases self@.apps.len() - i,
        {
            let keep = app_matches_ex(self.app_at(i), q);
            proof {
                lemma_filter_take_step(self@.apps, |a: AppRecord| app_matches(a, *q), i as int);
            }
            if keep {
                filtered.push(self.app_at(i).clone());
            }
            i += 1;
        }
        proof {
            lemma_take_all(self@.apps);
            assert(filtered@ == matched_apps(self@, *q));
        }
        let total = filtered.len();
        let page = if q.pagination.page < 1 {
            1
        } else {
            q.pagination.page
        };
        let size = if q.pagination.page_size < 1 {
            20
        } else {
            q.pagination.page_size
        };
        let pages = total_pages(total as u64, size);
        let bounds = page_bounds(total as u64, page, size);
        let start = bounds.0 as usize;
        let end = bounds.1 as usize;
        let ghost listing = matched_apps(self@, *q).reverse();
        let mut out: Vec<AppRecord> = Vec::new();
        let mut k: usize = start;
        while k < end
            invariant
                listing == matched_apps(self@, *q).reverse(),
                filtered@ == matched_apps(self@, *q),
                total == filtered@.len(),
                start <= k <= end <= total,
                out@ == listing.subrange(start as int, k as int),
            decreases end - k,
        {
            proof {
                assert(listing[k as int] == filtered@[total - 1 - k]);
            }
            out.push(filtered[total - 1 - k].clone());
            proof {
                assert(out@ =~= listing.subrange(start as int, k + 1));
            }
            k += 1;
        }
        PageResponse { page: out, total_pages: pages, total_items: total as u64 }
    }

    /// The filtered version listing, newest first, one page of it.
    pub fn query_app_versions(&self, q: &AppVersionQuery) -> (r: PageResponse<AppVersionRecord>)
        ensures
            ({
                let listing = matched_versions(self@, *q).reverse();
                let page = effective_page(q.pagination.page) as nat;
                let size = effective_page_size(q.pagination.page_size) as nat;
                &&& r.total_items == listing.len()
                &&& r.total_pages == pages_of(listing.len(), size)
                &&& r.page@ == listing.subrange(
                    page_start(listing.len(), page, size) as int,
                    page_end(listing.len(), page, size) as int,
                )
            }),
    {
        let mut filtered: Vec<AppVersionRecord> = Vec::new();
        let mut i: usize = 0;
        while i < self.versions_len()
            invariant
                i <= self@.versions.len(),
                filtered@ == self@.versions.take(i as int).filter(
                    |v: AppVersionRecord| app_version_matches(v, *q),
                ),
            decreases self@.versions.len() - i,
        {
            let keep = app_version_matches_ex(self.version_at(i), q);
            proof {
                lemma_filter_take_step(
                    self@.versions,
                    |v: AppVersionRecord| app_version_matches(v, *q),
                    i as int,
                );
            }
            if keep {
                filtered.push(self.version_at(i).clone());
            }
            i += 1;
        }
        proof {
            lemma_take_all(self@.versions);
            assert(filtered@ == matched_versions(self@, *q));
        }
        let total = filtered.len();
        let page = if q.pagination.page < 1 {
            1
        } else {
            q.pagination.page
        };
        let size = if q.pagination.page_size < 1 {
            20
        } else {
            q.pagination.page_size
        };
        let pages = total_pages(total as u64, size);
        let bounds = page_bounds(total as u64, page, size);
        let start = bounds.0 as usize;
        let end = bounds.1 as usize;
        let ghost listing = matched_versions(self@, *q).reverse();
        let mut out: Vec<AppVersionRecord> = Vec::new();
        let mut k: usize = start;
        while k < end
            invariant
                listing == matched_versions(self@, *q).reverse(),
                filtered@ == matched_versions(self@, *q),
                total == filtered@.len(),
                start <= k <= end <= total,
                out@ == listing.subrange(start as int, k as int),
            decreases end - k,
        {
            proof {
                assert(listing[k as int] == filtered@[total - 1 - k]);
            }
            out.push(filtered[total - 1 - k].clone());
            proof {
                assert(out@ =~= listing.subrange(start as int, k + 1));
            }
            k += 1;
        }
        PageResponse { page: out, total_pages: pages, total_items: total as u64 }
    }

    /// The filtered file listing, newest first, one page of it.
    pub fn query_files(&self, q: &FileQuery) -> (r: PageResponse<FileRecord>)
        ensures
            ({
                let listing = matched_files(self@, *q).reverse();
                let page = effective_page(q.pagination.page) as nat;
                let size = effective_page_size(q.pagination.page_size) as nat;
                &&& r.total_items == listing.len()
                &&& r.total_pages == pages_of(listing.len(), size)
                &&& r.page@ == listing.subrange(
                    page_start(listing.len(), page, size) as int,
                    page_end(listing.len(), page, size) as int,
                )
            }),
    {
        let mut filtered: Vec<FileRecord> = Vec::new();
        let mut i: usize = 0;
        while i < self.files_len()
            invariant
                i <= self@.files.len(),
                filtered@ == self@.files.take(i as int).filter(
                    |f: FileRecord| file_matches(f, *q),
                ),
            decreases self@.files.len() - i,
        {
            let keep = file_matches_ex(self.file_at(i), q);
            proof {
                lemma_filter_take_step(self@.files, |f: FileRecord| file_matches(f, *q), i as int);
            }
            if keep {
                filtered.push(self.file_at(i).clone());
            }
            i += 1;
        }
        proof {
            lemma_take_all(self@.files);
            assert(filtered@ == matched_files(self@, *q));
        }
        let total = filtered.len();
        let page = if q.pagination.page < 1 {
            1
        } else {
            q.pagination.page
        };
        let size = if q.pagination.page_size < 1 {
            20
        } else {
            q.pagination.page_size
        };
        let pages = total_pages(total as u64, size);
        let bounds = page_bounds(total as u64, page, size);
        let start = bounds.0 as usize;
        let end = bounds.1 as usize;
        let ghost listing = matched_files(self@, *q).reverse();
        let mut out: Vec<FileRecord> = Vec::new();
        let mut k: usize = start;
        while k < end
            invariant
                listing == matched_files(self@, *q).reverse(),
                filtered@ == matched_files(self@, *q),
                total == filtered@.len(),
                start <= k <= end <= total,
                out@ == listing.subrange(start as int, k as int),
            decreases end - k,
        {
            proof {
                assert(listing[k as int] == filtered@[total - 1 - k]);
            }
            out.push(filtered[total - 1 - k].clone());
            proof {
                assert(out@ =~= listing.subrange(start as int, k + 1));
            }
            k += 1;
        }
        PageResponse { page: out, total_pages: pages, total_items: total as u64 }
    }
}

} // verus!
