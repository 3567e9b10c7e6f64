//! The envelope in which every response travels, and paging.

use vstd::prelude::*;

verus! {

/// The envelope of a response: either the data of a success or the message
/// of a failure.
#[derive(Debug)]
pub struct ApiResponse<T> {
    pub success: bool,
    pub data: Option<T>,
    pub error: Option<String>,
}

impl<T> ApiResponse<T> {
    /// The envelope of a success that carries `data`.
    pub fn success(data: T) -> (response: Self)
        ensures
            response.success,
            response.data == Some(data),
            response.error is None,
    {
        ApiResponse { success: true, data: Some(data), error: None }
    }

    /// The envelope of a failure that carries `message`.
    pub fn error(message: &str) -> (response: Self)
        ensures
            !response.success,
            response.data is None,
            response.error.deep_view() == Some(message@),
    {
        ApiResponse { success: false, data: None, error: Some(message.to_owned()) }
    }
}

/// A response without content.
#[derive(Debug)]
pub struct EmptyResponse {}

/// Which page a caller asks for, and how long a page is.
#[derive(Debug)]
pub struct PageRequest {
    pub page: u32,
    pub page_size: u32,
}

impl Default for PageRequest {
    /// The first page, twenty items long.
    fn default() -> (request: Self)
        ensures
            request.page == 1,
            request.page_size == 20,
    {
        PageRequest { page: 1, page_size: 20 }
    }
}

/// One page of items out of `total`.
#[derive(Debug)]
pub struct PageResponse<T> {
    pub items: Vec<T>,
    pub total: i64,
    pub page: u32,
    pub page_size: u32,
    pub total_pages: u32,
}

/// The number of pages that `total` items fill at `page_size` items a page:
/// the quotient rounded up, and at most `u32::MAX`. Nothing fills no page;
/// items on pages of length zero fill as many pages as can be counted.
pub open spec fn page_count(total: int, page_size: int) -> int {
    if total <= 0 {
        0
    } else if page_size <= 0 {
        u32::MAX as int
    } else {
        let pages = (total - 1) / page_size + 1;
        if pages > u32::MAX {
            u32::MAX as int
        } else {
            pages
        }
    }
}

/// Pages cover the items: they hold at least `total` items together, and
/// one page less would not.
pub proof fn lemma_page_count_covers(total: int, page_size: int)
    requires
        total > 0,
        page_size > 0,
        (total - 1) / page_size + 1 <= u32::MAX,
    ensures
        page_count(total, page_size) * page_size >= total,
        (page_count(total, page_size) - 1) * page_size < total,
{
    let q = (total - 1) / page_size;
    assert(total - 1 == page_size * q + (total - 1) % page_size) by {
        vstd::arithmetic::div_mod::lemma_fundamental_div_mod(total - 1, page_size);
    }
    assert(0 <= (total - 1) % page_size < page_size) by {
        vstd::arithmetic::div_mod::lemma_mod_bound(total - 1, page_size);
    }
    assert((q + 1) * page_size == page_size * q + page_size) by (nonlinear_arith);
    assert(q * page_size == page_size * q) by (nonlinear_arith);
}

impl<T> PageResponse<T> {
    /// A page of `items` out of `total`, with the number of pages that
    /// `total` items fill.
    pub fn new(items: Vec<T>, total: i64, page: u32, page_size: u32) -> (response: Self)
        ensures
            response.items == items,
            response.total == total,
            response.page == page,
            response.page_size == page_size,
            response.total_pages == page_count(total as int, page_size as int),
    {
        let total_pages: u32 = if total <= 0 {
            0
        } else if page_size == 0 {
            u32::MAX
        } else {
            let pages: i64 = (total - 1) / (page_size as i64) + 1;
            if pages > u32::MAX as i64 {
                u32::MAX
            } else {
                pages as u32
            }
        };
        PageResponse { items, total, page, page_size, total_pages }
    }
}

/// The identifier of a record that was just created.
#[derive(Debug)]
pub struct IdResponse {
    pub id: i64,
}

/// A range of dates to filter by; either end may be open.
#[derive(Debug)]
pub struct DateRange {
    pub start_date: Option<String>,
    pub end_date: Option<String>,
}

/// The filters that every list accepts.
#[derive(Debug)]
pub struct FilterParams {
    pub search: Option<String>,
    pub status: Option<String>,
    pub date_range: Option<DateRange>,
}

} // verus!
