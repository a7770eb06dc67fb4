//! Request parameters and response envelopes shared by the handlers.
use vstd::prelude::*;

verus! {

pub const DEFAULT_PAGE: u64 = 1;

pub const DEFAULT_PER_PAGE: u64 = 5;

/// Paging parameters of a listing request.
pub struct Params {
    pub page: Option<u64>,
    pub posts_per_page: Option<u64>,
}

impl Params {
    /// The page asked for and the page size, with the defaults where a
    /// field is absent.
    pub fn resolved(&self) -> (r: (u64, u64))
        ensures
            r.0 == match self.page {
                Some(p) => p,
                None => DEFAULT_PAGE,
            },
            r.1 == match self.posts_per_page {
                Some(n) => n,
                None => DEFAULT_PER_PAGE,
            },
    {
        let page = match self.page {
            Some(p) => p,
            None => DEFAULT_PAGE,
        };
        let per_page = match self.posts_per_page {
            Some(n) => n,
            None => DEFAULT_PER_PAGE,
        };
        (page, per_page)
    }
}

/// A one-shot message for the next page a user sees.
pub struct FlashData {
    pub kind: String,
    pub message: String,
}

#[derive(Debug, PartialEq, Eq, Structural)]
pub enum ResponseStatus {
    Success,
    Error,
}

/// The envelope of a JSON response.
pub struct ResponseData<T> {
    pub status: ResponseStatus,
    pub code: i32,
    pub message: Option<String>,
    pub data: Option<T>,
}

impl<T> ResponseData<T> {
    /// A successful response carrying `data`.
    pub fn success(data: T) -> (r: ResponseData<T>)
        ensures
            r.status == ResponseStatus::Success,
            r.code == 200,
            r.message is None,
            r.data == Some(data),
    {
        ResponseData { status: ResponseStatus::Success, code: 200, message: None, data: Some(data) }
    }
}

} // verus!
