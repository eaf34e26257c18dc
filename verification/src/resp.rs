use vstd::prelude::*;

verus! {

/// The status classes that answers use.
#[derive(Clone, Copy, Debug, PartialEq, Eq)]
pub enum StatusCode {
    BadRequest,
    Unauthorized,
    NotFound,
    InternalServerError,
}

impl StatusCode {
    /// The numeric HTTP status.
    pub open spec fn number(self) -> int {
        match self {
            StatusCode::BadRequest => 400,
            StatusCode::Unauthorized => 401,
            StatusCode::NotFound => 404,
            StatusCode::InternalServerError => 500,
        }
    }

    pub fn as_u16(&self) -> (n: u16)
        ensures
            n == self.number(),
    {
        match self {
            StatusCode::BadRequest => 400,
            StatusCode::Unauthorized => 401,
            StatusCode::NotFound => 404,
            StatusCode::InternalServerError => 500,
        }
    }
}

/// The envelope of a successful answer that carries one value.
#[derive(Clone, Debug, PartialEq, Eq)]
pub struct Response<T> {
    pub data: T,
    pub code: u64,
    pub msg: String,
}

impl<T> Response<T> {
    /// Wraps `data` with code 0 and the message `ok`.
    pub fn new(data: T) -> (r: Self)
        ensures
            r.data == data,
            r.code == 0,
            r.msg@ == "ok"@,
    {
        Self { data, code: 0, msg: "ok".to_owned() }
    }
}

/// One page of a listing with the counts that belong to it.
#[derive(Clone, Debug, PartialEq, Eq)]
pub struct PageData<T> {
    pub content: Vec<T>,
    pub total: u64,
    pub pages: u64,
}

/// The envelope of a successful answer that carries a page.
#[derive(Clone, Debug, PartialEq, Eq)]
pub struct PageResponse<T> {
    pub data: PageData<T>,
    pub code: u64,
    pub msg: String,
}

impl<T> PageResponse<T> {
    /// Wraps a page with code 0 and the message `ok`.
    pub fn new(data: Vec<T>, total: u64, pages: u64) -> (r: PageResponse<T>)
        ensures
            r.data.content == data,
            r.data.total == total,
            r.data.pages == pages,
            r.code == 0,
            r.msg@ == "ok"@,
    {
        PageResponse { data: PageData { content: data, total, pages }, code: 0, msg: "ok".to_owned() }
    }
}

} // verus!
