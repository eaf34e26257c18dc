use vstd::prelude::*;
use vstd::string::*;
use crate::handler::{is_ok_envelope, refused, Failure};
use crate::resp::{Response, StatusCode};

verus! {

/// What happened while an upload was served.
#[derive(Clone, Debug, PartialEq, Eq)]
pub enum UploadEvent {
    /// The object store could not be reached at all.
    StoreUnavailable,
    /// The request holds no further part.
    NoMoreParts,
    /// The next part was read; it may lack a file name or a content type.
    Part { file_name: Option<String>, content_type: Option<String> },
    /// Reading the request failed, with this description.
    ReadFailed(String),
    /// The object store took the object `key` and answered with `status`.
    Stored { key: String, status: u16 },
    /// The object store failed, with this description.
    StoreFailed(String),
}

/// What to do next while an upload is served.
#[derive(Debug, PartialEq, Eq)]
pub enum UploadAction {
    /// Read the next part of the request.
    ReadNext,
    /// Put the content of the current part into the object store.
    Store { key: String, content_type: String },
    /// Answer the request.
    Finish(Result<Response<String>, Failure>),
}

/// The bucket that uploads go to.
pub open spec fn bucket() -> Seq<char> {
    "yoo-config"@
}

pub fn bucket_name() -> (name: &'static str)
    ensures
        name@ == bucket(),
{
    "yoo-config"
}

/// The address under which an uploaded object is found.
pub open spec fn object_url(server: Seq<char>, key: Seq<char>) -> Seq<char> {
    server + "/yoo-config/"@ + key
}

/// The address under which an uploaded object is found.
pub fn upload_url(server: &str, key: &str) -> (url: String)
    ensures
        url@ == object_url(server@, key@),
{
    server.to_owned().concat("/yoo-config/").concat(key)
}

/// The text that answers a failure to read or to store.
pub open spec fn upload_failure(description: Seq<char>) -> Seq<char> {
    "Failed to upload file "@ + description
}

/// Whether `action` finishes the upload with this refusal.
pub open spec fn finishes_refused(action: UploadAction, status: StatusCode, message: Seq<char>)
    -> bool {
    action matches UploadAction::Finish(r) && refused(r, status, message)
}

/// Whether `action` is what follows `event`.
///
/// A part without file name or content type ends the upload, as does the end
/// of the request: there is no file. A part with both is stored under its
/// file name. The first object that the store takes with status 200 ends
/// the upload with its address; after any other status the next part is
/// read. Failures to read or to store end the upload with their description.
pub open spec fn follows(server: Seq<char>, event: UploadEvent, action: UploadAction) -> bool {
    match event {
        UploadEvent::StoreUnavailable => finishes_refused(
            action,
            StatusCode::InternalServerError,
            "Failed to link minio"@,
        ),
        UploadEvent::NoMoreParts => finishes_refused(action, StatusCode::BadRequest, "No file"@),
        UploadEvent::Part { file_name, content_type } => match (file_name, content_type) {
            (Some(name), Some(kind)) => action matches UploadAction::Store { key, content_type }
                && key@ == name@ && content_type@ == kind@,
            _ => finishes_refused(action, StatusCode::BadRequest, "No file"@),
        },
        UploadEvent::ReadFailed(e) => finishes_refused(
            action,
            StatusCode::InternalServerError,
            upload_failure(e@),
        ),
        UploadEvent::Stored { key, status } => if status == 200 {
            action matches UploadAction::Finish(Ok(resp)) && resp.data@ == object_url(server, key@)
                && is_ok_envelope(resp)
        } else {
            action is ReadNext
        },
        UploadEvent::StoreFailed(e) => finishes_refused(
            action,
            StatusCode::InternalServerError,
            upload_failure(e@),
        ),
    }
}

fn finish_refused(status: StatusCode, message: String) -> (action: UploadAction)
    ensures
        finishes_refused(action, status, message@),
{
    UploadAction::Finish(Err((status, message)))
}

/// Decides what to do after `event` while an upload to the object store at
/// `server` is served.
pub fn upload_step(server: &str, event: UploadEvent) -> (action: UploadAction)
    ensures
        follows(server@, event, action),
{
    match event {
        UploadEvent::StoreUnavailable => finish_refused(
            StatusCode::InternalServerError,
            "Failed to link minio".to_owned(),
        ),
        UploadEvent::NoMoreParts => finish_refused(StatusCode::BadRequest, "No file".to_owned()),
        UploadEvent::Part { file_name, content_type } => match file_name {
            Some(name) => match content_type {
                Some(kind) => UploadAction::Store { key: name, content_type: kind },
                None => finish_refused(StatusCode::BadRequest, "No file".to_owned()),
            },
            None => finish_refused(StatusCode::BadRequest, "No file".to_owned()),
        },
        UploadEvent::ReadFailed(e) => finish_refused(
            StatusCode::InternalServerError,
            "Failed to upload file ".to_owned().concat(e.as_str()),
        ),
        UploadEvent::Stored { key, status } => if status == 200 {
            UploadAction::Finish(Ok(Response::new(upload_url(server, key.as_str()))))
        } else {
            UploadAction::ReadNext
        },
        UploadEvent::StoreFailed(e) => finish_refused(
            StatusCode::InternalServerError,
            "Failed to upload file ".to_owned().concat(e.as_str()),
        ),
    }
}

} // verus!
