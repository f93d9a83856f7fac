//! Builder-based shortcuts for standard responses.

use vstd::prelude::*;

use crate::headers::HeaderMap;
use crate::presets;
use crate::response::{Response, ResponseBuilder};
use crate::status::HttpStatus;
use crate::version::HttpVersion;

verus! {

/// Creates an empty response: version 1.1, no headers, empty body, and
/// the given status.
pub fn from_status(status: HttpStatus) -> (r: Response)
    ensures
        r.version == HttpVersion::OnePointOne,
        r.status == status,
        r.headers@ == Seq::<(Seq<char>, Seq<char>)>::empty(),
        r.body@ == Seq::<char>::empty(),
{
    let b = ResponseBuilder::new().with_empty_body().with_empty_headers().with_version(
        HttpVersion::OnePointOne,
    ).with_status(status);
    match b.build() {
        Ok(resp) => resp,
        Err(_) => unreached(),
    }
}

/// Creates a response with version 1.1, no headers, the given status and
/// the given body.
pub fn from_status_and_body(status: HttpStatus, body: String) -> (r: Response)
    ensures
        r.version == HttpVersion::OnePointOne,
        r.status == status,
        r.headers@ == Seq::<(Seq<char>, Seq<char>)>::empty(),
        r.body == body,
{
    let mut resp = from_status(status);
    resp.set_body(body);
    resp
}

/// A `100 Continue` response with the given body.
pub fn continue_(str: String) -> (r: Response)
    ensures
        r.version == HttpVersion::OnePointOne,
        r.status.code == 100,
        r.status.message@ == "Continue"@,
        r.headers@ == Seq::<(Seq<char>, Seq<char>)>::empty(),
        r.body == str,
{
    from_status_and_body(presets::continue_(), str)
}

/// A `200 OK` response with the given body.
pub fn ok(str: String) -> (r: Response)
    ensures
        r.version == HttpVersion::OnePointOne,
        r.status.code == 200,
        r.status.message@ == "OK"@,
        r.headers@ == Seq::<(Seq<char>, Seq<char>)>::empty(),
        r.body == str,
{
    from_status_and_body(presets::ok(), str)
}

/// A `400 Bad Request` response with the given body.
pub fn bad_request(str: String) -> (r: Response)
    ensures
        r.version == HttpVersion::OnePointOne,
        r.status.code == 400,
        r.status.message@ == "Bad Request"@,
        r.headers@ == Seq::<(Seq<char>, Seq<char>)>::empty(),
        r.body == str,
{
    from_status_and_body(presets::bad_request(), str)
}

/// A `404 Not Found` response with the given body.
pub fn not_found(str: String) -> (r: Response)
    ensures
        r.version == HttpVersion::OnePointOne,
        r.status.code == 404,
        r.status.message@ == "Not Found"@,
        r.headers@ == Seq::<(Seq<char>, Seq<char>)>::empty(),
        r.body == str,
{
    from_status_and_body(presets::not_found(), str)
}

/// A `201 Created` response with the given body.
pub fn created(str: String) -> (r: Response)
    ensures
        r.version == HttpVersion::OnePointOne,
        r.status.code == 201,
        r.status.message@ == "Created"@,
        r.headers@ == Seq::<(Seq<char>, Seq<char>)>::empty(),
        r.body == str,
{
    from_status_and_body(presets::created(), str)
}

/// A `500 Internal Server Error` response with the given body.
pub fn internal_server_error(str: String) -> (r: Response)
    ensures
        r.version == HttpVersion::OnePointOne,
        r.status.code == 500,
        r.status.message@ == "Internal Server Error"@,
        r.headers@ == Seq::<(Seq<char>, Seq<char>)>::empty(),
        r.body == str,
{
    from_status_and_body(presets::internal_server_error(), str)
}

/// A `204 No Content` response with the given body.
pub fn no_content(str: String) -> (r: Response)
    ensures
        r.version == HttpVersion::OnePointOne,
        r.status.code == 204,
        r.status.message@ == "No Content"@,
        r.headers@ == Seq::<(Seq<char>, Seq<char>)>::empty(),
        r.body == str,
{
    from_status_and_body(presets::no_content(), str)
}

/// A `501 Not Implemented` response with the given body.
pub fn not_implemented(str: String) -> (r: Response)
    ensures
        r.version == HttpVersion::OnePointOne,
        r.status.code == 501,
        r.status.message@ == "Not Implemented"@,
        r.headers@ == Seq::<(Seq<char>, Seq<char>)>::empty(),
        r.body == str,
{
    from_status_and_body(presets::not_implemented(), str)
}

/// A `415 Unsupported Media Type` response with the given body.
pub fn unsupported_media_type(str: String) -> (r: Response)
    ensures
        r.version == HttpVersion::OnePointOne,
        r.status.code == 415,
        r.status.message@ == "Unsupported Media Type"@,
        r.headers@ == Seq::<(Seq<char>, Seq<char>)>::empty(),
        r.body == str,
{
    from_status_and_body(presets::unsupported_media_type(), str)
}

} // verus!
