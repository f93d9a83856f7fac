//! Preset status values for the common code/phrase pairs.

use vstd::prelude::*;

use crate::status::HttpStatus;

verus! {

/// The status `100 Continue`.
pub fn continue_() -> (r: HttpStatus)
    ensures
        r.code == 100,
        r.message@ == "Continue"@,
{
    HttpStatus::from_code_msg(100, "Continue")
}

/// The status `200 OK`.
pub fn ok() -> (r: HttpStatus)
    ensures
        r.code == 200,
        r.message@ == "OK"@,
{
    HttpStatus::from_code_msg(200, "OK")
}

/// The status `201 Created`.
pub fn created() -> (r: HttpStatus)
    ensures
        r.code == 201,
        r.message@ == "Created"@,
{
    HttpStatus::from_code_msg(201, "Created")
}

/// The status `204 No Content`.
pub fn no_content() -> (r: HttpStatus)
    ensures
        r.code == 204,
        r.message@ == "No Content"@,
{
    HttpStatus::from_code_msg(204, "No Content")
}

/// The status `400 Bad Request`.
pub fn bad_request() -> (r: HttpStatus)
    ensures
        r.code == 400,
        r.message@ == "Bad Request"@,
{
    HttpStatus::from_code_msg(400, "Bad Request")
}

/// The status `404 Not Found`.
pub fn not_found() -> (r: HttpStatus)
    ensures
        r.code == 404,
        r.message@ == "Not Found"@,
{
    HttpStatus::from_code_msg(404, "Not Found")
}

/// The status `415 Unsupported Media Type`.
pub fn unsupported_media_type() -> (r: HttpStatus)
    ensures
        r.code == 415,
        r.message@ == "Unsupported Media Type"@,
{
    HttpStatus::from_code_msg(415, "Unsupported Media Type")
}

/// The status `500 Internal Server Error`.
pub fn internal_server_error() -> (r: HttpStatus)
    ensures
        r.code == 500,
        r.message@ == "Internal Server Error"@,
{
    HttpStatus::from_code_msg(500, "Internal Server Error")
}

/// The status `501 Not Implemented`.
pub fn not_implemented() -> (r: HttpStatus)
    ensures
        r.code == 501,
        r.message@ == "Not Implemented"@,
{
    HttpStatus::from_code_msg(501, "Not Implemented")
}

} // verus!
