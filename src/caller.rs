use vstd::prelude::*;

use crate::fields::put;
use crate::http_status::{HttpStatus, status_text};
use crate::request::Request;
use crate::response::{ResponseWriter, status_key, with_defaults, wire, starts_with, lemma_status_line};

verus! {

/// Why a handler could not produce its response.
#[derive(Debug, Clone)]
pub struct HandlerError {
    pub message: String,
}

/// The response that a fresh writer gives once only its status is set.
pub open spec fn status_only_response(status: HttpStatus) -> Seq<char> {
    wire(with_defaults(put(Seq::<(Seq<char>, Seq<char>)>::empty(), status_key(), status_text(status))))
}

/// The built-in handler for a request that matches no route: status 404,
/// empty body.
pub fn default_404(_request: Request, mut writer: ResponseWriter) -> (r: Result<String, HandlerError>)
    ensures
        r matches Ok(s) && s@ == wire(with_defaults(put(writer@, status_key(), status_text(HttpStatus::NotFound)))),
{
    writer.set_status(HttpStatus::NotFound);
    Ok(writer.response())
}

/// The built-in handler for a request whose handler failed: status 500,
/// empty body.
pub fn default_500(_request: Request, mut writer: ResponseWriter) -> (r: Result<String, HandlerError>)
    ensures
        r matches Ok(s) && s@ == wire(with_defaults(put(writer@, status_key(), status_text(HttpStatus::InternalServerError)))),
{
    writer.set_status(HttpStatus::InternalServerError);
    Ok(writer.response())
}

/// The built-in not-found response starts with status line `404 Not Found`.
pub proof fn lemma_default_404_status()
    ensures
        starts_with(status_only_response(HttpStatus::NotFound), "HTTP/1.1 404 Not Found\r\n"@),
{
    lemma_status_line(Seq::<(Seq<char>, Seq<char>)>::empty(), status_text(HttpStatus::NotFound));
    reveal_strlit("HTTP/1.1 ");
    reveal_strlit("404 Not Found");
    reveal_strlit("\r\n");
    reveal_strlit("HTTP/1.1 404 Not Found\r\n");
    assert("HTTP/1.1 "@ + status_text(HttpStatus::NotFound) + "\r\n"@ =~= "HTTP/1.1 404 Not Found\r\n"@);
}

/// The built-in internal-error response starts with status line
/// `500 Internal Server Error`.
pub proof fn lemma_default_500_status()
    ensures
        starts_with(
            status_only_response(HttpStatus::InternalServerError),
            "HTTP/1.1 500 Internal Server Error\r\n"@,
        ),
{
    lemma_status_line(Seq::<(Seq<char>, Seq<char>)>::empty(), status_text(HttpStatus::InternalServerError));
    reveal_strlit("HTTP/1.1 ");
    reveal_strlit("500 Internal Server Error");
    reveal_strlit("\r\n");
    reveal_strlit("HTTP/1.1 500 Internal Server Error\r\n");
    assert("HTTP/1.1 "@ + status_text(HttpStatus::InternalServerError) + "\r\n"@
        =~= "HTTP/1.1 500 Internal Server Error\r\n"@);
}

} // verus!
