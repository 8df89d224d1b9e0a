//! The two requests that the service answers over HTTP, as functions
//! from plain values to plain values: what is answered, with which
//! status, and which failure is shown for which cause.

use crate::error::{text_result, Failure, ServiceError};
use crate::srv::{resolved, shortened, ShortenService};
use crate::store::{consistent, counted};
use vstd::prelude::*;

verus! {

/// HTTP status `201 Created`.
pub const CREATED: u16 = 201;

/// HTTP status `308 Permanent Redirect`.
pub const PERMANENT_REDIRECT: u16 = 308;

/// The body of a request to shorten a URL.
#[derive(Debug, Clone, PartialEq, Eq)]
pub struct ShortenReq {
    /// The URL to shorten.
    pub url: String,
}

/// The body of the answer to a request to shorten a URL.
#[derive(Debug, Clone, PartialEq, Eq)]
pub struct ShortenRes {
    /// The short URL that now redirects to the one given.
    pub url: String,
}

/// The answer that sends a client on to a stored URL.
#[derive(Debug, Clone, PartialEq, Eq)]
pub struct Redirect {
    /// The HTTP status of the answer.
    pub status: u16,
    /// The value of the answer's `Location` header.
    pub location: String,
}

/// An answer as a mathematical value: a status and a text, or a failure.
pub type Answer = Result<(u16, Seq<char>), Failure>;

/// The mathematical value of an answer to a request to shorten.
pub open spec fn created_view(r: Result<(u16, ShortenRes), ServiceError>) -> Answer {
    match r {
        Ok((status, body)) => Ok((status, body.url@)),
        Err(e) => Err(e@),
    }
}

/// The mathematical value of an answer to a request to redirect.
pub open spec fn redirect_view(r: Result<Redirect, ServiceError>) -> Answer {
    match r {
        Ok(to) => Ok((to.status, to.location@)),
        Err(e) => Err(e@),
    }
}

/// The short URL under which the server at `server_addr` serves `code`.
pub open spec fn short_url(server_addr: Seq<char>, code: Seq<char>) -> Seq<char> {
    "http://"@ + server_addr + "/"@ + code
}

/// Whether `c` may stand in the value of an HTTP header: any character
/// but the ASCII control characters, of which only the tab is admitted.
pub open spec fn is_header_char(c: char) -> bool {
    (c as u32 >= 32 && c as u32 != 127) || c == '\t'
}

/// Whether `text` can be the value of an HTTP header.
pub open spec fn is_header_text(text: Seq<char>) -> bool {
    forall|i: int| 0 <= i < text.len() ==> is_header_char(#[trigger] text[i])
}

/// The answer to a request to shorten `url`, given the service's answer
/// to the allocation: the short URL with status [`CREATED`], or
/// [`Failure::CannotShorten`] with `url`, whatever made the service fail.
pub open spec fn shorten_answer(
    server_addr: Seq<char>,
    url: Seq<char>,
    allocation: Result<Seq<char>, Failure>,
) -> Answer {
    match allocation {
        Ok(code) => Ok((CREATED, short_url(server_addr, code))),
        Err(_) => Err(Failure::CannotShorten(url)),
    }
}

/// The answer to a request to redirect from `id`, given the service's
/// answer to the lookup: the stored URL with status
/// [`PERMANENT_REDIRECT`]; [`Failure::NotFound`] with `id`, whatever made
/// the lookup fail; or [`Failure::FailedToParse`] with the stored URL
/// where that cannot be the value of a header.
pub open spec fn redirect_answer(id: Seq<char>, lookup: Result<Seq<char>, Failure>) -> Answer {
    match lookup {
        Ok(url) => if is_header_text(url) {
            Ok((PERMANENT_REDIRECT, url))
        } else {
            Err(Failure::FailedToParse(url))
        },
        Err(_) => Err(Failure::NotFound(id)),
    }
}

/// Whether `text` can be the value of an HTTP header.
///
/// Trusted: this is `http::HeaderValue::from_str`, asked only whether it
/// accepts. It walks the bytes of `text` and refuses if one of them is
/// below 32 and not the tab, or is 127. Every byte of a character beyond
/// ASCII is 128 or more, so such characters are accepted, and for ASCII
/// the byte is the character: hence the statement over characters.
#[verifier::external_body]
fn is_header_value(text: &str) -> (accepted: bool)
    ensures
        accepted == is_header_text(text@),
{
    http::HeaderValue::from_str(text).is_ok()
}

/// Decides the answer to a request to shorten `url` from the service's
/// answer to the allocation.
pub fn shorten_reply(url: String, allocation: Result<String, ServiceError>, server_addr: &str) -> (r:
    Result<(u16, ShortenRes), ServiceError>)
    ensures
        created_view(r) == shorten_answer(server_addr@, url@, text_result(allocation)),
{
    match allocation {
        Ok(code) => {
            let mut short = String::from_str("http://");
            short.append(server_addr);
            short.append("/");
            short.append(code.as_str());
            Ok((CREATED, ShortenRes { url: short }))
        },
        Err(_) => Err(ServiceError::CannotShorten(url)),
    }
}

/// Decides the answer to a request to redirect from `id` from the
/// service's answer to the lookup.
pub fn redirect_reply(id: &str, lookup: Result<String, ServiceError>) -> (r: Result<
    Redirect,
    ServiceError,
>)
    ensures
        redirect_view(r) == redirect_answer(id@, text_result(lookup)),
{
    match lookup {
        Ok(url) => {
            if is_header_value(url.as_str()) {
                Ok(Redirect { status: PERMANENT_REDIRECT, location: url })
            } else {
                Err(ServiceError::FailedToParse(url))
            }
        },
        Err(_) => Err(ServiceError::NotFound(String::from_str(id))),
    }
}

/// Answers a request to shorten the URL in `data`: allocates a code
/// through `srv` and answers with the short URL on the server at
/// `server_addr`.
pub fn shorten<S: ShortenService>(srv: &mut S, data: ShortenReq, server_addr: &str) -> (r: Result<
    (u16, ShortenRes),
    ServiceError,
>)
    ensures
        exists|allocation: Result<Seq<char>, Failure>|
            {
                &&& #[trigger] shortened(
                    old(srv).rows(),
                    data.url@,
                    final(srv).rows(),
                    allocation,
                )
                &&& created_view(r) == shorten_answer(server_addr@, data.url@, allocation)
            },
        consistent(final(srv).rows()),
{
    let url = data.url;
    let allocation = srv.shorten(url.as_str());
    proof {
        assert(shortened(old(srv).rows(), url@, srv.rows(), text_result(allocation)));
    }
    shorten_reply(url, allocation, server_addr)
}

/// Answers a request to redirect from `id`: resolves it through `srv`
/// and, if the stored URL can be sent, counts the visit. Whether the
/// visit could be counted has no part in the answer.
pub fn redirect<S: ShortenService>(srv: &mut S, id: String) -> (r: Result<Redirect, ServiceError>)
    ensures
        redirect_view(r) == redirect_answer(id@, resolved(old(srv).rows(), id@)),
        final(srv).rows() == if r is Ok {
            counted(old(srv).rows(), id@)
        } else {
            old(srv).rows()
        },
        consistent(final(srv).rows()),
{
    let lookup = srv.get_url(id.as_str());
    match redirect_reply(id.as_str(), lookup) {
        Ok(to) => {
            let _ = srv.visit(id.as_str());
            Ok(to)
        },
        Err(e) => Err(e),
    }
}

} // verus!
