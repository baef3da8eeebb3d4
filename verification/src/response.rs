//! The answer to a scrape: the exposition text behind an HTTP header.

use vstd::prelude::*;
use vstd::utf8::encode_utf8;
use crate::exposition::exposition;
use crate::text::{decimal, push_decimal};
use crate::upstream::{fetched_bytes, get_content, snapshot_of};

verus! {

/// The first second of the year 10000, counted from the start of 1970: the
/// first moment that cannot be written as an HTTP date.
pub const DATE_LIMIT: u64 = 253_402_300_800;

/// The answer that carries `content`, stamped with `date`. The length that
/// it announces is that of `content` in bytes.
pub open spec fn response_text(content: Seq<char>, date: Seq<char>) -> Seq<char> {
    "HTTP/1.1 200 OK\r\nConnection: close\r\nContent-Length: "@ + decimal(
        encode_utf8(content).len(),
    ) + "\r\nContent-Type: text/plain; version=0.0.4\r\nDate: "@ + date + "\r\n\r\n"@ + content
}

/// The answer to a scrape that carries `content` and is stamped with `date`.
pub fn http_response(content: &str, date: &str) -> (response: String)
    ensures
        response@ == response_text(content@, date@),
{
    let length: usize = content.as_bytes().len();
    let mut response = "HTTP/1.1 200 OK\r\nConnection: close\r\nContent-Length: ".to_owned();
    push_decimal(&mut response, length);
    response.append("\r\nContent-Type: text/plain; version=0.0.4\r\nDate: ");
    response.append(date);
    response.append("\r\n\r\n");
    response.append(content);
    response
}

/// The date that `httpdate::fmt_http_date` writes for the moment `secs`
/// seconds after the start of 1970.
pub uninterp spec fn http_date(secs: u64) -> Seq<char>;

/// Writes the moment `secs` seconds after the start of 1970 with
/// `httpdate::fmt_http_date`, which panics from the year 10000 on: such a
/// moment is left out. The contract claims that the text depends on the
/// number of seconds alone, and names it `http_date`.
#[verifier::external_body]
pub(crate) fn format_date(secs: u64) -> (date: String)
    requires
        secs < DATE_LIMIT,
    ensures
        date@ == http_date(secs),
{
    httpdate::fmt_http_date(std::time::UNIX_EPOCH + std::time::Duration::from_secs(secs))
}

/// The answer that carries `content` at the moment `now` seconds after the
/// start of 1970; `None` from the year 10000 on, where no date can be
/// written.
pub fn scrape_response(content: &str, now: u64) -> (response: Option<String>)
    ensures
        response is Some <==> now < DATE_LIMIT,
        response matches Some(text) ==> text@ == response_text(content@, http_date(now)),
{
    if now < DATE_LIMIT {
        let date = format_date(now);
        Some(http_response(content, date.as_str()))
    } else {
        None
    }
}

/// The whole answer to one scrape, for the outcome of the fetch from the
/// tracker and the moment of the answer: `fetched` holds all that the
/// tracker sent, or `None` where it could not be reached; `now` counts the
/// seconds since the start of 1970.
pub fn answer(fetched: Option<&[u8]>, prefix: &str, name: &str, now: u64) -> (response: Option<
    String,
>)
    ensures
        response is Some <==> now < DATE_LIMIT,
        response matches Some(text) ==> text@ == response_text(
            exposition(snapshot_of(fetched_bytes(fetched)), prefix@, name@),
            http_date(now),
        ),
{
    let content = get_content(fetched, prefix, name);
    scrape_response(content.as_str(), now)
}

} // verus!
