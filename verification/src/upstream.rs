//! The exchange with the tracker: the request for its status, and the framing
//! of what it answers.

use vstd::prelude::*;
use vstd::utf8::{decode_utf8, valid_utf8};
use crate::decoder::{decode_document, decoded};
use crate::events::document_events;
use crate::exposition::{exposition, version, version_text};
use crate::snapshot::{Everything, Snapshot};
use crate::text::chars_of;

verus! {

/// The request for the status of the tracker at `url`, which is written as
/// it is into the `Host` header.
pub open spec fn request_text(url: Seq<char>) -> Seq<char> {
    "GET /stats?mode=everything HTTP/1.1\r\nHost: "@ + url
        + "\r\nUser-Agent: opentracker-exporter/"@ + version_text()
        + "\r\nAccept: text/plain\r\n\r\n"@
}

/// The request to send to the tracker at `url`.
pub fn status_request(url: &str) -> (request: String)
    ensures
        request@ == request_text(url@),
{
    let mut request = "GET /stats?mode=everything HTTP/1.1\r\nHost: ".to_owned();
    request.append(url);
    request.append("\r\nUser-Agent: opentracker-exporter/");
    request.append(version());
    request.append("\r\nAccept: text/plain\r\n\r\n");
    request
}

/// White space as Unicode defines it: the characters that trimming removes.
pub open spec fn is_space(c: char) -> bool {
    let u = c as u32;
    ||| 0x09 <= u <= 0x0d
    ||| u == 0x20
    ||| u == 0x85
    ||| u == 0xa0
    ||| u == 0x1680
    ||| 0x2000 <= u <= 0x200a
    ||| u == 0x2028
    ||| u == 0x2029
    ||| u == 0x202f
    ||| u == 0x205f
    ||| u == 0x3000
}

/// `s` without the white space at its start.
pub open spec fn trim_start(s: Seq<char>) -> Seq<char>
    decreases s.len(),
{
    if s.len() > 0 && is_space(s[0]) {
        trim_start(s.skip(1))
    } else {
        s
    }
}

/// `s` without the white space at its end.
pub open spec fn trim_end(s: Seq<char>) -> Seq<char>
    decreases s.len(),
{
    if s.len() > 0 && is_space(s.last()) {
        trim_end(s.drop_last())
    } else {
        s
    }
}

/// `s` without the white space at its start and at its end.
pub open spec fn trimmed(s: Seq<char>) -> Seq<char> {
    trim_end(trim_start(s))
}

/// An empty line ends at `i + 4`: a carriage return and a line feed, twice,
/// start at `i`.
pub open spec fn blank_line_at(s: Seq<char>, i: int) -> bool {
    &&& 0 <= i
    &&& i + 4 <= s.len()
    &&& s[i] == '\r'
    &&& s[i + 1] == '\n'
    &&& s[i + 2] == '\r'
    &&& s[i + 3] == '\n'
}

/// The first place at or behind `from` where the line that ends the header
/// starts.
pub open spec fn header_end_from(s: Seq<char>, from: int) -> Option<int>
    decreases s.len() - from,
{
    if from < 0 || from + 4 > s.len() {
        None
    } else if blank_line_at(s, from) {
        Some(from)
    } else {
        header_end_from(s, from + 1)
    }
}

/// The body of a response: what follows the first empty line, without the
/// white space around it. A response without an empty line has no body.
pub open spec fn response_body(response: Seq<char>) -> Option<Seq<char>> {
    match header_end_from(response, 0) {
        Some(i) => Some(trimmed(response.skip(i + 4))),
        None => None,
    }
}

/// The place that `header_end_from` gives is the first with an empty line;
/// where it gives none, there is no such place.
pub proof fn lemma_header_end(s: Seq<char>, from: int)
    requires
        0 <= from,
    ensures
        match header_end_from(s, from) {
            Some(i) => {
                &&& from <= i
                &&& blank_line_at(s, i)
                &&& forall|j: int| from <= j < i ==> !blank_line_at(s, j)
            },
            None => forall|j: int| from <= j ==> !blank_line_at(s, j),
        },
    decreases s.len() - from,
{
    if from + 4 <= s.len() && !blank_line_at(s, from) {
        lemma_header_end(s, from + 1);
    }
}

/// Whether `c` is white space.
pub fn is_whitespace(c: char) -> (space: bool)
    ensures
        space == is_space(c),
{
    let u = c as u32;
    (0x09 <= u && u <= 0x0d) || u == 0x20 || u == 0x85 || u == 0xa0 || u == 0x1680 || (0x2000 <= u
        && u <= 0x200a) || u == 0x2028 || u == 0x2029 || u == 0x202f || u == 0x205f || u == 0x3000
}

/// Where the line that ends the header of `chars` starts.
pub fn find_header_end(chars: &Vec<char>) -> (place: Option<usize>)
    ensures
        match place {
            Some(i) => header_end_from(chars@, 0) == Some(i as int),
            None => header_end_from(chars@, 0) is None,
        },
{
    if chars.len() < 4 {
        return None;
    }
    let last: usize = chars.len() - 4;
    let mut i: usize = 0;
    while i <= last
        invariant
            i <= last + 1,
            last + 4 == chars.len(),
            header_end_from(chars@, 0) == header_end_from(chars@, i as int),
        decreases last + 1 - i,
    {
        if chars[i] == '\r' && chars[i + 1] == '\n' && chars[i + 2] == '\r' && chars[i + 3]
            == '\n' {
            return Some(i);
        }
        i += 1;
    }
    None
}

/// The bounds of what is left of `chars` behind `from` once the white space
/// around it is taken away.
pub fn trim_bounds(chars: &Vec<char>, from: usize) -> (bounds: (usize, usize))
    requires
        from <= chars.len(),
    ensures
        from <= bounds.0 <= bounds.1 <= chars.len(),
        chars@.subrange(bounds.0 as int, bounds.1 as int) == trimmed(chars@.skip(from as int)),
{
    let ghost tail = chars@.skip(from as int);
    let mut start: usize = from;
    while start < chars.len() && is_whitespace(chars[start])
        invariant
            from <= start <= chars.len(),
            tail == chars@.skip(from as int),
            trim_start(tail) == trim_start(chars@.skip(start as int)),
        decreases chars.len() - start,
    {
        assert(chars@.skip(start as int).skip(1) == chars@.skip(start + 1));
        start += 1;
    }
    let ghost rest = chars@.skip(start as int);
    let mut end: usize = chars.len();
    assert(rest.take(end - start) == rest);
    while end > start && is_whitespace(chars[end - 1])
        invariant
            start <= end <= chars.len(),
            rest == chars@.skip(start as int),
            trim_end(rest) == trim_end(rest.take(end - start)),
        decreases end,
    {
        assert(rest.take(end - start).drop_last() == rest.take(end - start - 1));
        end -= 1;
    }
    (start, end)
}

/// The body of a response, if the response has an empty line behind its
/// header.
pub fn body_of(response: &str) -> (body: Option<&str>)
    ensures
        match body {
            Some(b) => response_body(response@) == Some(b@),
            None => response_body(response@) is None,
        },
{
    let chars = chars_of(response);
    match find_header_end(&chars) {
        Some(i) => {
            proof {
                lemma_header_end(chars@, 0);
            }
            let (start, end) = trim_bounds(&chars, i + 4);
            Some(response.substring_char(start, end))
        },
        None => None,
    }
}

/// The characters that `String::from_utf8_lossy` decodes `bytes` to.
pub uninterp spec fn lossy_text(bytes: Seq<u8>) -> Seq<char>;

/// Decodes `raw` with `String::from_utf8_lossy`, which puts the replacement
/// character in the place of each run of bytes that is no UTF-8. The
/// contract claims that the text depends on the bytes alone, and names it
/// `lossy_text`; and that bytes that are UTF-8 give the text that they
/// encode, unchanged.
#[verifier::external_body]
pub(crate) fn decode_lossy(raw: &[u8]) -> (text: String)
    ensures
        text@ == lossy_text(raw@),
        valid_utf8(raw@) ==> text@ == decode_utf8(raw@),
{
    String::from_utf8_lossy(raw).into_owned()
}

/// The snapshot that the text of a response stands for: what its body
/// decodes to, and zeros where it has no body.
pub open spec fn snapshot_of_text(response: Seq<char>) -> Snapshot {
    match response_body(response) {
        Some(body) => decoded(document_events(body)),
        None => Snapshot::zero(),
    }
}

/// The snapshot that the outcome of a fetch stands for. `None` says that
/// the tracker could not be reached: that gives the snapshot of zeros, as
/// does a response that cannot be decoded.
pub open spec fn snapshot_of(fetched: Option<Seq<u8>>) -> Snapshot {
    match fetched {
        Some(raw) => snapshot_of_text(lossy_text(raw)),
        None => Snapshot::zero(),
    }
}

/// The snapshot that the text of a response stands for.
pub fn read_response(response: &str) -> (snapshot: Everything)
    ensures
        snapshot@ == snapshot_of_text(response@),
        snapshot.http_error.wf(),
{
    match body_of(response) {
        Some(body) => decode_document(body),
        None => Everything::new(),
    }
}

/// The bytes of `fetched`, or `None` where nothing was fetched.
pub open spec fn fetched_bytes(fetched: Option<&[u8]>) -> Option<Seq<u8>> {
    match fetched {
        Some(raw) => Some(raw@),
        None => None,
    }
}

/// The exposition text for the outcome of a fetch from the tracker:
/// `fetched` holds all that the tracker sent until it closed the
/// connection, or `None` where no connection could be opened.
pub fn get_content(fetched: Option<&[u8]>, prefix: &str, name: &str) -> (content: String)
    ensures
        content@ == exposition(snapshot_of(fetched_bytes(fetched)), prefix@, name@),
{
    let snapshot = match fetched {
        Some(raw) => {
            let text = decode_lossy(raw);
            read_response(text.as_str())
        },
        None => Everything::new(),
    };
    snapshot.get_string(prefix, name)
}

/// A tracker that cannot be reached, and a response without an empty line
/// behind its header, stand for the snapshot of zeros.
pub proof fn lemma_nothing_fetched(response: Seq<char>)
    ensures
        snapshot_of(None) == Snapshot::zero(),
        response_body(response) is None ==> snapshot_of_text(response) == Snapshot::zero(),
{
}

} // verus!
