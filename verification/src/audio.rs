//! How the audio of an episode is delivered: which byte range a request
//! asks for, and how the answer to it is laid out.

use crate::error::Error;
use crate::extractor::Extraction;
use crate::pattern::{captures, regex_captures};
use crate::text::{chars_of, decimal, parse_word, push_decimal, word};
use crate::util::byte_stream::{ByteStream, Window};
use http::header::{HeaderMap, HeaderValue};
use vstd::prelude::*;
use vstd::string::StringExecFns;

verus! {

/// The regular expression that a `Range` header is read with.
pub const RANGE_PATTERN: &'static str = "bytes=(\\d+)?-(\\d+)?";

pub const OK: u16 = 200;

pub const PARTIAL_CONTENT: u16 = 206;

/// The number that capture group `i` of `groups` denotes, `None` where the
/// group is missing, took no part in the match or denotes no number that
/// fits the machine word.
pub open spec fn group_word(groups: Seq<Option<Seq<char>>>, i: int) -> Option<usize> {
    if 0 <= i < groups.len() {
        match groups[i] {
            Some(text) => word(text),
            None => None,
        }
    } else {
        None
    }
}

/// The first and the last byte offset that the capture groups of a `Range`
/// header denote. A header that gives no first offset asks for no range at
/// all, whatever stands behind the dash: the whole content is served.
pub open spec fn range_of(caps: Option<Seq<Option<Seq<char>>>>) -> (Option<usize>, Option<usize>) {
    match caps {
        None => (None, None),
        Some(groups) => match group_word(groups, 1) {
            Some(start) => (Some(start), group_word(groups, 2)),
            None => (None, None),
        },
    }
}

/// A range that is read off a header has a first offset, or is no range.
pub proof fn range_has_a_start(caps: Option<Seq<Option<Seq<char>>>>)
    ensures
        range_of(caps).0 is None ==> range_of(caps).1 is None,
{
}

fn group_number(groups: &Vec<Option<String>>, i: usize) -> (r: Option<usize>)
    ensures
        r == group_word(groups.deep_view(), i as int),
{
    if i < groups.len() {
        match &groups[i] {
            Some(text) => {
                let chars = chars_of(text.as_str());
                parse_word(&chars)
            },
            None => None,
        }
    } else {
        None
    }
}

/// Reads the first and the last byte offset off the capture groups of a
/// `Range` header: group 1 is the first offset, group 2 the last. Where
/// group 1 denotes no number, no range is asked for.
pub fn range_from_captures(caps: &Option<Vec<Option<String>>>) -> (r: (
    Option<usize>,
    Option<usize>,
))
    ensures
        r == range_of(caps.deep_view()),
{
    match caps {
        None => (None, None),
        Some(groups) => match group_number(groups, 1) {
            Some(start) => (Some(start), group_number(groups, 2)),
            None => (None, None),
        },
    }
}

/// Reads a `Range` header of the form `bytes=<first>-<last>`, where the
/// last offset may be missing. A header that is absent, does not match or
/// gives no first offset stands for no range at all.
pub fn parse_range(range: Option<&str>) -> (r: (Option<usize>, Option<usize>))
    ensures
        r == match range {
            None => (None, None),
            Some(text) => range_of(regex_captures(RANGE_PATTERN@, text@)),
        },
{
    match range {
        None => (None, None),
        Some(text) => {
            let caps = captures(RANGE_PATTERN, text);
            range_from_captures(&caps)
        },
    }
}

/// The last offset that is served of a range from `start` to `end`: `end`,
/// or `start` where `end` lies before it.
pub open spec fn served_end(start: usize, end: usize) -> usize {
    if end < start {
        start
    } else {
        end
    }
}

/// The `Content-Range` value that answers a range request on a stream of
/// unknown length. It names the offsets that are served.
pub open spec fn content_range(range: (Option<usize>, Option<usize>)) -> Option<Seq<char>> {
    match range {
        (Some(start), Some(end)) => Some(
            "bytes "@ + decimal(start as nat) + "-"@ + decimal(served_end(start, end) as nat)
                + "/*"@,
        ),
        (Some(start), None) => Some("bytes "@ + decimal(start as nat) + "-*/?"@),
        (None, Some(end)) => Some("bytes */"@ + decimal((end + 1) as nat)),
        (None, None) => None,
    }
}

/// Writes the `Content-Range` value that answers a range request on a
/// stream of unknown length; `None` where no range was asked for.
pub fn to_content_range(range: (Option<usize>, Option<usize>)) -> (r: Option<String>)
    ensures
        r.deep_view() == content_range(range),
{
    match range {
        (Some(start), Some(end)) => {
            let last = if end < start {
                start
            } else {
                end
            };
            let mut out = String::from_str("bytes ");
            push_decimal(&mut out, start as u128);
            out.append("-");
            push_decimal(&mut out, last as u128);
            out.append("/*");
            Some(out)
        },
        (Some(start), None) => {
            let mut out = String::from_str("bytes ");
            push_decimal(&mut out, start as u128);
            out.append("-*/?");
            Some(out)
        },
        (None, Some(end)) => {
            let mut out = String::from_str("bytes */");
            push_decimal(&mut out, end as u128 + 1);
            Some(out)
        },
        (None, None) => None,
    }
}

/// The number of bytes from offset `start` to offset `end`, both included,
/// as far as a machine word holds it. An `end` before `start` counts as
/// `start`.
pub open spec fn span(start: usize, end: usize) -> nat {
    if served_end(start, end) == start {
        1
    } else if end - start + 1 > usize::MAX {
        usize::MAX as nat
    } else {
        (end - start + 1) as nat
    }
}

/// The trimming that a range request asks of a stream.
pub open spec fn stream_window(range: (Option<usize>, Option<usize>)) -> Window {
    match range {
        (Some(start), Some(end)) => Window { skip: start as nat, limit: Some(span(start, end)) },
        (Some(start), None) => Window { skip: start as nat, limit: None },
        (None, Some(end)) => Window { skip: 0, limit: Some(span(0, end)) },
        (None, None) => Window::full(),
    }
}

fn span_of(start: usize, end: usize) -> (n: usize)
    ensures
        n == span(start, end),
{
    if end <= start {
        1
    } else {
        (end - start).saturating_add(1)
    }
}

/// Trims `stream` to the range asked for.
pub fn trim_stream<S>(stream: S, range: (Option<usize>, Option<usize>)) -> (r: ByteStream<S>)
    ensures
        r.inner() == stream,
        r.window() == stream_window(range),
        !r.has_ended(),
{
    let stream = ByteStream::new(stream);
    match range {
        (Some(start), Some(end)) => stream.skip_bytes(start).limit_bytes(span_of(start, end)),
        (Some(start), None) => stream.skip_bytes(start),
        (None, Some(end)) => stream.limit_bytes(span_of(0, end)),
        (None, None) => stream,
    }
}

/// Whether `c` may stand in the value of a header: a tab, or anything but
/// the control characters.
pub open spec fn header_value_char(c: char) -> bool {
    c == '\t' || (c as u32 >= 32 && c as u32 != 127)
}

/// Whether `value` can be sent as the value of a header.
pub open spec fn header_value_ok(value: Seq<char>) -> bool {
    forall|i: int| 0 <= i < value.len() ==> header_value_char(#[trigger] value[i])
}

/// The form in which the header name `text` is sent and compared, in lower
/// case; `None` where `text` is no header name.
pub uninterp spec fn header_name(text: Seq<char>) -> Option<Seq<char>>;

/// `HeaderValue::from_str`: whether the text is accepted as a header value,
/// which it is unless one of its bytes is a control character other than
/// the tab.
#[verifier::external_body]
fn is_header_value(value: &str) -> (ok: bool)
    ensures
        ok == header_value_ok(value@),
{
    http::header::HeaderValue::from_str(value).is_ok()
}

/// The headers of a request or an answer, by name.
#[verifier::external_type_specification]
#[verifier::external_body]
#[verifier::reject_recursive_types(T)]
pub struct ExHeaderMap<T>(HeaderMap<T>);

/// The value of a header.
#[verifier::external_type_specification]
#[verifier::external_body]
pub struct ExHeaderValue(HeaderValue);

/// The headers that a map holds: for each name, in the form in which names
/// are compared, the values under it, each as its bytes, in their order.
pub uninterp spec fn header_values(map: HeaderMap<HeaderValue>) -> Map<Seq<char>, Seq<Seq<u8>>>;

/// The number of names below which a map of headers is sure to take
/// another one.
pub const HEADER_ROOM: usize = 1024;

/// Whether a byte of a header value can be shown as text: a tab, or a
/// printing character of ASCII.
pub open spec fn visible_byte(b: u8) -> bool {
    (32 <= b && b < 127) || b == 9
}

/// The text that the bytes of a header value are, `None` where one of them
/// cannot be shown as text.
pub open spec fn visible_text(bytes: Seq<u8>) -> Option<Seq<char>> {
    if forall|i: int| 0 <= i < bytes.len() ==> visible_byte(#[trigger] bytes[i]) {
        Some(Seq::new(bytes.len(), |i: int| bytes[i] as char))
    } else {
        None
    }
}

/// The first value under `name` as text: `None` where `name` is no header
/// name, nothing stands under it, or the first value under it is no text.
pub open spec fn first_text(values: Map<Seq<char>, Seq<Seq<u8>>>, name: Option<Seq<char>>) -> Option<
    Seq<char>,
> {
    match name {
        Some(n) => if values.dom().contains(n) && values[n].len() > 0 {
            visible_text(values[n][0])
        } else {
            None
        },
        None => None,
    }
}

/// `HeaderMap::remove` with a text as the name: takes out all values under
/// the name and leaves the map as it is where the text is no header name.
#[verifier::external_body]
fn header_remove(map: &mut HeaderMap<HeaderValue>, name: &str)
    ensures
        header_values(*final(map)) == match header_name(name@) {
            Some(n) => header_values(*old(map)).remove(n),
            None => header_values(*old(map)),
        },
{
    map.remove(name);
}

/// `HeaderName::from_str` and `HeaderValue::from_str`, then
/// `HeaderMap::try_insert`: makes the value the only one under the name.
/// `None` where the name or the value is refused, `Some(false)` where the
/// map takes no more, which it does not say of a map with fewer than
/// `HEADER_ROOM` names; the map is then as it was.
#[verifier::external_body]
fn header_insert(map: &mut HeaderMap<HeaderValue>, name: &str, value: &str) -> (r: Option<bool>)
    ensures
        match header_name(name@) {
            Some(n) => if header_value_ok(value@) {
                (r == Some(true) && header_values(*final(map)) == header_values(*old(map)).insert(
                    n,
                    seq![vstd::utf8::encode_utf8(value@)],
                )) || (r == Some(false) && header_values(*final(map)) == header_values(*old(map)))
            } else {
                r is None && header_values(*final(map)) == header_values(*old(map))
            },
            None => r is None && header_values(*final(map)) == header_values(*old(map)),
        },
        r == Some(false) ==> !(header_values(*old(map)).dom().finite() && header_values(
            *old(map),
        ).dom().len() < HEADER_ROOM),
{
    let name = name.parse::<http::header::HeaderName>().ok()?;
    let value = HeaderValue::from_str(value).ok()?;
    Some(map.try_insert(name, value).is_ok())
}

/// `HeaderMap::get` with a text as the name, then `HeaderValue::to_str`:
/// the first value under the name as text.
#[verifier::external_body]
fn header_text(map: &HeaderMap<HeaderValue>, name: &str) -> (r: Option<String>)
    ensures
        r.deep_view() == first_text(header_values(*map), header_name(name@)),
{
    map.get(name).and_then(|value| value.to_str().ok()).map(|text| text.to_string())
}

/// `headers` without what stands under `host`.
pub open spec fn without_host(headers: Map<Seq<char>, Seq<Seq<u8>>>) -> Map<
    Seq<char>,
    Seq<Seq<u8>>,
> {
    match header_name("host"@) {
        Some(host) => headers.remove(host),
        None => headers,
    }
}

/// `headers` with `value` as the only value under the name that `name` is;
/// `None` where the name or the value is refused.
pub open spec fn with_header(
    headers: Map<Seq<char>, Seq<Seq<u8>>>,
    name: Seq<char>,
    value: Seq<char>,
) -> Option<Map<Seq<char>, Seq<Seq<u8>>>> {
    match header_name(name) {
        Some(n) => if header_value_ok(value) {
            Some(headers.insert(n, seq![vstd::utf8::encode_utf8(value)]))
        } else {
            None
        },
        None => None,
    }
}

/// The headers of the request that goes to the remote URL: those of the
/// incoming request without `host`, then each of `extra` set in turn.
/// `None` where a name or a value of `extra` is refused.
pub open spec fn forwarded(
    request: Map<Seq<char>, Seq<Seq<u8>>>,
    extra: Seq<(Seq<char>, Seq<char>)>,
) -> Option<Map<Seq<char>, Seq<Seq<u8>>>>
    decreases extra.len(),
{
    if extra.len() == 0 {
        Some(without_host(request))
    } else {
        match forwarded(request, extra.drop_last()) {
            Some(headers) => with_header(headers, extra.last().0, extra.last().1),
            None => None,
        }
    }
}

/// Whether a map of headers with these values is sure to take `more`
/// names.
pub open spec fn has_room(values: Map<Seq<char>, Seq<Seq<u8>>>, more: nat) -> bool {
    values.dom().finite() && values.dom().len() + more < HEADER_ROOM
}

/// The request that goes to the remote URL carries the client's headers
/// but for `host`, where the extractor asks for none.
pub proof fn forwarded_without_host(request: Map<Seq<char>, Seq<Seq<u8>>>)
    ensures
        forwarded(request, Seq::empty()) == Some(without_host(request)),
        header_name("host"@) matches Some(host) ==> !without_host(request).dom().contains(host),
        forall|name: Seq<char>|
            header_name("host"@) != Some(name) && request.dom().contains(name) ==> without_host(
                request,
            ).dom().contains(name) && without_host(request)[name] == request[name],
{
}

/// Whether `r` is the request that fetches the remote URL `url` on behalf
/// of a client that sent the headers `request`, with the headers `extra`
/// of the extractor on top: the headers as `forwarded` says, or
/// `Extraction` where one of `extra` is no valid header. Only where the
/// headers are more than a map is sure to take may `r` be the failure
/// `HTTP` instead.
pub open spec fn forwards(
    url: String,
    request: Map<Seq<char>, Seq<Seq<u8>>>,
    extra: Seq<(Seq<char>, Seq<char>)>,
    r: Result<(String, HeaderMap<HeaderValue>), Error>,
) -> bool {
    ||| match forwarded(request, extra) {
        Some(all) => r matches Ok(sent) && sent.0 == url && header_values(sent.1) == all,
        None => r matches Err(Error::Extraction),
    }
    ||| !has_room(request, extra.len()) && r matches Err(Error::HTTP(_))
}

/// Lays out the request that fetches a remote audio URL on behalf of the
/// client: the client's own headers without `Host`, and the headers that
/// the extractor asks for on top, each in place of what the client sent
/// under its name. Fails with `Extraction` where one of the latter is no
/// valid header. A map that takes no more headers, which does not come
/// about below `HEADER_ROOM` names, makes it fail with `HTTP`.
pub fn proxy_play_link(
    url: String,
    headers: Vec<(String, String)>,
    req_headers: HeaderMap<HeaderValue>,
) -> (r: Result<(String, HeaderMap<HeaderValue>), Error>)
    ensures
        forwards(url, header_values(req_headers), headers.deep_view(), r),
{
    let ghost request = header_values(req_headers);
    let ghost extra = headers.deep_view();
    let mut out = req_headers;
    header_remove(&mut out, "host");
    let mut i: usize = 0;
    assert(extra.take(0) == Seq::<(Seq<char>, Seq<char>)>::empty());
    while i < headers.len()
        invariant
            i <= headers.len(),
            extra == headers.deep_view(),
            request == header_values(req_headers),
            forwarded(request, extra.take(i as int)) == Some(header_values(out)),
            has_room(request, extra.len()) ==> header_values(out).dom().finite() && header_values(
                out,
            ).dom().len() <= request.dom().len() + i,
        decreases headers.len() - i,
    {
        assert(extra.take(i + 1).drop_last() == extra.take(i as int));
        assert(extra.take(i + 1).last() == headers@[i as int].deep_view());
        match header_insert(&mut out, headers[i].0.as_str(), headers[i].1.as_str()) {
            Some(true) => {},
            Some(false) => {
                assert(!has_room(request, extra.len()));
                return Err(Error::HTTP(String::from_str("too many headers")));
            },
            None => {
                proof {
                    refusal_is_final(request, extra, i + 1);
                }
                return Err(Error::Extraction);
            },
        }
        i = i + 1;
    }
    assert(extra.take(extra.len() as int) == extra);
    Ok((url, out))
}

/// Once one of the extra headers has been refused, the whole set is.
proof fn refusal_is_final(
    request: Map<Seq<char>, Seq<Seq<u8>>>,
    extra: Seq<(Seq<char>, Seq<char>)>,
    n: int,
)
    requires
        0 <= n <= extra.len(),
        forwarded(request, extra.take(n)) is None,
    ensures
        forwarded(request, extra) is None,
    decreases extra.len() - n,
{
    if n < extra.len() {
        assert(extra.take(n + 1).drop_last() == extra.take(n));
        refusal_is_final(request, extra, n + 1);
    } else {
        assert(extra.take(n) == extra);
    }
}

/// The headers that go with a stream: its type, the range where one was
/// asked for, and its length where that is known.
pub open spec fn stream_headers(
    mime_type: Seq<char>,
    filesize: Option<u64>,
    range: (Option<usize>, Option<usize>),
) -> Seq<(Seq<char>, Seq<char>)> {
    let typed = seq![("content-type"@, mime_type)];
    let ranged = match content_range(range) {
        Some(value) => typed.push(("content-range"@, value)),
        None => typed,
    };
    match filesize {
        Some(size) => ranged.push(("content-length"@, decimal(size as nat))),
        None => ranged,
    }
}

/// Lays out the answer that streams audio as it comes in: the stream
/// trimmed to `range`, and the headers that go with it. Fails with `HTTP`
/// where `mime_type` cannot be sent as a header value.
pub fn stream_response<S>(
    stream: S,
    mime_type: String,
    filesize: Option<u64>,
    range: (Option<usize>, Option<usize>),
) -> (r: Result<(Vec<(String, String)>, ByteStream<S>), Error>)
    ensures
        match r {
            Ok(answer) => {
                &&& header_value_ok(mime_type@)
                &&& answer.0.deep_view() == stream_headers(mime_type@, filesize, range)
                &&& answer.1.inner() == stream
                &&& answer.1.window() == stream_window(range)
                &&& !answer.1.has_ended()
            },
            Err(e) => !header_value_ok(mime_type@) && e is HTTP,
        },
{
    if !is_header_value(mime_type.as_str()) {
        return Err(Error::HTTP(String::from_str("failed to parse header value")));
    }
    let mut headers: Vec<(String, String)> = Vec::new();
    headers.push((String::from_str("content-type"), mime_type));
    assert(headers.deep_view() == seq![("content-type"@, mime_type@)]);
    match to_content_range(range) {
        Some(value) => {
            let ghost before = headers.deep_view();
            headers.push((String::from_str("content-range"), value));
            assert(headers.deep_view() == before.push(("content-range"@, value@)));
        },
        None => {},
    }
    match filesize {
        Some(size) => {
            let ghost before = headers.deep_view();
            let mut value = String::new();
            push_decimal(&mut value, size as u128);
            assert(value@ == decimal(size as nat));
            headers.push((String::from_str("content-length"), value));
            assert(headers.deep_view() == before.push(("content-length"@, value@)));
        },
        None => {},
    }
    Ok((headers, trim_stream(stream, range)))
}

/// The byte range that a request with these headers asks for.
pub open spec fn requested_range(headers: Map<Seq<char>, Seq<Seq<u8>>>) -> (
    Option<usize>,
    Option<usize>,
) {
    match first_text(headers, header_name("range"@)) {
        None => (None, None),
        Some(text) => range_of(regex_captures(RANGE_PATTERN@, text)),
    }
}

/// Reads the byte range that a request with the headers `req_headers` asks
/// for.
pub fn range_header(req_headers: &HeaderMap<HeaderValue>) -> (r: (Option<usize>, Option<usize>))
    ensures
        r == requested_range(header_values(*req_headers)),
{
    match header_text(req_headers, "range") {
        Some(text) => parse_range(Some(text.as_str())),
        None => parse_range(None),
    }
}

/// Lays out the answer that streams audio as it comes in, for a request
/// with the headers `req_headers`.
pub fn proxy_stream<S>(
    stream: S,
    mime_type: String,
    filesize: Option<u64>,
    req_headers: &HeaderMap<HeaderValue>,
) -> (r: Result<(Vec<(String, String)>, ByteStream<S>), Error>)
    ensures
        match r {
            Ok(answer) => {
                &&& header_value_ok(mime_type@)
                &&& answer.0.deep_view() == stream_headers(
                    mime_type@,
                    filesize,
                    requested_range(header_values(*req_headers)),
                )
                &&& answer.1.inner() == stream
                &&& answer.1.window() == stream_window(requested_range(header_values(*req_headers)))
                &&& !answer.1.has_ended()
            },
            Err(e) => !header_value_ok(mime_type@) && e is HTTP,
        },
{
    let range = range_header(req_headers);
    stream_response(stream, mime_type, filesize, range)
}

/// The offset of the first byte served of a file of `len` bytes: the one
/// asked for, or the start of the file, but never past the last byte.
pub open spec fn first_offset(len: usize, range: (Option<usize>, Option<usize>)) -> usize {
    let from = match range.0 {
        Some(from) => from,
        None => 0,
    };
    if len == 0 {
        0
    } else if from > len - 1 {
        (len - 1) as usize
    } else {
        from
    }
}

/// The offset of the last byte served of a file of `len` bytes: the one
/// asked for, or the end of the file, but never past the last byte nor
/// before the first byte served.
pub open spec fn last_offset(len: usize, range: (Option<usize>, Option<usize>)) -> usize {
    let first = first_offset(len, range);
    if len == 0 {
        0
    } else {
        let to = match range.1 {
            Some(to) => if to > len - 1 {
                (len - 1) as usize
            } else {
                to
            },
            None => (len - 1) as usize,
        };
        if to < first {
            first
        } else {
            to
        }
    }
}

/// The number of bytes served of a file of `len` bytes.
pub open spec fn served_len(len: usize, range: (Option<usize>, Option<usize>)) -> usize {
    if len == 0 {
        0
    } else {
        (last_offset(len, range) - first_offset(len, range) + 1) as usize
    }
}

/// The status that a file of `len` bytes is served with: `206` where less
/// than the whole file is served, else `200`.
pub open spec fn served_status(len: usize, range: (Option<usize>, Option<usize>)) -> u16 {
    if len > 0 && (first_offset(len, range) != 0 || last_offset(len, range) != len - 1) {
        PARTIAL_CONTENT
    } else {
        OK
    }
}

/// The `Content-Range` value that a file of `len` bytes is served with.
pub open spec fn file_content_range(len: usize, range: (Option<usize>, Option<usize>)) -> Seq<
    char,
> {
    if len == 0 {
        "bytes */0"@
    } else {
        "bytes "@ + decimal(first_offset(len, range) as nat) + "-"@ + decimal(
            last_offset(len, range) as nat,
        ) + "/"@ + decimal(len as nat)
    }
}

/// The headers that a file of `len` bytes is served with.
pub open spec fn file_headers(
    mime_type: Seq<char>,
    len: usize,
    range: (Option<usize>, Option<usize>),
) -> Seq<(Seq<char>, Seq<char>)> {
    seq![
        ("content-type"@, mime_type),
        ("content-length"@, decimal(served_len(len, range) as nat)),
        ("accept-ranges"@, "bytes"@),
        ("content-range"@, file_content_range(len, range)),
    ]
}

/// How a file is served: the status, the offset to seek to, the number of
/// bytes to send from there, and the headers.
pub struct FileAnswer {
    pub status: u16,
    pub from: usize,
    pub content_len: usize,
    pub headers: Vec<(String, String)>,
}

/// Lays out the answer that serves the bytes `range` of a file of `len`
/// bytes. Fails with `HTTP` where `mime_type` cannot be sent as a header
/// value.
pub fn file_response(len: usize, mime_type: String, range: (Option<usize>, Option<usize>)) -> (r:
    Result<FileAnswer, Error>)
    ensures
        match r {
            Ok(answer) => {
                &&& header_value_ok(mime_type@)
                &&& answer.status == served_status(len, range)
                &&& answer.from == first_offset(len, range)
                &&& answer.content_len == served_len(len, range)
                &&& answer.headers.deep_view() == file_headers(mime_type@, len, range)
                &&& answer.from + answer.content_len <= len
                &&& answer.status == OK <==> answer.content_len == len
            },
            Err(e) => !header_value_ok(mime_type@) && e is HTTP,
        },
{
    if !is_header_value(mime_type.as_str()) {
        return Err(Error::HTTP(String::from_str("failed to parse header value")));
    }
    let mut content_range = String::new();
    let from: usize;
    let content_len: usize;
    let status: u16;
    if len == 0 {
        from = 0;
        content_len = 0;
        status = OK;
        content_range.append("bytes */0");
    } else {
        let last = len - 1;
        let asked_from = match range.0 {
            Some(from) => from,
            None => 0,
        };
        from = if asked_from > last {
            last
        } else {
            asked_from
        };
        let asked_to = match range.1 {
            Some(to) => if to > last {
                last
            } else {
                to
            },
            None => last,
        };
        let to = if asked_to < from {
            from
        } else {
            asked_to
        };
        content_len = to - from + 1;
        status = if from != 0 || to != last {
            PARTIAL_CONTENT
        } else {
            OK
        };
        content_range.append("bytes ");
        push_decimal(&mut content_range, from as u128);
        content_range.append("-");
        push_decimal(&mut content_range, to as u128);
        content_range.append("/");
        push_decimal(&mut content_range, len as u128);
    }
    let mut length = String::new();
    push_decimal(&mut length, content_len as u128);
    assert(length@ == decimal(content_len as nat));
    assert(content_range@ == file_content_range(len, range));
    let mut headers: Vec<(String, String)> = Vec::new();
    headers.push((String::from_str("content-type"), mime_type));
    headers.push((String::from_str("content-length"), length));
    headers.push((String::from_str("accept-ranges"), String::from_str("bytes")));
    headers.push((String::from_str("content-range"), content_range));
    assert(headers.deep_view() == file_headers(mime_type@, len, range));
    Ok(FileAnswer { status, from, content_len, headers })
}

/// Lays out the answer that serves a file of `len` bytes to a request with
/// the headers `req_headers`.
pub fn serve_file(len: usize, mime_type: String, req_headers: &HeaderMap<HeaderValue>) -> (r: Result<
    FileAnswer,
    Error,
>)
    ensures
        match r {
            Ok(answer) => {
                &&& header_value_ok(mime_type@)
                &&& answer.status == served_status(len, requested_range(header_values(*req_headers)))
                &&& answer.from == first_offset(len, requested_range(header_values(*req_headers)))
                &&& answer.content_len == served_len(
                    len,
                    requested_range(header_values(*req_headers)),
                )
                &&& answer.headers.deep_view() == file_headers(
                    mime_type@,
                    len,
                    requested_range(header_values(*req_headers)),
                )
                &&& answer.from + answer.content_len <= len
            },
            Err(e) => !header_value_ok(mime_type@) && e is HTTP,
        },
{
    let range = range_header(req_headers);
    file_response(len, mime_type, range)
}

/// What is to be done to answer a request for audio.
pub enum Delivery<S, F> {
    /// Fetch `url` with `headers` and hand the answer through as it is.
    Forward { url: String, headers: HeaderMap<HeaderValue> },
    /// Send `headers`, then what comes out of `stream`.
    Stream { headers: Vec<(String, String)>, stream: ByteStream<S> },
    /// Measure `file`, then serve the bytes `range` of it as `file_response`
    /// lays out.
    File { file: F, mime_type: String, range: (Option<usize>, Option<usize>) },
}

/// Whether `r` is how the audio that an extractor found is delivered to a
/// request with the headers `request`.
pub open spec fn delivers<S, F>(
    extraction: Extraction<S, F>,
    request: Map<Seq<char>, Seq<Seq<u8>>>,
    r: Result<Delivery<S, F>, Error>,
) -> bool {
    match extraction {
        Extraction::Proxy { url, headers } => {
            ||| match forwarded(request, headers.deep_view()) {
                Some(all) => r matches Ok(Delivery::Forward { url: to, headers: sent }) && to == url
                    && header_values(sent) == all,
                None => r matches Err(Error::Extraction),
            }
            ||| !has_room(request, headers.len() as nat) && r matches Err(Error::HTTP(_))
        },
        Extraction::Stream { stream, filesize, mime_type } => if header_value_ok(mime_type@) {
            r matches Ok(Delivery::Stream { headers, stream: trimmed }) && headers.deep_view()
                == stream_headers(mime_type@, filesize, requested_range(request))
                && trimmed.inner() == stream && trimmed.window() == stream_window(
                requested_range(request),
            ) && !trimmed.has_ended()
        } else {
            r matches Err(Error::HTTP(_))
        },
        Extraction::File { file, mime_type } => r matches Ok(
            Delivery::File { file: served, mime_type: served_type, range },
        ) && served == file && served_type == mime_type && range == requested_range(request),
    }
}

/// Decides how the audio that an extractor found is delivered to a request
/// with the headers `req_headers`.
pub fn get_audio<S, F>(extraction: Extraction<S, F>, req_headers: HeaderMap<HeaderValue>) -> (r:
    Result<Delivery<S, F>, Error>)
    ensures
        delivers(extraction, header_values(req_headers), r),
{
    match extraction {
        Extraction::Proxy { url, headers } => {
            match proxy_play_link(url, headers, req_headers) {
                Ok(request) => Ok(Delivery::Forward { url: request.0, headers: request.1 }),
                Err(e) => Err(e),
            }
        },
        Extraction::Stream { stream, filesize, mime_type } => {
            match proxy_stream(stream, mime_type, filesize, &req_headers) {
                Ok(answer) => Ok(Delivery::Stream { headers: answer.0, stream: answer.1 }),
                Err(e) => Err(e),
            }
        },
        Extraction::File { file, mime_type } => {
            let range = range_header(&req_headers);
            Ok(Delivery::File { file, mime_type, range })
        },
    }
}

} // verus!
