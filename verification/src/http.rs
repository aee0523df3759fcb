//! HTTP framing: request heads and bodies, responses, and chunks.

use crate::json::{is_one_line, opt_str, render, rendered, Json, JsonTree};
use crate::registry::Registry;
use crate::text::{
    before, decimal, decimal_text, decode_lossy, digit, hexadecimal, hexadecimal_text, index_from,
    index_of, leading_word, lemma_index_from, lossy_text, lowercase, lowercased, parse_number,
    parsed_number, pieces, sides, split, split_once, split_word, text_before, trim, trim_start,
    trimmed, views,
};
use vstd::prelude::*;
use vstd::string::*;
use vstd::utf8::*;

verus! {

/// The empty line that ends a head.
pub open spec fn head_end() -> Seq<u8> {
    seq![13u8, 10u8, 13u8, 10u8]
}

/// The place of the empty line that ends the head.
pub fn find_header_end(buffer: &Vec<u8>) -> (place: Option<usize>)
    ensures
        match place {
            Some(i) => index_of(buffer@, head_end()) == Some(i as int) && i + 4 <= buffer.len(),
            None => index_of(buffer@, head_end()) is None,
        },
{
    let mut at: usize = 0;
    while at < buffer.len() && buffer.len() - at >= 4
        invariant
            at <= buffer.len(),
            index_of(buffer@, head_end()) == index_from(buffer@, head_end(), at as int),
        decreases buffer.len() - at,
    {
        let ghost window = buffer@.subrange(at as int, at + 4);
        if buffer[at] == 13 && buffer[at + 1] == 10 && buffer[at + 2] == 13 && buffer[at + 3] == 10 {
            assert(window =~= head_end());
            return Some(at);
        }
        proof {
            assert(window[0] == buffer@[at as int] && window[1] == buffer@[at + 1] && window[2]
                == buffer@[at + 2] && window[3] == buffer@[at + 3]);
            assert(window != head_end()) by {
                if window == head_end() {
                    assert(window[0] == 13 && window[1] == 10 && window[2] == 13 && window[3]
                        == 10);
                }
            }
        }
        at = at + 1;
    }
    None
}

/// How far the head of a request has come.
#[derive(Debug, PartialEq, Eq, Structural)]
pub enum HeadStep {
    /// More bytes are wanted.
    More,
    /// The head ends at the place.
    Complete(usize),
    /// The peer closed the connection before the end of the head.
    Closed,
    /// The head is longer than a body may be.
    TooLarge,
}

/// How far the head has come once `chunk` has come after `earlier`; an empty chunk is the end.
pub open spec fn head_step(earlier: Seq<u8>, chunk: Seq<u8>, limit: usize) -> HeadStep {
    if chunk.len() == 0 {
        HeadStep::Closed
    } else {
        match index_of(earlier + chunk, head_end()) {
            Some(i) => HeadStep::Complete(i as usize),
            None => if (earlier + chunk).len() > limit {
                HeadStep::TooLarge
            } else {
                HeadStep::More
            },
        }
    }
}

/// Takes in the next bytes of a request's head.
pub fn receive_head(buffer: &mut Vec<u8>, chunk: &[u8], limit: usize) -> (step: HeadStep)
    ensures
        final(buffer)@ == old(buffer)@ + chunk@,
        step == head_step(old(buffer)@, chunk@, limit),
        step matches HeadStep::Complete(i) ==> i + 4 <= final(buffer).len(),
{
    let ghost earlier = buffer@;
    buffer.extend_from_slice(chunk);
    assert(buffer@ =~= earlier + chunk@);
    if chunk.len() == 0 {
        return HeadStep::Closed;
    }
    match find_header_end(buffer) {
        Some(at) => HeadStep::Complete(at),
        None => if buffer.len() > limit {
            HeadStep::TooLarge
        } else {
            HeadStep::More
        },
    }
}

/// What is said of a head that cannot be read.
pub open spec fn head_error_text(step: HeadStep) -> Option<Seq<char>> {
    match step {
        HeadStep::Closed => Some("connection closed before headers"@),
        HeadStep::TooLarge => Some("request headers too large"@),
        _ => None,
    }
}

/// What is said of a head that cannot be read.
pub fn head_error(step: &HeadStep) -> (message: Option<&'static str>)
    ensures
        opt_str(message) == head_error_text(*step),
{
    match step {
        HeadStep::Closed => Some("connection closed before headers"),
        HeadStep::TooLarge => Some("request headers too large"),
        _ => None,
    }
}

/// The request line and the headers of a request. Header names are in lower case.
pub struct Head {
    pub method: String,
    pub path: String,
    pub headers: Registry<String>,
}

/// What follows the first word of a line.
pub open spec fn after_word(line: Seq<char>) -> Seq<char> {
    let start = trim_start(line);
    start.skip(leading_word(start).len() as int)
}

/// The method: the first word of the request line.
pub open spec fn request_method(head: Seq<char>) -> Seq<char> {
    leading_word(trim_start(pieces(head, "\r\n"@)[0]))
}

/// The path: the second word of the request line, up to a question mark.
pub open spec fn request_path(head: Seq<char>) -> Seq<char> {
    before(leading_word(trim_start(after_word(pieces(head, "\r\n"@)[0]))), '?')
}

/// The headers of the first `count` lines after the request line. A line without a colon is no
/// header; of two headers with one name the later counts.
pub open spec fn headers_of(lines: Seq<Seq<char>>, count: int) -> Map<Seq<char>, Seq<char>>
    decreases count,
{
    if count <= 0 {
        Map::empty()
    } else {
        let earlier = headers_of(lines, count - 1);
        match sides(lines[count], ':') {
            Some((name, value)) => earlier.insert(lowercased(trimmed(name)), trimmed(value)),
            None => earlier,
        }
    }
}

/// The headers of a request.
pub open spec fn request_headers(head: Seq<char>) -> Map<Seq<char>, Seq<char>> {
    let lines = pieces(head, "\r\n"@);
    headers_of(lines, lines.len() - 1)
}

/// Reads the text of a head.
pub fn parse_head(text: &str) -> (head: Head)
    ensures
        head.method@ == request_method(text@),
        head.path@ == request_path(text@),
        head.headers.wf(),
        head.headers@ == request_headers(text@),
{
    proof {
        reveal_strlit("\r\n");
    }
    let lines = split(text, "\r\n");
    let ghost parts = pieces(text@, "\r\n"@);
    proof {
        assert(views(lines@).len() == lines.len());
        assert(parts[0] == lines@[0]@);
    }
    let (method, rest) = split_word(lines[0].as_str());
    assert(rest@ =~= after_word(parts[0]));
    let (target, _) = split_word(rest.as_str());
    let path = text_before(target.as_str(), '?');
    let mut headers: Registry<String> = Registry::new();
    let mut i: usize = 1;
    while i < lines.len()
        invariant
            1 <= i <= lines.len(),
            views(lines@) == parts,
            headers.wf(),
            headers@ == headers_of(parts, i - 1),
        decreases lines.len() - i,
    {
        assert(parts[i as int] == lines@[i as int]@);
        match split_once(lines[i].as_str(), ':') {
            Some((name, value)) => {
                let key = lowercase(trim(name.as_str()).as_str());
                headers.insert(key.as_str(), trim(value.as_str()));
            },
            None => {},
        }
        i = i + 1;
    }
    Head { method, path, headers }
}

/// Reads the head out of the bytes before its empty line.
pub fn read_head(buffer: &Vec<u8>, end: usize) -> (head: Head)
    requires
        end <= buffer.len(),
    ensures
        head.method@ == request_method(lossy_text(buffer@.take(end as int))),
        head.path@ == request_path(lossy_text(buffer@.take(end as int))),
        head.headers.wf(),
        head.headers@ == request_headers(lossy_text(buffer@.take(end as int))),
{
    let bytes = copy_bytes(buffer, 0, end);
    assert(bytes@ =~= buffer@.take(end as int));
    let text = decode_lossy(bytes.as_slice());
    parse_head(text.as_str())
}

/// A copy of the bytes from `from` up to `to`.
fn copy_bytes(buffer: &Vec<u8>, from: usize, to: usize) -> (copy: Vec<u8>)
    requires
        from <= to <= buffer.len(),
    ensures
        copy@ == buffer@.subrange(from as int, to as int),
{
    let mut copy: Vec<u8> = Vec::new();
    let mut i: usize = from;
    while i < to
        invariant
            from <= i <= to <= buffer.len(),
            copy@ == buffer@.subrange(from as int, i as int),
        decreases to - i,
    {
        copy.push(buffer[i]);
        i = i + 1;
    }
    copy
}

/// The length of the body that the headers give; none and one that is no number are zero.
pub open spec fn announced_length(headers: Map<Seq<char>, Seq<char>>) -> usize {
    if headers.dom().contains("content-length"@) {
        match parsed_number(headers["content-length"@]) {
            Some(n) => if n <= usize::MAX {
                n as usize
            } else {
                0
            },
            None => 0,
        }
    } else {
        0
    }
}

/// The length of the body that the headers give.
pub fn content_length(headers: &Registry<String>) -> (length: usize)
    requires
        headers.wf(),
    ensures
        length == announced_length(headers@),
{
    match headers.get("content-length") {
        Some(value) => match parse_number(value.as_str()) {
            Some(length) => length,
            None => 0,
        },
        None => 0,
    }
}

/// The first `length` bytes, or all where there are fewer.
pub open spec fn first_bytes(bytes: Seq<u8>, length: nat) -> Seq<u8> {
    if bytes.len() <= length {
        bytes
    } else {
        bytes.take(length as int)
    }
}

/// The body as far as it came with the head, and whether it is complete.
pub open spec fn body_begun(rest: Seq<u8>, length: nat) -> (Seq<u8>, bool) {
    (first_bytes(rest, length), rest.len() >= length)
}

/// Takes the bytes that came after the head as the start of a body of `length` bytes, and tells
/// whether the body is complete.
pub fn body_start(buffer: &Vec<u8>, end: usize, length: usize) -> (start: (Vec<u8>, bool))
    requires
        end + 4 <= buffer.len(),
    ensures
        (start.0@, start.1) == body_begun(buffer@.skip(end + 4), length as nat),
{
    let mut body = copy_bytes(buffer, end + 4, buffer.len());
    assert(body@ =~= buffer@.skip(end + 4));
    let done = body.len() >= length;
    cut_body(&mut body, length);
    (body, done)
}

/// Cuts off what came after the body.
fn cut_body(body: &mut Vec<u8>, length: usize)
    ensures
        final(body)@ == first_bytes(old(body)@, length as nat),
{
    if body.len() > length {
        body.truncate(length);
    }
    assert(body@ =~= first_bytes(old(body)@, length as nat));
}

/// The body after a chunk more, and whether it is complete. An empty chunk is the end of the
/// connection.
pub open spec fn body_received(body: Seq<u8>, chunk: Seq<u8>, length: nat) -> (Seq<u8>, bool) {
    let bytes = body + chunk;
    if chunk.len() == 0 || bytes.len() >= length {
        (first_bytes(bytes, length), true)
    } else {
        (bytes, false)
    }
}

/// Takes a chunk into a body of `length` bytes, and tells whether the body is complete.
pub fn receive_body(body: &mut Vec<u8>, chunk: &[u8], length: usize) -> (done: bool)
    ensures
        (final(body)@, done) == body_received(old(body)@, chunk@, length as nat),
{
    body.extend_from_slice(chunk);
    assert(body@ =~= old(body)@ + chunk@);
    if chunk.len() == 0 || body.len() >= length {
        cut_body(body, length);
        true
    } else {
        false
    }
}

/// The body once the chunks have come one by one after a body that is not complete.
pub open spec fn body_after(body: Seq<u8>, chunks: Seq<Seq<u8>>, length: nat) -> Seq<u8>
    decreases chunks.len(),
{
    if chunks.len() == 0 {
        body
    } else {
        let (longer, done) = body_received(body, chunks[0], length);
        if done {
            longer
        } else {
            body_after(longer, chunks.drop_first(), length)
        }
    }
}

/// The body of a request: what came with the head, and the chunks where that was not all.
pub open spec fn received_body(rest: Seq<u8>, chunks: Seq<Seq<u8>>, length: nat) -> Seq<u8> {
    let (body, done) = body_begun(rest, length);
    if done {
        body
    } else {
        body_after(body, chunks, length)
    }
}

/// All bytes that came, up to an empty chunk.
pub open spec fn all_bytes(start: Seq<u8>, chunks: Seq<Seq<u8>>) -> Seq<u8>
    decreases chunks.len(),
{
    if chunks.len() == 0 || chunks[0].len() == 0 {
        start
    } else {
        all_bytes(start + chunks[0], chunks.drop_first())
    }
}

/// A body is the first `length` bytes of what comes, however it comes in chunks.
pub proof fn law_body_ignores_chunking(rest: Seq<u8>, chunks: Seq<Seq<u8>>, length: nat)
    ensures
        received_body(rest, chunks, length) == first_bytes(all_bytes(rest, chunks), length),
{
    if rest.len() >= length {
        lemma_enough_bytes(rest, chunks, length);
    } else {
        lemma_body_after(rest, chunks, length);
    }
}

/// A body that is not complete is made so by the chunks.
proof fn lemma_body_after(body: Seq<u8>, chunks: Seq<Seq<u8>>, length: nat)
    requires
        body.len() < length,
    ensures
        body_after(body, chunks, length) == first_bytes(all_bytes(body, chunks), length),
    decreases chunks.len(),
{
    if chunks.len() > 0 {
        let longer = body + chunks[0];
        if chunks[0].len() == 0 {
            assert(longer =~= body);
        } else if longer.len() >= length {
            lemma_enough_bytes(longer, chunks.drop_first(), length);
        } else {
            lemma_body_after(longer, chunks.drop_first(), length);
        }
    }
}

/// Where enough bytes have come, later ones change nothing.
proof fn lemma_enough_bytes(start: Seq<u8>, chunks: Seq<Seq<u8>>, length: nat)
    requires
        start.len() >= length,
    ensures
        first_bytes(start, length) == first_bytes(all_bytes(start, chunks), length),
{
    lemma_all_bytes_extend(start, chunks);
    assert(all_bytes(start, chunks).take(length as int) =~= start.take(length as int));
    assert(start.take(start.len() as int) =~= start);
    assert(first_bytes(start, length) =~= first_bytes(all_bytes(start, chunks), length));
}

/// What came first stays first.
proof fn lemma_all_bytes_extend(start: Seq<u8>, chunks: Seq<Seq<u8>>)
    ensures
        start.len() <= all_bytes(start, chunks).len(),
        all_bytes(start, chunks).take(start.len() as int) == start,
    decreases chunks.len(),
{
    if chunks.len() > 0 && chunks[0].len() > 0 {
        let longer = start + chunks[0];
        lemma_all_bytes_extend(longer, chunks.drop_first());
        let all = all_bytes(start, chunks);
        assert(all.take(start.len() as int) =~= longer.take(start.len() as int)) by {
            assert(all.take(longer.len() as int) == longer);
            assert forall|i: int| 0 <= i < start.len() implies all[i] == longer[i] by {
                assert(all.take(longer.len() as int)[i] == all[i]);
            }
        }
        assert(longer.take(start.len() as int) =~= start);
    } else {
        assert(start.take(start.len() as int) =~= start);
    }
}

/// The words for a status.
pub open spec fn status_words(status: u16) -> Seq<char> {
    if status == 400 {
        "Bad Request"@
    } else if status == 401 {
        "Unauthorized"@
    } else if status == 403 {
        "Forbidden"@
    } else if status == 404 {
        "Not Found"@
    } else if status == 413 {
        "Payload Too Large"@
    } else {
        "OK"@
    }
}

/// The words for a status.
pub fn status_text(status: u16) -> (words: &'static str)
    ensures
        words@ == status_words(status),
{
    if status == 400 {
        "Bad Request"
    } else if status == 401 {
        "Unauthorized"
    } else if status == 403 {
        "Forbidden"
    } else if status == 404 {
        "Not Found"
    } else if status == 413 {
        "Payload Too Large"
    } else {
        "OK"
    }
}

/// The head of a JSON response whose body has `length` bytes.
pub open spec fn response_head(status: u16, length: nat) -> Seq<char> {
    "HTTP/1.1 "@ + decimal(status as nat) + " "@ + status_words(status)
        + "\r\nContent-Type: application/json; charset=utf-8\r\nContent-Length: "@ + decimal(length)
        + "\r\nConnection: close\r\n\r\n"@
}

/// The bytes of a JSON response.
pub open spec fn response_bytes(status: u16, payload: JsonTree) -> Seq<u8> {
    encode_utf8(response_head(status, rendered(payload).len())) + rendered(payload)
}

/// The bytes of a JSON response.
pub fn json_response(status: u16, payload: &Json) -> (bytes: Vec<u8>)
    ensures
        bytes@ == response_bytes(status, payload@),
{
    let body = render(payload);
    let mut head = "HTTP/1.1 ".to_owned();
    head.append(decimal_text(status as u128).as_str());
    head.append(" ");
    head.append(status_text(status));
    head.append("\r\nContent-Type: application/json; charset=utf-8\r\nContent-Length: ");
    head.append(decimal_text(body.len() as u128).as_str());
    head.append("\r\nConnection: close\r\n\r\n");
    let mut bytes = head.as_str().as_bytes_vec();
    bytes.extend_from_slice(body.as_slice());
    assert(bytes@ =~= response_bytes(status, payload@));
    bytes
}

/// The head of a chunked response.
pub open spec fn chunked_head() -> Seq<char> {
    "HTTP/1.1 200 OK\r\nContent-Type: application/x-ndjson; charset=utf-8\r\nTransfer-Encoding: chunked\r\nConnection: close\r\n\r\n"@
}

/// The head of a chunked response.
pub fn chunked_headers() -> (bytes: Vec<u8>)
    ensures
        bytes@ == encode_utf8(chunked_head()),
{
    "HTTP/1.1 200 OK\r\nContent-Type: application/x-ndjson; charset=utf-8\r\nTransfer-Encoding: chunked\r\nConnection: close\r\n\r\n".as_bytes_vec()
}

/// A run of bytes as one chunk: its length, its bytes, and a line end after each.
pub open spec fn chunk_of(data: Seq<u8>) -> Seq<u8> {
    encode_utf8(hexadecimal(data.len())) + seq![13u8, 10u8] + data + seq![13u8, 10u8]
}

/// The chunk that holds a value on a line of its own.
pub open spec fn line_chunk(payload: JsonTree) -> Seq<u8> {
    chunk_of(rendered(payload).push(10u8))
}

/// The chunk that holds a value on a line of its own: the line feed after it is the only one.
pub fn chunk(payload: &Json) -> (bytes: Vec<u8>)
    ensures
        bytes@ == chunk_of(rendered(payload@).push(10u8)),
        bytes@ == line_chunk(payload@),
        is_one_line(rendered(payload@)),
{
    let mut data = render(payload);
    data.push(10);
    let mut bytes = hexadecimal_text(data.len()).as_str().as_bytes_vec();
    bytes.push(13);
    bytes.push(10);
    bytes.extend_from_slice(data.as_slice());
    bytes.push(13);
    bytes.push(10);
    assert(bytes@ =~= chunk_of(rendered(payload@).push(10u8)));
    bytes
}

/// The chunk that ends a chunked response.
pub fn final_chunk() -> (bytes: Vec<u8>)
    ensures
        bytes@ == encode_utf8("0\r\n\r\n"@),
{
    "0\r\n\r\n".as_bytes_vec()
}

/// The value of a hexadecimal digit.
pub open spec fn hex_digit_value(byte: u8) -> nat {
    if 48 <= byte <= 57 {
        (byte - 48) as nat
    } else if 97 <= byte <= 102 {
        (byte - 87) as nat
    } else {
        0
    }
}

/// The number that hexadecimal digits stand for.
pub open spec fn hex_number(digits: Seq<u8>) -> nat
    decreases digits.len(),
{
    if digits.len() == 0 {
        0
    } else {
        hex_number(digits.drop_last()) * 16 + hex_digit_value(digits.last())
    }
}

/// What a reader takes from a chunked body: the data of the first chunk, and what follows it. The
/// length of the data stands before the first line end, and a line end after the data.
pub open spec fn read_chunk(bytes: Seq<u8>) -> Option<(Seq<u8>, Seq<u8>)> {
    match index_of(bytes, seq![13u8, 10u8]) {
        None => None,
        Some(at) => {
            let start = at + 2;
            let end = start + hex_number(bytes.take(at));
            if end + 2 <= bytes.len() && bytes.subrange(end, end + 2) == seq![13u8, 10u8] {
                Some((bytes.subrange(start, end), bytes.skip(end + 2)))
            } else {
                None
            }
        },
    }
}

/// The digits of a hexadecimal numeral are bytes that stand for the number.
proof fn lemma_hexadecimal_bytes(n: nat)
    ensures
        is_ascii_chars(hexadecimal(n)),
        hex_number(encode_utf8(hexadecimal(n))) == n,
        forall|i: int|
            0 <= i < encode_utf8(hexadecimal(n)).len() ==> #[trigger] encode_utf8(
                hexadecimal(n),
            )[i] != 13u8,
    decreases n,
{
    let digits = hexadecimal(n);
    let last = digit(n % 16);
    assert(last as u32 == (if n % 16 < 10 {
        48 + n % 16
    } else {
        87 + n % 16
    }));
    if n < 16 {
        assert(digits =~= seq![last]);
        assert(is_ascii_chars(digits));
        is_ascii_chars_encode_utf8(digits);
        let bytes = encode_utf8(digits);
        assert(bytes[0] == digits[0] as u8);
        assert(bytes.drop_last() =~= Seq::<u8>::empty());
        assert(bytes.last() == bytes[0]);
        assert(hex_number(Seq::<u8>::empty()) == 0);
    } else {
        lemma_hexadecimal_bytes(n / 16);
        let earlier = hexadecimal(n / 16);
        assert(digits =~= earlier.push(last));
        assert(is_ascii_chars(digits));
        is_ascii_chars_encode_utf8(digits);
        is_ascii_chars_encode_utf8(earlier);
        let bytes = encode_utf8(digits);
        assert forall|i: int| 0 <= i < earlier.len() implies bytes[i] == encode_utf8(earlier)[i] by {
            assert(digits[i] == earlier[i]);
            assert(digits[i] as u8 == bytes[i]);
            assert(earlier[i] as u8 == encode_utf8(earlier)[i]);
        }
        assert(bytes.drop_last() =~= encode_utf8(earlier));
        assert(digits[digits.len() - 1] as u8 == bytes[digits.len() - 1]);
        assert(bytes.last() == last as u8);
        assert forall|i: int| 0 <= i < bytes.len() implies #[trigger] bytes[i] != 13u8 by {
            if i < earlier.len() {
                assert(bytes[i] == encode_utf8(earlier)[i]);
            }
        }
    }
}

/// A reader gets the data of a chunk back, and what was written after it.
pub proof fn law_chunk_reads_back(data: Seq<u8>, rest: Seq<u8>)
    ensures
        read_chunk(chunk_of(data) + rest) == Some((data, rest)),
{
    lemma_hexadecimal_bytes(data.len());
    let size = encode_utf8(hexadecimal(data.len()));
    let mark = seq![13u8, 10u8];
    let bytes = chunk_of(data) + rest;
    let at = size.len() as int;
    assert(bytes.subrange(at, at + 2) =~= mark);
    lemma_index_from(bytes, mark, 0);
    let found = index_of(bytes, mark);
    if found is None {
        assert(bytes.subrange(at, at + mark.len()) != mark);
    } else if found->0 < at {
        assert(bytes.subrange(found->0, found->0 + 2)[0] == size[found->0]);
        assert(mark[0] == 13u8);
    } else if found->0 > at {
        assert(bytes.subrange(at, at + mark.len()) != mark);
    }
    assert(bytes.take(at) =~= size);
    let start = at + 2;
    let end = start + data.len();
    assert(bytes.subrange(end, end + 2) =~= mark);
    assert(bytes.subrange(start, end) =~= data);
    assert(bytes.skip(end + 2) =~= rest);
}

/// The chunk that ends a chunked body is the one without data.
pub proof fn law_final_chunk_is_empty()
    ensures
        encode_utf8("0\r\n\r\n"@) == chunk_of(Seq::empty()),
{
    let text = "0\r\n\r\n"@;
    reveal_strlit("0\r\n\r\n");
    assert(is_ascii_chars(text));
    is_ascii_chars_encode_utf8(text);
    let none = Seq::<u8>::empty();
    let size = hexadecimal(none.len());
    assert(size =~= seq!['0']) by {
        assert(digit(0) as u32 == 48);
    }
    assert(is_ascii_chars(size));
    is_ascii_chars_encode_utf8(size);
    assert(size[0] as u8 == encode_utf8(size)[0]);
    assert(text[0] as u8 == encode_utf8(text)[0]);
    assert(text[1] as u8 == encode_utf8(text)[1]);
    assert(text[2] as u8 == encode_utf8(text)[2]);
    assert(text[3] as u8 == encode_utf8(text)[3]);
    assert(text[4] as u8 == encode_utf8(text)[4]);
    assert(encode_utf8(text) =~= chunk_of(none));
}

} // verus!
