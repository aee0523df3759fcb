//! What holds of requests and responses on the wire: who is let in, what a request asks for, and
//! what a reader makes of an answer.

use crate::auth::{configured_sources, is_authorized, law_bearer_header, TokenSource};
use crate::backend::cli_laws::{ends_with, holds_text, lemma_joined_first};
use crate::config::{gathered, source_networks, source_read, BackendKind, Config, RawConfig};
use crate::http::{
    all_bytes, announced_length, chunked_head, head_end, head_error_text, head_step, headers_of,
    law_body_ignores_chunking, law_chunk_reads_back, line_chunk, read_chunk, received_body,
    request_headers, request_method, request_path, response_bytes, response_head, status_words,
    HeadStep,
};
use crate::json::{compact_bytes, parsed_bytes, rendered, JsonTree};
use crate::names::lemma_field_names;
use crate::net::{in_network, is_loopback, parsed_network, Address, Network};
use crate::process::{kill_stepped, taskkill_stepped, CommandOutcome, EndEvent, EndModel};
use crate::rpc::{agent_card_tree, oversized, routed, PlanModel, RequestModel, VERSION};
use crate::state::{loaded_contexts, loaded_tasks, ContextModel};
use crate::task::tells_worktree;
use crate::text::{
    all_digits, before, decimal, digit, digits_value, index_of, is_digit, is_whitespace, joined,
    leading_word, lemma_index_from, lines, lossy_text, lowercased, parsed_number, pieces, sides,
    trim_end, trim_start, trimmed, views, without_return,
};
use vstd::arithmetic::power2::*;
use vstd::prelude::*;
use vstd::utf8::*;

verus! {

/// The address is one of the machine itself: `127.0.0.0/8` or `::1`.
pub open spec fn is_own_address(ip: Address) -> bool {
    match ip {
        Address::V4(n) => 0x7f00_0000 <= n <= 0x7fff_ffff,
        Address::V6(n) => n == 1,
    }
}

/// The request comes from the machine itself or from a network that is allowed.
pub open spec fn comes_from_friends(config: Config, request: RequestModel) -> bool {
    is_own_address(request.peer_ip) || exists|i: int|
        0 <= i < config.allowed_sources.len() && in_network(
            #[trigger] config.allowed_sources@[i],
            request.peer_ip,
        )
}

/// The request carries the token, after `Bearer ` in its `authorization` header.
pub open spec fn carries(request: RequestModel, expected: Option<Seq<char>>) -> bool {
    &&& expected matches Some(token)
    &&& request.headers.dom().contains("authorization"@)
    &&& request.headers["authorization"@] == "Bearer "@ + token
}

/// A request is let in exactly where it comes from the machine itself or an allowed network, and
/// carries the token: the first failing is answered with 403, the second with 401.
pub proof fn law_requests_are_let_in(
    config: Config,
    request: RequestModel,
    expected: Option<Seq<char>>,
)
    ensures
        !comes_from_friends(config, request) ==> (routed(
            config,
            request,
            expected,
        ) matches PlanModel::Answer(status, payload) && status == 403 && payload.text_at("error"@)
            == Some("forbidden source"@)),
        comes_from_friends(config, request) && !carries(request, expected) ==> (routed(
            config,
            request,
            expected,
        ) matches PlanModel::Answer(status, payload) && status == 401 && payload.at("error"@).get(
            "code"@,
        ) == Some(JsonTree::Integer(-32000)) && payload.at("error"@).text_at("message"@) == Some(
            "Unauthorized"@,
        ) && payload.get("id"@) == Some(
            match parsed_bytes(request.body) {
                Some(body) => if request.method == "POST"@ && (request.path == "/"@ || request.path
                    == "/a2a/jsonrpc"@) && body.text_at("method"@) == Some("message/stream"@) {
                    body.at("id"@)
                } else {
                    JsonTree::Null
                },
                None => JsonTree::Null,
            },
        )),
        comes_from_friends(config, request) && carries(request, expected) ==> (routed(
            config,
            request,
            expected,
        ) matches PlanModel::Answer(status, payload) ==> status != 401 && status != 403),
{
    lemma_field_names();
    assert(is_own_address(request.peer_ip) == is_loopback(request.peer_ip));
    reveal_strlit("");
    reveal_strlit("message/stream");
    assert(""@.len() == 0 && "message/stream"@.len() == 14);
    if request.headers.dom().contains("authorization"@) {
        let header = request.headers["authorization"@];
        match expected {
            Some(token) => {
                law_bearer_header(header, token);
            },
            None => {},
        }
    }
}

/// What a request that is let in gets: its page, its call as its body says it, or word that there is
/// nothing.
pub proof fn law_requests_get_what_they_ask_for(
    config: Config,
    request: RequestModel,
    expected: Option<Seq<char>>,
)
    requires
        comes_from_friends(config, request),
        carries(request, expected),
    ensures
        ({
            let plan = routed(config, request, expected);
            if request.method == "GET"@ && request.path == "/health"@ {
                &&& plan matches PlanModel::Answer(status, payload)
                &&& status == 200
                &&& payload.text_at("status"@) == Some("ok"@)
                &&& payload.text_at("agent"@) == Some("codex-a2a-rs"@)
            } else if request.method == "GET"@ && (request.path == "/.well-known/agent.json"@
                || request.path == "/.well-known/agent-card.json"@) {
                &&& plan matches PlanModel::Answer(status, card)
                &&& status == 200
                &&& is_card_of(config, card)
            } else if request.method == "POST"@ && (request.path == "/"@ || request.path
                == "/a2a/jsonrpc"@) {
                match parsed_bytes(request.body) {
                    None => {
                        &&& plan matches PlanModel::Answer(status, payload)
                        &&& status == 400
                        &&& payload.get("id"@) == Some(JsonTree::Null)
                        &&& payload.at("error"@).get("code"@) == Some(JsonTree::Integer(-32700))
                    },
                    Some(body) => {
                        let call = match plan {
                            PlanModel::Call(call) => call,
                            PlanModel::Stream(call) => call,
                            _ => arbitrary(),
                        };
                        &&& plan is Stream <==> body.text_at("method"@) == Some("message/stream"@)
                        &&& plan is Call <==> body.text_at("method"@) != Some("message/stream"@)
                        &&& call.id == body.at("id"@)
                        &&& body.text_at("method"@) matches Some(method) ==> call.method == method
                        &&& body.text_at("method"@) is None ==> call.method.len() == 0
                        &&& body.get("params"@) matches Some(params) ==> call.params == params
                        &&& body.get("params"@) is None ==> call.params == JsonTree::object()
                    },
                }
            } else {
                &&& plan matches PlanModel::Answer(status, payload)
                &&& status == 404
                &&& payload.text_at("error"@) == Some("not found"@)
            }
        }),
{
    lemma_field_names();
    law_requests_are_let_in(config, request, expected);
    reveal_strlit("GET");
    reveal_strlit("POST");
    reveal_strlit("/health");
    reveal_strlit("/.well-known/agent.json");
    reveal_strlit("/.well-known/agent-card.json");
    reveal_strlit("");
    reveal_strlit("message/stream");
    assert("GET"@.len() == 3 && "POST"@.len() == 4);
    assert("/health"@.len() == 7 && "/.well-known/agent.json"@.len() == 23);
    assert("/.well-known/agent-card.json"@.len() == 28);
    assert(""@.len() == 0 && "message/stream"@.len() == 14);
    lemma_card(config);
}

/// The card says where the agent is reached, by which protocol and with which credentials, that it
/// streams, and that it knows the sessions extension.
pub open spec fn is_card_of(config: Config, card: JsonTree) -> bool {
    &&& card.text_at("name"@) == Some("codex-a2a-rs"@)
    &&& card.text_at("url"@) == Some(config.public_url@)
    &&& card.at("skills"@) matches JsonTree::Array(skills)
    &&& skills.len() == 2
    &&& skills[0].text_at("id"@) == Some("codex"@)
    &&& skills[1].text_at("id"@) == Some("sessions"@)
    &&& card.text_at("protocol"@) == Some("a2a"@)
    &&& card.text_at("protocolVersion"@) == Some("1.0.0"@)
    &&& card.text_at("preferredTransport"@) == Some("JSONRPC"@)
    &&& card.text_at("version"@) == Some(VERSION@)
    &&& card.at("defaultInputModes"@) == JsonTree::Array(seq![JsonTree::Text("text"@)])
    &&& card.at("defaultOutputModes"@) == JsonTree::Array(seq![JsonTree::Text("text"@)])
    &&& card.at("interfaces"@) == JsonTree::Array(seq![JsonTree::Text("jsonrpc"@)])
    &&& card.at("securitySchemes"@).at("bearerAuth"@).text_at("type"@) == Some("http"@)
    &&& card.at("securitySchemes"@).at("bearerAuth"@).text_at("scheme"@) == Some("bearer"@)
    &&& card.at("security"@) matches JsonTree::Array(security)
    &&& security.len() == 1
    &&& security[0].at("bearerAuth"@) == JsonTree::Array(Seq::empty())
    &&& card.at("capabilities"@).get("multiTurn"@) == Some(JsonTree::Bool(true))
    &&& card.at("capabilities"@).get("structuredMetadata"@) == Some(JsonTree::Bool(true))
    &&& card.at("capabilities"@).get("streaming"@) == Some(JsonTree::Bool(true))
    &&& card.at("capabilities"@).get("pushNotifications"@) == Some(JsonTree::Bool(false))
    &&& card.at("capabilities"@).at("extensions"@) matches JsonTree::Array(extensions)
    &&& extensions.len() == 1
    &&& extensions[0].text_at("uri"@) == Some("urn:codex-a2a:extensions:codex-sessions:v1"@)
    &&& extensions[0].get("required"@) == Some(JsonTree::Bool(false))
    &&& extensions[0].at("methods"@) == JsonTree::Array(
        seq![JsonTree::Text("sessions/list"@), JsonTree::Text("sessions/resume"@)],
    )
}

/// What the card says.
proof fn lemma_card(config: Config)
    ensures
        is_card_of(config, agent_card_tree(config.public_url@)),
{
    lemma_field_names();
}

/// The head of a request ends at its first empty line, however its bytes came; without one more
/// bytes are wanted, up to the limit; and a connection that closes before is the end.
pub proof fn law_heads_end_at_the_empty_line(earlier: Seq<u8>, chunk: Seq<u8>, limit: usize)
    requires
        (earlier + chunk).len() <= usize::MAX,
    ensures
        ({
            let bytes = earlier + chunk;
            let ends_at = |i: int|
                0 <= i <= bytes.len() - 4 && bytes[i] == 13 && bytes[i + 1] == 10 && bytes[i + 2]
                    == 13 && bytes[i + 3] == 10;
            match head_step(earlier, chunk, limit) {
                HeadStep::Closed => chunk.len() == 0,
                HeadStep::Complete(end) => chunk.len() > 0 && ends_at(end as int) && forall|j: int|
                    0 <= j < end ==> !#[trigger] ends_at(j),
                HeadStep::TooLarge => chunk.len() > 0 && bytes.len() > limit && forall|j: int|
                    !#[trigger] ends_at(j),
                HeadStep::More => chunk.len() > 0 && bytes.len() <= limit && forall|j: int|
                    !#[trigger] ends_at(j),
            }
        }),
{
    let bytes = earlier + chunk;
    let mark = head_end();
    let ends_at = |i: int|
        0 <= i <= bytes.len() - 4 && bytes[i] == 13 && bytes[i + 1] == 10 && bytes[i + 2] == 13
            && bytes[i + 3] == 10;
    lemma_index_from(bytes, mark, 0);
    assert forall|i: int| #[trigger] ends_at(i) implies bytes.subrange(i, i + 4) == mark by {
        assert(bytes.subrange(i, i + 4) =~= mark);
    }
    assert forall|i: int|
        0 <= i <= bytes.len() - 4 && #[trigger] bytes.subrange(i, i + 4) == mark implies ends_at(
        i,
    ) by {
        let window = bytes.subrange(i, i + 4);
        assert(window[0] == 13 && window[1] == 10 && window[2] == 13 && window[3] == 10);
    }
    match index_of(bytes, mark) {
        Some(at) => {
            assert(bytes.subrange(at, at + 4) == mark);
            assert(ends_at(at));
            assert forall|j: int| 0 <= j < at implies !#[trigger] ends_at(j) by {
                assert(bytes.subrange(j, j + mark.len()) != mark);
            }
        },
        None => {
            assert forall|j: int| !#[trigger] ends_at(j) by {
                if ends_at(j) {
                    assert(bytes.subrange(j, j + mark.len()) != mark);
                }
            }
        },
    }
}

/// Lines without line ends in them are got back from the text that they are joined to.
proof fn lemma_joined_lines(all: Seq<Seq<char>>)
    requires
        all.len() > 0,
        forall|i: int| 0 <= i < all.len() ==> !(#[trigger] all[i]).contains('\r'),
    ensures
        pieces(joined(all, "\r\n"@), "\r\n"@) == all,
    decreases all.len(),
{
    reveal_strlit("\r\n");
    let mark = "\r\n"@;
    let line = all[0];
    if all.len() == 1 {
        lemma_index_from(line, mark, 0);
        match index_of(line, mark) {
            Some(at) => {
                assert(line.subrange(at, at + 2)[0] == line[at]);
                assert(line.contains(line[at]));
            },
            None => {},
        }
        assert(joined(all, mark) == line);
        assert(seq![line] =~= all);
    } else {
        let rest = all.drop_first();
        assert forall|i: int| 0 <= i < rest.len() implies !(#[trigger] rest[i]).contains('\r') by {
            assert(rest[i] == all[i + 1]);
        }
        lemma_joined_lines(rest);
        lemma_joined_first(all, mark);
        let text = joined(all, mark);
        let tail = joined(rest, mark);
        assert(text == line + mark + tail);
        let at = line.len() as int;
        assert(text.subrange(at, at + 2) =~= mark);
        lemma_index_from(text, mark, 0);
        match index_of(text, mark) {
            Some(found) => {
                if found < at {
                    assert(text.subrange(found, found + 2)[0] == line[found]);
                    assert(line.contains(line[found]));
                } else if found > at {
                    assert(text.subrange(at, at + mark.len()) != mark);
                }
            },
            None => {
                assert(text.subrange(at, at + mark.len()) != mark);
            },
        }
        assert(text.take(at) =~= line);
        assert(text.skip(at + 2) =~= tail);
        assert(seq![line] + rest =~= all);
    }
}

/// The text holds no white space.
pub open spec fn is_word(s: Seq<char>) -> bool {
    s.len() > 0 && forall|i: int| 0 <= i < s.len() ==> !is_whitespace(#[trigger] s[i])
}

/// The first word of a text that begins with one.
proof fn lemma_leading_word(word: Seq<char>, rest: Seq<char>)
    requires
        forall|i: int| 0 <= i < word.len() ==> !is_whitespace(#[trigger] word[i]),
        rest.len() == 0 || is_whitespace(rest[0]),
    ensures
        leading_word(word + rest) == word,
    decreases word.len(),
{
    if word.len() == 0 {
        assert(word + rest =~= rest);
        assert(leading_word(rest) =~= word);
    } else {
        let tail = word.drop_first();
        assert forall|i: int| 0 <= i < tail.len() implies !is_whitespace(#[trigger] tail[i]) by {
            assert(tail[i] == word[i + 1]);
        }
        lemma_leading_word(tail, rest);
        assert((word + rest).drop_first() =~= tail + rest);
        assert((word + rest)[0] == word[0]);
        assert(!is_whitespace(word[0]));
        assert(seq![word[0]] + tail =~= word);
    }
}

/// The part of a text before a character that it does not hold earlier.
proof fn lemma_before_mark(start: Seq<char>, rest: Seq<char>, c: char)
    requires
        !start.contains(c),
        rest.len() == 0 || rest[0] == c,
    ensures
        before(start + rest, c) == start,
    decreases start.len(),
{
    if start.len() == 0 {
        assert(start + rest =~= rest);
        assert(before(rest, c) =~= start);
    } else {
        let tail = start.drop_first();
        assert(start.contains(start[0]));
        assert(!tail.contains(c)) by {
            if tail.contains(c) {
                let i = choose|i: int| 0 <= i < tail.len() && tail[i] == c;
                assert(start[i + 1] == c);
            }
        }
        lemma_before_mark(tail, rest, c);
        assert((start + rest).drop_first() =~= tail + rest);
        assert((start + rest)[0] == start[0]);
        assert(seq![start[0]] + tail =~= start);
    }
}

/// The request line says the method and the path, and what follows a question mark is not of the
/// path.
pub proof fn law_request_lines_are_read(
    method: Seq<char>,
    path: Seq<char>,
    query: Seq<char>,
    version: Seq<char>,
    headers: Seq<Seq<char>>,
)
    requires
        is_word(method),
        is_word(path),
        !path.contains('?'),
        query.len() == 0 || (query[0] == '?' && is_word(query)),
        is_word(version),
        forall|i: int| 0 <= i < headers.len() ==> !(#[trigger] headers[i]).contains('\r'),
    ensures
        ({
            let line = method + seq![' '] + path + query + seq![' '] + version;
            let head = joined(seq![line] + headers, "\r\n"@);
            request_method(head) == method && request_path(head) == path
        }),
{
    let line = method + seq![' '] + path + query + seq![' '] + version;
    let all = seq![line] + headers;
    assert(is_whitespace(' ') && is_whitespace('\r'));
    assert(!line.contains('\r')) by {
        if line.contains('\r') {
            let i = choose|i: int| 0 <= i < line.len() && line[i] == '\r';
            let m = method.len() as int;
            let p = m + 1 + path.len();
            let q = p + query.len();
            if i < m {
                assert(line[i] == method[i]);
            } else if m < i < p {
                assert(line[i] == path[i - m - 1]);
            } else if p <= i < q {
                assert(line[i] == query[i - p]);
            } else if i > q {
                assert(line[i] == version[i - q - 1]);
            }
        }
    }
    assert forall|i: int| 0 <= i < all.len() implies !(#[trigger] all[i]).contains('\r') by {
        if i > 0 {
            assert(all[i] == headers[i - 1]);
        }
    }
    lemma_joined_lines(all);
    let head = joined(all, "\r\n"@);
    assert(pieces(head, "\r\n"@)[0] == line);
    let rest = seq![' '] + path + query + seq![' '] + version;
    assert(line =~= method + rest);
    assert(line[0] == method[0]);
    assert(trim_start(line) == line);
    lemma_leading_word(method, rest);
    let after = line.skip(method.len() as int);
    assert(after =~= rest);
    let target = path + query;
    let tail = seq![' '] + version;
    assert(rest.drop_first() =~= target + tail);
    assert((target + tail)[0] == path[0]);
    assert(trim_start(target + tail) == target + tail);
    assert(trim_start(rest) == trim_start(rest.drop_first()));
    assert forall|i: int| 0 <= i < target.len() implies !is_whitespace(#[trigger] target[i]) by {
        if i < path.len() {
            assert(target[i] == path[i]);
        } else {
            assert(target[i] == query[i - path.len()]);
        }
    }
    lemma_leading_word(target, tail);
    lemma_before_mark(path, query, '?');
}

/// The line is a header with the name: a name and a value with a colon between them. Names are the
/// same in capitals and small letters, and white space around either does not count.
pub open spec fn is_header(line: Seq<char>, name: Seq<char>, value: Seq<char>) -> bool {
    exists|start: Seq<char>, rest: Seq<char>|
        !start.contains(':') && line == #[trigger] (start + seq![':'] + rest) && lowercased(
            trimmed(start),
        ) == name && trimmed(rest) == value
}

/// What the sides of a header line are.
proof fn lemma_header_sides(line: Seq<char>)
    ensures
        forall|start: Seq<char>, rest: Seq<char>|
            !start.contains(':') && line == #[trigger] (start + seq![':'] + rest) ==> sides(
                line,
                ':',
            ) == Some((start, rest)),
        sides(line, ':') matches Some((start, rest)) ==> !start.contains(':') && line == start
            + seq![':'] + rest,
        sides(line, ':') is None ==> forall|start: Seq<char>, rest: Seq<char>|
            line != #[trigger] (start + seq![':'] + rest),
{
    assert forall|start: Seq<char>, rest: Seq<char>|
        !start.contains(':') && line == #[trigger] (start + seq![':'] + rest) implies sides(
        line,
        ':',
    ) == Some((start, rest)) by {
        assert(line =~= start + (seq![':'] + rest));
        lemma_before_mark(start, seq![':'] + rest, ':');
        assert(line.skip(start.len() as int + 1) =~= rest);
    }
    lemma_before_facts(line, ':');
    let left = before(line, ':');
    if left.len() < line.len() {
        assert(line =~= left + seq![':'] + line.skip(left.len() as int + 1));
    } else {
        assert forall|start: Seq<char>, rest: Seq<char>| line != #[trigger] (start + seq![':']
            + rest) by {
            if line == start + seq![':'] + rest {
                assert(line[start.len() as int] == ':');
                assert(left[start.len() as int] == ':');
                assert(left.contains(':'));
            }
        }
    }
}

/// What stands before the first of a character.
proof fn lemma_before_facts(s: Seq<char>, c: char)
    ensures
        before(s, c).len() <= s.len(),
        s.take(before(s, c).len() as int) == before(s, c),
        !before(s, c).contains(c),
        before(s, c).len() < s.len() ==> s[before(s, c).len() as int] == c,
    decreases s.len(),
{
    if s.len() == 0 || s[0] == c {
        assert(s.take(0) =~= before(s, c));
    } else {
        let rest = s.drop_first();
        lemma_before_facts(rest, c);
        let left = before(s, c);
        assert(left =~= seq![s[0]] + before(rest, c));
        assert forall|i: int| 0 <= i < left.len() implies left[i] == s[i] by {
            if i > 0 {
                assert(rest.take(before(rest, c).len() as int)[i - 1] == before(rest, c)[i - 1]);
            }
        }
        assert(s.take(left.len() as int) =~= left);
        assert(!left.contains(c)) by {
            if left.contains(c) {
                let i = choose|i: int| 0 <= i < left.len() && left[i] == c;
                if i > 0 {
                    assert(before(rest, c)[i - 1] == c);
                    assert(before(rest, c).contains(c));
                }
            }
        }
    }
}

/// What the headers of some lines hold.
proof fn lemma_headers_of(all: Seq<Seq<char>>, count: int, at: int, name: Seq<char>)
    requires
        0 <= count < all.len(),
        0 <= at <= count,
        at > 0 ==> exists|value: Seq<char>| #[trigger] is_header(all[at], name, value),
        forall|i: int, value: Seq<char>|
            at < i <= count ==> !#[trigger] is_header(all[i], name, value),
    ensures
        at > 0 ==> headers_of(all, count).dom().contains(name) && is_header(
            all[at],
            name,
            headers_of(all, count)[name],
        ),
        at == 0 ==> !headers_of(all, count).dom().contains(name),
    decreases count,
{
    if count > 0 {
        let line = all[count];
        lemma_header_sides(line);
        match sides(line, ':') {
            Some((start, rest)) => {
                assert(is_header(line, lowercased(trimmed(start)), trimmed(rest))) by {
                    assert(line == start + seq![':'] + rest);
                }
                if at == count {
                    let value = choose|value: Seq<char>| #[trigger] is_header(all[at], name, value);
                    assert(is_header(all[at], name, value));
                    assert(lowercased(trimmed(start)) == name);
                }
            },
            None => {
                if at == count {
                    let value = choose|value: Seq<char>| #[trigger] is_header(all[at], name, value);
                    assert(is_header(all[at], name, value));
                }
            },
        }
        if at < count {
            lemma_headers_of(all, count - 1, at, name);
        }
    }
}

/// A header of a request is read under its name in small letters, without the white space around
/// it; of two with one name the later counts, and there are no others. `at` is the place of the last
/// line after the request line that has the name, or zero.
pub proof fn law_headers_are_read(all: Seq<Seq<char>>, at: int, name: Seq<char>)
    requires
        all.len() > 0,
        forall|i: int| 0 <= i < all.len() ==> !(#[trigger] all[i]).contains('\r'),
        0 <= at < all.len(),
        at > 0 ==> exists|value: Seq<char>| #[trigger] is_header(all[at], name, value),
        forall|i: int, value: Seq<char>|
            at < i < all.len() ==> !#[trigger] is_header(all[i], name, value),
    ensures
        ({
            let headers = request_headers(joined(all, "\r\n"@));
            if at > 0 {
                headers.dom().contains(name) && is_header(all[at], name, headers[name])
            } else {
                !headers.dom().contains(name)
            }
        }),
{
    lemma_joined_lines(all);
    lemma_headers_of(all, all.len() - 1, at, name);
}

/// A decimal numeral is a run of digits that stands for its number.
proof fn lemma_decimal_value(n: nat)
    ensures
        decimal(n).len() > 0,
        all_digits(decimal(n)),
        digits_value(decimal(n)) == n,
    decreases n,
{
    let last = digit(n % 10);
    assert(last as u32 == 48 + n % 10);
    assert(is_digit(last));
    if n < 10 {
        assert(decimal(n) =~= seq![last]);
        assert(seq![last].drop_last() =~= Seq::<char>::empty());
        assert(digits_value(Seq::<char>::empty()) == 0);
        assert(seq![last].last() == last);
    } else {
        lemma_decimal_value(n / 10);
        let earlier = decimal(n / 10);
        assert(decimal(n).drop_last() =~= earlier);
        assert(decimal(n).last() == last);
        assert forall|i: int| 0 <= i < decimal(n).len() implies is_digit(
            #[trigger] decimal(n)[i],
        ) by {
            if i < earlier.len() {
                assert(decimal(n)[i] == earlier[i]);
            }
        }
    }
}

/// A number that is written in decimal is read as that number.
pub proof fn law_numbers_read_back(n: nat)
    ensures
        parsed_number(decimal(n)) == Some(n),
        parsed_number(seq!['+'] + decimal(n)) == Some(n),
        parsed_number(seq!['-'] + decimal(n)) is None,
        parsed_number(Seq::empty()) is None,
{
    lemma_decimal_value(n);
    let written = decimal(n);
    assert(is_digit(written[0]));
    assert((seq!['+'] + written).drop_first() =~= written);
    assert(!is_digit((seq!['-'] + written)[0]));
}

/// The length of a body is what the header `content-length` says in decimal; without one, and where
/// it says no number, there is no body.
pub proof fn law_bodies_are_as_long_as_announced(headers: Map<Seq<char>, Seq<char>>, length: usize)
    ensures
        headers.dom().contains("content-length"@) && headers["content-length"@] == decimal(
            length as nat,
        ) ==> announced_length(headers) == length,
        !headers.dom().contains("content-length"@) ==> announced_length(headers) == 0,
        headers.dom().contains("content-length"@) && parsed_number(
            headers["content-length"@],
        ) is None ==> announced_length(headers) == 0,
{
    law_numbers_read_back(length as nat);
}

/// A response says its status and the length of its body, ends its head with an empty line, and is
/// followed by the body, which is the payload.
pub proof fn law_responses_say_their_status_and_length(status: u16, payload: JsonTree)
    ensures
        ({
            let body = rendered(payload);
            let head = response_head(status, body.len());
            &&& response_bytes(status, payload) == encode_utf8(head) + body
            &&& compact_bytes(payload) matches Some(bytes) ==> body == bytes
            &&& exists|rest: Seq<char>|
                head == #[trigger] ("HTTP/1.1 "@ + decimal(status as nat) + " "@ + rest)
            &&& exists|start: Seq<char>, rest: Seq<char>|
                head == #[trigger] (start + "\r\nContent-Length: "@ + decimal(body.len()) + "\r\n"@
                    + rest)
            &&& exists|start: Seq<char>| head == #[trigger] (start + "\r\n\r\n"@)
        }),
{
    let body = rendered(payload);
    let head = response_head(status, body.len());
    let words = status_words(status);
    let kind = "\r\nContent-Type: application/json; charset=utf-8\r\nContent-Length: "@;
    let close = "\r\nConnection: close\r\n\r\n"@;
    let size = decimal(body.len());
    assert(head =~= "HTTP/1.1 "@ + decimal(status as nat) + " "@ + (words + kind + size + close));
    reveal_strlit("\r\nContent-Type: application/json; charset=utf-8\r\nContent-Length: ");
    reveal_strlit("\r\nContent-Type: application/json; charset=utf-8");
    reveal_strlit("\r\nContent-Length: ");
    reveal_strlit("\r\nConnection: close\r\n\r\n");
    reveal_strlit("\r\n");
    reveal_strlit("\r\n\r\n");
    let first = "\r\nContent-Type: application/json; charset=utf-8"@;
    assert(kind =~= first + "\r\nContent-Length: "@);
    let ending = close.skip(2);
    assert(close =~= "\r\n"@ + ending);
    let start = "HTTP/1.1 "@ + decimal(status as nat) + " "@ + words + first;
    assert(head =~= start + "\r\nContent-Length: "@ + size + "\r\n"@ + ending);
    let whole = "HTTP/1.1 "@ + decimal(status as nat) + " "@ + words + kind + size;
    let mark = close.take(close.len() - 4);
    assert(close =~= mark + "\r\n\r\n"@);
    assert(head =~= (whole + mark) + "\r\n\r\n"@);
}

/// The words for the statuses that are answered with are those of HTTP.
pub proof fn law_statuses_have_their_words()
    ensures
        status_words(200) == "OK"@,
        status_words(400) == "Bad Request"@,
        status_words(401) == "Unauthorized"@,
        status_words(403) == "Forbidden"@,
        status_words(404) == "Not Found"@,
        status_words(413) == "Payload Too Large"@,
{
}

/// What the configuration file sets is what the server runs with.
pub proof fn law_settings_are_kept(config: Config, raw: RawConfig, networks: Seq<Network>)
    requires
        config.resolves(raw, networks),
    ensures
        raw.backend matches Some(backend) ==> config.backend == backend,
        raw.host matches Some(host) ==> config.host@ == host@,
        raw.port matches Some(port) ==> config.port == port,
        config.public_url@ == raw.public_url@,
        config.sessions_dir@ == raw.sessions_dir@,
        config.default_working_directory@ == raw.default_working_directory@,
        raw.codex_bin matches Some(codex_bin) ==> config.codex_bin@ == codex_bin@,
        raw.auth_token_env matches Some(name) ==> (config.auth_token_env matches Some(set)
            && set@ == name@),
        config.auth_token_file == raw.auth_token_file,
        raw.auth_token_keychain_service matches Some(service) ==> (
        config.auth_token_keychain_service matches Some(set) && set@ == service@),
        raw.write_roots matches Some(roots) ==> views(config.write_roots@) == views(roots@),
        raw.write_mode_sandbox_permissions matches Some(permissions) ==> views(
            config.write_mode_sandbox_permissions@,
        ) == views(permissions@),
        config.allowed_sources@ == networks,
        raw.max_body_bytes matches Some(bytes) ==> config.max_body_bytes == bytes,
        raw.max_concurrent_tasks matches Some(count) ==> config.max_concurrent_tasks == count,
        raw.read_timeout_secs matches Some(seconds) ==> config.read_timeout_secs == seconds,
        raw.expose_local_sessions matches Some(expose) ==> config.expose_local_sessions == expose,
{
}

/// What the configuration file leaves out has its default: the command-line backend on port 18081 of
/// every interface, the token from `A2A_AUTH_TOKEN`, no roots to write in and no permissions to
/// grant, hidden local sessions, and bounds on bodies, tasks and waiting.
pub proof fn law_settings_have_defaults(config: Config, raw: RawConfig, networks: Seq<Network>)
    requires
        config.resolves(raw, networks),
    ensures
        raw.backend is None ==> config.backend == BackendKind::Cli,
        raw.host is None ==> config.host@ == "0.0.0.0"@,
        raw.port is None ==> config.port == 18081,
        raw.codex_bin is None ==> config.codex_bin@ == "codex"@,
        raw.auth_token_env is None ==> (config.auth_token_env matches Some(set) && set@
            == "A2A_AUTH_TOKEN"@),
        raw.auth_token_keychain_service is None ==> (
        config.auth_token_keychain_service matches Some(set) && set@ == "A2A_AUTH_TOKEN"@),
        raw.write_roots is None ==> config.write_roots.len() == 0,
        raw.write_mode_sandbox_permissions is None ==> config.write_mode_sandbox_permissions.len()
            == 0,
        raw.max_body_bytes is None ==> config.max_body_bytes == 1024 * 1024,
        raw.max_concurrent_tasks is None ==> config.max_concurrent_tasks == 4,
        raw.read_timeout_secs is None ==> config.read_timeout_secs == 30,
        raw.expose_local_sessions is None ==> !config.expose_local_sessions,
{
    assert(views(config.write_roots@).len() == config.write_roots.len());
    assert(views(config.write_mode_sandbox_permissions@).len()
        == config.write_mode_sandbox_permissions.len());
}

/// The networks of sources of which each is one.
proof fn lemma_gathered(sources: Seq<Seq<char>>, read: Seq<Result<Network, Seq<char>>>)
    requires
        sources.len() == read.len(),
    ensures
        gathered(sources, read) matches Ok(networks) ==> networks.len() == read.len() && forall|
            i: int,
        |
            0 <= i < read.len() ==> #[trigger] read[i] == Ok::<Network, Seq<char>>(networks[i]),
        gathered(sources, read) matches Err(message) ==> exists|i: int|
            0 <= i < read.len() && (#[trigger] read[i]) is Err && holds_text(message, sources[i])
                && forall|j: int| 0 <= j < i ==> (#[trigger] read[j]) is Ok,
    decreases sources.len(),
{
    if sources.len() > 0 {
        let names = sources.drop_last();
        let rest = read.drop_last();
        lemma_gathered(names, rest);
        let last = read.len() - 1;
        match gathered(names, rest) {
            Ok(networks) => {
                assert forall|j: int| 0 <= j < last implies (#[trigger] read[j]) is Ok by {
                    assert(rest[j] == Ok::<Network, Seq<char>>(networks[j]));
                }
                match read.last() {
                    Ok(network) => {
                        let all = networks.push(network);
                        assert forall|i: int| 0 <= i < read.len() implies #[trigger] read[i]
                            == Ok::<Network, Seq<char>>(all[i]) by {
                            if i < last {
                                assert(rest[i] == Ok::<Network, Seq<char>>(networks[i]));
                            }
                        }
                    },
                    Err(reason) => {
                        assert(read[last] is Err);
                        let start = "invalid allowed_sources entry "@;
                        let name = sources.last();
                        let message = start + name + ": "@ + reason;
                        assert(message.subrange(start.len() as int, start.len() as int + name.len())
                            =~= name);
                    },
                }
            },
            Err(message) => {
                let i = choose|i: int|
                    0 <= i < rest.len() && (#[trigger] rest[i]) is Err && holds_text(
                        message,
                        names[i],
                    ) && forall|j: int| 0 <= j < i ==> (#[trigger] rest[j]) is Ok;
                assert(read[i] is Err);
                assert(names[i] == sources[i]);
                assert forall|j: int| 0 <= j < i implies (#[trigger] read[j]) is Ok by {
                    assert(rest[j] is Ok);
                }
            },
        }
    }
}

/// The networks that requests may come from are those of the sources, one for each and in order; a
/// source that is no network is an error.
pub proof fn law_sources_are_the_networks_allowed(sources: Vec<String>)
    ensures
        match source_networks(Some(sources)) {
            Ok(networks) => networks.len() == sources.len() && forall|i: int|
                0 <= i < sources.len() ==> parsed_network((#[trigger] sources@[i])@) == Some(
                    networks[i],
                ),
            Err(message) => exists|i: int|
                0 <= i < sources.len() && parsed_network((#[trigger] sources@[i])@) is None
                    && holds_text(message, sources@[i]@),
        },
{
    let names = views(sources@);
    let read = names.map_values(|s: Seq<char>| source_read(s));
    lemma_gathered(names, read);
    match gathered(names, read) {
        Ok(networks) => {
            assert forall|i: int| 0 <= i < sources.len() implies parsed_network(
                (#[trigger] sources@[i])@,
            ) == Some(networks[i]) by {
                assert(read[i] == source_read(sources@[i]@));
            }
        },
        Err(message) => {
            let i = choose|i: int|
                0 <= i < read.len() && (#[trigger] read[i]) is Err && holds_text(message, names[i])
                    && forall|j: int| 0 <= j < i ==> (#[trigger] read[j]) is Ok;
            assert(names[i] == sources@[i]@);
            assert(read[i] == source_read(sources@[i]@));
            assert(parsed_network(sources@[i]@) is None);
        },
    }
}

/// Where no sources are given, requests may come from the addresses of Tailscale, `100.64.0.0` to
/// `100.127.255.255` of version 4, and from no others of that version.
pub proof fn law_tailscale_is_allowed_by_default(ip: u32)
    ensures
        source_networks(None) matches Ok(networks) && ((exists|i: int|
            0 <= i < networks.len() && in_network(#[trigger] networks[i], Address::V4(ip)))
            <==> 0x6440_0000 <= ip <= 0x647f_ffff),
{
    let networks = source_networks(None)->Ok_0;
    lemma2_to64();
    assert(pow2(22) == 0x40_0000);
    assert((0x6440_0000u32 as nat) / 0x40_0000 == 401);
    assert(in_network(networks[0], Address::V4(ip)) <==> ip as nat / 0x40_0000 == 401);
    assert(ip as nat / 0x40_0000 == 401 <==> 0x6440_0000 <= ip <= 0x647f_ffff);
    assert(!in_network(networks[1], Address::V4(ip)));
    if 0x6440_0000 <= ip <= 0x647f_ffff {
        assert(in_network(networks[0], Address::V4(ip)));
    }
}

/// An address is in each network that it is given with, and a network whose prefix is the whole
/// address holds no other; no network holds addresses of the other version.
pub proof fn law_networks_hold_their_addresses(address: u32, prefix: u8, other: u32, wide: u128)
    requires
        prefix <= 32,
    ensures
        in_network(Network::V4(address, prefix), Address::V4(address)),
        in_network(Network::V4(address, 32), Address::V4(other)) <==> address == other,
        in_network(Network::V4(address, 0), Address::V4(other)),
        !in_network(Network::V4(address, prefix), Address::V6(wide)),
        in_network(Network::V6(wide, 128), Address::V6(wide)),
{
    lemma2_to64();
    assert(pow2((32 - 32u8 as nat) as nat) == 1);
    assert(address as nat / 1 == address && other as nat / 1 == other);
    assert(pow2(32) == 0x1_0000_0000);
    assert(address as nat / 0x1_0000_0000 == 0);
    assert(other as nat / 0x1_0000_0000 == 0);
}

/// The token is looked for in the environment, then in the file, then in the keychain, of those that
/// are configured.
pub proof fn law_tokens_are_looked_for_in_order(config: Config)
    ensures
        ({
            let sources = configured_sources(config);
            let env = config.auth_token_env is Some;
            let file = config.auth_token_file is Some;
            let keychain = config.auth_token_keychain_service is Some;
            let before_file: int = if env {
                1
            } else {
                0
            };
            let before_keychain: int = if file {
                before_file + 1
            } else {
                before_file
            };
            &&& sources.len() == before_keychain + (if keychain {
                1int
            } else {
                0int
            })
            &&& env ==> sources[0] == TokenSource::Environment(config.auth_token_env->0)
            &&& file ==> sources[before_file] == TokenSource::File(config.auth_token_file->0)
            &&& keychain ==> sources[before_keychain] == TokenSource::Keychain(
                config.auth_token_keychain_service->0,
            )
        }),
{
}

/// A request without a header, and a server without a token, authorize nothing.
pub proof fn law_nothing_authorizes_nothing(header: Option<Seq<char>>, token: Option<Seq<char>>)
    ensures
        !is_authorized(None, token),
        !is_authorized(header, None),
{
}

/// Processes are ended as a group, by the number of the one that leads it: asked with `-TERM` and
/// forced with `-KILL`, 150 milliseconds later. `taskkill` ends the process with those that it
/// started, by force with `/F`, and has to succeed.
pub proof fn law_processes_are_ended_with_what_they_started(
    pid: u32,
    outcome: CommandOutcome,
    status: String,
)
    ensures
        kill_stepped(pid, EndEvent::Nothing) matches EndModel::Ask(arguments) && arguments
            == seq!["-TERM"@, "--"@, "-"@ + decimal(pid as nat)],
        outcome is Ended ==> (kill_stepped(pid, EndEvent::Asked(outcome)) matches EndModel::Force(
            pause,
            arguments,
        ) && pause == 150 && arguments == seq!["-KILL"@, "--"@, "-"@ + decimal(pid as nat)]),
        outcome is Ended ==> kill_stepped(pid, EndEvent::Forced(outcome)) is Succeeded,
        outcome matches CommandOutcome::NotStarted(error) ==> kill_stepped(
            pid,
            EndEvent::Asked(outcome),
        ) == EndModel::Failed(error@) && kill_stepped(pid, EndEvent::Forced(outcome))
            == EndModel::Failed(error@) && taskkill_stepped(pid, EndEvent::Forced(outcome))
            == EndModel::Failed(error@),
        taskkill_stepped(pid, EndEvent::Nothing) matches EndModel::Ask(arguments) && arguments
            == seq!["/PID"@, decimal(pid as nat), "/T"@],
        taskkill_stepped(pid, EndEvent::Asked(outcome)) matches EndModel::Force(pause, arguments)
            && pause == 150 && arguments == seq!["/PID"@, decimal(pid as nat), "/T"@, "/F"@],
        taskkill_stepped(pid, EndEvent::Forced(CommandOutcome::Ended(true, status))) is Succeeded,
        taskkill_stepped(pid, EndEvent::Forced(CommandOutcome::Ended(false, status))) is Failed,
{
    assert(seq!["/PID"@, decimal(pid as nat), "/T"@].push("/F"@) =~= seq![
        "/PID"@,
        decimal(pid as nat),
        "/T"@,
        "/F"@,
    ]);
}

/// A text without the white space around it is the middle of it: it neither begins nor ends with
/// white space, and all that is gone is white space.
pub proof fn law_trimming_takes_white_space_alone(s: Seq<char>)
    ensures
        ({
            let middle = trimmed(s);
            &&& middle.len() > 0 ==> !is_whitespace(middle[0]) && !is_whitespace(middle.last())
            &&& exists|i: int|
                0 <= i && i + middle.len() <= s.len() && #[trigger] s.subrange(
                    i,
                    i + middle.len(),
                ) == middle && (forall|j: int|
                    (0 <= j < i || i + middle.len() <= j < s.len()) ==> is_whitespace(
                        #[trigger] s[j],
                    ))
        }),
{
    let start = trim_start(s);
    lemma_trim_start(s);
    lemma_trim_end(start);
    let middle = trimmed(s);
    let i = s.len() - start.len();
    assert(s.subrange(i, i + middle.len()) =~= middle) by {
        assert forall|k: int| 0 <= k < middle.len() implies s[i + k] == middle[k] by {
            assert(start.take(middle.len() as int)[k] == start[k]);
            assert(s.skip(i)[k] == start[k]);
        }
    }
    assert forall|j: int|
        (0 <= j < i || i + middle.len() <= j < s.len()) implies is_whitespace(#[trigger] s[j]) by {
        if j >= i {
            assert(s.skip(i)[j - i] == start[j - i]);
            assert(is_whitespace(start[j - i]));
        }
    }
    if middle.len() > 0 {
        assert(start.take(middle.len() as int)[0] == start[0]);
    }
}

/// What is left without the leading white space.
proof fn lemma_trim_start(s: Seq<char>)
    ensures
        trim_start(s).len() <= s.len(),
        s.skip(s.len() - trim_start(s).len()) == trim_start(s),
        trim_start(s).len() > 0 ==> !is_whitespace(trim_start(s)[0]),
        forall|j: int| 0 <= j < s.len() - trim_start(s).len() ==> is_whitespace(#[trigger] s[j]),
    decreases s.len(),
{
    if s.len() > 0 && is_whitespace(s[0]) {
        let rest = s.drop_first();
        lemma_trim_start(rest);
        assert(s.skip(s.len() - trim_start(s).len()) =~= rest.skip(
            rest.len() - trim_start(rest).len(),
        ));
        assert forall|j: int| 0 <= j < s.len() - trim_start(s).len() implies is_whitespace(
            #[trigger] s[j],
        ) by {
            if j > 0 {
                assert(rest[j - 1] == s[j]);
            }
        }
    } else {
        assert(s.skip(0) =~= s);
    }
}

/// What is left without the trailing white space.
proof fn lemma_trim_end(s: Seq<char>)
    ensures
        trim_end(s).len() <= s.len(),
        s.take(trim_end(s).len() as int) == trim_end(s),
        trim_end(s).len() > 0 ==> !is_whitespace(trim_end(s).last()),
        forall|j: int| trim_end(s).len() <= j < s.len() ==> is_whitespace(#[trigger] s[j]),
    decreases s.len(),
{
    if s.len() > 0 && is_whitespace(s.last()) {
        let rest = s.drop_last();
        lemma_trim_end(rest);
        assert(s.take(trim_end(s).len() as int) =~= rest.take(trim_end(rest).len() as int));
        assert forall|j: int| trim_end(s).len() <= j < s.len() implies is_whitespace(
            #[trigger] s[j],
        ) by {
            if j < rest.len() {
                assert(rest[j] == s[j]);
            }
        }
    } else {
        assert(s.take(s.len() as int) =~= s);
    }
}

/// A line of a text ends at a line feed, and a carriage return before that is not of the line; what
/// follows are the further lines, and a last line needs no line feed.
pub proof fn law_lines_end_at_line_feeds(line: Seq<char>, rest: Seq<char>)
    requires
        !line.contains('\n'),
        line.len() > 0 ==> line.last() != '\r',
    ensures
        lines(line + seq!['\n'] + rest) == seq![line] + lines(rest),
        lines(line + seq!['\r', '\n'] + rest) == seq![line] + lines(rest),
        line.len() > 0 ==> lines(line) == seq![line],
        lines(Seq::empty()).len() == 0,
{
    lemma_first_line(line, rest);
    let longer = line.push('\r');
    assert(!longer.contains('\n')) by {
        if longer.contains('\n') {
            let i = choose|i: int| 0 <= i < longer.len() && longer[i] == '\n';
            if i < line.len() {
                assert(line[i] == '\n');
            }
        }
    }
    lemma_first_line(longer, rest);
    assert(longer + seq!['\n'] + rest =~= line + seq!['\r', '\n'] + rest);
    assert(without_return(longer) =~= line);
    lemma_one_piece(line);
    assert(seq![line].drop_last() =~= Seq::<Seq<char>>::empty());
    assert(lines(line) =~= (if line.len() == 0 {
        Seq::empty()
    } else {
        seq![line]
    }));
    let none = Seq::<char>::empty();
    lemma_one_piece(none);
    assert(seq![none].drop_last() =~= Seq::<Seq<char>>::empty());
}

/// A text without line feeds is one piece.
proof fn lemma_one_piece(line: Seq<char>)
    requires
        !line.contains('\n'),
    ensures
        pieces(line, seq!['\n']) == seq![line],
{
    let mark = seq!['\n'];
    lemma_index_from(line, mark, 0);
    match index_of(line, mark) {
        Some(at) => {
            assert(line.subrange(at, at + 1)[0] == line[at]);
            assert(line.contains(line[at]));
        },
        None => {},
    }
}

/// The first line of a text.
proof fn lemma_first_line(line: Seq<char>, rest: Seq<char>)
    requires
        !line.contains('\n'),
    ensures
        lines(line + seq!['\n'] + rest) == seq![without_return(line)] + lines(rest),
{
    let mark = seq!['\n'];
    let text = line + mark + rest;
    let at = line.len() as int;
    assert(text.subrange(at, at + 1) =~= mark);
    lemma_index_from(text, mark, 0);
    match index_of(text, mark) {
        Some(found) => {
            if found < at {
                assert(text.subrange(found, found + 1)[0] == line[found]);
                assert(line.contains(line[found]));
            } else if found > at {
                assert(text.subrange(at, at + mark.len()) != mark);
            }
        },
        None => {
            assert(text.subrange(at, at + mark.len()) != mark);
        },
    }
    assert(text.take(at) =~= line);
    assert(text.skip(at + 1) =~= rest);
    let parts = pieces(rest, mark);
    let all = pieces(text, mark);
    assert(all == seq![line] + parts);
    assert(parts.len() > 0) by {
        lemma_some_pieces(rest, mark);
    }
    assert(all.last() == parts.last());
    assert(all.drop_last() =~= seq![line] + parts.drop_last());
    assert(lines(text) =~= seq![without_return(line)] + lines(rest));
}

/// There always is a piece.
proof fn lemma_some_pieces(s: Seq<char>, mark: Seq<char>)
    ensures
        pieces(s, mark).len() > 0,
{
}

/// Small letters stand for capitals, and every other character for itself.
pub proof fn law_names_are_in_small_letters(s: Seq<char>, i: int)
    requires
        0 <= i < s.len(),
    ensures
        lowercased(s).len() == s.len(),
        'A' <= s[i] <= 'Z' ==> lowercased(s)[i] as int == s[i] as int + 32,
        !('A' <= s[i] <= 'Z') ==> lowercased(s)[i] == s[i],
{
}

/// The bytes of chunks of which none is empty.
proof fn lemma_all_bytes(start: Seq<u8>, chunks: Seq<Seq<u8>>)
    requires
        forall|i: int| 0 <= i < chunks.len() ==> (#[trigger] chunks[i]).len() > 0,
    ensures
        all_bytes(start, chunks) == start + chunks.flatten(),
    decreases chunks.len(),
{
    if chunks.len() == 0 {
        assert(chunks.flatten() =~= Seq::<u8>::empty());
        assert(start + chunks.flatten() =~= start);
    } else {
        let rest = chunks.drop_first();
        assert forall|i: int| 0 <= i < rest.len() implies (#[trigger] rest[i]).len() > 0 by {
            assert(rest[i] == chunks[i + 1]);
        }
        lemma_all_bytes(start + chunks[0], rest);
        assert(chunks[0].len() > 0);
        assert(chunks.flatten() =~= chunks[0] + rest.flatten());
        assert(start + chunks[0] + rest.flatten() =~= start + chunks.flatten());
    }
}

/// The body of a request is what came after its head, byte for byte and in order, up to the length
/// that was announced.
pub proof fn law_bodies_are_what_comes(rest: Seq<u8>, chunks: Seq<Seq<u8>>, length: nat)
    requires
        forall|i: int| 0 <= i < chunks.len() ==> (#[trigger] chunks[i]).len() > 0,
    ensures
        ({
            let bytes = rest + chunks.flatten();
            let body = received_body(rest, chunks, length);
            &&& body.len() == (if length < bytes.len() {
                length
            } else {
                bytes.len()
            })
            &&& body == bytes.take(body.len() as int)
        }),
{
    let bytes = rest + chunks.flatten();
    law_body_ignores_chunking(rest, chunks, length);
    lemma_all_bytes(rest, chunks);
    assert(bytes.take(bytes.len() as int) =~= bytes);
}

/// The head of a stream says that it comes in chunks, as lines of JSON.
pub proof fn law_streams_say_that_they_are_chunked()
    ensures
        exists|rest: Seq<char>| chunked_head() == #[trigger] ("HTTP/1.1 200 OK\r\n"@ + rest),
        holds_text(chunked_head(), "\r\nContent-Type: application/x-ndjson; charset=utf-8\r\n"@),
        holds_text(chunked_head(), "\r\nTransfer-Encoding: chunked\r\n"@),
        ends_with(chunked_head(), "\r\n\r\n"@),
{
    reveal_strlit(
        "HTTP/1.1 200 OK\r\nContent-Type: application/x-ndjson; charset=utf-8\r\nTransfer-Encoding: chunked\r\nConnection: close\r\n\r\n",
    );
    reveal_strlit("HTTP/1.1 200 OK\r\n");
    reveal_strlit("\r\nContent-Type: application/x-ndjson; charset=utf-8\r\n");
    reveal_strlit("\r\nTransfer-Encoding: chunked\r\n");
    reveal_strlit("\r\n\r\n");
    let head = chunked_head();
    let first = "HTTP/1.1 200 OK\r\n"@;
    assert(head =~= first + head.skip(first.len() as int));
    let kind = "\r\nContent-Type: application/x-ndjson; charset=utf-8\r\n"@;
    assert(head.subrange(15int, 15int + kind.len()) =~= kind);
    let coding = "\r\nTransfer-Encoding: chunked\r\n"@;
    let at = 15int + kind.len() - 2;
    assert(head.subrange(at, at + coding.len()) =~= coding);
    let mark = "\r\n\r\n"@;
    assert(head.skip(head.len() - mark.len()) =~= mark);
}

/// Of the ASCII characters the blank and those from the tabulator to the carriage return are white
/// space, and no others.
pub proof fn law_white_space_is_what_separates_words(c: char)
    requires
        (c as u32) < 128,
    ensures
        is_whitespace(c) <==> c == ' ' || 9 <= c as u32 <= 13,
{
}

/// A head is in error exactly where it was cut off or grew too long, and the two are told apart.
pub proof fn law_bad_heads_are_told_apart(end: usize)
    ensures
        head_error_text(HeadStep::More) is None,
        head_error_text(HeadStep::Complete(end)) is None,
        head_error_text(HeadStep::Closed) is Some,
        head_error_text(HeadStep::TooLarge) is Some,
        head_error_text(HeadStep::Closed) != head_error_text(HeadStep::TooLarge),
{
    reveal_strlit("connection closed before headers");
    reveal_strlit("request headers too large");
    assert("connection closed before headers"@.len() == 32);
    assert("request headers too large"@.len() == 25);
}

/// The backends have the names by which the configuration and the context records call them.
pub proof fn law_backends_have_names(kind: BackendKind)
    ensures
        kind.name() == (match kind {
            BackendKind::Cli => "cli"@,
            BackendKind::Native => "native"@,
        }),
        kind.kind_name() == "codex-"@ + kind.name(),
{
    reveal_strlit("codex-");
    reveal_strlit("cli");
    reveal_strlit("native");
    reveal_strlit("codex-cli");
    reveal_strlit("codex-native");
    assert("codex-cli"@ =~= "codex-"@ + "cli"@);
    assert("codex-native"@ =~= "codex-"@ + "native"@);
}

/// Where no sources are given, the addresses of Tailscale of version 6, those that begin with
/// `fd7a:115c:a1e0`, are allowed, and no others of that version.
pub proof fn law_tailscale_is_allowed_by_default_in_version_six(ip: u128)
    ensures
        source_networks(None) matches Ok(networks) && ((exists|i: int|
            0 <= i < networks.len() && in_network(#[trigger] networks[i], Address::V6(ip)))
            <==> 0xfd7a_115c_a1e0_0000_0000_0000_0000_0000 <= ip
            <= 0xfd7a_115c_a1e0_ffff_ffff_ffff_ffff_ffff),
{
    let networks = source_networks(None)->Ok_0;
    lemma2_to64();
    lemma_pow2_adds(64, 16);
    let part: nat = pow2(80);
    assert(part == 0x1_0000_0000_0000_0000_0000);
    assert((0xfd7a_115c_a1e0_0000_0000_0000_0000_0000u128 as nat) / 0x1_0000_0000_0000_0000_0000
        == 0xfd7a_115c_a1e0);
    assert(in_network(networks[1], Address::V6(ip)) <==> ip as nat / 0x1_0000_0000_0000_0000_0000
        == 0xfd7a_115c_a1e0);
    assert(!in_network(networks[0], Address::V6(ip)));
    if in_network(networks[1], Address::V6(ip)) {
        assert(0xfd7a_115c_a1e0_0000_0000_0000_0000_0000 <= ip
            <= 0xfd7a_115c_a1e0_ffff_ffff_ffff_ffff_ffff);
    }
}

/// A body is refused exactly where it is longer than is allowed, with status 413.
pub proof fn law_long_bodies_are_refused(length: usize, limit: usize)
    ensures
        length <= limit ==> oversized(length, limit) is None,
        length > limit ==> (oversized(length, limit) matches Some((status, payload)) && status
            == 413 && payload.text_at("error"@) == Some("request body too large"@)),
{
}

/// A reader of a stream gets each value back as one line: its bytes and a line feed.
pub proof fn law_streams_are_read_line_by_line(payload: JsonTree, rest: Seq<u8>)
    ensures
        compact_bytes(payload) matches Some(bytes) ==> read_chunk(line_chunk(payload) + rest)
            == Some((bytes.push(10u8), rest)),
{
    law_chunk_reads_back(rendered(payload).push(10u8), rest);
}

/// A directory is inside a worktree exactly where git succeeds and says so.
pub proof fn law_git_tells_worktrees(success: bool, stdout: Seq<u8>)
    ensures
        tells_worktree(success, stdout) ==> success,
        tells_worktree(success, stdout) ==> trimmed(lossy_text(stdout)) == "true"@,
        success && trimmed(lossy_text(stdout)) == "true"@ ==> tells_worktree(success, stdout),
{
}

/// The server listens on the host and the port that are configured.
pub proof fn law_the_server_listens_where_it_is_told(config: Config)
    ensures
        config.address().take(config.host@.len() as int) == config.host@,
        parsed_number(config.address().skip(config.host@.len() as int + 1)) == Some(
            config.port as nat,
        ),
        config.address()[config.host@.len() as int] == ':',
{
    reveal_strlit(":");
    law_numbers_read_back(config.port as nat);
    assert(config.address().take(config.host@.len() as int) =~= config.host@);
    assert(config.address().skip(config.host@.len() as int + 1) =~= decimal(config.port as nat));
}

/// The tasks that are loaded are those of the object in the registry file, and none where there is
/// no file, it is no JSON document, or the document is no object. The context records that are
/// loaded are those of the file, of two with one name the later, and none where there is no file.
pub proof fn law_registries_are_loaded_from_their_files(
    bytes: Seq<u8>,
    entries: Seq<(Seq<char>, ContextModel)>,
    at: int,
)
    ensures
        loaded_tasks(None) == Map::<Seq<char>, JsonTree>::empty(),
        match parsed_bytes(bytes) {
            Some(JsonTree::Object(fields)) => loaded_tasks(Some(bytes)) == fields,
            _ => loaded_tasks(Some(bytes)) == Map::<Seq<char>, JsonTree>::empty(),
        },
        loaded_contexts(None) == Map::<Seq<char>, ContextModel>::empty(),
        forall|name: Seq<char>| #[trigger]
            loaded_contexts(Some(entries)).dom().contains(name) ==> exists|i: int|
                0 <= i < entries.len() && (#[trigger] entries[i]).0 == name,
        0 <= at < entries.len() && (forall|i: int|
            at < i < entries.len() ==> (#[trigger] entries[i]).0 != entries[at].0)
            ==> loaded_contexts(Some(entries)).dom().contains(entries[at].0) && loaded_contexts(
            Some(entries),
        )[entries[at].0] == entries[at].1,
    decreases entries.len(),
{
    if entries.len() > 0 {
        let earlier = entries.drop_last();
        law_registries_are_loaded_from_their_files(bytes, earlier, at);
        assert forall|name: Seq<char>| #[trigger]
            loaded_contexts(Some(entries)).dom().contains(name) implies exists|i: int|
            0 <= i < entries.len() && (#[trigger] entries[i]).0 == name by {
            if name != entries.last().0 {
                assert(loaded_contexts(Some(earlier)).dom().contains(name));
                let i = choose|i: int| 0 <= i < earlier.len() && (#[trigger] earlier[i]).0 == name;
                assert(entries[i].0 == name);
            } else {
                assert(entries[entries.len() - 1].0 == name);
            }
        }
        if 0 <= at < entries.len() - 1 {
            assert(earlier[at] == entries[at]);
            if forall|i: int| at < i < entries.len() ==> (#[trigger] entries[i]).0 != entries[at].0 {
                assert(entries[entries.len() - 1].0 != entries[at].0);
                assert forall|i: int| at < i < earlier.len() implies (#[trigger] earlier[i]).0
                    != earlier[at].0 by {
                    assert(earlier[i] == entries[i]);
                }
            }
        }
    }
}

} // verus!
