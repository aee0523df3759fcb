//! Bearer tokens.

use crate::config::Config;
use crate::json::opt_str;
use crate::text::{after_prefix, opt_text, strip_prefix, trim, trimmed};
use vstd::prelude::*;
use vstd::string::*;
use vstd::utf8::*;

verus! {

/// Compares two runs of bytes without stopping at the first difference.
pub fn constant_time_eq(a: &[u8], b: &[u8]) -> (same: bool)
    ensures
        same == (a@ == b@),
{
    if a.len() != b.len() {
        return false;
    }
    let mut diff: u8 = 0;
    let mut i: usize = 0;
    while i < a.len()
        invariant
            i <= a.len() == b.len(),
            diff == 0 <==> forall|j: int| 0 <= j < i ==> a@[j] == b@[j],
        decreases a.len() - i,
    {
        let x = a[i];
        let y = b[i];
        assert((diff | (x ^ y)) == 0 <==> (diff == 0 && x == y)) by (bit_vector);
        diff = diff | (x ^ y);
        i = i + 1;
    }
    assert(diff == 0 <==> a@ =~= b@);
    diff == 0
}

/// Where the expected token may be read.
pub enum TokenSource {
    Environment(String),
    File(String),
    Keychain(String),
}

/// The sources that are configured: the environment, then the file, then the keychain.
pub fn token_sources(config: &Config) -> (sources: Vec<TokenSource>)
    ensures
        sources@ == configured_sources(*config),
{
    let mut sources: Vec<TokenSource> = Vec::new();
    match &config.auth_token_env {
        Some(name) => sources.push(TokenSource::Environment(name.clone())),
        None => {},
    }
    match &config.auth_token_file {
        Some(path) => sources.push(TokenSource::File(path.clone())),
        None => {},
    }
    match &config.auth_token_keychain_service {
        Some(service) => sources.push(TokenSource::Keychain(service.clone())),
        None => {},
    }
    assert(sources@ =~= configured_sources(*config));
    sources
}

/// The sources that are configured, in the order in which they are read.
pub open spec fn configured_sources(config: Config) -> Seq<TokenSource> {
    let env = match config.auth_token_env {
        Some(name) => seq![TokenSource::Environment(name)],
        None => Seq::empty(),
    };
    let file = match config.auth_token_file {
        Some(path) => seq![TokenSource::File(path)],
        None => Seq::empty(),
    };
    let keychain = match config.auth_token_keychain_service {
        Some(service) => seq![TokenSource::Keychain(service)],
        None => Seq::empty(),
    };
    env + file + keychain
}

/// The first reading that is not blank, trimmed.
pub open spec fn first_token(readings: Seq<Option<String>>) -> Option<Seq<char>>
    decreases readings.len(),
{
    if readings.len() == 0 {
        None
    } else {
        match readings[0] {
            Some(text) => if trimmed(text@).len() > 0 {
                Some(trimmed(text@))
            } else {
                first_token(readings.drop_first())
            },
            None => first_token(readings.drop_first()),
        }
    }
}

/// The token that requests must carry, from what the sources gave.
pub fn expected_auth_token(readings: &Vec<Option<String>>) -> (token: Option<String>)
    ensures
        opt_text(token) == first_token(readings@),
{
    let mut i: usize = 0;
    assert(readings@.skip(0) =~= readings@);
    while i < readings.len()
        invariant
            i <= readings.len(),
            first_token(readings@) == first_token(readings@.skip(i as int)),
        decreases readings.len() - i,
    {
        assert(readings@.skip(i as int).drop_first() =~= readings@.skip(i + 1));
        match &readings[i] {
            Some(text) => {
                let token = trim(text.as_str());
                if !token.as_str().is_empty() {
                    return Some(token);
                }
            },
            None => {},
        }
        i = i + 1;
    }
    None
}

/// A request is authorized where a token is expected and its header carries that token.
pub open spec fn is_authorized(header: Option<Seq<char>>, expected: Option<Seq<char>>) -> bool {
    match (header, expected) {
        (Some(h), Some(e)) => after_prefix(h, "Bearer "@) == Some(e),
        _ => false,
    }
}

/// Tells whether the value of the `Authorization` header carries the expected token.
pub fn authorized(header: Option<&str>, expected: Option<&str>) -> (yes: bool)
    ensures
        yes == is_authorized(opt_str(header), opt_str(expected)),
{
    match (header, expected) {
        (Some(h), Some(e)) => match strip_prefix(h, "Bearer ") {
            Some(actual) => {
                proof {
                    encode_utf8_decode_utf8(actual@);
                    encode_utf8_decode_utf8(e@);
                }
                constant_time_eq(actual.as_str().as_bytes(), e.as_bytes())
            },
            None => false,
        },
        _ => false,
    }
}

/// Without a source that gives a token, no request is authorized.
pub proof fn law_fails_closed(readings: Seq<Option<String>>, header: Option<Seq<char>>)
    requires
        forall|i: int|
            0 <= i < readings.len() ==> ((#[trigger] readings[i]) is None || trimmed(
                readings[i]->0@,
            ).len() == 0),
    ensures
        first_token(readings) is None,
        !is_authorized(header, first_token(readings)),
    decreases readings.len(),
{
    if readings.len() > 0 {
        let rest = readings.drop_first();
        assert forall|i: int| 0 <= i < rest.len() implies ((#[trigger] rest[i]) is None
            || trimmed(rest[i]->0@).len() == 0) by {
            assert(rest[i] == readings[i + 1]);
        }
        law_fails_closed(rest, header);
        assert(readings[0] is None || trimmed(readings[0]->0@).len() == 0);
    }
}

/// The token comes from the first source that gives one: those before it gave nothing but white
/// space, and those after it do not matter.
pub proof fn law_first_source_wins(readings: Seq<Option<String>>, at: int)
    requires
        0 <= at < readings.len(),
        forall|i: int|
            0 <= i < at ==> ((#[trigger] readings[i]) is None || trimmed(readings[i]->0@).len()
                == 0),
        readings[at] is Some,
        trimmed(readings[at]->0@).len() > 0,
    ensures
        first_token(readings) == Some(trimmed(readings[at]->0@)),
    decreases at,
{
    if at > 0 {
        let rest = readings.drop_first();
        assert(rest[at - 1] == readings[at]);
        assert forall|i: int| 0 <= i < at - 1 implies ((#[trigger] rest[i]) is None || trimmed(
            rest[i]->0@,
        ).len() == 0) by {
            assert(rest[i] == readings[i + 1]);
        }
        law_first_source_wins(rest, at - 1);
        assert(readings[0] is None || trimmed(readings[0]->0@).len() == 0);
    }
}

/// A header is accepted exactly where it is the expected token after `Bearer `.
pub proof fn law_bearer_header(header: Seq<char>, token: Seq<char>)
    ensures
        is_authorized(Some(header), Some(token)) <==> header == "Bearer "@ + token,
{
    let prefix = "Bearer "@;
    if header == prefix + token {
        assert(header.take(prefix.len() as int) =~= prefix);
        assert(header.skip(prefix.len() as int) =~= token);
    }
    if is_authorized(Some(header), Some(token)) {
        assert(header =~= prefix + token);
    }
}

} // verus!
