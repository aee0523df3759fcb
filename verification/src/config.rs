//! The configuration.

use crate::net::{parsed_network, read_network, Network};
use crate::text::{decimal, decimal_text, views};
use vstd::prelude::*;
use vstd::string::*;

verus! {

pub const DEFAULT_MAX_BODY_BYTES: usize = 1024 * 1024;

pub const DEFAULT_MAX_CONCURRENT_TASKS: usize = 4;

pub const DEFAULT_READ_TIMEOUT_SECS: u64 = 30;

pub const CODEX_SESSIONS_EXTENSION_URI: &'static str = "urn:codex-a2a:extensions:codex-sessions:v1";

/// How Codex is run.
#[derive(Clone, Copy, Debug, PartialEq, Eq, Structural)]
pub enum BackendKind {
    Cli,
    Native,
}

impl BackendKind {
    /// The name of the backend in the configuration.
    pub open spec fn name(self) -> Seq<char> {
        match self {
            BackendKind::Cli => "cli"@,
            BackendKind::Native => "native"@,
        }
    }

    /// The name of the backend in the configuration.
    pub fn as_str(self) -> (name: &'static str)
        ensures
            name@ == self.name(),
    {
        match self {
            BackendKind::Cli => "cli",
            BackendKind::Native => "native",
        }
    }

    /// The name of the backend in context records.
    pub open spec fn kind_name(self) -> Seq<char> {
        match self {
            BackendKind::Cli => "codex-cli"@,
            BackendKind::Native => "codex-native"@,
        }
    }
}

/// The configuration that the server runs with.
#[derive(Clone)]
pub struct Config {
    pub backend: BackendKind,
    pub host: String,
    pub port: u16,
    pub public_url: String,
    pub sessions_dir: String,
    pub default_working_directory: String,
    pub codex_bin: String,
    pub auth_token_env: Option<String>,
    pub auth_token_file: Option<String>,
    pub auth_token_keychain_service: Option<String>,
    pub write_roots: Vec<String>,
    pub write_mode_sandbox_permissions: Vec<String>,
    pub allowed_sources: Vec<Network>,
    pub max_body_bytes: usize,
    pub max_concurrent_tasks: usize,
    pub read_timeout_secs: u64,
    pub expose_local_sessions: bool,
}

impl Config {
    /// The networks have prefixes no longer than an address.
    pub open spec fn wf(&self) -> bool {
        forall|i: int| 0 <= i < self.allowed_sources.len() ==> (#[trigger] self.allowed_sources@[i]).wf()
    }
}

/// The configuration file as it is written, with what it leaves out.
pub struct RawConfig {
    pub backend: Option<BackendKind>,
    pub host: Option<String>,
    pub port: Option<u16>,
    pub public_url: String,
    pub sessions_dir: String,
    pub default_working_directory: String,
    pub codex_bin: Option<String>,
    pub auth_token_env: Option<String>,
    pub auth_token_file: Option<String>,
    pub auth_token_keychain_service: Option<String>,
    pub write_roots: Option<Vec<String>>,
    pub write_mode_sandbox_permissions: Option<Vec<String>>,
    pub allowed_sources: Option<Vec<String>>,
    pub max_body_bytes: Option<usize>,
    pub max_concurrent_tasks: Option<usize>,
    pub read_timeout_secs: Option<u64>,
    pub expose_local_sessions: Option<bool>,
}

/// The address ranges of Tailscale: `100.64.0.0/10` and `fd7a:115c:a1e0::/48`.
pub open spec fn tailscale_ranges() -> Seq<Network> {
    seq![
        Network::V4(0x6440_0000, 10),
        Network::V6(0xfd7a_115c_a1e0_0000_0000_0000_0000_0000, 48),
    ]
}

/// The text of an optional setting, and a default where it is left out.
pub open spec fn text_or(text: Option<String>, default: Seq<char>) -> Seq<char> {
    match text {
        Some(t) => t@,
        None => default,
    }
}

/// The value of an optional setting, and a default where it is left out.
pub open spec fn value_or<T>(value: Option<T>, default: T) -> T {
    match value {
        Some(v) => v,
        None => default,
    }
}

/// The texts of an optional list, and none where it is left out.
pub open spec fn list_or_empty(list: Option<Vec<String>>) -> Seq<Seq<char>> {
    match list {
        Some(l) => views(l@),
        None => Seq::empty(),
    }
}

/// What is said of a source that is no network, and why.
pub open spec fn bad_source_message(source: Seq<char>, reason: Seq<char>) -> Seq<char> {
    "invalid allowed_sources entry "@ + source + ": "@ + reason
}

/// The networks of the sources, from what each was read as; the first that was read as none makes
/// an error.
pub open spec fn gathered(
    sources: Seq<Seq<char>>,
    read: Seq<Result<Network, Seq<char>>>,
) -> Result<Seq<Network>, Seq<char>>
    decreases sources.len(),
{
    if sources.len() == 0 {
        Ok(Seq::empty())
    } else {
        match gathered(sources.drop_last(), read.drop_last()) {
            Err(message) => Err(message),
            Ok(networks) => match read.last() {
                Ok(network) => Ok(networks.push(network)),
                Err(reason) => Err(bad_source_message(sources.last(), reason)),
            },
        }
    }
}

/// The view of a network, or of the reason why there is none.
pub open spec fn read_view(read: Result<Network, String>) -> Result<Network, Seq<char>> {
    match read {
        Ok(network) => Ok(network),
        Err(reason) => Err(reason@),
    }
}

/// The view of networks, or of an error.
pub open spec fn networks_view(networks: Result<Vec<Network>, String>) -> Result<
    Seq<Network>,
    Seq<char>,
> {
    match networks {
        Ok(list) => Ok(list@),
        Err(message) => Err(message@),
    }
}

/// An error in the first sources is the error of them all.
proof fn lemma_gathered_error(
    sources: Seq<Seq<char>>,
    read: Seq<Result<Network, Seq<char>>>,
    count: int,
)
    requires
        0 <= count <= sources.len() == read.len(),
        gathered(sources.take(count), read.take(count)) is Err,
    ensures
        gathered(sources, read) == gathered(sources.take(count), read.take(count)),
    decreases sources.len() - count,
{
    if count < sources.len() {
        assert(sources.take(count + 1).drop_last() =~= sources.take(count));
        assert(read.take(count + 1).drop_last() =~= read.take(count));
        lemma_gathered_error(sources, read, count + 1);
    } else {
        assert(sources.take(count) =~= sources);
        assert(read.take(count) =~= read);
    }
}

/// Gathers the networks of the sources, from what each was read as.
pub fn gather_sources(sources: &Vec<String>, read: &Vec<Result<Network, String>>) -> (networks:
    Result<Vec<Network>, String>)
    requires
        sources.len() == read.len(),
    ensures
        networks_view(networks) == gathered(
            views(sources@),
            read@.map_values(|r: Result<Network, String>| read_view(r)),
        ),
        networks matches Ok(list) ==> list.len() == read.len() && forall|i: int|
            0 <= i < list.len() ==> read@[i] == Ok::<Network, String>(#[trigger] list@[i]),
{
    let ghost names = views(sources@);
    let ghost results = read@.map_values(|r: Result<Network, String>| read_view(r));
    let mut networks: Vec<Network> = Vec::new();
    let mut i: usize = 0;
    assert(names.take(0) =~= Seq::<Seq<char>>::empty());
    assert(networks@ =~= Seq::<Network>::empty());
    while i < sources.len()
        invariant
            i <= sources.len() == read.len(),
            names == views(sources@),
            results == read@.map_values(|r: Result<Network, String>| read_view(r)),
            networks.len() == i,
            gathered(names.take(i as int), results.take(i as int)) == Ok::<
                Seq<Network>,
                Seq<char>,
            >(networks@),
            forall|j: int|
                0 <= j < i ==> read@[j] == Ok::<Network, String>(#[trigger] networks@[j]),
        decreases sources.len() - i,
    {
        proof {
            assert(names.take(i + 1).drop_last() =~= names.take(i as int));
            assert(results.take(i + 1).drop_last() =~= results.take(i as int));
            assert(names.take(i + 1).last() == sources@[i as int]@);
            assert(results.take(i + 1).last() == read_view(read@[i as int]));
        }
        match &read[i] {
            Ok(network) => networks.push(*network),
            Err(reason) => {
                let mut message = "invalid allowed_sources entry ".to_owned();
                message.append(sources[i].as_str());
                message.append(": ");
                message.append(reason.as_str());
                proof {
                    lemma_gathered_error(names, results, i + 1);
                }
                return Err(message);
            },
        }
        i = i + 1;
    }
    assert(names.take(i as int) =~= names);
    assert(results.take(i as int) =~= results);
    Ok(networks)
}

/// What a source is read as.
pub open spec fn source_read(source: Seq<char>) -> Result<Network, Seq<char>> {
    match parsed_network(source) {
        Some(network) => Ok(network),
        None => Err("invalid IP address syntax"@),
    }
}

/// The networks that requests may come from, besides the host itself: those of the sources, and
/// those of Tailscale where no sources are given.
pub open spec fn source_networks(sources: Option<Vec<String>>) -> Result<Seq<Network>, Seq<char>> {
    match sources {
        Some(list) => gathered(
            views(list@),
            views(list@).map_values(|s: Seq<char>| source_read(s)),
        ),
        None => Ok(tailscale_ranges()),
    }
}

/// Reads the networks that requests may come from.
pub fn read_sources(sources: &Option<Vec<String>>) -> (networks: Result<Vec<Network>, String>)
    ensures
        networks_view(networks) == source_networks(*sources),
        networks matches Ok(list) ==> forall|i: int|
            0 <= i < list.len() ==> (#[trigger] list@[i]).wf(),
{
    let list = match sources {
        Some(list) => list,
        None => {
            let networks: Vec<Network> = vec![
                Network::V4(0x6440_0000, 10),
                Network::V6(0xfd7a_115c_a1e0_0000_0000_0000_0000_0000, 48),
            ];
            assert(networks@ =~= tailscale_ranges());
            return Ok(networks);
        },
    };
    let mut read: Vec<Result<Network, String>> = Vec::new();
    let mut i: usize = 0;
    while i < list.len()
        invariant
            i <= list.len(),
            read.len() == i,
            forall|j: int|
                0 <= j < i ==> read_view(#[trigger] read@[j]) == source_read(list@[j]@),
            forall|j: int| 0 <= j < i ==> ((#[trigger] read@[j]) matches Ok(n) ==> n.wf()),
        decreases list.len() - i,
    {
        read.push(read_network(list[i].as_str()));
        i = i + 1;
    }
    assert(read@.map_values(|r: Result<Network, String>| read_view(r)) =~= views(
        list@,
    ).map_values(|s: Seq<char>| source_read(s)));
    gather_sources(list, &read)
}

/// The text of an optional setting, and a default where it is left out.
fn text_default(text: Option<String>, default: &str) -> (result: String)
    ensures
        result@ == text_or(text, default@),
{
    match text {
        Some(t) => t,
        None => default.to_owned(),
    }
}

/// The texts of an optional list.
fn list_default(list: Option<Vec<String>>) -> (result: Vec<String>)
    ensures
        views(result@) == list_or_empty(list),
{
    match list {
        Some(l) => l,
        None => {
            let none: Vec<String> = Vec::new();
            assert(views(none@) =~= Seq::<Seq<char>>::empty());
            none
        },
    }
}

impl Config {
    /// What a configuration holds for a file: the settings of the file, and the defaults for
    /// those that it leaves out.
    pub open spec fn resolves(&self, raw: RawConfig, networks: Seq<Network>) -> bool {
        &&& self.backend == value_or(raw.backend, BackendKind::Cli)
        &&& self.host@ == text_or(raw.host, "0.0.0.0"@)
        &&& self.port == value_or(raw.port, 18081)
        &&& self.public_url@ == raw.public_url@
        &&& self.sessions_dir@ == raw.sessions_dir@
        &&& self.default_working_directory@ == raw.default_working_directory@
        &&& self.codex_bin@ == text_or(raw.codex_bin, "codex"@)
        &&& self.auth_token_env matches Some(name) && name@ == text_or(
            raw.auth_token_env,
            "A2A_AUTH_TOKEN"@,
        )
        &&& self.auth_token_file == raw.auth_token_file
        &&& self.auth_token_keychain_service matches Some(service) && service@ == text_or(
            raw.auth_token_keychain_service,
            "A2A_AUTH_TOKEN"@,
        )
        &&& views(self.write_roots@) == list_or_empty(raw.write_roots)
        &&& views(self.write_mode_sandbox_permissions@) == list_or_empty(
            raw.write_mode_sandbox_permissions,
        )
        &&& self.allowed_sources@ == networks
        &&& self.max_body_bytes == value_or(raw.max_body_bytes, DEFAULT_MAX_BODY_BYTES)
        &&& self.max_concurrent_tasks == value_or(
            raw.max_concurrent_tasks,
            DEFAULT_MAX_CONCURRENT_TASKS,
        )
        &&& self.read_timeout_secs == value_or(raw.read_timeout_secs, DEFAULT_READ_TIMEOUT_SECS)
        &&& self.expose_local_sessions == value_or(raw.expose_local_sessions, false)
    }

    /// The configuration for a file, with the networks that its sources were read as.
    pub fn with_networks(raw: RawConfig, allowed_sources: Vec<Network>) -> (config: Config)
        ensures
            config.resolves(raw, allowed_sources@),
    {
        Config {
            backend: match raw.backend {
                Some(kind) => kind,
                None => BackendKind::Cli,
            },
            host: text_default(raw.host, "0.0.0.0"),
            port: match raw.port {
                Some(port) => port,
                None => 18081,
            },
            public_url: raw.public_url,
            sessions_dir: raw.sessions_dir,
            default_working_directory: raw.default_working_directory,
            codex_bin: text_default(raw.codex_bin, "codex"),
            auth_token_env: Some(text_default(raw.auth_token_env, "A2A_AUTH_TOKEN")),
            auth_token_file: raw.auth_token_file,
            auth_token_keychain_service: Some(
                text_default(raw.auth_token_keychain_service, "A2A_AUTH_TOKEN"),
            ),
            write_roots: list_default(raw.write_roots),
            write_mode_sandbox_permissions: list_default(raw.write_mode_sandbox_permissions),
            allowed_sources,
            max_body_bytes: match raw.max_body_bytes {
                Some(bytes) => bytes,
                None => DEFAULT_MAX_BODY_BYTES,
            },
            max_concurrent_tasks: match raw.max_concurrent_tasks {
                Some(count) => count,
                None => DEFAULT_MAX_CONCURRENT_TASKS,
            },
            read_timeout_secs: match raw.read_timeout_secs {
                Some(secs) => secs,
                None => DEFAULT_READ_TIMEOUT_SECS,
            },
            expose_local_sessions: match raw.expose_local_sessions {
                Some(expose) => expose,
                None => false,
            },
        }
    }

    /// The configuration for a file. A source that is no network is the one error.
    pub fn from_raw(raw: RawConfig) -> (config: Result<Config, String>)
        ensures
            match config {
                Ok(c) => {
                    &&& source_networks(raw.allowed_sources) == Ok::<Seq<Network>, Seq<char>>(
                        c.allowed_sources@,
                    )
                    &&& c.wf()
                    &&& c.resolves(raw, c.allowed_sources@)
                },
                Err(message) => source_networks(raw.allowed_sources) == Err::<
                    Seq<Network>,
                    Seq<char>,
                >(message@),
            },
    {
        match read_sources(&raw.allowed_sources) {
            Ok(networks) => Ok(Config::with_networks(raw, networks)),
            Err(message) => Err(message),
        }
    }
}

impl Config {
    /// The address to listen on.
    pub open spec fn address(&self) -> Seq<char> {
        self.host@ + ":"@ + decimal(self.port as nat)
    }

    /// The address to listen on.
    pub fn bind_address(&self) -> (address: String)
        ensures
            address@ == self.host@ + ":"@ + decimal(self.port as nat),
            address@ == self.address(),
    {
        let mut address = self.host.clone();
        address.append(":");
        address.append(decimal_text(self.port as u128).as_str());
        address
    }
}

/// The path of the configuration file: the one that is set, or `config.toml`.
pub fn config_path(set: Option<String>) -> (path: String)
    ensures
        path@ == text_or(set, "config.toml"@),
{
    text_default(set, "config.toml")
}

/// What is said of a configuration file that cannot be read or understood.
pub fn config_file_error(path: &str, error: &str) -> (message: String)
    ensures
        message@ == path@ + ": "@ + error@,
{
    let mut message = path.to_owned();
    message.append(": ");
    message.append(error);
    message
}

} // verus!
