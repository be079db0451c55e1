//! Runtime configuration, all from environment variables.

use crate::chain::Network;
use crate::encoding::{parse_u64, parsed_u64};
use crate::text::{is_white_space, same_text, trimmed, trimmed_facts, trimming_is_idempotent};
use vstd::hash_map::StringHashMap;
use vstd::prelude::*;
use vstd::string::*;

verus! {

/// The number of blocks that a scan may span where nothing else is configured.
pub const DEFAULT_MAX_SCAN_BLOCKS: u64 = 2_000_000;

/// Environment variables.
pub struct Env {
    vars: StringHashMap<String>,
}

impl View for Env {
    type V = Map<Seq<char>, Seq<char>>;

    closed spec fn view(&self) -> Map<Seq<char>, Seq<char>> {
        self.vars@.map_values(|v: String| v@)
    }
}

impl Env {
    /// An environment in which nothing is set.
    pub fn new() -> (r: Env)
        ensures
            r@ == Map::<Seq<char>, Seq<char>>::empty(),
    {
        let env = Env { vars: StringHashMap::new() };
        assert(env@ =~= Map::empty());
        env
    }

    /// Sets a variable.
    pub fn set(&mut self, key: &str, value: String)
        ensures
            final(self)@ == old(self)@.insert(key@, value@),
    {
        let ghost before = self@;
        self.vars.insert(key.to_owned(), value);
        assert(self@ =~= before.insert(key@, value@));
    }

    /// Unsets a variable.
    pub fn remove(&mut self, key: &str)
        ensures
            final(self)@ == old(self)@.remove(key@),
    {
        let ghost before = self@;
        self.vars.remove(key);
        assert(self@ =~= before.remove(key@));
    }

    /// The text of a variable that is set and not blank, without the whitespace around it.
    fn value(&self, key: &str) -> (r: Option<&str>)
        ensures
            match value_of(self@, key@) {
                Some(v) => r matches Some(t) && t@ == v,
                None => r is None,
            },
    {
        match self.vars.get(key) {
            Some(v) => {
                let t: &str = v.as_str().trim();
                if !t.is_empty() {
                    Some(t)
                } else {
                    None
                }
            },
            None => None,
        }
    }
}

#[derive(Clone)]
pub struct Config {
    /// The address of the internal HTTP server, which has to be a private interface.
    pub bind_addr: String,
    /// The lightwalletd endpoint, such as `https://zec.rocks:443`.
    pub lightwalletd_url: String,
    /// The secret that a request has to present in `X-Scanner-Auth`.
    pub shared_secret: String,
    /// `main` or `test`.
    pub network: String,
    /// The largest number of blocks that one scan may span.
    pub max_scan_blocks: u64,
}

/// Why there is no configuration.
#[derive(Debug)]
pub enum ConfigError {
    /// The named variable is required, and unset or blank.
    Missing(String),
}

impl ConfigError {
    /// The name of the variable that is missing.
    pub open spec fn variable(self) -> Seq<char> {
        match self {
            ConfigError::Missing(key) => key@,
        }
    }

    /// The error in words.
    pub fn description(&self) -> (r: String)
        ensures
            r@ == "missing/empty required env var: "@ + self.variable(),
    {
        match self {
            ConfigError::Missing(key) => {
                "missing/empty required env var: ".to_owned().concat(key.as_str())
            },
        }
    }
}

/// The text of a variable that is set and not blank, without the whitespace around it.
pub open spec fn value_of(env: Map<Seq<char>, Seq<char>>, key: Seq<char>) -> Option<Seq<char>> {
    if env.contains_key(key) && trimmed(env[key]).len() > 0 {
        Some(trimmed(env[key]))
    } else {
        None
    }
}

/// The value of an optional variable, or the default where the variable is unset or blank.
pub open spec fn value_or(
    env: Map<Seq<char>, Seq<char>>,
    key: Seq<char>,
    default: Seq<char>,
) -> Seq<char> {
    match value_of(env, key) {
        Some(v) => v,
        None => default,
    }
}

/// The configured number of blocks: the default where the variable is unset, blank or no
/// number.
pub open spec fn blocks_of(env: Map<Seq<char>, Seq<char>>) -> u64 {
    match value_of(env, "SCANNER_MAX_SCAN_BLOCKS"@) {
        Some(v) => match parsed_u64(v) {
            Some(n) => n,
            None => DEFAULT_MAX_SCAN_BLOCKS,
        },
        None => DEFAULT_MAX_SCAN_BLOCKS,
    }
}

/// Required variable: fails if it is unset or blank, since a blank line in an environment file
/// is a mistake.
pub fn req(env: &Env, key: &str) -> (r: Result<String, ConfigError>)
    ensures
        r is Ok <==> value_of(env@, key@) is Some,
        r matches Ok(v) ==> value_of(env@, key@) == Some(v@),
        r matches Err(e) ==> e.variable() == key@,
{
    match env.value(key) {
        Some(v) => Ok(v.to_owned()),
        None => Err(ConfigError::Missing(key.to_owned())),
    }
}

/// Optional variable with a default, which stands in for an unset or blank value.
pub fn opt(env: &Env, key: &str, default: &str) -> (r: String)
    ensures
        r@ == value_or(env@, key@, default@),
{
    match env.value(key) {
        Some(v) => v.to_owned(),
        None => default.to_owned(),
    }
}

/// The number of blocks that one scan may span.
fn max_blocks(env: &Env) -> (r: u64)
    ensures
        r == blocks_of(env@),
{
    match env.value("SCANNER_MAX_SCAN_BLOCKS") {
        Some(v) => match parse_u64(v) {
            Some(n) => n,
            None => DEFAULT_MAX_SCAN_BLOCKS,
        },
        None => DEFAULT_MAX_SCAN_BLOCKS,
    }
}

impl Config {
    /// The configuration that the environment describes. Only the shared secret is required.
    pub fn from_env(env: &Env) -> (r: Result<Config, ConfigError>)
        ensures
            r is Ok <==> value_of(env@, "SCANNER_SHARED_SECRET"@) is Some,
            r matches Err(e) ==> e.variable() == "SCANNER_SHARED_SECRET"@,
            r matches Ok(c) ==> {
                &&& c.bind_addr@ == value_or(env@, "SCANNER_BIND_ADDR"@, "0.0.0.0:8080"@)
                &&& c.lightwalletd_url@ == value_or(
                    env@,
                    "LIGHTWALLETD_URL"@,
                    "https://zec.rocks:443"@,
                )
                &&& Some(c.shared_secret@) == value_of(env@, "SCANNER_SHARED_SECRET"@)
                &&& c.network@ == value_or(env@, "ZCASH_NETWORK"@, "main"@)
                &&& c.max_scan_blocks == blocks_of(env@)
            },
    {
        let shared_secret: String = match req(env, "SCANNER_SHARED_SECRET") {
            Ok(s) => s,
            Err(e) => return Err(e),
        };
        Ok(
            Config {
                bind_addr: opt(env, "SCANNER_BIND_ADDR", "0.0.0.0:8080"),
                lightwalletd_url: opt(env, "LIGHTWALLETD_URL", "https://zec.rocks:443"),
                shared_secret,
                network: opt(env, "ZCASH_NETWORK", "main"),
                max_scan_blocks: max_blocks(env),
            },
        )
    }
}

/// The network of a name: `test` is the test network, anything else the main one.
pub open spec fn network_named(name: Seq<char>) -> Network {
    if name == "test"@ {
        Network::TestNetwork
    } else {
        Network::MainNetwork
    }
}

/// The network that the configuration names.
pub fn network_for(cfg: &Config) -> (r: Network)
    ensures
        r == network_named(cfg.network@),
{
    if same_text(cfg.network.as_str(), "test") {
        Network::TestNetwork
    } else {
        Network::MainNetwork
    }
}

/// A variable that is set and not blank, such as the shared secret, has a value that is not empty
/// and has no whitespace around it.
pub proof fn secrets_are_not_empty(env: Map<Seq<char>, Seq<char>>, key: Seq<char>)
    ensures
        value_of(env, key) matches Some(v) ==> v.len() > 0 && trimmed(v) == v,
{
    trimming_is_idempotent(env[key]);
}

/// A variable that is blank counts as unset.
pub proof fn blank_is_unset(env: Map<Seq<char>, Seq<char>>, key: Seq<char>, blank: Seq<char>)
    requires
        forall|i: int| 0 <= i < blank.len() ==> is_white_space(blank[i]),
    ensures
        value_of(env.insert(key, blank), key) == value_of(env.remove(key), key),
{
    trimmed_facts(blank);
}

} // verus!
