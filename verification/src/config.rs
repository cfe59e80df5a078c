//! The gateway's configuration and how it is built from its settings.
//!
//! The settings are texts, one per name, as the environment gives them. A
//! setting that is absent, or that does not spell what it should, falls back
//! to its default. Only the list of accepted domains has none.

use vstd::prelude::*;
use vstd::string::*;
use crate::domain::DomainSet;
use crate::text::{
    lowercase, opt_text, parse_number, parsed_number, pieces, split, substitute, substituted,
    text_eq, to_lowercase, trim, trimmed,
};

verus! {

/// Which store probes decide whether a mailbox exists.
#[derive(Clone, Copy, Debug, PartialEq, Eq, Structural)]
pub enum CheckMode {
    /// Probe the key first, then fall back to the set.
    Both,
    /// Probe only the key.
    KeyOnly,
    /// Probe only the set.
    SetOnly,
}

/// The mode that a lower-cased name stands for: `key` or `key_only`, `set` or
/// `set_only`, and anything else for both.
pub open spec fn mode_of(name: Seq<char>) -> CheckMode {
    if name == "key"@ || name == "key_only"@ {
        CheckMode::KeyOnly
    } else if name == "set"@ || name == "set_only"@ {
        CheckMode::SetOnly
    } else {
        CheckMode::Both
    }
}

impl CheckMode {
    /// The mode that a lower-cased name stands for.
    pub fn from_name(name: &str) -> (r: CheckMode)
        ensures
            r == mode_of(name@),
    {
        if text_eq(name, "key") || text_eq(name, "key_only") {
            CheckMode::KeyOnly
        } else if text_eq(name, "set") || text_eq(name, "set_only") {
            CheckMode::SetOnly
        } else {
            CheckMode::Both
        }
    }
}

/// The gateway's configuration: fixed at startup and shared by all sessions.
pub struct Config {
    /// Address to listen on, such as `0.0.0.0:25`.
    pub listen_addr: String,
    /// Address of the backend that accepted mail is relayed to.
    pub backend_addr: String,
    /// Connection URL of the key-value store.
    pub redis_url: String,
    /// The accepted domains, in lower case.
    pub accepted_domains: DomainSet,
    /// Largest message body in bytes.
    pub max_message_size: usize,
    /// Path of the PEM certificate chain.
    pub tls_cert_path: Option<String>,
    /// Path of the PEM private key.
    pub tls_key_path: Option<String>,
    /// Host name used in the banner and towards the backend.
    pub server_name: String,
    /// Wall-clock limit of one session, in seconds.
    pub connection_timeout_secs: u64,
    /// Key pattern of the liveness probe; `{address}` stands for the address.
    pub redis_key_pattern: String,
    /// Name of the set of known addresses; empty disables the set probe.
    pub redis_set_name: String,
    /// Which probes decide.
    pub redis_check_mode: CheckMode,
    /// Seconds between metric reports; zero disables them.
    pub metrics_interval_secs: u64,
    /// Most concurrent sessions; zero is unbounded.
    pub max_connections: usize,
    /// Most recipient attempts in one session.
    pub max_recipients: usize,
    /// Longest command line in bytes.
    pub max_line_length: usize,
    /// Most connections from one address in one window; zero disables the limit.
    pub max_connections_per_ip: u32,
}

/// The settings as the environment gives them, one per name; `None` where a
/// name is not set.
pub struct Environment {
    pub listen_addr: Option<String>,
    pub backend_smtp: Option<String>,
    pub redis_url: Option<String>,
    pub redis_host: Option<String>,
    pub redis_port: Option<String>,
    pub redis_username: Option<String>,
    pub redis_password: Option<String>,
    pub accepted_domains: Option<String>,
    pub max_message_size: Option<String>,
    pub tls_cert_path: Option<String>,
    pub tls_key_path: Option<String>,
    pub server_name: Option<String>,
    pub connection_timeout: Option<String>,
    pub redis_key_pattern: Option<String>,
    pub redis_set_name: Option<String>,
    pub redis_check_mode: Option<String>,
    pub metrics_interval: Option<String>,
    pub max_connections: Option<String>,
    pub max_recipients: Option<String>,
    pub max_line_length: Option<String>,
    pub max_connections_per_ip: Option<String>,
}

/// Why no configuration could be built.
#[derive(Clone, Copy, Debug, PartialEq, Eq, Structural)]
pub enum ConfigError {
    /// The list of accepted domains is not set.
    MissingAcceptedDomains,
}

/// A setting as text, or its default.
pub open spec fn text_or(v: Option<String>, default: Seq<char>) -> Seq<char> {
    match v {
        Some(s) => s@,
        None => default,
    }
}

/// A setting as a number of at most `max`, or its default when it is absent or
/// spells no such number.
pub open spec fn number_or(v: Option<String>, max: int, default: int) -> int {
    match v {
        Some(s) => match parsed_number(s@, max) {
            Some(n) => n,
            None => default,
        },
        None => default,
    }
}

/// The URL of the store: the one that is set, or one made of host, port, user
/// name and password. The user name counts only along with a password.
pub open spec fn store_url(env: Environment) -> Seq<char> {
    match env.redis_url {
        Some(url) => url@,
        None => {
            let host = text_or(env.redis_host, "127.0.0.1"@);
            let port = text_or(env.redis_port, "6379"@);
            let user = text_or(env.redis_username, Seq::empty());
            let pass = text_or(env.redis_password, Seq::empty());
            if user.len() > 0 && pass.len() > 0 {
                "redis://"@ + user + ":"@ + pass + "@"@ + host + ":"@ + port
            } else if pass.len() > 0 {
                "redis://:"@ + pass + "@"@ + host + ":"@ + port
            } else {
                "redis://"@ + host + ":"@ + port
            }
        },
    }
}

/// The names among the first `n` pieces of a list: each piece trimmed and
/// lower-cased, the empty ones left out.
pub open spec fn names_among(list: Seq<Seq<char>>, n: int) -> Set<Seq<char>> {
    Set::new(
        |d: Seq<char>|
            d.len() > 0 && exists|j: int|
                0 <= j < n && j < list.len() && d == lowercase(trimmed(#[trigger] list[j])),
    )
}

/// The domains that a comma-separated list names.
pub open spec fn domain_names(value: Seq<char>) -> Set<Seq<char>> {
    names_among(pieces(value, ','), pieces(value, ',').len() as int)
}

/// The store key of an address: the pattern with `{address}` replaced by the
/// lower-cased address.
pub open spec fn key_text(pattern: Seq<char>, address: Seq<char>) -> Seq<char> {
    substituted(pattern, "{address}"@, lowercase(address))
}

/// Whether a configuration is the one that the settings describe.
pub open spec fn describes(env: Environment, c: Config) -> bool {
    &&& c.listen_addr@ == text_or(env.listen_addr, "0.0.0.0:25"@)
    &&& c.backend_addr@ == text_or(env.backend_smtp, "127.0.0.1:2525"@)
    &&& c.redis_url@ == store_url(env)
    &&& env.accepted_domains matches Some(list) && c.accepted_domains@ == domain_names(list@)
    &&& c.max_message_size == number_or(env.max_message_size, usize::MAX as int, 10485760)
    &&& opt_text(c.tls_cert_path) == opt_text(env.tls_cert_path)
    &&& opt_text(c.tls_key_path) == opt_text(env.tls_key_path)
    &&& c.server_name@ == text_or(env.server_name, "burngate"@)
    &&& c.connection_timeout_secs == number_or(env.connection_timeout, u64::MAX as int, 300)
    &&& c.redis_key_pattern@ == text_or(env.redis_key_pattern, "mb:{address}"@)
    &&& c.redis_set_name@ == text_or(env.redis_set_name, "addresses"@)
    &&& c.redis_check_mode == mode_of(lowercase(text_or(env.redis_check_mode, "both"@)))
    &&& c.metrics_interval_secs == number_or(env.metrics_interval, u64::MAX as int, 60)
    &&& c.max_connections == number_or(env.max_connections, usize::MAX as int, 1000)
    &&& c.max_recipients == number_or(env.max_recipients, usize::MAX as int, 100)
    &&& c.max_line_length == number_or(env.max_line_length, usize::MAX as int, 1024)
    &&& c.max_connections_per_ip == number_or(env.max_connections_per_ip, u32::MAX as int, 0)
}

/// A setting as text, or its default.
fn setting_or(v: &Option<String>, default: &str) -> (r: String)
    ensures
        r@ == text_or(*v, default@),
{
    match v {
        Some(s) => s.clone(),
        None => default.to_owned(),
    }
}

/// A setting as a number of at most `max`, or its default.
fn setting_number(v: &Option<String>, max: u64, default: u64) -> (r: u64)
    requires
        default <= max,
    ensures
        r == number_or(*v, max as int, default as int),
        r <= max,
{
    match v {
        Some(s) => match parse_number(s.as_str(), max) {
            Some(n) => n,
            None => default,
        },
        None => default,
    }
}

/// A copy of an optional setting.
fn setting_copy(v: &Option<String>) -> (r: Option<String>)
    ensures
        opt_text(r) == opt_text(*v),
{
    match v {
        Some(s) => Some(s.clone()),
        None => None,
    }
}

/// The URL of the store.
fn build_store_url(env: &Environment) -> (r: String)
    ensures
        r@ == store_url(*env),
{
    match &env.redis_url {
        Some(url) => url.clone(),
        None => {
            let host = setting_or(&env.redis_host, "127.0.0.1");
            let port = setting_or(&env.redis_port, "6379");
            let user = match &env.redis_username {
                Some(s) => s.clone(),
                None => String::new(),
            };
            let pass = match &env.redis_password {
                Some(s) => s.clone(),
                None => String::new(),
            };
            let mut url = String::new();
            if !user.as_str().is_empty() && !pass.as_str().is_empty() {
                url.append("redis://");
                url.append(user.as_str());
                url.append(":");
                url.append(pass.as_str());
                url.append("@");
            } else if !pass.as_str().is_empty() {
                url.append("redis://:");
                url.append(pass.as_str());
                url.append("@");
            } else {
                url.append("redis://");
            }
            url.append(host.as_str());
            url.append(":");
            url.append(port.as_str());
            assert(url@ =~= store_url(*env));
            url
        },
    }
}

/// The domains that a comma-separated list names.
pub fn parse_domains(value: &str) -> (r: DomainSet)
    ensures
        r@ == domain_names(value@),
{
    let parts = split(value, ',');
    let ghost list = pieces(value@, ',');
    let mut set = DomainSet::new();
    let mut i: usize = 0;
    assert(set@ =~= names_among(list, 0));
    while i < parts.len()
        invariant
            i <= parts.len(),
            parts@.len() == list.len(),
            forall|j: int| 0 <= j < parts@.len() ==> (#[trigger] parts@[j])@ == list[j],
            set@ == names_among(list, i as int),
        decreases parts.len() - i,
    {
        let name = to_lowercase(trim(parts[i].as_str()));
        let ghost before = set@;
        assert(name@ == lowercase(trimmed(list[i as int])));
        if !name.as_str().is_empty() {
            set.insert(name);
            assert(set@ =~= names_among(list, i + 1)) by {
                assert forall|d: Seq<char>| names_among(list, i + 1).contains(d) implies set@.contains(
                    d,
                ) by {
                    let j = choose|j: int|
                        0 <= j < i + 1 && j < list.len() && d == lowercase(
                            trimmed(#[trigger] list[j]),
                        );
                    if j < i {
                        assert(names_among(list, i as int).contains(d));
                    }
                }
                assert forall|d: Seq<char>| set@.contains(d) implies names_among(
                    list,
                    i + 1,
                ).contains(d) by {
                    if before.contains(d) {
                        let j = choose|j: int|
                            0 <= j < i && j < list.len() && d == lowercase(
                                trimmed(#[trigger] list[j]),
                            );
                        assert(0 <= j < i + 1);
                    } else {
                        assert(d == lowercase(trimmed(list[i as int])));
                    }
                }
            }
        } else {
            assert(set@ =~= names_among(list, i + 1)) by {
                assert forall|d: Seq<char>| names_among(list, i + 1).contains(d) implies set@.contains(
                    d,
                ) by {
                    let j = choose|j: int|
                        0 <= j < i + 1 && j < list.len() && d == lowercase(
                            trimmed(#[trigger] list[j]),
                        );
                    if j < i {
                        assert(names_among(list, i as int).contains(d));
                    }
                }
                assert forall|d: Seq<char>| set@.contains(d) implies names_among(
                    list,
                    i + 1,
                ).contains(d) by {
                    let j = choose|j: int|
                        0 <= j < i && j < list.len() && d == lowercase(
                            trimmed(#[trigger] list[j]),
                        );
                    assert(0 <= j < i + 1);
                }
            }
        }
        i = i + 1;
    }
    set
}

impl Environment {
    /// The environment in which no name is set.
    pub fn empty() -> (r: Self)
        ensures
            r.listen_addr is None,
            r.backend_smtp is None,
            r.redis_url is None,
            r.redis_host is None,
            r.redis_port is None,
            r.redis_username is None,
            r.redis_password is None,
            r.accepted_domains is None,
            r.max_message_size is None,
            r.tls_cert_path is None,
            r.tls_key_path is None,
            r.server_name is None,
            r.connection_timeout is None,
            r.redis_key_pattern is None,
            r.redis_set_name is None,
            r.redis_check_mode is None,
            r.metrics_interval is None,
            r.max_connections is None,
            r.max_recipients is None,
            r.max_line_length is None,
            r.max_connections_per_ip is None,
    {
        Environment {
            listen_addr: None,
            backend_smtp: None,
            redis_url: None,
            redis_host: None,
            redis_port: None,
            redis_username: None,
            redis_password: None,
            accepted_domains: None,
            max_message_size: None,
            tls_cert_path: None,
            tls_key_path: None,
            server_name: None,
            connection_timeout: None,
            redis_key_pattern: None,
            redis_set_name: None,
            redis_check_mode: None,
            metrics_interval: None,
            max_connections: None,
            max_recipients: None,
            max_line_length: None,
            max_connections_per_ip: None,
        }
    }
}

impl Config {
    /// Builds the configuration from the settings.
    ///
    /// Fails when the list of accepted domains is not set, and only then.
    pub fn from_vars(env: &Environment) -> (r: Result<Config, ConfigError>)
        ensures
            match r {
                Ok(c) => describes(*env, c),
                Err(e) => e == ConfigError::MissingAcceptedDomains && env.accepted_domains is None,
            },
    {
        let accepted_domains = match &env.accepted_domains {
            Some(list) => parse_domains(list.as_str()),
            None => {
                return Err(ConfigError::MissingAcceptedDomains);
            },
        };
        let mode_name = to_lowercase(setting_or(&env.redis_check_mode, "both").as_str());
        let limit: u64 = usize::MAX as u64;
        Ok(
            Config {
                listen_addr: setting_or(&env.listen_addr, "0.0.0.0:25"),
                backend_addr: setting_or(&env.backend_smtp, "127.0.0.1:2525"),
                redis_url: build_store_url(env),
                accepted_domains,
                max_message_size: setting_number(&env.max_message_size, limit, 10485760) as usize,
                tls_cert_path: setting_copy(&env.tls_cert_path),
                tls_key_path: setting_copy(&env.tls_key_path),
                server_name: setting_or(&env.server_name, "burngate"),
                connection_timeout_secs: setting_number(&env.connection_timeout, u64::MAX, 300),
                redis_key_pattern: setting_or(&env.redis_key_pattern, "mb:{address}"),
                redis_set_name: setting_or(&env.redis_set_name, "addresses"),
                redis_check_mode: CheckMode::from_name(mode_name.as_str()),
                metrics_interval_secs: setting_number(&env.metrics_interval, u64::MAX, 60),
                max_connections: setting_number(&env.max_connections, limit, 1000) as usize,
                max_recipients: setting_number(&env.max_recipients, limit, 100) as usize,
                max_line_length: setting_number(&env.max_line_length, limit, 1024) as usize,
                max_connections_per_ip: setting_number(
                    &env.max_connections_per_ip,
                    0xffff_ffff,
                    0,
                ) as u32,
            },
        )
    }

    /// The store key of an address under the configured pattern.
    pub fn redis_key_for(&self, address: &str) -> (r: String)
        ensures
            r@ == key_text(self.redis_key_pattern@, address@),
    {
        let lower = to_lowercase(address);
        substitute(self.redis_key_pattern.as_str(), "{address}", lower.as_str())
    }

    /// Whether STARTTLS can be offered: both the certificate and the key are
    /// configured.
    pub fn tls_available(&self) -> (r: bool)
        ensures
            r == (self.tls_cert_path is Some && self.tls_key_path is Some),
    {
        self.tls_cert_path.is_some() && self.tls_key_path.is_some()
    }
}

} // verus!
