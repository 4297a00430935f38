//! Configuration: validation of the exporter's environment variables.
//!
//! The values are read by the caller (one `Option<String>` per variable,
//! `None` when the variable is unset or not valid Unicode) and turned into a
//! [`Config`] here, with the same checks, defaults and error messages for
//! every variable.

use vstd::prelude::*;

use crate::labels::{to_lowercase, unicode_lowercase};
use crate::text::{
    decimal_string, decimal_text, int_error_text, opt_text, parse_unsigned, parse_unsigned_text,
    strip_prefix, text_eq,
};

verus! {

/// Log verbosity.
#[derive(Clone, Copy, Debug, PartialEq, Eq, Structural)]
pub enum LogLevel {
    Trace,
    Debug,
    Info,
    Warn,
    Error,
}

pub open spec fn level_text(l: LogLevel) -> Seq<char> {
    match l {
        LogLevel::Trace => "trace"@,
        LogLevel::Debug => "debug"@,
        LogLevel::Info => "info"@,
        LogLevel::Warn => "warn"@,
        LogLevel::Error => "error"@,
    }
}

/// A configuration error, as a value.
pub enum ConfigErrorView {
    MissingEnvVar { name: Seq<char> },
    InvalidValue { name: Seq<char>, value: Seq<char>, reason: Seq<char> },
}

/// Why the environment does not make a configuration.
#[derive(Debug)]
pub enum ConfigError {
    /// A required variable is unset or empty.
    MissingEnvVar { name: String },
    /// A variable holds an unparsable value or breaks its constraint.
    InvalidValue { name: String, value: String, reason: String },
}

impl View for ConfigError {
    type V = ConfigErrorView;

    open spec fn view(&self) -> ConfigErrorView {
        match self {
            ConfigError::MissingEnvVar { name } => ConfigErrorView::MissingEnvVar { name: name@ },
            ConfigError::InvalidValue { name, value, reason } => ConfigErrorView::InvalidValue {
                name: name@,
                value: value@,
                reason: reason@,
            },
        }
    }
}

/// The error's display text.
pub open spec fn config_error_text(e: ConfigErrorView) -> Seq<char> {
    match e {
        ConfigErrorView::MissingEnvVar { name } => "required environment variable "@ + name
            + " is not set"@,
        ConfigErrorView::InvalidValue { name, value, reason } => "invalid value for "@ + name
            + "="@ + value + ": "@ + reason,
    }
}

impl ConfigError {
    /// The error's display text.
    pub fn message(&self) -> (m: String)
        ensures
            m@ == config_error_text(self@),
    {
        match self {
            ConfigError::MissingEnvVar { name } => {
                let mut text = "required environment variable ".to_owned();
                text.append(name.as_str());
                text.append(" is not set");
                text
            },
            ConfigError::InvalidValue { name, value, reason } => {
                let mut text = "invalid value for ".to_owned();
                text.append(name.as_str());
                text.append("=");
                text.append(value.as_str());
                text.append(": ");
                text.append(reason.as_str());
                text
            },
        }
    }
}

pub open spec fn invalid(name: Seq<char>, value: Seq<char>, reason: Seq<char>) -> ConfigErrorView {
    ConfigErrorView::InvalidValue { name, value, reason }
}

pub open spec fn level_choices() -> Seq<char> {
    "must be one of: trace, debug, info, warn, error"@
}

pub open spec fn flag_choices() -> Seq<char> {
    "must be one of: true/false, 1/0, yes/no, on/off"@
}

/// The level whose name is the lowercased text `lowered`; `value` is the
/// text as given, which an error reports.
pub open spec fn level_from_lowercase(lowered: Seq<char>, value: Seq<char>) -> Result<LogLevel, ConfigErrorView> {
    if lowered == "trace"@ {
        Ok(LogLevel::Trace)
    } else if lowered == "debug"@ {
        Ok(LogLevel::Debug)
    } else if lowered == "info"@ {
        Ok(LogLevel::Info)
    } else if lowered == "warn"@ {
        Ok(LogLevel::Warn)
    } else if lowered == "error"@ {
        Ok(LogLevel::Error)
    } else {
        Err(invalid("LOG_LEVEL"@, value, level_choices()))
    }
}

/// `LOG_LEVEL` parsing: the level whose name is the text's Unicode
/// lowercase form.
pub open spec fn parse_level(s: Seq<char>) -> Result<LogLevel, ConfigErrorView> {
    level_from_lowercase(unicode_lowercase(s), s)
}

impl LogLevel {
    /// The level's name, as displayed (`trace`, `debug`, ...).
    pub fn as_str(&self) -> (s: &'static str)
        ensures
            s@ == level_text(*self),
    {
        match self {
            LogLevel::Trace => "trace",
            LogLevel::Debug => "debug",
            LogLevel::Info => "info",
            LogLevel::Warn => "warn",
            LogLevel::Error => "error",
        }
    }

    /// The level named by `lowered`, the lowercased form of `value`.
    pub fn from_lowercase(lowered: &str, value: &str) -> (r: Result<LogLevel, ConfigError>)
        ensures
            match r {
                Ok(l) => level_from_lowercase(lowered@, value@) == Ok::<LogLevel, ConfigErrorView>(l),
                Err(e) => level_from_lowercase(lowered@, value@) == Err::<LogLevel, ConfigErrorView>(e@),
            },
    {
        if text_eq(lowered, "trace") {
            Ok(LogLevel::Trace)
        } else if text_eq(lowered, "debug") {
            Ok(LogLevel::Debug)
        } else if text_eq(lowered, "info") {
            Ok(LogLevel::Info)
        } else if text_eq(lowered, "warn") {
            Ok(LogLevel::Warn)
        } else if text_eq(lowered, "error") {
            Ok(LogLevel::Error)
        } else {
            Err(
                ConfigError::InvalidValue {
                    name: "LOG_LEVEL".to_owned(),
                    value: value.to_owned(),
                    reason: "must be one of: trace, debug, info, warn, error".to_owned(),
                },
            )
        }
    }

    /// Parse a level name, ignoring case (`str::to_lowercase`).
    pub fn parse(s: &str) -> (r: Result<LogLevel, ConfigError>)
        ensures
            match r {
                Ok(l) => parse_level(s@) == Ok::<LogLevel, ConfigErrorView>(l),
                Err(e) => parse_level(s@) == Err::<LogLevel, ConfigErrorView>(e@),
            },
    {
        let lowered = to_lowercase(s);
        Self::from_lowercase(lowered.as_str(), s)
    }
}

/// The environment variables that configure the exporter, as read: `None`
/// for an unset variable (or one that is not valid Unicode).
pub struct EnvValues {
    pub jellyfin_url: Option<String>,
    pub jellyfin_api_key: Option<String>,
    pub port: Option<String>,
    pub scrape_interval_ms: Option<String>,
    pub log_level: Option<String>,
    pub request_timeout_ms: Option<String>,
    pub retry_max_attempts: Option<String>,
    pub retry_base_delay_ms: Option<String>,
    pub circuit_breaker_threshold: Option<String>,
    pub circuit_breaker_reset_ms: Option<String>,
    pub metrics_token: Option<String>,
    pub expose_remote_address: Option<String>,
}

/// The exporter's configuration.
#[derive(Clone)]
pub struct Config {
    pub jellyfin_url: String,
    pub jellyfin_api_key: String,
    pub port: u16,
    pub scrape_interval_ms: u64,
    pub log_level: LogLevel,
    pub request_timeout_ms: u64,
    pub retry_max_attempts: u32,
    pub retry_base_delay_ms: u64,
    pub retry_max_delay_ms: u64,
    pub circuit_breaker_threshold: u32,
    pub circuit_breaker_reset_ms: u64,
    pub metrics_token: Option<String>,
    /// Whether to expose `jellyfin_session_remote_address` (opt-in, default
    /// `false`): it labels each active session with the client's address,
    /// which is PII-adjacent.
    pub expose_remote_address: bool,
}

/// A configuration, as a value.
pub struct ConfigView {
    pub jellyfin_url: Seq<char>,
    pub jellyfin_api_key: Seq<char>,
    pub port: nat,
    pub scrape_interval_ms: nat,
    pub log_level: LogLevel,
    pub request_timeout_ms: nat,
    pub retry_max_attempts: nat,
    pub retry_base_delay_ms: nat,
    pub retry_max_delay_ms: nat,
    pub circuit_breaker_threshold: nat,
    pub circuit_breaker_reset_ms: nat,
    pub metrics_token: Option<Seq<char>>,
    pub expose_remote_address: bool,
}

impl View for Config {
    type V = ConfigView;

    open spec fn view(&self) -> ConfigView {
        ConfigView {
            jellyfin_url: self.jellyfin_url@,
            jellyfin_api_key: self.jellyfin_api_key@,
            port: self.port as nat,
            scrape_interval_ms: self.scrape_interval_ms as nat,
            log_level: self.log_level,
            request_timeout_ms: self.request_timeout_ms as nat,
            retry_max_attempts: self.retry_max_attempts as nat,
            retry_base_delay_ms: self.retry_base_delay_ms as nat,
            retry_max_delay_ms: self.retry_max_delay_ms as nat,
            circuit_breaker_threshold: self.circuit_breaker_threshold as nat,
            circuit_breaker_reset_ms: self.circuit_breaker_reset_ms as nat,
            metrics_token: opt_text(self.metrics_token),
            expose_remote_address: self.expose_remote_address,
        }
    }
}

/// A required variable: unset or empty is missing.
pub open spec fn required(name: Seq<char>, v: Option<Seq<char>>) -> Result<Seq<char>, ConfigErrorView> {
    match v {
        Some(s) => if s.len() > 0 {
            Ok(s)
        } else {
            Err(ConfigErrorView::MissingEnvVar { name })
        },
        None => Err(ConfigErrorView::MissingEnvVar { name }),
    }
}

/// An optional unsigned number with largest value `max`: the default when
/// unset, the parsed value, or the parse error's message.
pub open spec fn optional_number(name: Seq<char>, v: Option<Seq<char>>, default: nat, max: nat) -> Result<nat, ConfigErrorView> {
    match v {
        None => Ok(default),
        Some(s) => match parse_unsigned(s, max) {
            Ok(n) => Ok(n),
            Err(k) => Err(invalid(name, s, int_error_text(k))),
        },
    }
}

/// `value` must be at least `min`.
pub open spec fn at_least(name: Seq<char>, value: nat, min: nat) -> Option<ConfigErrorView> {
    if value < min {
        Some(invalid(name, decimal_text(value), "must be at least "@ + decimal_text(min)))
    } else {
        None
    }
}

/// `value` must lie in `[min, max]`.
pub open spec fn within(name: Seq<char>, value: nat, min: nat, max: nat) -> Option<ConfigErrorView> {
    if value < min || value > max {
        Some(
            invalid(
                name,
                decimal_text(value),
                "must be between "@ + decimal_text(min) + " and "@ + decimal_text(max),
            ),
        )
    } else {
        None
    }
}

/// An optional number with a lower bound.
pub open spec fn bounded_number(name: Seq<char>, v: Option<Seq<char>>, default: nat, max: nat, min: nat) -> Result<nat, ConfigErrorView> {
    match optional_number(name, v, default, max) {
        Err(e) => Err(e),
        Ok(n) => match at_least(name, n, min) {
            Some(e) => Err(e),
            None => Ok(n),
        },
    }
}

/// `PORT`: default 9711, range 1 to 65535.
pub open spec fn port_outcome(v: Option<Seq<char>>) -> Result<nat, ConfigErrorView> {
    match optional_number("PORT"@, v, 9711, 65535) {
        Err(e) => Err(e),
        Ok(n) => match within("PORT"@, n, 1, 65535) {
            Some(e) => Err(e),
            None => Ok(n),
        },
    }
}

pub open spec fn level_outcome(v: Option<Seq<char>>) -> Result<LogLevel, ConfigErrorView> {
    match v {
        None => Ok(LogLevel::Info),
        Some(s) => parse_level(s),
    }
}

/// A flag's value from its lowercased text `lowered`: `true`/`1`/`yes`/`on`
/// and `false`/`0`/`no`/`off`/empty; `value` is the text as given, which an
/// error reports.
pub open spec fn flag_from_lowercase(name: Seq<char>, lowered: Seq<char>, value: Seq<char>) -> Result<bool, ConfigErrorView> {
    let l = lowered;
    if l == "true"@ || l == "1"@ || l == "yes"@ || l == "on"@ {
        Ok(true)
    } else if l == "false"@ || l == "0"@ || l == "no"@ || l == "off"@ || l == ""@ {
        Ok(false)
    } else {
        Err(invalid(name, value, flag_choices()))
    }
}

/// A boolean flag, in any case (`str::to_lowercase`); the default when
/// unset.
pub open spec fn flag_outcome(name: Seq<char>, v: Option<Seq<char>>, default: bool) -> Result<bool, ConfigErrorView> {
    match v {
        None => Ok(default),
        Some(s) => flag_from_lowercase(name, unicode_lowercase(s), s),
    }
}

/// `str::trim_end_matches('/')`.
pub open spec fn trim_trailing_slashes(s: Seq<char>) -> Seq<char>
    decreases s.len(),
{
    if s.len() > 0 && s.last() == '/' {
        trim_trailing_slashes(s.drop_last())
    } else {
        s
    }
}

/// The token, if set and not empty.
pub open spec fn token_outcome(v: Option<Seq<char>>) -> Option<Seq<char>> {
    match v {
        Some(s) => if s.len() > 0 {
            Some(s)
        } else {
            None
        },
        None => None,
    }
}

/// The checks up to and including `RETRY_BASE_DELAY_MS`, in order; on success
/// the retry base delay.
pub open spec fn leading_checks(e: EnvView) -> Result<nat, ConfigErrorView> {
    match required("JELLYFIN_URL"@, e.jellyfin_url) {
        Err(x) => Err(x),
        Ok(_) => match required("JELLYFIN_API_KEY"@, e.jellyfin_api_key) {
            Err(x) => Err(x),
            Ok(_) => match port_outcome(e.port) {
                Err(x) => Err(x),
                Ok(_) => match bounded_number(
                    "SCRAPE_INTERVAL_MS"@,
                    e.scrape_interval_ms,
                    10_000,
                    u64::MAX as nat,
                    1000,
                ) {
                    Err(x) => Err(x),
                    Ok(_) => match level_outcome(e.log_level) {
                        Err(x) => Err(x),
                        Ok(_) => match bounded_number(
                            "REQUEST_TIMEOUT_MS"@,
                            e.request_timeout_ms,
                            5000,
                            u64::MAX as nat,
                            100,
                        ) {
                            Err(x) => Err(x),
                            Ok(_) => match optional_number(
                                "RETRY_MAX_ATTEMPTS"@,
                                e.retry_max_attempts,
                                3,
                                u32::MAX as nat,
                            ) {
                                Err(x) => Err(x),
                                Ok(_) => bounded_number(
                                    "RETRY_BASE_DELAY_MS"@,
                                    e.retry_base_delay_ms,
                                    500,
                                    u64::MAX as nat,
                                    50,
                                ),
                            },
                        },
                    },
                },
            },
        },
    }
}

/// The environment reaches the computation of the maximum retry delay
/// (ten times the base delay) with a base delay for which it overflows
/// `u64`; the computation panics there.
pub open spec fn retry_delay_overflows(e: EnvView) -> bool {
    match leading_checks(e) {
        Ok(base) => base * 10 > u64::MAX,
        Err(_) => false,
    }
}

/// The configuration the environment makes, or the first error in the order
/// the variables are checked.
pub open spec fn config_outcome(e: EnvView) -> Result<ConfigView, ConfigErrorView> {
    match leading_checks(e) {
        Err(x) => Err(x),
        Ok(base) => match bounded_number(
            "CIRCUIT_BREAKER_THRESHOLD"@,
            e.circuit_breaker_threshold,
            5,
            u32::MAX as nat,
            1,
        ) {
            Err(x) => Err(x),
            Ok(threshold) => match bounded_number(
                "CIRCUIT_BREAKER_RESET_MS"@,
                e.circuit_breaker_reset_ms,
                60_000,
                u64::MAX as nat,
                1000,
            ) {
                Err(x) => Err(x),
                Ok(reset) => match flag_outcome(
                    "EXPOSE_REMOTE_ADDRESS"@,
                    e.expose_remote_address,
                    false,
                ) {
                    Err(x) => Err(x),
                    Ok(expose) => Ok(
                        ConfigView {
                            jellyfin_url: trim_trailing_slashes(
                                required("JELLYFIN_URL"@, e.jellyfin_url)->Ok_0,
                            ),
                            jellyfin_api_key: required(
                                "JELLYFIN_API_KEY"@,
                                e.jellyfin_api_key,
                            )->Ok_0,
                            port: port_outcome(e.port)->Ok_0,
                            scrape_interval_ms: bounded_number(
                                "SCRAPE_INTERVAL_MS"@,
                                e.scrape_interval_ms,
                                10_000,
                                u64::MAX as nat,
                                1000,
                            )->Ok_0,
                            log_level: level_outcome(e.log_level)->Ok_0,
                            request_timeout_ms: bounded_number(
                                "REQUEST_TIMEOUT_MS"@,
                                e.request_timeout_ms,
                                5000,
                                u64::MAX as nat,
                                100,
                            )->Ok_0,
                            retry_max_attempts: optional_number(
                                "RETRY_MAX_ATTEMPTS"@,
                                e.retry_max_attempts,
                                3,
                                u32::MAX as nat,
                            )->Ok_0,
                            retry_base_delay_ms: base,
                            retry_max_delay_ms: base * 10,
                            circuit_breaker_threshold: threshold,
                            circuit_breaker_reset_ms: reset,
                            metrics_token: token_outcome(e.metrics_token),
                            expose_remote_address: expose,
                        },
                    ),
                },
            },
        },
    }
}

/// The variables, as values.
pub struct EnvView {
    pub jellyfin_url: Option<Seq<char>>,
    pub jellyfin_api_key: Option<Seq<char>>,
    pub port: Option<Seq<char>>,
    pub scrape_interval_ms: Option<Seq<char>>,
    pub log_level: Option<Seq<char>>,
    pub request_timeout_ms: Option<Seq<char>>,
    pub retry_max_attempts: Option<Seq<char>>,
    pub retry_base_delay_ms: Option<Seq<char>>,
    pub circuit_breaker_threshold: Option<Seq<char>>,
    pub circuit_breaker_reset_ms: Option<Seq<char>>,
    pub metrics_token: Option<Seq<char>>,
    pub expose_remote_address: Option<Seq<char>>,
}

impl View for EnvValues {
    type V = EnvView;

    open spec fn view(&self) -> EnvView {
        EnvView {
            jellyfin_url: opt_text(self.jellyfin_url),
            jellyfin_api_key: opt_text(self.jellyfin_api_key),
            port: opt_text(self.port),
            scrape_interval_ms: opt_text(self.scrape_interval_ms),
            log_level: opt_text(self.log_level),
            request_timeout_ms: opt_text(self.request_timeout_ms),
            retry_max_attempts: opt_text(self.retry_max_attempts),
            retry_base_delay_ms: opt_text(self.retry_base_delay_ms),
            circuit_breaker_threshold: opt_text(self.circuit_breaker_threshold),
            circuit_breaker_reset_ms: opt_text(self.circuit_breaker_reset_ms),
            metrics_token: opt_text(self.metrics_token),
            expose_remote_address: opt_text(self.expose_remote_address),
        }
    }
}

pub open spec fn number_result(r: Result<u64, ConfigError>) -> Result<nat, ConfigErrorView> {
    match r {
        Ok(n) => Ok(n as nat),
        Err(e) => Err(e@),
    }
}

/// The outcome of a check, with the error as a value.
pub open spec fn check_result(r: Result<(), ConfigError>) -> Option<ConfigErrorView> {
    match r {
        Err(e) => Some(e@),
        Ok(()) => None,
    }
}

pub open spec fn config_result(r: Result<Config, ConfigError>) -> Result<ConfigView, ConfigErrorView> {
    match r {
        Ok(c) => Ok(c@),
        Err(e) => Err(e@),
    }
}

fn require_var(name: &str, v: &Option<String>) -> (r: Result<String, ConfigError>)
    ensures
        match r {
            Ok(s) => required(name@, opt_text(*v)) == Ok::<Seq<char>, ConfigErrorView>(s@),
            Err(e) => required(name@, opt_text(*v)) == Err::<Seq<char>, ConfigErrorView>(e@),
        },
{
    match v {
        Some(s) => {
            if s.as_str().is_empty() {
                Err(ConfigError::MissingEnvVar { name: name.to_owned() })
            } else {
                Ok(s.clone())
            }
        },
        None => Err(ConfigError::MissingEnvVar { name: name.to_owned() }),
    }
}

fn parse_number(name: &str, v: &Option<String>, default: u64, max: u64) -> (r: Result<u64, ConfigError>)
    ensures
        number_result(r) == optional_number(name@, opt_text(*v), default as nat, max as nat),
        r matches Ok(n) ==> (n <= max || n == default),
{
    match v {
        None => Ok(default),
        Some(s) => match parse_unsigned_text(s.as_str(), max) {
            Ok(n) => Ok(n),
            Err(k) => {
                let reason = match k {
                    crate::text::IntErrorKind::Empty => "cannot parse integer from empty string",
                    crate::text::IntErrorKind::InvalidDigit => "invalid digit found in string",
                    crate::text::IntErrorKind::PosOverflow => "number too large to fit in target type",
                };
                Err(
                    ConfigError::InvalidValue {
                        name: name.to_owned(),
                        value: s.clone(),
                        reason: reason.to_owned(),
                    },
                )
            },
        },
    }
}

/// `value` must be at least `min`.
fn validate_min(name: &str, value: u64, min: u64) -> (r: Result<(), ConfigError>)
    ensures
        check_result(r) == at_least(name@, value as nat, min as nat),
{
    if value < min {
        let mut reason = "must be at least ".to_owned();
        reason.append(decimal_string(min).as_str());
        return Err(
            ConfigError::InvalidValue { name: name.to_owned(), value: decimal_string(value), reason },
        );
    }
    Ok(())
}

/// `value` must lie in `[min, max]`.
fn validate_range(name: &str, value: u64, min: u64, max: u64) -> (r: Result<(), ConfigError>)
    ensures
        check_result(r) == within(name@, value as nat, min as nat, max as nat),
{
    if value < min || value > max {
        let mut reason = "must be between ".to_owned();
        reason.append(decimal_string(min).as_str());
        reason.append(" and ");
        reason.append(decimal_string(max).as_str());
        return Err(
            ConfigError::InvalidValue { name: name.to_owned(), value: decimal_string(value), reason },
        );
    }
    Ok(())
}

fn parse_bounded(name: &str, v: &Option<String>, default: u64, max: u64, min: u64) -> (r: Result<u64, ConfigError>)
    requires
        default <= max,
    ensures
        number_result(r) == bounded_number(name@, opt_text(*v), default as nat, max as nat, min as nat),
        r matches Ok(n) ==> n <= max,
{
    let n = parse_number(name, v, default, max)?;
    validate_min(name, n, min)?;
    Ok(n)
}

/// The value of the flag `name` from `lowered`, the lowercased form of
/// `value`.
pub fn flag_from_lowercase_text(name: &str, lowered: &str, value: &str) -> (r: Result<bool, ConfigError>)
    ensures
        match r {
            Ok(b) => flag_from_lowercase(name@, lowered@, value@) == Ok::<bool, ConfigErrorView>(b),
            Err(e) => flag_from_lowercase(name@, lowered@, value@) == Err::<bool, ConfigErrorView>(
                e@,
            ),
        },
{
    let l = lowered;
    if text_eq(l, "true") || text_eq(l, "1") || text_eq(l, "yes") || text_eq(l, "on") {
        Ok(true)
    } else if text_eq(l, "false") || text_eq(l, "0") || text_eq(l, "no") || text_eq(l, "off")
        || text_eq(l, "") {
        Ok(false)
    } else {
        Err(
            ConfigError::InvalidValue {
                name: name.to_owned(),
                value: value.to_owned(),
                reason: "must be one of: true/false, 1/0, yes/no, on/off".to_owned(),
            },
        )
    }
}

fn parse_flag(name: &str, v: &Option<String>, default: bool) -> (r: Result<bool, ConfigError>)
    ensures
        match r {
            Ok(b) => flag_outcome(name@, opt_text(*v), default) == Ok::<bool, ConfigErrorView>(b),
            Err(e) => flag_outcome(name@, opt_text(*v), default) == Err::<bool, ConfigErrorView>(e@),
        },
{
    match v {
        None => Ok(default),
        Some(s) => {
            let lowered = to_lowercase(s.as_str());
            flag_from_lowercase_text(name, lowered.as_str(), s.as_str())
        },
    }
}

proof fn lemma_trailing_slashes_at(s: Seq<char>, j: int)
    requires
        0 <= j <= s.len(),
        forall|k: int| j <= k < s.len() ==> #[trigger] s[k] == '/',
        j == 0 || s[j - 1] != '/',
    ensures
        trim_trailing_slashes(s) == s.take(j),
    decreases s.len() - j,
{
    if j == s.len() {
        assert(s.take(j) =~= s);
    } else {
        lemma_trailing_slashes_at(s.drop_last(), j);
        assert(s.drop_last().take(j) =~= s.take(j));
    }
}

/// `str::trim_end_matches('/')`.
fn strip_trailing_slashes(s: &str) -> (r: String)
    ensures
        r@ == trim_trailing_slashes(s@),
{
    let n = s.unicode_len();
    let mut j: usize = n;
    while j > 0 && s.get_char(j - 1) == '/'
        invariant
            n == s@.len(),
            j <= n,
            forall|k: int| j <= k < n ==> #[trigger] s@[k] == '/',
        decreases j,
    {
        j = j - 1;
    }
    proof {
        lemma_trailing_slashes_at(s@, j as int);
    }
    let kept = s.substring_char(0, j);
    assert(kept@ =~= s@.take(j as int));
    kept.to_owned()
}

/// The settings read before the maximum retry delay is computed.
struct LeadingSettings {
    jellyfin_url: String,
    jellyfin_api_key: String,
    port: u16,
    scrape_interval_ms: u64,
    log_level: LogLevel,
    request_timeout_ms: u64,
    retry_max_attempts: u32,
    retry_base_delay_ms: u64,
}

fn read_leading(env: &EnvValues) -> (r: Result<LeadingSettings, ConfigError>)
    ensures
        match r {
            Ok(l) => {
                &&& leading_checks(env@) == Ok::<nat, ConfigErrorView>(l.retry_base_delay_ms as nat)
                &&& l.jellyfin_url@ == required("JELLYFIN_URL"@, env@.jellyfin_url)->Ok_0
                &&& l.jellyfin_api_key@ == required("JELLYFIN_API_KEY"@, env@.jellyfin_api_key)->Ok_0
                &&& l.port as nat == port_outcome(env@.port)->Ok_0
                &&& l.scrape_interval_ms as nat == bounded_number(
                    "SCRAPE_INTERVAL_MS"@,
                    env@.scrape_interval_ms,
                    10_000,
                    u64::MAX as nat,
                    1000,
                )->Ok_0
                &&& l.log_level == level_outcome(env@.log_level)->Ok_0
                &&& l.request_timeout_ms as nat == bounded_number(
                    "REQUEST_TIMEOUT_MS"@,
                    env@.request_timeout_ms,
                    5000,
                    u64::MAX as nat,
                    100,
                )->Ok_0
                &&& l.retry_max_attempts as nat == optional_number(
                    "RETRY_MAX_ATTEMPTS"@,
                    env@.retry_max_attempts,
                    3,
                    u32::MAX as nat,
                )->Ok_0
            },
            Err(e) => leading_checks(env@) == Err::<nat, ConfigErrorView>(e@),
        },
{
    let url = require_var("JELLYFIN_URL", &env.jellyfin_url)?;
    let api_key = require_var("JELLYFIN_API_KEY", &env.jellyfin_api_key)?;
    let port = parse_number("PORT", &env.port, 9711, 65535)?;
    validate_range("PORT", port, 1, 65535)?;
    let scrape_interval_ms = parse_bounded(
        "SCRAPE_INTERVAL_MS",
        &env.scrape_interval_ms,
        10_000,
        u64::MAX,
        1000,
    )?;
    let log_level = match &env.log_level {
        Some(val) => LogLevel::parse(val.as_str())?,
        None => LogLevel::Info,
    };
    let request_timeout_ms = parse_bounded(
        "REQUEST_TIMEOUT_MS",
        &env.request_timeout_ms,
        5000,
        u64::MAX,
        100,
    )?;
    let retry_max_attempts = parse_number(
        "RETRY_MAX_ATTEMPTS",
        &env.retry_max_attempts,
        3,
        u32::MAX as u64,
    )?;
    let retry_base_delay_ms = parse_bounded(
        "RETRY_BASE_DELAY_MS",
        &env.retry_base_delay_ms,
        500,
        u64::MAX,
        50,
    )?;
    Ok(
        LeadingSettings {
            jellyfin_url: url,
            jellyfin_api_key: api_key,
            port: port as u16,
            scrape_interval_ms,
            log_level,
            request_timeout_ms,
            retry_max_attempts: retry_max_attempts as u32,
            retry_base_delay_ms,
        },
    )
}

impl Config {
    /// Whether building a configuration from `env` overflows when computing
    /// the maximum retry delay (ten times `RETRY_BASE_DELAY_MS`).
    pub fn retry_delay_overflows(env: &EnvValues) -> (r: bool)
        ensures
            r == retry_delay_overflows(env@),
    {
        match read_leading(env) {
            Ok(l) => l.retry_base_delay_ms > u64::MAX / 10,
            Err(_) => false,
        }
    }

    /// Build the configuration from the variables' values.
    ///
    /// Fails with [`ConfigError::MissingEnvVar`] when `JELLYFIN_URL` or
    /// `JELLYFIN_API_KEY` is unset or empty, and with
    /// [`ConfigError::InvalidValue`] naming the variable, its value and the
    /// constraint when an optional variable does not parse or breaks its
    /// bound; the first failing variable, in the order of [`config_outcome`],
    /// is reported.
    pub fn from_env_values(env: &EnvValues) -> (r: Result<Config, ConfigError>)
        requires
            !retry_delay_overflows(env@),
        ensures
            config_result(r) == config_outcome(env@),
    {
        let lead = read_leading(env)?;
        let retry_max_delay_ms = lead.retry_base_delay_ms * 10;
        let circuit_breaker_threshold = parse_bounded(
            "CIRCUIT_BREAKER_THRESHOLD",
            &env.circuit_breaker_threshold,
            5,
            u32::MAX as u64,
            1,
        )?;
        let circuit_breaker_reset_ms = parse_bounded(
            "CIRCUIT_BREAKER_RESET_MS",
            &env.circuit_breaker_reset_ms,
            60_000,
            u64::MAX,
            1000,
        )?;
        let metrics_token = match &env.metrics_token {
            Some(t) => if t.as_str().is_empty() {
                None
            } else {
                Some(t.clone())
            },
            None => None,
        };
        let expose_remote_address = parse_flag(
            "EXPOSE_REMOTE_ADDRESS",
            &env.expose_remote_address,
            false,
        )?;
        let config = Config {
            jellyfin_url: strip_trailing_slashes(lead.jellyfin_url.as_str()),
            jellyfin_api_key: lead.jellyfin_api_key,
            port: lead.port,
            scrape_interval_ms: lead.scrape_interval_ms,
            log_level: lead.log_level,
            request_timeout_ms: lead.request_timeout_ms,
            retry_max_attempts: lead.retry_max_attempts,
            retry_base_delay_ms: lead.retry_base_delay_ms,
            retry_max_delay_ms,
            circuit_breaker_threshold: circuit_breaker_threshold as u32,
            circuit_breaker_reset_ms,
            metrics_token,
            expose_remote_address,
        };
        proof {
            assert(config@.metrics_token == token_outcome(env@.metrics_token));
            assert(config@ == config_outcome(env@)->Ok_0);
        }
        Ok(config)
    }
}

/// With only the two required variables set, every setting takes its
/// documented default: port 9711, scrape interval 10 s, log level `info`,
/// request timeout 5 s, 3 retries from a 500 ms base delay (so a 5 s
/// maximum delay), a breaker threshold of 5 with a 60 s reset, no metrics
/// token and no remote-address metric.
pub proof fn lemma_defaults(url: Seq<char>, api_key: Seq<char>)
    requires
        url.len() > 0,
        api_key.len() > 0,
    ensures
        config_outcome(
            EnvView {
                jellyfin_url: Some(url),
                jellyfin_api_key: Some(api_key),
                port: None,
                scrape_interval_ms: None,
                log_level: None,
                request_timeout_ms: None,
                retry_max_attempts: None,
                retry_base_delay_ms: None,
                circuit_breaker_threshold: None,
                circuit_breaker_reset_ms: None,
                metrics_token: None,
                expose_remote_address: None,
            },
        ) == Ok::<ConfigView, ConfigErrorView>(
            ConfigView {
                jellyfin_url: trim_trailing_slashes(url),
                jellyfin_api_key: api_key,
                port: 9711,
                scrape_interval_ms: 10_000,
                log_level: LogLevel::Info,
                request_timeout_ms: 5000,
                retry_max_attempts: 3,
                retry_base_delay_ms: 500,
                retry_max_delay_ms: 5000,
                circuit_breaker_threshold: 5,
                circuit_breaker_reset_ms: 60_000,
                metrics_token: None,
                expose_remote_address: false,
            },
        ),
{
}

/// Every accepted configuration respects the documented bounds, derives the
/// maximum retry delay as ten times the base delay, and holds a URL without
/// trailing slashes and a non-empty API key.
pub proof fn lemma_accepted_config_bounds(e: EnvView)
    requires
        config_outcome(e) is Ok,
    ensures
        ({
            let c = config_outcome(e)->Ok_0;
            &&& 1 <= c.port <= 65535
            &&& c.scrape_interval_ms >= 1000
            &&& c.request_timeout_ms >= 100
            &&& c.retry_base_delay_ms >= 50
            &&& c.retry_max_delay_ms == 10 * c.retry_base_delay_ms
            &&& c.circuit_breaker_threshold >= 1
            &&& c.circuit_breaker_reset_ms >= 1000
            &&& c.jellyfin_api_key.len() > 0
            &&& (c.jellyfin_url.len() == 0 || c.jellyfin_url.last() != '/')
            &&& (c.metrics_token matches Some(t) ==> t.len() > 0)
        }),
{
    lemma_no_trailing_slash(required("JELLYFIN_URL"@, e.jellyfin_url)->Ok_0);
}

/// `trim_trailing_slashes` leaves no trailing slash.
pub proof fn lemma_no_trailing_slash(s: Seq<char>)
    ensures
        trim_trailing_slashes(s).len() == 0 || trim_trailing_slashes(s).last() != '/',
    decreases s.len(),
{
    if s.len() > 0 && s.last() == '/' {
        lemma_no_trailing_slash(s.drop_last());
    }
}

/// A required variable that is unset or empty is reported missing by name,
/// `JELLYFIN_URL` before `JELLYFIN_API_KEY`, whatever the other variables hold.
pub proof fn lemma_required_variables(e: EnvView)
    ensures
        (e.jellyfin_url matches Some(u) ==> u.len() == 0) ==> config_outcome(e) == Err::<
            ConfigView,
            ConfigErrorView,
        >(ConfigErrorView::MissingEnvVar { name: "JELLYFIN_URL"@ }),
        (e.jellyfin_url matches Some(u) && u.len() > 0) && (e.jellyfin_api_key matches Some(k)
            ==> k.len() == 0) ==> config_outcome(e) == Err::<ConfigView, ConfigErrorView>(
            ConfigErrorView::MissingEnvVar { name: "JELLYFIN_API_KEY"@ },
        ),
{
}

/// The `Debug` rendering of a string (quoted, with escapes).
pub uninterp spec fn debug_quoted(s: Seq<char>) -> Seq<char>;

/// Renders `s` with `<str as Debug>::fmt` (through `format!("{:?}")`). The
/// result is named by [`debug_quoted`]: it depends on the text alone; the
/// escaping rules are not stated.
#[verifier::external_body]
fn quote_for_debug(s: &str) -> (r: String)
    ensures
        r@ == debug_quoted(s@),
{
    format!("{:?}", s)
}

pub open spec fn level_debug_text(l: LogLevel) -> Seq<char> {
    match l {
        LogLevel::Trace => "Trace"@,
        LogLevel::Debug => "Debug"@,
        LogLevel::Info => "Info"@,
        LogLevel::Warn => "Warn"@,
        LogLevel::Error => "Error"@,
    }
}

pub open spec fn bool_text(b: bool) -> Seq<char> {
    if b {
        "true"@
    } else {
        "false"@
    }
}

/// The debug rendering of a configuration, with the API key and the metrics
/// token redacted.
pub open spec fn config_debug_text(c: ConfigView) -> Seq<char> {
    debug_text_with_url(debug_quoted(c.jellyfin_url), c)
}

/// The debug rendering of a configuration around the URL's rendering
/// `quoted_url`.
pub open spec fn debug_text_with_url(quoted_url: Seq<char>, c: ConfigView) -> Seq<char> {
    "Config { jellyfin_url: "@ + quoted_url
        + ", jellyfin_api_key: \"[REDACTED]\", port: "@ + decimal_text(c.port)
        + ", scrape_interval_ms: "@ + decimal_text(c.scrape_interval_ms) + ", log_level: "@
        + level_debug_text(c.log_level) + ", request_timeout_ms: "@ + decimal_text(
        c.request_timeout_ms,
    ) + ", retry_max_attempts: "@ + decimal_text(c.retry_max_attempts)
        + ", retry_base_delay_ms: "@ + decimal_text(c.retry_base_delay_ms)
        + ", retry_max_delay_ms: "@ + decimal_text(c.retry_max_delay_ms)
        + ", circuit_breaker_threshold: "@ + decimal_text(c.circuit_breaker_threshold)
        + ", circuit_breaker_reset_ms: "@ + decimal_text(c.circuit_breaker_reset_ms)
        + ", metrics_token: "@ + (if c.metrics_token is Some {
        "Some(\"[REDACTED]\")"@
    } else {
        "None"@
    }) + ", expose_remote_address: "@ + bool_text(c.expose_remote_address) + " }"@
}

impl Config {
    /// The configuration's debug rendering, in the layout of a derived
    /// `Debug`, with the API key and the metrics token shown as
    /// `[REDACTED]`.
    pub fn debug_text(&self) -> (t: String)
        ensures
            t@ == config_debug_text(self@),
    {
        let quoted = quote_for_debug(self.jellyfin_url.as_str());
        self.debug_text_around(quoted.as_str())
    }

    /// The debug rendering with `quoted_url` standing for the URL's own
    /// rendering.
    pub fn debug_text_around(&self, quoted_url: &str) -> (t: String)
        ensures
            t@ == debug_text_with_url(quoted_url@, self@),
    {
        let mut t = "Config { jellyfin_url: ".to_owned();
        t.append(quoted_url);
        t.append(", jellyfin_api_key: \"[REDACTED]\", port: ");
        t.append(decimal_string(self.port as u64).as_str());
        t.append(", scrape_interval_ms: ");
        t.append(decimal_string(self.scrape_interval_ms).as_str());
        t.append(", log_level: ");
        t.append(
            match self.log_level {
                LogLevel::Trace => "Trace",
                LogLevel::Debug => "Debug",
                LogLevel::Info => "Info",
                LogLevel::Warn => "Warn",
                LogLevel::Error => "Error",
            },
        );
        t.append(", request_timeout_ms: ");
        t.append(decimal_string(self.request_timeout_ms).as_str());
        t.append(", retry_max_attempts: ");
        t.append(decimal_string(self.retry_max_attempts as u64).as_str());
        t.append(", retry_base_delay_ms: ");
        t.append(decimal_string(self.retry_base_delay_ms).as_str());
        t.append(", retry_max_delay_ms: ");
        t.append(decimal_string(self.retry_max_delay_ms).as_str());
        t.append(", circuit_breaker_threshold: ");
        t.append(decimal_string(self.circuit_breaker_threshold as u64).as_str());
        t.append(", circuit_breaker_reset_ms: ");
        t.append(decimal_string(self.circuit_breaker_reset_ms).as_str());
        t.append(", metrics_token: ");
        t.append(
            if self.metrics_token.is_some() {
                "Some(\"[REDACTED]\")"
            } else {
                "None"
            },
        );
        t.append(", expose_remote_address: ");
        t.append(
            if self.expose_remote_address {
                "true"
            } else {
                "false"
            },
        );
        t.append(" }");
        t
    }
}

impl Config {
    /// Whether the server is reached over plaintext `http://`, so that the
    /// API key travels unencrypted (the exporter warns about it at start).
    pub fn uses_plaintext_http(&self) -> (r: bool)
        ensures
            r == (self.jellyfin_url@.len() >= 7 && self.jellyfin_url@.take(7) == "http://"@),
    {
        proof {
            reveal_strlit("http://");
        }
        strip_prefix(self.jellyfin_url.as_str(), "http://").is_some()
    }
}

/// The debug rendering never depends on the API key or on the metrics
/// token's value: configurations that differ only there render alike.
pub proof fn lemma_debug_text_redacts(c1: ConfigView, c2: ConfigView)
    requires
        c1.jellyfin_url == c2.jellyfin_url,
        c1.port == c2.port,
        c1.scrape_interval_ms == c2.scrape_interval_ms,
        c1.log_level == c2.log_level,
        c1.request_timeout_ms == c2.request_timeout_ms,
        c1.retry_max_attempts == c2.retry_max_attempts,
        c1.retry_base_delay_ms == c2.retry_base_delay_ms,
        c1.retry_max_delay_ms == c2.retry_max_delay_ms,
        c1.circuit_breaker_threshold == c2.circuit_breaker_threshold,
        c1.circuit_breaker_reset_ms == c2.circuit_breaker_reset_ms,
        c1.metrics_token is Some == c2.metrics_token is Some,
        c1.expose_remote_address == c2.expose_remote_address,
    ensures
        config_debug_text(c1) == config_debug_text(c2),
{
}

/// The flag words and what they mean, once lowercased: `true`, `1`,
/// `yes`, `on` turn a flag on; `false`, `0`, `no`, `off` and the empty text
/// turn it off; any other text is an invalid value that reports the text as
/// given.
pub proof fn lemma_flag_words(name: Seq<char>, lowered: Seq<char>, value: Seq<char>)
    ensures
        lowered == "true"@ || lowered == "1"@ || lowered == "yes"@ || lowered == "on"@
            ==> flag_from_lowercase(name, lowered, value) == Ok::<bool, ConfigErrorView>(true),
        lowered == "false"@ || lowered == "0"@ || lowered == "no"@ || lowered == "off"@ || lowered
            == ""@ ==> flag_from_lowercase(name, lowered, value) == Ok::<bool, ConfigErrorView>(
            false,
        ),
        !(lowered == "true"@ || lowered == "1"@ || lowered == "yes"@ || lowered == "on"@
            || lowered == "false"@ || lowered == "0"@ || lowered == "no"@ || lowered == "off"@
            || lowered == ""@) ==> flag_from_lowercase(name, lowered, value) == Err::<
            bool,
            ConfigErrorView,
        >(ConfigErrorView::InvalidValue { name, value, reason: flag_choices() }),
{
    reveal_strlit("true");
    reveal_strlit("1");
    reveal_strlit("yes");
    reveal_strlit("on");
    reveal_strlit("false");
    reveal_strlit("0");
    reveal_strlit("no");
    reveal_strlit("off");
    reveal_strlit("");
    if lowered == "true"@ {
        assert(lowered.len() == 4 && lowered[0] == 't');
    }
    if lowered == "1"@ {
        assert(lowered.len() == 1 && lowered[0] == '1');
    }
    if lowered == "yes"@ {
        assert(lowered.len() == 3 && lowered[0] == 'y');
    }
    if lowered == "on"@ {
        assert(lowered.len() == 2 && lowered[0] == 'o');
    }
    if lowered == "false"@ {
        assert(lowered.len() == 5 && lowered[0] == 'f');
    }
    if lowered == "0"@ {
        assert(lowered.len() == 1 && lowered[0] == '0');
    }
    if lowered == "no"@ {
        assert(lowered.len() == 2 && lowered[0] == 'n');
    }
    if lowered == "off"@ {
        assert(lowered.len() == 3 && lowered[0] == 'o');
    }
    if lowered == ""@ {
        assert(lowered.len() == 0);
    }
}

/// The level names: each of `trace`, `debug`, `info`, `warn`, `error`,
/// once lowercased, gives the level of that name, and every name gives back
/// the level it names; any other text is an invalid `LOG_LEVEL` that reports
/// the text as given.
pub proof fn lemma_level_names(lowered: Seq<char>, value: Seq<char>, l: LogLevel)
    ensures
        level_from_lowercase(level_text(l), value) == Ok::<LogLevel, ConfigErrorView>(l),
        lowered == "trace"@ ==> level_from_lowercase(lowered, value) == Ok::<
            LogLevel,
            ConfigErrorView,
        >(LogLevel::Trace),
        lowered == "debug"@ ==> level_from_lowercase(lowered, value) == Ok::<
            LogLevel,
            ConfigErrorView,
        >(LogLevel::Debug),
        lowered == "info"@ ==> level_from_lowercase(lowered, value) == Ok::<
            LogLevel,
            ConfigErrorView,
        >(LogLevel::Info),
        lowered == "warn"@ ==> level_from_lowercase(lowered, value) == Ok::<
            LogLevel,
            ConfigErrorView,
        >(LogLevel::Warn),
        lowered == "error"@ ==> level_from_lowercase(lowered, value) == Ok::<
            LogLevel,
            ConfigErrorView,
        >(LogLevel::Error),
        !(lowered == "trace"@ || lowered == "debug"@ || lowered == "info"@ || lowered == "warn"@
            || lowered == "error"@) ==> level_from_lowercase(lowered, value) == Err::<
            LogLevel,
            ConfigErrorView,
        >(ConfigErrorView::InvalidValue { name: "LOG_LEVEL"@, value, reason: level_choices() }),
{
    reveal_strlit("trace");
    reveal_strlit("debug");
    reveal_strlit("info");
    reveal_strlit("warn");
    reveal_strlit("error");
    if lowered == "trace"@ {
        assert(lowered.len() == 5 && lowered[0] == 't');
    }
    if lowered == "debug"@ {
        assert(lowered.len() == 5 && lowered[0] == 'd');
    }
    if lowered == "info"@ {
        assert(lowered.len() == 4 && lowered[0] == 'i');
    }
    if lowered == "warn"@ {
        assert(lowered.len() == 4 && lowered[0] == 'w');
    }
    if lowered == "error"@ {
        assert(lowered.len() == 5 && lowered[0] == 'e');
    }
    let t = level_text(l);
    assert(t.len() >= 4);
    assert(t[0] == 't' || t[0] == 'd' || t[0] == 'i' || t[0] == 'w' || t[0] == 'e');
}

} // verus!
