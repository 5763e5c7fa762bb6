use vstd::prelude::*;
use vstd::string::*;
use crate::decimal::{parse_unsigned, parse_unsigned_bytes};

verus! {

/// The port that the service listens on when none is configured.
pub const DEFAULT_PORT: &'static str = "3000";

/// The largest body, in bytes, that is stored when no limit is configured.
pub const DEFAULT_MAX_BODY_BYTES: usize = 1048576;

/// How many database writes may run at once when no limit is configured.
pub const DEFAULT_MAX_CONCURRENT_WRITES: usize = 2000;

/// How many captured requests may wait for a writer; requests that arrive
/// while the queue is full are not stored.
pub const CAPTURE_QUEUE_CAPACITY: usize = 100;

/// How long, in seconds, a writer waits for a pooled connection when no
/// timeout is configured.
pub const DEFAULT_ACQUIRE_TIMEOUT_SECS: u64 = 30;

/// The number that a setting gives: its text read as an unsigned number no larger
/// than `max` when it is set and reads as one, and `default` otherwise.
pub open spec fn setting_value(setting: Option<Seq<u8>>, max: nat, default: nat) -> nat {
    match setting {
        Some(text) => match parse_unsigned(text, max) {
            Some(v) => v,
            None => default,
        },
        None => default,
    }
}

/// The bytes of an optional setting.
pub open spec fn setting_bytes(setting: Option<&str>) -> Option<Seq<u8>> {
    match setting {
        Some(s) => Some(s.spec_bytes()),
        None => None,
    }
}

/// Reads `text` as a `u64`, as `str::parse::<u64>` does.
pub fn parse_u64(text: &str) -> (r: Option<u64>)
    ensures
        match r {
            Some(v) => parse_unsigned(text.spec_bytes(), u64::MAX as nat) == Some(v as nat),
            None => parse_unsigned(text.spec_bytes(), u64::MAX as nat) is None,
        },
{
    parse_unsigned_bytes(text.as_bytes(), u64::MAX)
}

/// Reads `text` as a `usize`, as `str::parse::<usize>` does.
pub fn parse_usize(text: &str) -> (r: Option<usize>)
    ensures
        match r {
            Some(v) => parse_unsigned(text.spec_bytes(), usize::MAX as nat) == Some(v as nat),
            None => parse_unsigned(text.spec_bytes(), usize::MAX as nat) is None,
        },
{
    match parse_unsigned_bytes(text.as_bytes(), usize::MAX as u64) {
        Some(v) => Some(v as usize),
        None => None,
    }
}

/// A `usize` setting: its value when it is set and reads as a `usize`, and
/// `default` otherwise.
pub fn usize_setting(setting: Option<&str>, default: usize) -> (r: usize)
    ensures
        r as nat == setting_value(setting_bytes(setting), usize::MAX as nat, default as nat),
        match setting {
            Some(t) => match parse_unsigned(t.spec_bytes(), usize::MAX as nat) {
                Some(v) => r as nat == v,
                None => r == default,
            },
            None => r == default,
        },
{
    match setting {
        Some(text) => match parse_usize(text) {
            Some(v) => v,
            None => default,
        },
        None => default,
    }
}

/// The time, in seconds, that a writer waits for a pooled SQLite connection:
/// the setting read as a `u64` when it is set and reads as one, and 30 otherwise.
pub fn acquire_timeout_secs(setting: Option<&str>) -> (r: u64)
    ensures
        r as nat == setting_value(setting_bytes(setting), u64::MAX as nat, 30),
        match setting {
            Some(t) => match parse_unsigned(t.spec_bytes(), u64::MAX as nat) {
                Some(v) => r as nat == v,
                None => r == 30,
            },
            None => r == 30,
        },
{
    match setting {
        Some(text) => match parse_u64(text) {
            Some(v) => v,
            None => DEFAULT_ACQUIRE_TIMEOUT_SECS,
        },
        None => DEFAULT_ACQUIRE_TIMEOUT_SECS,
    }
}

/// The address that the service listens on: all interfaces, at the given port,
/// or at port 3000 when none is given.
pub fn listen_address(port: Option<&str>) -> (r: String)
    ensures
        r@ == "0.0.0.0:"@ + match port {
            Some(p) => p@,
            None => DEFAULT_PORT@,
        },
{
    let p: &str = match port {
        Some(p) => p,
        None => DEFAULT_PORT,
    };
    let mut addr = String::from_str("0.0.0.0:");
    addr.append(p);
    addr
}

/// The settings that the service runs with.
pub struct ServiceConfig {
    /// The address to listen on.
    pub listen_addr: String,
    /// The largest body, in bytes, that is stored of a request.
    pub max_body_bytes: usize,
    /// How many database writes may run at once.
    pub max_concurrent_writes: usize,
}

impl ServiceConfig {
    /// The settings given by the values of `PORT`, `MAX_BODY_BYTES` and
    /// `MAX_CONCURRENT_WRITES`, each `None` where it is not set. A limit that
    /// does not read as a `usize` falls back to its default (1 MiB of body,
    /// 2000 writes).
    pub fn from_settings(
        port: Option<&str>,
        max_body_bytes: Option<&str>,
        max_concurrent_writes: Option<&str>,
    ) -> (r: ServiceConfig)
        ensures
            r.listen_addr@ == "0.0.0.0:"@ + match port {
                Some(p) => p@,
                None => DEFAULT_PORT@,
            },
            r.max_body_bytes as nat == setting_value(
                setting_bytes(max_body_bytes),
                usize::MAX as nat,
                1048576,
            ),
            r.max_concurrent_writes as nat == setting_value(
                setting_bytes(max_concurrent_writes),
                usize::MAX as nat,
                2000,
            ),
            match max_body_bytes {
                Some(t) => match parse_unsigned(t.spec_bytes(), usize::MAX as nat) {
                    Some(v) => r.max_body_bytes as nat == v,
                    None => r.max_body_bytes == 1048576,
                },
                None => r.max_body_bytes == 1048576,
            },
            match max_concurrent_writes {
                Some(t) => match parse_unsigned(t.spec_bytes(), usize::MAX as nat) {
                    Some(v) => r.max_concurrent_writes as nat == v,
                    None => r.max_concurrent_writes == 2000,
                },
                None => r.max_concurrent_writes == 2000,
            },
    {
        ServiceConfig {
            listen_addr: listen_address(port),
            max_body_bytes: usize_setting(max_body_bytes, DEFAULT_MAX_BODY_BYTES),
            max_concurrent_writes: usize_setting(max_concurrent_writes, DEFAULT_MAX_CONCURRENT_WRITES),
        }
    }
}

/// A setting that reads as a number no larger than `max` is used as it reads,
/// whatever the number; a setting that is missing or does not read as one gives
/// the default.
pub proof fn law_setting_uses_parsed_value(setting: Option<Seq<u8>>, max: nat, default: nat)
    ensures
        match setting {
            Some(t) => match parse_unsigned(t, max) {
                Some(v) => setting_value(setting, max, default) == v,
                None => setting_value(setting, max, default) == default,
            },
            None => setting_value(setting, max, default) == default,
        },
{
}

/// In particular, a setting written as plain digits is used as their number when
/// it is no larger than `max`.
pub proof fn law_digit_setting_is_used(t: Seq<u8>, max: nat, default: nat)
    requires
        t.len() > 0,
        crate::decimal::all_digits(t),
        crate::decimal::digits_value(t) <= max,
    ensures
        setting_value(Some(t), max, default) == crate::decimal::digits_value(t),
{
    crate::decimal::law_parse_unsigned_reads_digits(t, max);
}

} // verus!
