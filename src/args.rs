//! Command-line overrides of the settings: each value given as text is parsed
//! as std's `FromStr` reads integers and put in place of the base setting.

use vstd::prelude::*;
use crate::config::{CacheConfig, CommonConfig, Config, LoggerConfig, ServiceConfig};
use crate::text::chars_of;

verus! {

pub open spec fn is_digit(c: char) -> bool {
    0x30 <= c as u32 <= 0x39
}

pub open spec fn all_digits(s: Seq<char>) -> bool {
    forall|i: int| 0 <= i < s.len() ==> is_digit(#[trigger] s[i])
}

/// The number that a string of decimal digits writes.
pub open spec fn digits_value(s: Seq<char>) -> nat
    decreases s.len(),
{
    if s.len() == 0 {
        0
    } else {
        digits_value(s.drop_last()) * 10 + (s.last() as u32 - 0x30) as nat
    }
}

/// The magnitude that `s` writes as an unsigned integer: an optional `+`
/// and at least one decimal digit, nothing else.
pub open spec fn unsigned_text(s: Seq<char>) -> Option<nat> {
    let d = if s.len() > 0 && s[0] == '+' {
        s.drop_first()
    } else {
        s
    };
    if d.len() > 0 && all_digits(d) {
        Some(digits_value(d))
    } else {
        None
    }
}

/// The integer that `s` writes: an optional `-` or `+`, then at least one
/// decimal digit.
pub open spec fn signed_text(s: Seq<char>) -> Option<int> {
    if s.len() > 0 && s[0] == '-' {
        let d = s.drop_first();
        if d.len() > 0 && all_digits(d) {
            Some(-(digits_value(d) as int))
        } else {
            None
        }
    } else {
        match unsigned_text(s) {
            Some(v) => Some(v as int),
            None => None,
        }
    }
}

proof fn lemma_digits_value_grows(s: Seq<char>, k: int)
    requires
        0 <= k <= s.len(),
        all_digits(s),
    ensures
        digits_value(s.take(k)) <= digits_value(s),
    decreases s.len() - k,
{
    if k < s.len() {
        lemma_digits_value_grows(s, k + 1);
        let t = s.take(k + 1);
        assert(t.drop_last() =~= s.take(k));
        assert(digits_value(t) == digits_value(t.drop_last()) * 10 + (t.last() as u32 - 0x30) as nat);
        assert(digits_value(s.take(k)) <= digits_value(s.take(k)) * 10) by (nonlinear_arith);
    } else {
        assert(s.take(k) =~= s);
    }
}

/// The digits of `d[from..]` read as a `u64`, or `None` when they are not all
/// digits, there are none, or the value does not fit.
fn parse_digits(d: &Vec<char>, from: usize) -> (r: Option<u64>)
    requires
        from <= d.len(),
    ensures
        ({
            let s = d@.skip(from as int);
            match r {
                Some(v) => s.len() > 0 && all_digits(s) && v == digits_value(s),
                None => !(s.len() > 0 && all_digits(s) && digits_value(s) <= u64::MAX),
            }
        }),
{
    let ghost s = d@.skip(from as int);
    if from == d.len() {
        return None;
    }
    let mut v: u64 = 0;
    let mut i: usize = from;
    while i < d.len()
        invariant
            from <= i <= d.len(),
            s == d@.skip(from as int),
            all_digits(s.take(i - from)),
            v == digits_value(s.take(i - from)),
        decreases d.len() - i,
    {
        let c = d[i] as u32;
        proof {
            assert(s[i - from] == d@[i as int]);
        }
        if c < 0x30 || c > 0x39 {
            return None;
        }
        let digit = (c - 0x30) as u64;
        proof {
            assert(s.take(i - from + 1).drop_last() =~= s.take(i - from));
            assert(s.take(i - from + 1).last() == d@[i as int]);
            assert(all_digits(s.take(i - from + 1))) by {
                assert forall|k: int| 0 <= k < i - from + 1 implies is_digit(
                    #[trigger] s.take(i - from + 1)[k],
                ) by {
                    if k < i - from {
                        assert(s.take(i - from + 1)[k] == s.take(i - from)[k]);
                    }
                }
            }
        }
        if v > (u64::MAX - digit) / 10 {
            proof {
                assert(v * 10 + digit > u64::MAX) by (nonlinear_arith)
                    requires
                        v > (u64::MAX - digit) / 10,
                        digit <= 9,
                ;
                let t = s.take(i - from + 1);
                if all_digits(s) {
                    lemma_digits_value_grows(s, i - from + 1);
                    assert(s.take(i - from + 1) =~= t);
                }
            }
            return None;
        }
        proof {
            assert(v * 10 + digit <= u64::MAX) by (nonlinear_arith)
                requires
                    v <= (u64::MAX - digit) / 10,
                    digit <= 9,
            ;
        }
        v = v * 10 + digit;
        i = i + 1;
    }
    proof {
        assert(s.take(i - from) =~= s);
    }
    Some(v)
}

/// `s` parsed as `u64`, as std's `u64::from_str` reads it.
pub fn parse_u64(s: &str) -> (r: Option<u64>)
    ensures
        match unsigned_text(s@) {
            Some(v) => if v <= u64::MAX {
                r == Some(v as u64)
            } else {
                r is None
            },
            None => r is None,
        },
{
    let d = chars_of(s);
    let from: usize = if d.len() > 0 && d[0] == '+' {
        1
    } else {
        0
    };
    proof {
        if from == 1 {
            assert(d@.skip(1) =~= s@.drop_first());
        } else {
            assert(d@.skip(0) =~= s@);
        }
    }
    parse_digits(&d, from)
}

/// `s` parsed as `usize`, as std's `usize::from_str` reads it.
pub fn parse_usize(s: &str) -> (r: Option<usize>)
    ensures
        match unsigned_text(s@) {
            Some(v) => if v <= usize::MAX {
                r == Some(v as usize)
            } else {
                r is None
            },
            None => r is None,
        },
{
    match parse_u64(s) {
        Some(v) => if v <= usize::MAX as u64 {
            Some(v as usize)
        } else {
            None
        },
        None => None,
    }
}

/// `s` parsed as `i32`, as std's `i32::from_str` reads it.
pub fn parse_i32(s: &str) -> (r: Option<i32>)
    ensures
        match signed_text(s@) {
            Some(v) => if i32::MIN <= v <= i32::MAX {
                r == Some(v as i32)
            } else {
                r is None
            },
            None => r is None,
        },
{
    let d = chars_of(s);
    if d.len() > 0 && d[0] == '-' {
        proof {
            assert(d@.skip(1) =~= s@.drop_first());
        }
        match parse_digits(&d, 1) {
            Some(m) => if m <= 0x8000_0000 {
                Some((0 - (m as i64)) as i32)
            } else {
                None
            },
            None => None,
        }
    } else {
        match parse_u64(s) {
            Some(v) => if v <= 0x7fff_ffff {
                Some(v as i32)
            } else {
                None
            },
            None => None,
        }
    }
}

/// Settings given on the command line, as text; `None` where not given.
pub struct ConfigArgs {
    pub listen: Option<String>,
    pub server_hostname: Option<String>,
    pub workers: Option<String>,
    pub backlog: Option<String>,
    pub max_connections: Option<String>,
    pub max_connection_rate: Option<String>,
    pub keep_alive: Option<String>,
    pub client_timeout: Option<String>,
    pub client_shutdown: Option<String>,
    pub shutdown_timeout: Option<String>,
    pub alt_encoding: Option<String>,
    pub regex_patterns_limit: Option<String>,
    pub regex_patterns_capacity: Option<String>,
    pub log_level: Option<String>,
}

/// A command-line value that does not parse as its setting's type.
pub struct ArgumentError {
    pub arg: String,
    pub value: String,
}

/// A given unsigned setting parses, and fits below `max`.
pub open spec fn unsigned_ok(given: Option<String>, max: nat) -> bool {
    match given {
        Some(t) => unsigned_text(t@) matches Some(v) && v <= max,
        None => true,
    }
}

/// The unsigned setting: the given value, else the base one.
pub open spec fn unsigned_setting(given: Option<String>, base: nat) -> nat {
    match given {
        Some(t) => unsigned_text(t@)->0,
        None => base,
    }
}

pub open spec fn signed_ok(given: Option<String>) -> bool {
    match given {
        Some(t) => signed_text(t@) matches Some(v) && i32::MIN <= v <= i32::MAX,
        None => true,
    }
}

pub open spec fn signed_setting(given: Option<String>, base: int) -> int {
    match given {
        Some(t) => signed_text(t@)->0,
        None => base,
    }
}

pub open spec fn text_setting(given: Option<String>, base: Seq<char>) -> Seq<char> {
    match given {
        Some(t) => t@,
        None => base,
    }
}

/// Every given numeric setting parses.
pub open spec fn args_ok(a: ConfigArgs) -> bool {
    &&& unsigned_ok(a.workers, usize::MAX as nat)
    &&& signed_ok(a.backlog)
    &&& unsigned_ok(a.max_connections, usize::MAX as nat)
    &&& unsigned_ok(a.max_connection_rate, usize::MAX as nat)
    &&& unsigned_ok(a.keep_alive, usize::MAX as nat)
    &&& unsigned_ok(a.client_timeout, u64::MAX as nat)
    &&& unsigned_ok(a.client_shutdown, u64::MAX as nat)
    &&& unsigned_ok(a.shutdown_timeout, u64::MAX as nat)
    &&& unsigned_ok(a.regex_patterns_limit, usize::MAX as nat)
    &&& unsigned_ok(a.regex_patterns_capacity, usize::MAX as nat)
}

/// The first given numeric setting, in the order of the fields, whose text
/// does not parse: its argument name and its text.
pub open spec fn first_bad_arg(a: ConfigArgs) -> Option<(Seq<char>, Seq<char>)> {
    if !unsigned_ok(a.workers, usize::MAX as nat) {
        Some(("workers"@, a.workers->0@))
    } else if !signed_ok(a.backlog) {
        Some(("backlog"@, a.backlog->0@))
    } else if !unsigned_ok(a.max_connections, usize::MAX as nat) {
        Some(("max_connections"@, a.max_connections->0@))
    } else if !unsigned_ok(a.max_connection_rate, usize::MAX as nat) {
        Some(("max_connection_rate"@, a.max_connection_rate->0@))
    } else if !unsigned_ok(a.keep_alive, usize::MAX as nat) {
        Some(("keep_alive"@, a.keep_alive->0@))
    } else if !unsigned_ok(a.client_timeout, u64::MAX as nat) {
        Some(("client_timeout"@, a.client_timeout->0@))
    } else if !unsigned_ok(a.client_shutdown, u64::MAX as nat) {
        Some(("client_shutdown"@, a.client_shutdown->0@))
    } else if !unsigned_ok(a.shutdown_timeout, u64::MAX as nat) {
        Some(("shutdown_timeout"@, a.shutdown_timeout->0@))
    } else if !unsigned_ok(a.regex_patterns_limit, usize::MAX as nat) {
        Some(("regex_patterns_limit"@, a.regex_patterns_limit->0@))
    } else if !unsigned_ok(a.regex_patterns_capacity, usize::MAX as nat) {
        Some(("regex_patterns_capacity"@, a.regex_patterns_capacity->0@))
    } else {
        None
    }
}

/// `c` is `base` with each setting of `a` in its place.
pub open spec fn mixed(c: Config, a: ConfigArgs, base: Config) -> bool {
    &&& c.service.listen@ == text_setting(a.listen, base.service.listen@)
    &&& c.service.server_hostname@ == text_setting(a.server_hostname, base.service.server_hostname@)
    &&& c.service.workers == unsigned_setting(a.workers, base.service.workers as nat)
    &&& c.service.backlog == signed_setting(a.backlog, base.service.backlog as int)
    &&& c.service.max_connections == unsigned_setting(a.max_connections, base.service.max_connections as nat)
    &&& c.service.max_connection_rate == unsigned_setting(
        a.max_connection_rate,
        base.service.max_connection_rate as nat,
    )
    &&& c.service.keep_alive == unsigned_setting(a.keep_alive, base.service.keep_alive as nat)
    &&& c.service.client_timeout == unsigned_setting(a.client_timeout, base.service.client_timeout as nat)
    &&& c.service.client_shutdown == unsigned_setting(a.client_shutdown, base.service.client_shutdown as nat)
    &&& c.service.shutdown_timeout == unsigned_setting(
        a.shutdown_timeout,
        base.service.shutdown_timeout as nat,
    )
    &&& c.common.alt_encoding@ == text_setting(a.alt_encoding, base.common.alt_encoding@)
    &&& c.cache.regex_patterns_limit == unsigned_setting(
        a.regex_patterns_limit,
        base.cache.regex_patterns_limit as nat,
    )
    &&& c.cache.regex_patterns_capacity == unsigned_setting(
        a.regex_patterns_capacity,
        base.cache.regex_patterns_capacity as nat,
    )
    &&& c.logger.log_level@ == text_setting(a.log_level, base.logger.log_level@)
}

fn bad_argument(arg: &str, value: &String) -> (r: ArgumentError)
    ensures
        r.arg@ == arg@,
        r.value@ == value@,
{
    ArgumentError { arg: arg.to_owned(), value: value.clone() }
}

fn usize_arg(arg: &str, given: Option<String>, base: usize) -> (r: Result<usize, ArgumentError>)
    ensures
        r is Ok <==> unsigned_ok(given, usize::MAX as nat),
        r matches Ok(v) ==> v == unsigned_setting(given, base as nat),
        r matches Err(e) ==> given matches Some(t) && e.arg@ == arg@ && e.value@ == t@,
{
    match given {
        Some(t) => match parse_usize(t.as_str()) {
            Some(v) => Ok(v),
            None => Err(bad_argument(arg, &t)),
        },
        None => Ok(base),
    }
}

fn u64_arg(arg: &str, given: Option<String>, base: u64) -> (r: Result<u64, ArgumentError>)
    ensures
        r is Ok <==> unsigned_ok(given, u64::MAX as nat),
        r matches Ok(v) ==> v == unsigned_setting(given, base as nat),
        r matches Err(e) ==> given matches Some(t) && e.arg@ == arg@ && e.value@ == t@,
{
    match given {
        Some(t) => match parse_u64(t.as_str()) {
            Some(v) => Ok(v),
            None => Err(bad_argument(arg, &t)),
        },
        None => Ok(base),
    }
}

fn i32_arg(arg: &str, given: Option<String>, base: i32) -> (r: Result<i32, ArgumentError>)
    ensures
        r is Ok <==> signed_ok(given),
        r matches Ok(v) ==> v == signed_setting(given, base as int),
        r matches Err(e) ==> given matches Some(t) && e.arg@ == arg@ && e.value@ == t@,
{
    match given {
        Some(t) => match parse_i32(t.as_str()) {
            Some(v) => Ok(v),
            None => Err(bad_argument(arg, &t)),
        },
        None => Ok(base),
    }
}

fn text_arg(given: Option<String>, base: String) -> (r: String)
    ensures
        r@ == text_setting(given, base@),
{
    match given {
        Some(t) => t,
        None => base,
    }
}

impl Config {
    /// `base` with each setting given in `args` in its place. Fails, naming
    /// the argument and its text, where a given numeric setting does not parse
    /// as its type; the settings are tried in the order of the fields.
    pub fn mix_from_args(args: ConfigArgs, base: Config) -> (r: Result<Config, ArgumentError>)
        ensures
            r is Ok <==> args_ok(args),
            r matches Ok(c) ==> mixed(c, args, base),
            r matches Err(e) ==> first_bad_arg(args) == Some((e.arg@, e.value@)),
    {
        let ghost a = args;
        let ghost b = base;
        let service = ServiceConfig {
            listen: text_arg(args.listen, base.service.listen),
            server_hostname: text_arg(args.server_hostname, base.service.server_hostname),
            workers: usize_arg("workers", args.workers, base.service.workers)?,
            backlog: i32_arg("backlog", args.backlog, base.service.backlog)?,
            max_connections: usize_arg("max_connections", args.max_connections, base.service.max_connections)?,
            max_connection_rate: usize_arg(
                "max_connection_rate",
                args.max_connection_rate,
                base.service.max_connection_rate,
            )?,
            keep_alive: usize_arg("keep_alive", args.keep_alive, base.service.keep_alive)?,
            client_timeout: u64_arg("client_timeout", args.client_timeout, base.service.client_timeout)?,
            client_shutdown: u64_arg("client_shutdown", args.client_shutdown, base.service.client_shutdown)?,
            shutdown_timeout: u64_arg(
                "shutdown_timeout",
                args.shutdown_timeout,
                base.service.shutdown_timeout,
            )?,
        };
        let common = CommonConfig { alt_encoding: text_arg(args.alt_encoding, base.common.alt_encoding) };
        let cache = CacheConfig {
            regex_patterns_limit: usize_arg(
                "regex_patterns_limit",
                args.regex_patterns_limit,
                base.cache.regex_patterns_limit,
            )?,
            regex_patterns_capacity: usize_arg(
                "regex_patterns_capacity",
                args.regex_patterns_capacity,
                base.cache.regex_patterns_capacity,
            )?,
        };
        let logger = LoggerConfig { log_level: text_arg(args.log_level, base.logger.log_level) };
        Ok(Config { common, service, cache, logger })
    }
}

} // verus!
