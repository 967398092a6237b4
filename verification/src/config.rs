//! Process configuration: the bind address and the queue overflow policy,
//! built from textual settings. Reading the settings from the process
//! environment is the caller's business; validating and interpreting them is
//! done here, with exact contracts. An invalid setting is rejected before
//! any engine is built.

use vstd::prelude::*;

use crate::queue::QueueBehavior;

verus! {

/// The ASCII codes the settings are written in.
pub const ASCII_PLUS: u8 = 43;

pub const ASCII_ZERO: u8 = 48;

pub const ASCII_NINE: u8 = 57;

/// Where the server binds.
#[derive(Debug)]
pub struct ServerConfig {
    pub host: String,
    pub port: u16,
}

/// Where a client connects.
#[derive(Debug)]
pub struct ClientConfig {
    pub host: String,
    pub port: u16,
}

/// Everything the server process needs at startup.
#[derive(Debug)]
pub struct Config {
    pub server: ServerConfig,
    pub queue_behavior: QueueBehavior,
}

/// Why a set of settings was rejected. Each variant names the setting at
/// fault; settings are examined in this order, and the first fault wins.
#[derive(Clone, Copy, Debug, PartialEq, Eq, Structural)]
pub enum ConfigError {
    /// The port is not a decimal number, or does not fit in sixteen bits.
    InvalidPort,
    /// The maximum queue size is not a decimal number, or does not fit.
    InvalidMaxSize,
    /// The overflow policy selector names no known policy.
    InvalidBehavior,
}

pub open spec fn is_ascii_digit(b: u8) -> bool {
    ASCII_ZERO <= b && b <= ASCII_NINE
}

/// A non-empty run of decimal digits.
pub open spec fn decimal_digits(s: Seq<u8>) -> bool {
    s.len() > 0 && (forall|i: int| 0 <= i < s.len() ==> is_ascii_digit(s[i]))
}

/// The number a run of digits denotes, most significant first.
pub open spec fn decimal_value(s: Seq<u8>) -> int
    decreases s.len(),
{
    if s.len() == 0 {
        0
    } else {
        decimal_value(s.drop_last()) * 10 + (s.last() - ASCII_ZERO)
    }
}

/// An unsigned numeral: digits, with one optional leading plus sign.
pub open spec fn numeral(s: Seq<u8>) -> bool {
    if s.len() > 0 && s[0] == ASCII_PLUS {
        decimal_digits(s.skip(1))
    } else {
        decimal_digits(s)
    }
}

/// The number an unsigned numeral denotes.
pub open spec fn numeral_value(s: Seq<u8>) -> int {
    if s.len() > 0 && s[0] == ASCII_PLUS {
        decimal_value(s.skip(1))
    } else {
        decimal_value(s)
    }
}

/// The bytes of the overflow policy selector that asks for buffering.
pub open spec fn queue_word() -> Seq<u8> {
    seq![113u8, 117u8, 101u8, 117u8, 101u8]
}

/// The bytes of the overflow policy selector that asks for discarding.
pub open spec fn drop_word() -> Seq<u8> {
    seq![100u8, 114u8, 111u8, 112u8]
}

proof fn lemma_decimal_value_nonneg(s: Seq<u8>)
    requires
        forall|i: int| 0 <= i < s.len() ==> is_ascii_digit(s[i]),
    ensures
        decimal_value(s) >= 0,
    decreases s.len(),
{
    if s.len() > 0 {
        lemma_decimal_value_nonneg(s.drop_last());
    }
}

/// A digit run is worth at least any of its prefixes.
proof fn lemma_decimal_value_prefix(s: Seq<u8>, n: int)
    requires
        0 <= n <= s.len(),
        forall|i: int| 0 <= i < s.len() ==> is_ascii_digit(s[i]),
    ensures
        decimal_value(s.subrange(0, n)) <= decimal_value(s),
    decreases s.len() - n,
{
    if n < s.len() {
        assert(s.subrange(0, n + 1).drop_last() =~= s.subrange(0, n));
        lemma_decimal_value_nonneg(s.subrange(0, n));
        assert(decimal_value(s.subrange(0, n + 1)) == decimal_value(s.subrange(0, n)) * 10 + (
        s[n] - ASCII_ZERO));
        lemma_decimal_value_prefix(s, n + 1);
    } else {
        assert(s.subrange(0, n) =~= s);
    }
}

/// Reads an unsigned numeral, most significant digit first, exactly as far
/// as it fits in sixty-four bits; anything else is rejected.
pub fn parse_u64(s: &Vec<u8>) -> (r: Option<u64>)
    ensures
        match r {
            Some(v) => numeral(s@) && numeral_value(s@) == v,
            None => !(numeral(s@) && numeral_value(s@) <= u64::MAX),
        },
{
    let start: usize = if s.len() > 0 && s[0] == ASCII_PLUS {
        1
    } else {
        0
    };
    let ghost dpart = s@.skip(start as int);
    proof {
        if start == 0 {
            assert(dpart =~= s@);
        }
        assert(numeral(s@) == decimal_digits(dpart));
        assert(numeral_value(s@) == decimal_value(dpart));
    }
    if start >= s.len() {
        return None;
    }
    let mut acc: u64 = 0;
    let mut i: usize = start;
    while i < s.len()
        invariant
            start <= i <= s@.len(),
            start < s@.len(),
            dpart == s@.skip(start as int),
            numeral(s@) == decimal_digits(dpart),
            numeral_value(s@) == decimal_value(dpart),
            forall|j: int| start <= j < i ==> is_ascii_digit(s@[j]),
            acc == decimal_value(s@.subrange(start as int, i as int)),
        decreases s@.len() - i,
    {
        let b = s[i];
        if !(ASCII_ZERO <= b && b <= ASCII_NINE) {
            proof {
                assert(dpart[i - start] == s@[i as int]);
                assert(!decimal_digits(dpart));
            }
            return None;
        }
        let d = (b - ASCII_ZERO) as u64;
        let widened = match acc.checked_mul(10) {
            Some(w) => w.checked_add(d),
            None => None,
        };
        match widened {
            Some(next) => {
                proof {
                    assert(s@.subrange(start as int, i + 1 as int).drop_last() =~= s@.subrange(
                        start as int,
                        i as int,
                    ));
                }
                acc = next;
            }
            None => {
                proof {
                    assert(s@.subrange(start as int, i + 1 as int).drop_last() =~= s@.subrange(
                        start as int,
                        i as int,
                    ));
                    assert(decimal_value(s@.subrange(start as int, i + 1 as int)) > u64::MAX);
                    if decimal_digits(dpart) {
                        assert(s@.subrange(start as int, i + 1 as int) =~= dpart.subrange(
                            0,
                            i + 1 - start,
                        ));
                        lemma_decimal_value_prefix(dpart, i + 1 - start);
                    }
                }
                return None;
            }
        }
        i = i + 1;
    }
    proof {
        assert(s@.subrange(start as int, i as int) =~= dpart);
    }
    Some(acc)
}

/// Reads an unsigned numeral that must fit in sixteen bits.
pub fn parse_u16(s: &Vec<u8>) -> (r: Option<u16>)
    ensures
        match r {
            Some(v) => numeral(s@) && numeral_value(s@) == v,
            None => !(numeral(s@) && numeral_value(s@) <= u16::MAX),
        },
{
    match parse_u64(s) {
        Some(v) => if v <= u16::MAX as u64 {
            Some(v as u16)
        } else {
            None
        },
        None => None,
    }
}

/// Reads an unsigned numeral that must fit in a machine word.
pub fn parse_usize(s: &Vec<u8>) -> (r: Option<usize>)
    ensures
        match r {
            Some(v) => numeral(s@) && numeral_value(s@) == v,
            None => !(numeral(s@) && numeral_value(s@) <= usize::MAX),
        },
{
    match parse_u64(s) {
        Some(v) => if v <= usize::MAX as u64 {
            Some(v as usize)
        } else {
            None
        },
        None => None,
    }
}

/// Whether the selector asks for buffering.
fn is_queue_word(s: &Vec<u8>) -> (b: bool)
    ensures
        b == (s@ == queue_word()),
{
    let b = s.len() == 5 && s[0] == 113 && s[1] == 117 && s[2] == 101 && s[3] == 117 && s[4]
        == 101;
    proof {
        if b {
            assert(s@ =~= queue_word());
        }
    }
    b
}

/// Whether the selector asks for discarding.
fn is_drop_word(s: &Vec<u8>) -> (b: bool)
    ensures
        b == (s@ == drop_word()),
{
    let b = s.len() == 4 && s[0] == 100 && s[1] == 114 && s[2] == 111 && s[3] == 112;
    proof {
        if b {
            assert(s@ =~= drop_word());
        }
    }
    b
}

/// Whether the port setting, if present, is acceptable.
pub open spec fn port_text_ok(t: Option<Vec<u8>>) -> bool {
    match t {
        None => true,
        Some(v) => numeral(v@) && numeral_value(v@) <= u16::MAX,
    }
}

/// The port the settings ask for (meaningful when `port_text_ok`).
pub open spec fn port_of(t: Option<Vec<u8>>) -> int {
    match t {
        None => 6841,
        Some(v) => numeral_value(v@),
    }
}

/// Whether the maximum-size setting, if present, is acceptable.
pub open spec fn max_size_text_ok(t: Option<Vec<u8>>) -> bool {
    match t {
        None => true,
        Some(v) => numeral(v@) && numeral_value(v@) <= usize::MAX,
    }
}

/// The buffer bound the settings ask for (meaningful when
/// `max_size_text_ok`).
pub open spec fn max_size_of(t: Option<Vec<u8>>) -> Option<usize> {
    match t {
        None => None,
        Some(v) => Some(numeral_value(v@) as usize),
    }
}

/// Whether the overflow policy selector, if present, names a policy.
pub open spec fn behavior_text_ok(t: Option<Vec<u8>>) -> bool {
    match t {
        None => true,
        Some(v) => v@ == queue_word() || v@ == drop_word(),
    }
}

/// The overflow policy the settings ask for, with the buffer bound folded
/// in; buffering is the default.
pub open spec fn behavior_of(t: Option<Vec<u8>>, max_size: Option<usize>) -> QueueBehavior {
    match t {
        None => QueueBehavior::QueueMessages { max_size },
        Some(v) => if v@ == queue_word() {
            QueueBehavior::QueueMessages { max_size }
        } else {
            QueueBehavior::DropMessages
        },
    }
}

impl Config {
    /// Builds the configuration from raw textual settings, each absent or
    /// present as read from the process environment. The host defaults to
    /// the wildcard address, the port to 6841 and the policy to buffering;
    /// the settings are examined in the order port, maximum size, policy
    /// selector, and the first invalid one is reported. A maximum size is
    /// validated even when the policy discards, and ignored by that policy
    /// afterwards.
    pub fn from_settings(
        host_text: Option<String>,
        port_text: Option<Vec<u8>>,
        behavior_text: Option<Vec<u8>>,
        max_size_text: Option<Vec<u8>>,
    ) -> (r: Result<Config, ConfigError>)
        ensures
            !port_text_ok(port_text) ==> r == Err::<Config, ConfigError>(ConfigError::InvalidPort),
            port_text_ok(port_text) && !max_size_text_ok(max_size_text) ==> r == Err::<
                Config,
                ConfigError,
            >(ConfigError::InvalidMaxSize),
            port_text_ok(port_text) && max_size_text_ok(max_size_text) && !behavior_text_ok(
                behavior_text,
            ) ==> r == Err::<Config, ConfigError>(ConfigError::InvalidBehavior),
            port_text_ok(port_text) && max_size_text_ok(max_size_text) && behavior_text_ok(
                behavior_text,
            ) ==> (r matches Ok(c) && (match host_text {
                Some(h) => c.server.host == h,
                None => c.server.host@ == "0.0.0.0"@,
            }) && c.server.port == port_of(port_text) && c.queue_behavior == behavior_of(
                behavior_text,
                max_size_of(max_size_text),
            )),
    {
        let host: String = match host_text {
            Some(h) => h,
            None => "0.0.0.0".to_owned(),
        };
        let port: u16 = match &port_text {
            None => 6841,
            Some(t) => match parse_u16(t) {
                Some(p) => p,
                None => {
                    return Err(ConfigError::InvalidPort);
                }
            },
        };
        let max_size: Option<usize> = match &max_size_text {
            None => None,
            Some(t) => match parse_usize(t) {
                Some(v) => Some(v),
                None => {
                    return Err(ConfigError::InvalidMaxSize);
                }
            },
        };
        let queue_behavior: QueueBehavior = match &behavior_text {
            None => QueueBehavior::QueueMessages { max_size },
            Some(t) => if is_queue_word(t) {
                QueueBehavior::QueueMessages { max_size }
            } else if is_drop_word(t) {
                QueueBehavior::DropMessages
            } else {
                return Err(ConfigError::InvalidBehavior);
            },
        };
        Ok(Config { server: ServerConfig { host, port }, queue_behavior })
    }
}

} // verus!
