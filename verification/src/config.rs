//! The process configuration: its defaults, the reading of its values from
//! the texts of environment variables, and the log level that it names.

use vstd::prelude::*;
use vstd::string::*;

verus! {

/// The port that the service listens on unless told otherwise.
pub const DEFAULT_PORT: u16 = 1337;

/// The largest message body accepted unless told otherwise, in bytes.
pub const DEFAULT_MAX_MESSAGE_SIZE: usize = 65536;

/// The verbosity of the log.
#[derive(Debug, Clone, Copy, PartialEq, Eq, Structural)]
pub enum LogLevel {
    Trace,
    Debug,
    Info,
    Warn,
    Error,
}

/// The configuration of the process.
#[derive(Debug)]
pub struct Config {
    pub port: u16,
    pub max_message_size: usize,
    pub log_level: String,
}

/// Whether a character is a decimal digit.
pub open spec fn is_digit(c: char) -> bool {
    '0' <= c <= '9'
}

/// Whether a text consists of decimal digits only.
pub open spec fn all_digits(text: Seq<char>) -> bool {
    forall|i: int| 0 <= i < text.len() ==> is_digit(#[trigger] text[i])
}

/// The number that a text of decimal digits writes.
pub open spec fn decimal(digits: Seq<char>) -> nat
    decreases digits.len(),
{
    if digits.len() == 0 {
        0
    } else {
        (10 * decimal(digits.drop_last()) + (digits.last() as int - '0' as int)) as nat
    }
}

/// The number that a text stands for, as the integer types of Rust read
/// one: an optional `+`, then at least one decimal digit and nothing else,
/// the value being `max` at most.
pub open spec fn number(text: Seq<char>, max: nat) -> Option<nat> {
    let digits = if text.len() > 0 && text[0] == '+' {
        text.skip(1)
    } else {
        text
    };
    if digits.len() > 0 && all_digits(digits) && decimal(digits) <= max {
        Some(decimal(digits))
    } else {
        None
    }
}

/// The message size that a text stands for: a positive number of bytes, or
/// a positive number followed by `K` or `k` for that many times 1024 bytes,
/// as far as the size fits the machine.
pub open spec fn size(text: Seq<char>) -> Option<nat> {
    if text.len() > 0 && (text.last() == 'K' || text.last() == 'k') {
        match number(text.drop_last(), usize::MAX as nat) {
            Some(kb) => if kb > 0 && kb * 1024 <= usize::MAX {
                Some(kb * 1024)
            } else {
                None
            },
            None => None,
        }
    } else {
        match number(text, usize::MAX as nat) {
            Some(bytes) => if bytes > 0 {
                Some(bytes)
            } else {
                None
            },
            None => None,
        }
    }
}

/// The level that a name in lower case stands for; `Info` for a name that is
/// none of the known ones.
pub open spec fn level(name: Seq<char>) -> LogLevel {
    if name == "trace"@ {
        LogLevel::Trace
    } else if name == "debug"@ {
        LogLevel::Debug
    } else if name == "info"@ {
        LogLevel::Info
    } else if name == "warn"@ || name == "warning"@ {
        LogLevel::Warn
    } else if name == "error"@ {
        LogLevel::Error
    } else {
        LogLevel::Info
    }
}

/// The text that `str::to_lowercase` makes of a text.
pub uninterp spec fn lowercase(text: Seq<char>) -> Seq<char>;

/// Puts a text in lower case with `str::to_lowercase`.
///
/// Trusted: the result is std's own lower-casing of the text, by the
/// Unicode tables, which [`lowercase`] stands for.
#[verifier::external_body]
fn to_lowercase(text: &str) -> (lowered: String)
    ensures
        lowered@ == lowercase(text@),
{
    text.to_lowercase()
}

/// A longer text of digits writes no smaller a number than its beginning.
proof fn lemma_decimal_grows(digits: Seq<char>, n: int)
    requires
        all_digits(digits),
        0 <= n <= digits.len(),
    ensures
        decimal(digits.take(n)) <= decimal(digits),
    decreases digits.len() - n,
{
    if n == digits.len() {
        assert(digits.take(n) =~= digits);
    } else {
        lemma_decimal_grows(digits, n + 1);
        assert(digits.take(n + 1).drop_last() =~= digits.take(n));
        assert(is_digit(digits[n]));
    }
}

/// Reads a number out of a text as the integer types of Rust do, with
/// `max` as the largest value accepted.
pub fn parse_number(text: &str, max: usize) -> (parsed: Option<usize>)
    ensures
        parsed matches Some(value) ==> number(text@, max as nat) == Some(value as nat),
        parsed is None ==> number(text@, max as nat) is None,
{
    let len = text.unicode_len();
    if len == 0 {
        return None;
    }
    let first: usize = if text.get_char(0) == '+' {
        1
    } else {
        0
    };
    if first == len {
        return None;
    }
    let ghost digits = text@.skip(first as int);
    assert(text@.skip(0) =~= text@);
    let mut value: usize = 0;
    let mut i: usize = first;
    while i < len
        invariant
            first <= i <= len,
            len == text@.len(),
            digits == text@.skip(first as int),
            digits == if text@[0] == '+' {
                text@.skip(1)
            } else {
                text@
            },
            all_digits(digits.take(i - first)),
            value == decimal(digits.take(i - first)),
            value <= max,
        decreases len - i,
    {
        let c = text.get_char(i);
        let ghost seen = digits.take(i - first);
        let ghost next = digits.take(i - first + 1);
        proof {
            assert(next.drop_last() =~= seen);
            assert(next.last() == c);
            assert(digits[i - first] == c);
        }
        if !(c >= '0' && c <= '9') {
            return None;
        }
        let digit: usize = (c as u32 - '0' as u32) as usize;
        proof {
            assert forall|j: int| 0 <= j < next.len() implies is_digit(#[trigger] next[j]) by {
                if j < seen.len() {
                    assert(next[j] == seen[j]);
                }
            }
            assert(decimal(next) == 10 * value + digit);
            if all_digits(digits) {
                lemma_decimal_grows(digits, i - first + 1);
            }
        }
        if digit > max || value > (max - digit) / 10 {
            return None;
        }
        value = value * 10 + digit;
        i += 1;
    }
    assert(digits.take(len - first) =~= digits);
    Some(value)
}

impl Clone for Config {
    fn clone(&self) -> (copy: Self)
        ensures
            copy == *self,
    {
        Config {
            port: self.port,
            max_message_size: self.max_message_size,
            log_level: self.log_level.clone(),
        }
    }
}

impl Default for Config {
    fn default() -> (config: Config)
        ensures
            config.port == DEFAULT_PORT,
            config.max_message_size == DEFAULT_MAX_MESSAGE_SIZE,
            config.log_level@ == "info"@,
    {
        Config {
            port: DEFAULT_PORT,
            max_message_size: DEFAULT_MAX_MESSAGE_SIZE,
            log_level: "info".to_owned(),
        }
    }
}

impl Config {
    /// The configuration that the values of the three environment variables
    /// give: each value that is there and can be read replaces the default.
    pub fn from_env(
        port: Option<String>,
        max_message_size: Option<String>,
        log_level: Option<String>,
    ) -> (config: Config)
        ensures
            config.port == match port {
                Some(text) => match number(text@, u16::MAX as nat) {
                    Some(value) => value,
                    None => DEFAULT_PORT as nat,
                },
                None => DEFAULT_PORT as nat,
            },
            config.max_message_size == match max_message_size {
                Some(text) => match size(text@) {
                    Some(value) => value,
                    None => DEFAULT_MAX_MESSAGE_SIZE as nat,
                },
                None => DEFAULT_MAX_MESSAGE_SIZE as nat,
            },
            config.log_level@ == match log_level {
                Some(text) => text@,
                None => "info"@,
            },
    {
        let mut config = Config::default();
        if let Some(text) = port {
            if let Some(value) = parse_number(text.as_str(), 65535) {
                config.port = value as u16;
            }
        }
        if let Some(text) = max_message_size {
            if let Some(value) = Config::parse_size(text.as_str()) {
                config.max_message_size = value;
            }
        }
        if let Some(text) = log_level {
            config.log_level = text;
        }
        config
    }

    /// Reads a message size out of a text.
    pub fn parse_size(value: &str) -> (parsed: Option<usize>)
        ensures
            parsed matches Some(bytes) ==> size(value@) == Some(bytes as nat),
            parsed is None ==> size(value@) is None,
    {
        let len = value.unicode_len();
        if len == 0 {
            return None;
        }
        let last = value.get_char(len - 1);
        if last == 'K' || last == 'k' {
            let digits = value.substring_char(0, len - 1);
            assert(digits@ =~= value@.drop_last());
            match parse_number(digits, usize::MAX) {
                Some(kb) => if kb > 0 {
                    kb.checked_mul(1024)
                } else {
                    None
                },
                None => None,
            }
        } else {
            match parse_number(value, usize::MAX) {
                Some(bytes) => if bytes > 0 {
                    Some(bytes)
                } else {
                    None
                },
                None => None,
            }
        }
    }

    /// The level that a name stands for once it is in lower case.
    pub fn level_named(lowered: &String) -> (found: LogLevel)
        ensures
            found == level(lowered@),
    {
        if *lowered == "trace".to_owned() {
            LogLevel::Trace
        } else if *lowered == "debug".to_owned() {
            LogLevel::Debug
        } else if *lowered == "info".to_owned() {
            LogLevel::Info
        } else if *lowered == "warn".to_owned() || *lowered == "warning".to_owned() {
            LogLevel::Warn
        } else if *lowered == "error".to_owned() {
            LogLevel::Error
        } else {
            LogLevel::Info
        }
    }

    /// The level of the log that the configuration asks for, whatever the
    /// case of its letters.
    pub fn tracing_level(&self) -> (found: LogLevel)
        ensures
            found == level(lowercase(self.log_level@)),
    {
        let lowered = to_lowercase(self.log_level.as_str());
        Config::level_named(&lowered)
    }
}

} // verus!
