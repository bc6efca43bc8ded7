//! The server's settings: the port, the log file's path and the cap on its
//! size, each with a default that stands in for a value that is unset or
//! cannot be read as a number.

use vstd::prelude::*;
use vstd::string::StringExecFns;
use vstd::string::StringSliceAdditionalSpecFns;

verus! {

/// The port that is listened on unless another is set.
pub const DEFAULT_PORT: u16 = 8001;

/// The cap on the log's size unless another is set: 50 MiB.
pub const DEFAULT_MAX_LOG_SIZE: usize = 52428800;

/// Whether a byte is an ASCII decimal digit.
pub open spec fn is_digit(b: u8) -> bool {
    48 <= b <= 57
}

/// Whether every byte is an ASCII decimal digit.
pub open spec fn all_digits(digits: Seq<u8>) -> bool {
    forall|i: int| 0 <= i < digits.len() ==> is_digit(#[trigger] digits[i])
}

/// The number that a run of decimal digits stands for.
pub open spec fn digits_value(digits: Seq<u8>) -> nat
    decreases digits.len(),
{
    if digits.len() == 0 {
        0
    } else {
        digits_value(digits.drop_last()) * 10 + (digits.last() - 48) as nat
    }
}

/// A text without the one plus sign that may lead it.
pub open spec fn without_sign(text: Seq<u8>) -> Seq<u8> {
    if text.len() > 0 && text[0] == 43 {
        text.skip(1)
    } else {
        text
    }
}

/// The unsigned number that a text stands for, if it stands for one that is
/// no larger than `max`: an optional plus sign, then one or more decimal
/// digits and nothing else.
pub open spec fn parsed_unsigned(text: Seq<u8>, max: nat) -> Option<nat> {
    let digits = without_sign(text);
    if digits.len() > 0 && all_digits(digits) && digits_value(digits) <= max {
        Some(digits_value(digits))
    } else {
        None
    }
}

/// A run of digits stands for no less than any run that it begins with.
pub proof fn lemma_digits_value_grows(digits: Seq<u8>, k: int)
    requires
        all_digits(digits),
        0 <= k <= digits.len(),
    ensures
        digits_value(digits.take(k)) <= digits_value(digits),
    decreases digits.len(),
{
    if k == digits.len() {
        assert(digits.take(k) =~= digits);
    } else {
        let shorter = digits.drop_last();
        assert(all_digits(shorter)) by {
            assert forall|i: int| 0 <= i < shorter.len() implies is_digit(
                #[trigger] shorter[i],
            ) by {
                assert(shorter[i] == digits[i]);
            }
        }
        lemma_digits_value_grows(shorter, k);
        assert(shorter.take(k) =~= digits.take(k));
        assert(is_digit(digits[digits.len() - 1]));
    }
}

/// Reads a text as an unsigned number no larger than `max`.
pub fn parse_unsigned(text: &str, max: u64) -> (r: Option<u64>)
    ensures
        match parsed_unsigned(text.spec_bytes(), max as nat) {
            Some(n) => r == Some(n as u64),
            None => r is None,
        },
{
    let bytes = text.as_bytes();
    let start: usize = if bytes.len() > 0 && bytes[0] == 43 {
        1
    } else {
        0
    };
    if start == bytes.len() {
        return None;
    }
    let ghost digits = without_sign(bytes@);
    assert(digits =~= bytes@.skip(start as int));
    let mut acc: u128 = 0;
    let mut i: usize = start;
    while i < bytes.len()
        invariant
            start <= i <= bytes.len(),
            bytes@ == text.spec_bytes(),
            digits == without_sign(bytes@),
            digits == bytes@.skip(start as int),
            all_digits(digits.take(i - start)),
            acc == digits_value(digits.take(i - start)),
            acc <= max,
        decreases bytes.len() - i,
    {
        let b: u8 = bytes[i];
        let ghost upto = digits.take(i - start + 1);
        assert(upto.drop_last() =~= digits.take(i - start));
        assert(upto.last() == b);
        if b < 48 || b > 57 {
            assert(!is_digit(digits[i - start]));
            return None;
        }
        let next: u128 = acc * 10 + (b - 48) as u128;
        assert(next == digits_value(upto));
        assert(all_digits(upto)) by {
            assert forall|j: int| 0 <= j < upto.len() implies is_digit(#[trigger] upto[j]) by {
                if j < upto.len() - 1 {
                    assert(upto[j] == digits.take(i - start)[j]);
                }
            }
        }
        if next > max as u128 {
            proof {
                if all_digits(digits) {
                    lemma_digits_value_grows(digits, i - start + 1);
                }
            }
            return None;
        }
        acc = next;
        i = i + 1;
    }
    assert(digits.take(i - start) =~= digits);
    Some(acc as u64)
}

/// The value of a setting: the number that `value` stands for, or `default`
/// where the setting is unset or its text is no unsigned number up to `max`.
pub open spec fn setting_value(value: Option<Seq<u8>>, default: nat, max: nat) -> nat {
    match value {
        Some(text) => match parsed_unsigned(text, max) {
            Some(n) => n,
            None => default,
        },
        None => default,
    }
}

/// Resolves a numeric setting from the text it was given, if any.
pub fn parsable_env_var(value: Option<&str>, default: u64, max: u64) -> (r: u64)
    ensures
        r == setting_value(
            match value {
                Some(text) => Some(text.spec_bytes()),
                None => None,
            },
            default as nat,
            max as nat,
        ),
        default <= max ==> r <= max,
{
    match value {
        Some(text) => match parse_unsigned(text, max) {
            Some(n) => n,
            None => default,
        },
        None => default,
    }
}

/// The server's settings.
#[derive(Debug)]
pub struct Config {
    pub port: u16,
    pub log_file: String,
    pub max_file_size: usize,
}

impl Config {
    /// Resolves the settings from the texts given for the port, the log
    /// file's path and the cap, each of which may be unset.
    pub fn resolve(port: Option<&str>, log_file: Option<String>, max_file_size: Option<&str>) -> (c:
        Config)
        ensures
            c.port == setting_value(
                match port {
                    Some(text) => Some(text.spec_bytes()),
                    None => None,
                },
                DEFAULT_PORT as nat,
                u16::MAX as nat,
            ),
            c.max_file_size == setting_value(
                match max_file_size {
                    Some(text) => Some(text.spec_bytes()),
                    None => None,
                },
                DEFAULT_MAX_LOG_SIZE as nat,
                usize::MAX as nat,
            ),
            c.log_file@ == (match log_file {
                Some(path) => path@,
                None => "messages.log"@,
            }),
    {
        let port_number = parsable_env_var(port, DEFAULT_PORT as u64, u16::MAX as u64);
        let cap = parsable_env_var(max_file_size, DEFAULT_MAX_LOG_SIZE as u64, usize::MAX as u64);
        let path = match log_file {
            Some(path) => path,
            None => String::from_str("messages.log"),
        };
        Config { port: port_number as u16, log_file: path, max_file_size: cap as usize }
    }
}

} // verus!
