//! Configuration: pattern, file path and the case-sensitivity flag.
//!
//! The caller hands in the program's invocation arguments and the value of
//! the `CASE_INSENSITIVE` environment variable, if it is set, as plain
//! values; reading the environment itself is no business of this library.

use vstd::prelude::*;
use vstd::string::*;

verus! {

/// Why a `Config` could not be built.
#[derive(Debug, PartialEq, Eq, Structural)]
pub enum ConfigError {
    /// Fewer than two arguments followed the program name.
    InsufficientArguments,
}

/// A resolved configuration: what to search for, where, and how.
pub struct Config {
    pub pattern: String,
    pub filename: String,
    pub case_sensitive: bool,
}

impl ConfigError {
    /// The message that describes this error to the user.
    pub fn message(&self) -> (r: &'static str)
        ensures
            r@ == "not enough arguments specified"@,
    {
        "not enough arguments specified"
    }
}

/// The digit string `d` denotes the number one: a run of zeros ended by a
/// single `1`.
pub open spec fn digits_are_one(d: Seq<char>) -> bool {
    &&& d.len() >= 1
    &&& d.last() == '1'
    &&& forall|i: int| 0 <= i < d.len() - 1 ==> d[i] == '0'
}

/// The string parses as the integer one: an optional leading plus sign,
/// then digits whose value is one.  This is exactly when a decimal integer
/// parse of `s` yields one; any sign other than `+`, any non-digit, or any
/// other value fails the test.
pub open spec fn parses_as_one(s: Seq<char>) -> bool {
    if s.len() > 0 && s[0] == '+' {
        digits_are_one(s.drop_first())
    } else {
        digits_are_one(s)
    }
}

/// The search is case-sensitive unless the environment variable is set and
/// parses as the integer one.
pub open spec fn spec_case_sensitive(env_val: Option<Seq<char>>) -> bool {
    match env_val {
        Some(v) => !parses_as_one(v),
        None => true,
    }
}

/// Whether the environment variable's value asks for a case-insensitive
/// search, that is, parses as the integer one.
pub fn requests_case_insensitive(val: &str) -> (r: bool)
    ensures
        r == parses_as_one(val@),
{
    let n = val.unicode_len();
    let start: usize = if n > 0 && val.get_char(0) == '+' {
        1
    } else {
        0
    };
    if start >= n {
        return false;
    }
    if val.get_char(n - 1) != '1' {
        return false;
    }
    let mut i: usize = start;
    while i < n - 1
        invariant
            n == val@.len(),
            start <= i <= n - 1,
            start == (if n > 0 && val@[0] == '+' {
                1usize
            } else {
                0usize
            }),
            forall|j: int| start <= j < i ==> val@[j] == '0',
        decreases n - 1 - i,
    {
        if val.get_char(i) != '0' {
            proof {
                let body = if val@[0] == '+' {
                    val@.drop_first()
                } else {
                    val@
                };
                assert(body[i - start] == val@[i as int]);
            }
            return false;
        }
        i = i + 1;
    }
    proof {
        let body = if val@[0] == '+' {
            val@.drop_first()
        } else {
            val@
        };
        assert(body.last() == val@[n - 1]);
        assert forall|j: int| 0 <= j < body.len() - 1 implies body[j] == '0' by {
            assert(body[j] == val@[j + start]);
        }
    }
    true
}

impl Config {
    /// Build a configuration from the invocation arguments (the first one
    /// is the program name and is ignored) and the value of the
    /// case-insensitivity environment variable, if any.  Fails when fewer
    /// than two arguments follow the program name; arguments past the
    /// first two are ignored.
    pub fn new(args: &Vec<String>, env_val: Option<&str>) -> (r: Result<Config, ConfigError>)
        ensures
            args@.len() < 3 ==> r == Result::<Config, ConfigError>::Err(
                ConfigError::InsufficientArguments,
            ),
            args@.len() >= 3 ==> (r matches Ok(c)
                && c.pattern@ == args@[1]@
                && c.filename@ == args@[2]@
                && c.case_sensitive == spec_case_sensitive(
                    match env_val {
                        Some(v) => Some(v@),
                        None => None,
                    },
                )),
    {
        if args.len() < 3 {
            return Err(ConfigError::InsufficientArguments);
        }
        let pattern = args[1].clone();
        let filename = args[2].clone();
        let case_sensitive = match env_val {
            Some(v) => !requests_case_insensitive(v),
            None => true,
        };
        Ok(Config { pattern, filename, case_sensitive })
    }
}

} // verus!
