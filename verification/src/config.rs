//! Run configuration: the input path and the number of workers, as the
//! command line gives them.

use vstd::prelude::*;
use crate::text::digit_value;

verus! {

/// What a run needs to know before it starts.
#[derive(Clone, Debug, PartialEq, Eq)]
pub struct Config {
    /// Where the comma-separated input lies.
    pub path: String,
    /// How many workers probe concurrently. Zero is accepted: such a run
    /// starts no worker and reports nothing.
    pub workers: usize,
}

/// The mathematical value of a `Config`.
pub struct ConfigView {
    pub path: Seq<char>,
    pub workers: usize,
}

impl View for Config {
    type V = ConfigView;

    open spec fn view(&self) -> ConfigView {
        ConfigView { path: self.path@, workers: self.workers }
    }
}

/// Why a command line gives no configuration.
#[derive(Clone, Copy, Debug, PartialEq, Eq, Structural)]
pub enum ConfigError {
    /// No input path follows the program's name.
    MissingPath,
    /// The worker count is there, but is no non-negative integer that a
    /// `usize` holds.
    InvalidWorkerCount,
}

/// The number that a run of decimal digits stands for; `None` for the empty
/// text and for text that holds anything else.
pub open spec fn digits_value(s: Seq<char>) -> Option<nat>
    decreases s.len(),
{
    if s.len() == 0 {
        None
    } else if s.len() == 1 {
        digit_value(s[0])
    } else {
        match (digits_value(s.drop_last()), digit_value(s.last())) {
            (Some(high), Some(low)) => Some(high * 10 + low),
            _ => None,
        }
    }
}

/// The worker count that `s` spells: decimal digits, a single `+` allowed in
/// front of them, nothing else (no blank, no `-`, no `_`), and a value that a
/// `usize` holds.
pub open spec fn worker_count(s: Seq<char>) -> Option<usize> {
    let digits = if s.len() > 0 && s[0] == '+' {
        s.skip(1)
    } else {
        s
    };
    match digits_value(digits) {
        Some(v) if v <= usize::MAX => Some(v as usize),
        _ => None,
    }
}

/// The configuration that the arguments `args` give, the program's name first,
/// on a machine with `detected` logical processors.
pub open spec fn resolve(args: Seq<Seq<char>>, detected: usize) -> Result<ConfigView, ConfigError> {
    if args.len() < 2 {
        Err(ConfigError::MissingPath)
    } else if args.len() == 2 {
        Ok(ConfigView { path: args[1], workers: detected })
    } else {
        match worker_count(args[2]) {
            Some(workers) => Ok(ConfigView { path: args[1], workers }),
            None => Err(ConfigError::InvalidWorkerCount),
        }
    }
}

/// Whether `out` is what `resolve` gives, seen through the view.
pub open spec fn resolved(
    out: Result<Config, ConfigError>,
    args: Seq<Seq<char>>,
    detected: usize,
) -> bool {
    match out {
        Ok(config) => resolve(args, detected) == Ok::<ConfigView, ConfigError>(config@),
        Err(e) => resolve(args, detected) == Err::<ConfigView, ConfigError>(e),
    }
}

/// Every character of a text with a value is a digit, and the value of each
/// of its prefixes is no larger than its own.
pub proof fn lemma_digits_prefix(s: Seq<char>, n: int)
    requires
        digits_value(s) is Some,
        0 < n <= s.len(),
    ensures
        digits_value(s.take(n)) is Some,
        digits_value(s.take(n))->0 <= digits_value(s)->0,
        digit_value(s[n - 1]) is Some,
    decreases s.len(),
{
    if n == s.len() {
        assert(s.take(n) == s);
    } else {
        assert(s.drop_last().take(n) == s.take(n));
        lemma_digits_prefix(s.drop_last(), n);
    }
}

/// Reads a worker count: `Some` exactly for the texts that `usize`'s
/// `FromStr` accepts, with the number that it gives.
pub fn parse_worker_count(arg: &str) -> (count: Option<usize>)
    ensures
        count == worker_count(arg@),
{
    let mut acc: usize = 0;
    let mut any = false;
    let mut first = true;
    let ghost digits = if arg@.len() > 0 && arg@[0] == '+' {
        arg@.skip(1)
    } else {
        arg@
    };
    let ghost from: int = arg@.len() - digits.len();
    for c in it: arg.chars()
        invariant
            it.seq() == arg@,
            first == (it.index() == 0),
            digits == arg@.skip(from),
            0 <= from <= 1,
            from == 1 <==> arg@.len() > 0 && arg@[0] == '+',
            any == (it.index() > from),
            !any ==> acc == 0,
            any ==> digits_value(arg@.subrange(from, it.index())) == Some(acc as nat),
    {
        let ghost k = it.index();
        if !(first && c == '+') {
            proof {
                assert(arg@.subrange(from, k + 1).drop_last() == arg@.subrange(from, k));
                assert(digits.take(k + 1 - from) == arg@.subrange(from, k + 1));
                assert(arg@.skip(0) == arg@);
                assert(digits[k - from] == c);
                assert(arg@.subrange(from, k + 1).last() == c);
                if digits_value(digits) is Some {
                    lemma_digits_prefix(digits, k + 1 - from);
                }
            }
            if c < '0' || c > '9' {
                return None;
            }
            let d: usize = (c as u32 - 48) as usize;
            if acc > (usize::MAX - d) / 10 {
                return None;
            }
            acc = acc * 10 + d;
            any = true;
        }
        first = false;
    }
    proof {
        assert(arg@.subrange(from, arg@.len() as int) == digits);
        assert(arg@.skip(0) == arg@);
    }
    if any {
        Some(acc)
    } else {
        None
    }
}

/// `num_cpus::get`: the number of logical processors that this process may
/// use. It differs from machine to machine, so nothing is said of it beyond
/// what the crate's documentation promises of every call: it is at least 1.
#[verifier::external_body]
fn detected_processors() -> (n: usize)
    ensures
        n >= 1,
{
    num_cpus::get()
}

/// The configuration that `args` give where the machine has `detected`
/// logical processors: the path is the argument after the program's name, the
/// worker count the one after that, and `detected` where there is none.
pub fn resolve_args(args: &Vec<String>, detected: usize) -> (out: Result<Config, ConfigError>)
    ensures
        resolved(out, args.deep_view(), detected),
{
    if args.len() < 2 {
        return Err(ConfigError::MissingPath);
    }
    let path = args[1].clone();
    if args.len() == 2 {
        return Ok(Config { path, workers: detected });
    }
    match parse_worker_count(args[2].as_str()) {
        Some(workers) => Ok(Config { path, workers }),
        None => Err(ConfigError::InvalidWorkerCount),
    }
}

/// Reads the configuration from the command line, the program's name first.
/// The machine is asked for its processors only where `args` give no worker
/// count; the count is then at least 1.
pub fn read_args(args: &Vec<String>) -> (out: Result<Config, ConfigError>)
    ensures
        args.len() != 2 ==> resolved(out, args.deep_view(), 0),
        args.len() == 2 ==> exists|detected: usize|
            detected >= 1 && #[trigger] resolved(out, args.deep_view(), detected),
{
    if args.len() == 2 {
        let detected = detected_processors();
        resolve_args(args, detected)
    } else {
        resolve_args(args, 0)
    }
}

impl ConfigError {
    /// The text shown to the user for this error.
    pub fn message(&self) -> (text: String)
        ensures
            text@ == match *self {
                ConfigError::MissingPath => "Usage: 'rusting <path/to/csv> [OPTIONAL] <workers>'"@,
                ConfigError::InvalidWorkerCount => "the worker count must be a non-negative integer"@,
            },
    {
        match self {
            ConfigError::MissingPath => String::from_str(
                "Usage: 'rusting <path/to/csv> [OPTIONAL] <workers>'",
            ),
            ConfigError::InvalidWorkerCount => String::from_str(
                "the worker count must be a non-negative integer",
            ),
        }
    }
}

} // verus!
