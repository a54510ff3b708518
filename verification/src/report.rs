//! Request outcomes and the report line that each one becomes.

use vstd::prelude::*;
use crate::text::{decimal, digit, digit_char, push_decimal};

verus! {

/// Seconds that a request may take before it counts as timed out.
pub const TIMEOUT_SECS: u64 = 30;

/// An HTTP status code: a number from 100 to 999.
#[derive(Clone, Copy, Debug, PartialEq, Eq)]
pub struct Status {
    code: u16,
}

impl View for Status {
    type V = u16;

    closed spec fn view(&self) -> u16 {
        self.code
    }
}

impl Status {
    #[verifier::type_invariant]
    spec fn in_range(self) -> bool {
        100 <= self.code <= 999
    }

    /// The status with the number `code`; `None` where `code` is no status
    /// code.
    pub fn new(code: u16) -> (out: Option<Status>)
        ensures
            out is Some <==> 100 <= code <= 999,
            out matches Some(status) ==> status@ == code,
    {
        if 100 <= code && code <= 999 {
            Some(Status { code })
        } else {
            None
        }
    }

    /// The number of this status.
    pub fn as_u16(&self) -> (code: u16)
        ensures
            code == self@,
            100 <= code <= 999,
    {
        proof {
            use_type_invariant(self);
        }
        self.code
    }
}

/// Wall-clock time that a request took: whole seconds and the nanoseconds
/// beyond them.
#[derive(Clone, Copy, Debug, PartialEq, Eq)]
pub struct Elapsed {
    pub secs: u64,
    pub nanos: u32,
}

impl Elapsed {
    /// The whole time in nanoseconds.
    pub open spec fn total_nanos(self) -> nat {
        (self.secs * 1_000_000_000 + self.nanos) as nat
    }

    /// Whether this is more than `secs` seconds.
    pub open spec fn exceeds(self, secs: u64) -> bool {
        self.total_nanos() > secs * 1_000_000_000
    }

    /// The time in hundredths of a second, rounded to the nearest; a time
    /// just between two hundredths goes to the even one.
    pub open spec fn hundredths(self) -> nat {
        let whole = self.total_nanos() / 10_000_000;
        let rest = self.total_nanos() % 10_000_000;
        if rest > 5_000_000 || (rest == 5_000_000 && whole % 2 == 1) {
            whole + 1
        } else {
            whole
        }
    }

    /// The time in seconds with two decimals, as a report shows it.
    pub open spec fn seconds_text(self) -> Seq<char> {
        let h = self.hundredths();
        decimal(h / 100) + seq!['.', digit((h / 10) % 10), digit(h % 10)]
    }

    /// Whether this is more than `secs` seconds.
    pub fn is_over(&self, secs: u64) -> (over: bool)
        ensures
            over == self.exceeds(secs),
    {
        let total: u128 = self.secs as u128 * 1_000_000_000 + self.nanos as u128;
        total > secs as u128 * 1_000_000_000
    }

    /// Appends the time in seconds, with two decimals, to `out`.
    pub fn push_seconds(&self, out: &mut String)
        ensures
            final(out)@ == old(out)@ + self.seconds_text(),
    {
        let total: u128 = self.secs as u128 * 1_000_000_000 + self.nanos as u128;
        let whole: u128 = total / 10_000_000;
        let rest: u128 = total % 10_000_000;
        let h: u128 = if rest > 5_000_000 || (rest == 5_000_000 && whole % 2 == 1) {
            whole + 1
        } else {
            whole
        };
        push_decimal(out, h / 100);
        out.push('.');
        out.push(digit_char(((h / 10) % 10) as u8));
        out.push(digit_char((h % 10) as u8));
        proof {
            let t = self.seconds_text();
            let d = decimal((h / 100) as nat);
            assert(final(out)@ == old(out)@ + d + seq!['.'] + seq![digit(((h / 10) % 10) as nat)]
                + seq![digit((h % 10) as nat)]);
            assert(d + seq!['.'] + seq![digit(((h / 10) % 10) as nat)] + seq![
                digit((h % 10) as nat),
            ] == t);
        }
    }
}

/// What came of one HTTP exchange, as the caller that made it saw it.
#[derive(Clone, Debug, PartialEq, Eq)]
pub enum Reply {
    /// A response arrived; `final_url` is the address that answered, after
    /// the client's own normalising and redirects.
    Answered { status: Status, final_url: String },
    /// The exchange failed below HTTP: no name, no connection, no valid
    /// address.
    Failed,
    /// The timer ran out first.
    TimedOut,
}

/// The mathematical value of a `Reply`.
pub enum ReplyView {
    Answered { status: u16, final_url: Seq<char> },
    Failed,
    TimedOut,
}

impl View for Reply {
    type V = ReplyView;

    open spec fn view(&self) -> ReplyView {
        match *self {
            Reply::Answered { status, final_url } => ReplyView::Answered {
                status: status@,
                final_url: final_url@,
            },
            Reply::Failed => ReplyView::Failed,
            Reply::TimedOut => ReplyView::TimedOut,
        }
    }
}

/// How one request ended.
#[derive(Clone, Debug, PartialEq, Eq)]
pub enum Outcome {
    Success { status: Status, final_url: String },
    Timeout,
    RequestFailure,
}

/// The mathematical value of an `Outcome`.
pub enum OutcomeView {
    Success { status: u16, final_url: Seq<char> },
    Timeout,
    RequestFailure,
}

impl View for Outcome {
    type V = OutcomeView;

    open spec fn view(&self) -> OutcomeView {
        match *self {
            Outcome::Success { status, final_url } => OutcomeView::Success {
                status: status@,
                final_url: final_url@,
            },
            Outcome::Timeout => OutcomeView::Timeout,
            Outcome::RequestFailure => OutcomeView::RequestFailure,
        }
    }
}

/// The outcome of a request that took `elapsed` and came to `reply`. A
/// request that took more than `TIMEOUT_SECS` timed out, whatever it came to.
pub open spec fn outcome_of(reply: ReplyView, elapsed: Elapsed) -> OutcomeView {
    if elapsed.exceeds(TIMEOUT_SECS) {
        OutcomeView::Timeout
    } else {
        match reply {
            ReplyView::Answered { status, final_url } => OutcomeView::Success { status, final_url },
            ReplyView::Failed => OutcomeView::RequestFailure,
            ReplyView::TimedOut => OutcomeView::Timeout,
        }
    }
}

/// Classifies one finished request. A request that took more than
/// `TIMEOUT_SECS` seconds is a timeout, whether it then answered, failed or
/// was cut off by the timer.
pub fn classify(reply: Reply, elapsed: Elapsed) -> (outcome: Outcome)
    ensures
        outcome@ == outcome_of(reply@, elapsed),
        elapsed.exceeds(TIMEOUT_SECS) || reply@ is TimedOut <==> outcome@ is Timeout,
{
    if elapsed.is_over(TIMEOUT_SECS) {
        Outcome::Timeout
    } else {
        match reply {
            Reply::Answered { status, final_url } => Outcome::Success { status, final_url },
            Reply::Failed => Outcome::RequestFailure,
            Reply::TimedOut => Outcome::Timeout,
        }
    }
}

/// One outcome with the worker that produced it, the URL token that it was
/// produced for, and the time it took.
#[derive(Clone, Debug, PartialEq, Eq)]
pub struct Report {
    pub worker: usize,
    pub url: String,
    pub outcome: Outcome,
    pub elapsed: Elapsed,
}

/// The mathematical value of a `Report`.
pub struct ReportView {
    pub worker: usize,
    pub url: Seq<char>,
    pub outcome: OutcomeView,
    pub elapsed: Elapsed,
}

impl View for Report {
    type V = ReportView;

    open spec fn view(&self) -> ReportView {
        ReportView {
            worker: self.worker,
            url: self.url@,
            outcome: self.outcome@,
            elapsed: self.elapsed,
        }
    }
}

/// The words that the `Display` of `reqwest::StatusCode` writes after the
/// number and the blank: the canonical reason of the code, or a fixed phrase
/// for a code that has none.
pub uninterp spec fn reason_phrase(code: u16) -> Seq<char>;

/// A status as a report shows it: the number, a blank, the reason.
pub open spec fn status_text(code: u16) -> Seq<char> {
    decimal(code as nat) + seq![' '] + reason_phrase(code)
}

/// `Display` of `reqwest::StatusCode`, through `to_string`, on the status
/// made by `StatusCode::from_u16`, which accepts every code from 100 to 999:
/// the number in decimal, one blank, and the reason phrase.
#[verifier::external_body]
fn status_string(code: u16) -> (text: String)
    requires
        100 <= code <= 999,
    ensures
        text@ == decimal(code as nat) + seq![' '] + reason_phrase(code),
{
    match reqwest::StatusCode::from_u16(code) {
        Ok(status) => status.to_string(),
        Err(_) => String::new(),
    }
}

impl ReportView {
    /// The address that the line shows: for a success the one that answered,
    /// else the token as it was dequeued.
    pub open spec fn shown_url(self) -> Seq<char> {
        match self.outcome {
            OutcomeView::Success { final_url, .. } => final_url,
            _ => self.url,
        }
    }

    /// The outcome as the line shows it.
    pub open spec fn outcome_text(self) -> Seq<char> {
        match self.outcome {
            OutcomeView::Success { status, .. } => status_text(status),
            OutcomeView::Timeout => "Timeout"@,
            OutcomeView::RequestFailure => "404 Not found"@,
        }
    }

    /// The report as one line of output, without the line's end.
    pub open spec fn line(self) -> Seq<char> {
        "[Worker "@ + decimal(self.worker as nat) + "]: "@ + self.shown_url() + " -> "@
            + self.outcome_text() + ": in "@ + self.elapsed.seconds_text() + "s"@
    }
}

impl Report {
    /// The report as one line of output, without the line's end.
    pub fn line(&self) -> (text: String)
        ensures
            text@ == self@.line(),
    {
        let mut out = String::from_str("[Worker ");
        push_decimal(&mut out, self.worker as u128);
        out.append("]: ");
        match &self.outcome {
            Outcome::Success { status, final_url } => {
                out.append(final_url.as_str());
                out.append(" -> ");
                let shown = status_string(status.as_u16());
                out.append(shown.as_str());
            },
            Outcome::Timeout => {
                out.append(self.url.as_str());
                out.append(" -> ");
                out.append("Timeout");
            },
            Outcome::RequestFailure => {
                out.append(self.url.as_str());
                out.append(" -> ");
                out.append("404 Not found");
            },
        }
        out.append(": in ");
        self.elapsed.push_seconds(&mut out);
        out.append("s");
        out
    }
}

} // verus!
