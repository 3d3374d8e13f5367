use vstd::prelude::*;
use vstd::string::StrSliceExecFns;
use crate::remediation::RemediationStep;

verus! {

/// One configured HTTP health check.
#[derive(Debug)]
pub struct CheckSpec {
    /// Name, unique within a host's configuration.
    pub name: String,
    /// URL probed with a GET.
    pub url: String,
    /// The one status code that counts as healthy.
    pub expect_status: u16,
    /// Steps run, in order, after a failed probe.
    pub remediation: Vec<RemediationStep>,
}

/// Pause between the end of one cycle and the start of the next.
#[derive(Clone, Copy, Debug, PartialEq, Eq, Structural)]
pub struct Interval {
    pub secs: u64,
    /// Below one second in every interval that `parse_interval` returns.
    pub nanos: u32,
}

/// Why a configuration value was refused.
#[derive(Clone, Copy, Debug, PartialEq, Eq, Structural)]
pub enum ConfigError {
    /// The interval text is not a duration, or has more digits than an
    /// interval is allowed.
    InvalidInterval,
}

#[verifier::external_type_specification]
#[verifier::external_body]
pub struct ExDurationError(humantime::DurationError);

/// The duration, as whole seconds and nanoseconds, that a text denotes in
/// humantime's duration syntax; `None` when it denotes none.
pub uninterp spec fn duration_in(text: Seq<char>) -> Option<(u64, u32)>;

/// Most decimal digits an interval text may hold. With this many, no sum of
/// its parts comes near the largest number of seconds, even in years.
pub const MAX_INTERVAL_DIGITS: usize = 11;

/// Number of ASCII decimal digits in a text.
pub open spec fn digit_count(text: Seq<char>) -> nat
    decreases text.len(),
{
    if text.len() == 0 {
        0
    } else {
        digit_count(text.drop_last()) + if '0' <= text.last() && text.last() <= '9' { 1nat } else { 0nat }
    }
}

/// Relies on humantime::parse_duration, which reads texts such as
/// "30s" or "1h 5min" and fails on anything else; the parts come from
/// std's Duration::as_secs and Duration::subsec_nanos. The bound on digits
/// keeps the sum of the parts far from the seconds limit, where the parser's
/// carry into `Duration::new` would panic.
#[verifier::external_body]
fn parse_duration_parts(text: &str) -> (r: Result<(u64, u32), humantime::DurationError>)
    requires
        digit_count(text@) <= MAX_INTERVAL_DIGITS,
    ensures
        match r {
            Ok(parts) => duration_in(text@) == Some(parts) && parts.1 < 1_000_000_000,
            Err(_) => duration_in(text@) is None,
        },
{
    humantime::parse_duration(text).map(|d| (d.as_secs(), d.subsec_nanos()))
}

/// The interval that a configured text denotes, if any.
pub open spec fn parse_interval_spec(text: Seq<char>) -> Option<Interval> {
    match duration_in(text) {
        Some(parts) => Some(Interval { secs: parts.0, nanos: parts.1 }),
        None => None,
    }
}

/// Counts the ASCII decimal digits of a text, stopping once there are more
/// than `MAX_INTERVAL_DIGITS`.
fn count_digits_capped(text: &str) -> (n: usize)
    ensures
        n <= MAX_INTERVAL_DIGITS + 1,
        n <= MAX_INTERVAL_DIGITS <==> digit_count(text@) <= MAX_INTERVAL_DIGITS,
        n <= MAX_INTERVAL_DIGITS ==> n == digit_count(text@),
{
    let len = text.unicode_len();
    let mut n: usize = 0;
    let mut i: usize = 0;
    while i < len
        invariant
            len == text@.len(),
            0 <= i <= len,
            n == digit_count(text@.subrange(0, i as int)),
            n <= MAX_INTERVAL_DIGITS,
        decreases len - i,
    {
        let c = text.get_char(i);
        proof {
            assert(text@.subrange(0, i + 1).drop_last() == text@.subrange(0, i as int));
        }
        if '0' <= c && c <= '9' {
            n = n + 1;
        }
        i = i + 1;
        if n > MAX_INTERVAL_DIGITS {
            proof {
                lemma_digit_count_prefix(text@, i as int);
            }
            return n;
        }
    }
    proof {
        assert(text@.subrange(0, len as int) == text@);
    }
    n
}

/// A text holds at least as many digits as any of its prefixes.
proof fn lemma_digit_count_prefix(text: Seq<char>, i: int)
    requires
        0 <= i <= text.len(),
    ensures
        digit_count(text.subrange(0, i)) <= digit_count(text),
    decreases text.len() - i,
{
    if i < text.len() {
        lemma_digit_count_prefix(text, i + 1);
        assert(text.subrange(0, i + 1).drop_last() == text.subrange(0, i));
    } else {
        assert(text.subrange(0, i) == text);
    }
}

/// Reads the interval between cycles from its configured text. A text with
/// more than `MAX_INTERVAL_DIGITS` digits is refused.
pub fn parse_interval(text: &str) -> (r: Result<Interval, ConfigError>)
    ensures
        digit_count(text@) > MAX_INTERVAL_DIGITS ==> r == Err::<Interval, ConfigError>(ConfigError::InvalidInterval),
        digit_count(text@) <= MAX_INTERVAL_DIGITS ==> match parse_interval_spec(text@) {
            Some(iv) => r == Ok::<Interval, ConfigError>(iv),
            None => r == Err::<Interval, ConfigError>(ConfigError::InvalidInterval),
        },
        r matches Ok(iv) ==> iv.nanos < 1_000_000_000,
{
    if count_digits_capped(text) > MAX_INTERVAL_DIGITS {
        return Err(ConfigError::InvalidInterval);
    }
    match parse_duration_parts(text) {
        Ok((secs, nanos)) => Ok(Interval { secs, nanos }),
        Err(_) => Err(ConfigError::InvalidInterval),
    }
}

} // verus!
