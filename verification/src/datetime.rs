use vstd::prelude::*;

use crate::errors::DatetimeError;
use crate::value::ConfigValue;

verus! {

/// A point on the UTC timeline: whole seconds since the Unix epoch and a
/// sub-second nanosecond part.
#[derive(Clone, Copy, PartialEq, Eq, Structural, Debug)]
pub struct UtcInstant {
    pub secs: i64,
    pub nanos: u32,
}

/// The instant that an RFC 3339 date-time text denotes, as UTC epoch
/// seconds and sub-second nanoseconds, or nothing when the text is not a
/// well-formed RFC 3339 date-time.
pub uninterp spec fn rfc3339_parsed(s: Seq<char>) -> Option<(i64, u32)>;

/// The RFC 3339 text that denotes an instant, rendered with a `+00:00`
/// offset, or nothing when the instant lies outside the representable
/// calendar range.
pub uninterp spec fn rfc3339_text(secs: i64, nanos: u32) -> Option<Seq<char>>;

/// Relies on chrono's `DateTime::parse_from_rfc3339`: the parse outcome
/// depends on the text alone; the parsed instant is read out as its UTC
/// epoch seconds and sub-second nanoseconds.
#[verifier::external_body]
fn parse_rfc3339_str(s: &str) -> (r: Option<UtcInstant>)
    ensures
        r == (match rfc3339_parsed(s@) {
            Some(p) => Some(UtcInstant { secs: p.0, nanos: p.1 }),
            None => None::<UtcInstant>,
        }),
{
    match chrono::DateTime::parse_from_rfc3339(s) {
        Ok(dt) => Some(UtcInstant { secs: dt.timestamp(), nanos: dt.timestamp_subsec_nanos() }),
        Err(_) => None,
    }
}

/// Relies on chrono's `DateTime::from_timestamp` (which yields nothing for
/// an out-of-range instant) and `DateTime::<Utc>::to_rfc3339`: the rendered
/// text depends on the instant alone.
#[verifier::external_body]
fn format_rfc3339_utc(secs: i64, nanos: u32) -> (r: Option<String>)
    ensures
        (match (r, rfc3339_text(secs, nanos)) {
            (Some(s), Some(t)) => s@ == t,
            (None, None) => true,
            _ => false,
        }),
{
    chrono::DateTime::from_timestamp(secs, nanos).map(|dt| dt.to_rfc3339())
}

impl UtcInstant {
    /// True when `self` is strictly earlier than `other` on the timeline.
    pub open spec fn lt_spec(self, other: UtcInstant) -> bool {
        self.secs < other.secs || (self.secs == other.secs && self.nanos < other.nanos)
    }

    /// True when `self` is strictly earlier than `other` on the timeline.
    pub fn is_before(&self, other: &UtcInstant) -> (r: bool)
        ensures
            r == self.lt_spec(*other),
    {
        self.secs < other.secs || (self.secs == other.secs && self.nanos < other.nanos)
    }

    /// The RFC 3339 text for this instant, with a `+00:00` offset, or
    /// nothing when the instant lies outside the representable range.
    pub fn to_rfc3339(&self) -> (r: Option<String>)
        ensures
            (match (r, rfc3339_text(self.secs, self.nanos)) {
                (Some(s), Some(t)) => s@ == t,
                (None, None) => true,
                _ => false,
            }),
    {
        format_rfc3339_utc(self.secs, self.nanos)
    }
}

/// What decoding a feed value as an RFC 3339 date-time yields: the denoted
/// instant for well-formed text, and otherwise the error that names what
/// was wrong — not a string, not UTF-8, or not RFC 3339.
pub open spec fn rfc3339_decoded(value: ConfigValue) -> Result<UtcInstant, DatetimeError> {
    match value {
        ConfigValue::Text(s) => match rfc3339_parsed(s@) {
            Some(p) => Ok(UtcInstant { secs: p.0, nanos: p.1 }),
            None => Err(DatetimeError::InvalidFormat),
        },
        ConfigValue::Binary(_) => Err(DatetimeError::InvalidUtf8),
        _ => Err(DatetimeError::NotText),
    }
}

/// Decodes one feed value as an RFC 3339 date-time. Only a UTF-8 string
/// value that parses as RFC 3339 is accepted; the error says whether the
/// value was no string, no UTF-8 text, or text in another format.
pub fn as_rfc3339_datetime(value: &ConfigValue) -> (r: Result<UtcInstant, DatetimeError>)
    ensures
        r == rfc3339_decoded(*value),
{
    match value {
        ConfigValue::Text(s) => match parse_rfc3339_str(s.as_str()) {
            Some(t) => Ok(t),
            None => Err(DatetimeError::InvalidFormat),
        },
        ConfigValue::Binary(_) => Err(DatetimeError::InvalidUtf8),
        _ => Err(DatetimeError::NotText),
    }
}

} // verus!
