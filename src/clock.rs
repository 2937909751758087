//! The time of day shown beside a message.
use vstd::prelude::*;
use crate::json::{digit as decimal_digit, digit_char};
use crate::text::push_char;

verus! {

/// The offset of the clock shown, in seconds east of UTC.
pub const SHOWN_OFFSET_SECONDS: i64 = 32400;

/// The instant that an RFC 3339 timestamp names, in seconds since the Unix
/// epoch; `None` when the text is not such a timestamp.
pub uninterp spec fn rfc3339_seconds(s: Seq<char>) -> Option<i64>;

/// Relies on chrono's FromStr for DateTime<Utc> and DateTime::timestamp:
/// parses the timestamp and gives its whole seconds since the epoch.
#[verifier::external_body]
pub fn utc_seconds(ts: &str) -> (r: Option<i64>)
    ensures
        r == rfc3339_seconds(ts@),
{
    match ts.parse::<chrono::DateTime<chrono::Utc>>() {
        Ok(d) => Some(d.timestamp()),
        Err(_) => None,
    }
}

/// The two-digit text of `n`, for `n` below 100.
pub open spec fn two_digits(n: int) -> Seq<char> {
    seq![decimal_digit((n / 10) as nat), decimal_digit((n % 10) as nat)]
}

/// The second of the day at instant `secs` on the shown clock.
pub open spec fn second_of_day(secs: i64) -> int {
    (secs + SHOWN_OFFSET_SECONDS) % 86400
}

/// The `HH:MM` text of instant `secs` on the shown clock.
pub open spec fn clock_text_of(secs: i64) -> Seq<char> {
    two_digits(second_of_day(secs) / 3600) + seq![':'] + two_digits((second_of_day(secs) % 3600) / 60)
}


/// Writes instant `secs` as `HH:MM` on the shown clock.
pub fn clock_text(secs: i64) -> (r: String)
    ensures
        r@ == clock_text_of(secs),
{
    let shifted: i128 = secs as i128 + SHOWN_OFFSET_SECONDS as i128 + 86400 * 106751991167301;
    let sod: i128 = shifted % 86400;
    proof {
        vstd::arithmetic::div_mod::lemma_mod_multiples_vanish(
            106751991167301,
            secs + SHOWN_OFFSET_SECONDS,
            86400,
        );
        assert(86400 * 106751991167301 + (secs + SHOWN_OFFSET_SECONDS) == shifted);
    }
    assert(sod == second_of_day(secs));
    let hours = (sod / 3600) as u64;
    let minutes = ((sod % 3600) / 60) as u64;
    let mut r = String::new();
    push_char(&mut r, digit_char(hours / 10));
    push_char(&mut r, digit_char(hours % 10));
    push_char(&mut r, ':');
    push_char(&mut r, digit_char(minutes / 10));
    push_char(&mut r, digit_char(minutes % 10));
    assert(r@ =~= clock_text_of(secs));
    r
}

/// The time of day of a message's timestamp, as `HH:MM` on the shown clock,
/// or `??:??` when the timestamp cannot be read.
pub fn format_timestamp(ts: &str) -> (r: String)
    ensures
        rfc3339_seconds(ts@) matches Some(secs) ==> r@ == clock_text_of(secs),
        rfc3339_seconds(ts@) is None ==> r@ == "??:??"@,
{
    match utc_seconds(ts) {
        Some(secs) => clock_text(secs),
        None => String::from_str("??:??"),
    }
}

} // verus!
