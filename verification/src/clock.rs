//! The local wall-clock time, as text.
use vstd::prelude::*;

verus! {

/// The `strftime` formats the agent uses: clock time in the activity log,
/// date and time in backup logs, and a path-safe date and time for snapshot
/// folders.
pub open spec fn is_time_format(fmt: Seq<char>) -> bool {
    ||| fmt == "%H:%M:%S"@
    ||| fmt == "%Y-%m-%d %H:%M:%S"@
    ||| fmt == "%Y-%m-%d_%H-%M-%S"@
}

/// Two ASCII digits at `i` and `i + 1`.
pub open spec fn two_digits(t: Seq<char>, i: int) -> bool {
    '0' <= t[i] <= '9' && '0' <= t[i + 1] <= '9'
}

/// The shape of `%H:%M:%S`: hours, minutes and seconds, each two digits,
/// separated by `:`.
pub open spec fn is_clock_text(t: Seq<char>) -> bool {
    &&& t.len() == 8
    &&& two_digits(t, 0)
    &&& t[2] == ':'
    &&& two_digits(t, 3)
    &&& t[5] == ':'
    &&& two_digits(t, 6)
}

/// A character of a snapshot stamp: an ASCII digit, `-`, `_` or `+`.
pub open spec fn is_stamp_char(c: char) -> bool {
    ('0' <= c <= '9') || c == '-' || c == '_' || c == '+'
}

/// The shape of `%Y-%m-%d_%H-%M-%S`: at least 19 characters, each a digit,
/// `-`, `_` or `+` (the year has at least four digits, and a sign outside
/// 0..=9999; the other fields are two digits each).
pub open spec fn is_snapshot_stamp(t: Seq<char>) -> bool {
    &&& t.len() >= 19
    &&& forall|i: int| 0 <= i < t.len() ==> #[trigger] is_stamp_char(t[i])
}

/// Calls `chrono::Local::now().format(fmt)` and renders it. The time depends on
/// the clock and the machine's time zone, so only the shape of the text is
/// stated, for the formats whose shape the callers need: chrono writes `%H`,
/// `%M`, `%S`, `%m` and `%d` as two digits, and `%Y` as at least four digits,
/// with a sign outside 0..=9999. The formats admitted are valid `strftime`
/// formats, so rendering does not fail. `Local::now` looks up the local time
/// zone and panics when that lookup fails (an environment fault that no
/// argument of this function decides).
#[verifier::external_body]
pub fn local_time(fmt: &str) -> (r: String)
    requires
        is_time_format(fmt@),
    ensures
        fmt@ == "%H:%M:%S"@ ==> is_clock_text(r@),
        fmt@ == "%Y-%m-%d_%H-%M-%S"@ ==> is_snapshot_stamp(r@),
{
    chrono::Local::now().format(fmt).to_string()
}

} // verus!
