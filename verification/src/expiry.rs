//! Conversion of a calendar expiry, already reduced to a day count by the
//! issuing client, into the target height carried on a certificate.

use vstd::prelude::*;

verus! {

/// Heights per calendar day, at one height every twelve seconds.
pub const HEIGHTS_PER_DAY: u64 = 7200;

/// The height at which a certificate issued now should expire, given the
/// current height and the number of whole days until the expiry date.
///
/// A negative day count (an expiry date in the past) and a height that would
/// overflow the representable range are both rejected with `None`.
pub fn expiry_height(current_height: u64, days_until_expiry: i64) -> (r: Option<u64>)
    ensures
        days_until_expiry < 0 ==> r is None,
        days_until_expiry >= 0 ==> {
            let target = current_height + days_until_expiry * HEIGHTS_PER_DAY;
            &&& target <= u64::MAX ==> r == Some::<u64>(target as u64)
            &&& target > u64::MAX ==> r is None
        },
{
    if days_until_expiry < 0 {
        return None;
    }
    let days = days_until_expiry as u64;
    match days.checked_mul(HEIGHTS_PER_DAY) {
        Some(span) => current_height.checked_add(span),
        None => None,
    }
}

} // verus!
