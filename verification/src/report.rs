//! Reporting an event to the server's admins: which reports are refused.
use vstd::prelude::*;
use crate::error::{Error, ErrorKind};

verus! {

/// The longest reason a report may give, in characters.
pub open spec fn max_reason_chars() -> nat {
    250
}

/// A report is refused (`InvalidParam`) when the event is unknown, when its
/// score lies outside -100 to 0, or when its reason is longer than 250
/// characters, in that order.
pub open spec fn report_check_spec(
    event_known: bool,
    score: Option<i64>,
    reason: Option<Seq<char>>,
) -> bool {
    event_known && !(score matches Some(s) && (s > 0 || s < -100)) && !(reason matches Some(r)
        && r.len() > max_reason_chars())
}

/// Checks a report.
pub fn report_check(event_known: bool, score: Option<i64>, reason: Option<&str>) -> (r: Result<
    (),
    Error,
>)
    ensures
        r is Ok <==> report_check_spec(
            event_known,
            score,
            match reason {
                Some(x) => Some(x@),
                None => None,
            },
        ),
        r matches Err(e) ==> e.kind == ErrorKind::InvalidParam && e.message@ == (if !event_known {
            "Invalid Event ID"@
        } else if score matches Some(s) && (s > 0 || s < -100) {
            "Invalid score, must be within 0 to -100"@
        } else {
            "Reason too long, should be 250 characters or fewer"@
        }),
{
    if !event_known {
        return Err(Error::new(ErrorKind::InvalidParam, "Invalid Event ID"));
    }
    if let Some(s) = score {
        if s > 0 || s < -100 {
            return Err(Error::new(ErrorKind::InvalidParam, "Invalid score, must be within 0 to -100"));
        }
    }
    if let Some(x) = reason {
        if x.unicode_len() > 250 {
            return Err(
                Error::new(
                    ErrorKind::InvalidParam,
                    "Reason too long, should be 250 characters or fewer",
                ),
            );
        }
    }
    Ok(())
}

} // verus!
