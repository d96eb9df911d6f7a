//! The current date and time.

use crate::date::{
    iso_date_text, iso_week_spec, lemma_week_ranges, reads_as, time_text, weekday_name,
    LocalDateTime, Moment,
};
use crate::tools::info::quarter_of;
use crate::types::responses::NowResponse;
use vstd::prelude::*;

verus! {

/// Whether `r` describes the moment `now`.
pub open spec fn is_now_of(r: NowResponse, now: Moment) -> bool {
    &&& r.date@ == iso_date_text(now.date)
    &&& reads_as(r.date@, now.date)
    &&& r.time@ == time_text(now.hour, now.minute, now.second, now.nanosecond)
    &&& r.day_of_week@ == weekday_name(now.date.weekday())
    &&& r.day_of_year == now.date.ordinal()
    &&& r.week_of_year == iso_week_spec(now.date)
    &&& r.quarter == quarter_of(now.date.month)
}

/// The numbers of an answer stay in the ranges of the calendar: the quarter
/// from 1 to 4, the day of the year from 1 to 366 and the week from 1 to 53.
pub proof fn lemma_now_ranges(r: NowResponse, now: Moment)
    requires
        now.valid(),
        is_now_of(r, now),
    ensures
        1 <= r.quarter <= 4,
        1 <= r.day_of_year <= 366,
        1 <= r.week_of_year <= 53,
{
    lemma_week_ranges(now.date);
}

/// Describes the current moment. `now` is the local date and time as the
/// clock of the host gave it.
pub fn ucm_now(now: LocalDateTime) -> (r: NowResponse)
    ensures
        is_now_of(r, now@),
{
    let date = now.date();
    let month = date.month();
    NowResponse {
        date: date.format_iso(),
        time: now.format_time(),
        day_of_week: date.weekday_name(),
        day_of_year: date.ordinal(),
        week_of_year: date.iso_week(),
        quarter: (month - 1) / 3 + 1,
    }
}

} // verus!
