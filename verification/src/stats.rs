//! The statistics rollup: totals and counts of contract spending over the
//! trailing 365, 30 and 7 days.
//!
//! The relational store keeps one aggregate row per publication day; the
//! rollup sums those rows over each trailing window, anchored on today.

use vstd::prelude::*;

use crate::dates::Date;

verus! {

/// One row of the daily spending aggregate: a publication day, the summed
/// amount in cents, and the number of contracts.
#[derive(Clone, Copy, PartialEq, Eq, Structural, Debug)]
pub struct DailyAggregate {
    pub date: Date,
    pub amount: i64,
    pub count: i64,
}

/// The published rollup of trailing-window spending.
#[derive(Clone, Copy, PartialEq, Eq, Structural, Debug, Default)]
pub struct Statistics {
    pub total_spent_last_365_days: i64,
    pub contracts_last_365_days: i64,
    pub total_spent_last_30_days: i64,
    pub contracts_last_30_days: i64,
    pub total_spent_last_7_days: i64,
    pub contracts_last_7_days: i64,
}

/// Whether a day falls within the trailing window of `days` days ending
/// today: at or after today minus `days` (with no upper bound, as the store
/// query has none).
pub open spec fn in_window(d: Date, today: Date, days: int) -> bool {
    d.spec_day_number() + days >= today.spec_day_number()
}

/// The summed amount of the rows within the window.
pub open spec fn window_amount(rows: Seq<DailyAggregate>, today: Date, days: int) -> int
    decreases rows.len(),
{
    if rows.len() == 0 {
        0
    } else {
        window_amount(rows.drop_last(), today, days) + if in_window(
            rows.last().date,
            today,
            days,
        ) {
            rows.last().amount as int
        } else {
            0
        }
    }
}

/// The summed contract count of the rows within the window.
pub open spec fn window_count(rows: Seq<DailyAggregate>, today: Date, days: int) -> int
    decreases rows.len(),
{
    if rows.len() == 0 {
        0
    } else {
        window_count(rows.drop_last(), today, days) + if in_window(
            rows.last().date,
            today,
            days,
        ) {
            rows.last().count as int
        } else {
            0
        }
    }
}

impl Statistics {
    /// Compute the rollup from the daily aggregate rows, anchored on
    /// `today`. Each window's total and count is the sum over the rows whose
    /// day lies within it; the requirement only asks that those six sums fit
    /// their fields.
    pub fn compute(daily: &Vec<DailyAggregate>, today: Date) -> (r: Statistics)
        requires
            today.valid(),
            forall|i: int| 0 <= i < daily@.len() ==> (#[trigger] daily@[i]).date.valid(),
            i64::MIN <= window_amount(daily@, today, 365) <= i64::MAX,
            i64::MIN <= window_count(daily@, today, 365) <= i64::MAX,
            i64::MIN <= window_amount(daily@, today, 30) <= i64::MAX,
            i64::MIN <= window_count(daily@, today, 30) <= i64::MAX,
            i64::MIN <= window_amount(daily@, today, 7) <= i64::MAX,
            i64::MIN <= window_count(daily@, today, 7) <= i64::MAX,
        ensures
            r.total_spent_last_365_days as int == window_amount(daily@, today, 365),
            r.contracts_last_365_days as int == window_count(daily@, today, 365),
            r.total_spent_last_30_days as int == window_amount(daily@, today, 30),
            r.contracts_last_30_days as int == window_count(daily@, today, 30),
            r.total_spent_last_7_days as int == window_amount(daily@, today, 7),
            r.contracts_last_7_days as int == window_count(daily@, today, 7),
    {
        let n = daily.len();
        let today_day = today.day_number();
        let mut amount_365: i128 = 0;
        let mut count_365: i128 = 0;
        let mut amount_30: i128 = 0;
        let mut count_30: i128 = 0;
        let mut amount_7: i128 = 0;
        let mut count_7: i128 = 0;
        let mut i: usize = 0;
        while i < n
            invariant
                i <= n,
                n == daily@.len(),
                today.valid(),
                today_day == today.spec_day_number(),
                forall|k: int| 0 <= k < daily@.len() ==> (#[trigger] daily@[k]).date.valid(),
                amount_365 == window_amount(daily@.take(i as int), today, 365),
                count_365 == window_count(daily@.take(i as int), today, 365),
                amount_30 == window_amount(daily@.take(i as int), today, 30),
                count_30 == window_count(daily@.take(i as int), today, 30),
                amount_7 == window_amount(daily@.take(i as int), today, 7),
                count_7 == window_count(daily@.take(i as int), today, 7),
                -0x8000_0000_0000_0000i128 * (i as i128) <= amount_365
                    <= 0x8000_0000_0000_0000i128 * (i as i128),
                -0x8000_0000_0000_0000i128 * (i as i128) <= count_365
                    <= 0x8000_0000_0000_0000i128 * (i as i128),
                -0x8000_0000_0000_0000i128 * (i as i128) <= amount_30
                    <= 0x8000_0000_0000_0000i128 * (i as i128),
                -0x8000_0000_0000_0000i128 * (i as i128) <= count_30
                    <= 0x8000_0000_0000_0000i128 * (i as i128),
                -0x8000_0000_0000_0000i128 * (i as i128) <= amount_7
                    <= 0x8000_0000_0000_0000i128 * (i as i128),
                -0x8000_0000_0000_0000i128 * (i as i128) <= count_7
                    <= 0x8000_0000_0000_0000i128 * (i as i128),
            decreases n - i,
        {
            let row = daily[i];
            let row_day = row.date.day_number();
            proof {
                assert(daily@.take(i as int + 1).drop_last() =~= daily@.take(i as int));
                assert(daily@.take(i as int + 1).last() == daily@[i as int]);
                assert((i + 1) as i128 * 0x8000_0000_0000_0000i128 == i as i128
                    * 0x8000_0000_0000_0000i128 + 0x8000_0000_0000_0000i128);
            }
            if row_day + 365 >= today_day {
                amount_365 = amount_365 + row.amount as i128;
                count_365 = count_365 + row.count as i128;
            }
            if row_day + 30 >= today_day {
                amount_30 = amount_30 + row.amount as i128;
                count_30 = count_30 + row.count as i128;
            }
            if row_day + 7 >= today_day {
                amount_7 = amount_7 + row.amount as i128;
                count_7 = count_7 + row.count as i128;
            }
            i += 1;
        }
        proof {
            assert(daily@.take(n as int) =~= daily@);
        }
        Statistics {
            total_spent_last_365_days: amount_365 as i64,
            contracts_last_365_days: count_365 as i64,
            total_spent_last_30_days: amount_30 as i64,
            contracts_last_30_days: count_30 as i64,
            total_spent_last_7_days: amount_7 as i64,
            contracts_last_7_days: count_7 as i64,
        }
    }
}

} // verus!
