use contratos::dates::Date;
use contratos::stats::{DailyAggregate, Statistics};

fn today() -> Date {
    Date { year: 2026, month: 3, day: 15 }
}

fn days_before(today: Date, date: Date) -> u64 {
    today.day_number() - date.day_number()
}

fn row(date: Date, amount: i64, count: i64) -> DailyAggregate {
    DailyAggregate { date, amount, count }
}

#[test]
fn test_compute_statistics_empty_database() {
    let stats = Statistics::compute(&vec![], today());
    assert_eq!(stats.total_spent_last_365_days, 0);
    assert_eq!(stats.contracts_last_365_days, 0);
    assert_eq!(stats.total_spent_last_30_days, 0);
    assert_eq!(stats.contracts_last_30_days, 0);
    assert_eq!(stats.total_spent_last_7_days, 0);
    assert_eq!(stats.contracts_last_7_days, 0);
}

#[test]
fn test_compute_statistics_with_recent_contracts() {
    let yesterday = Date { year: 2026, month: 3, day: 14 };
    let fifteen_days_ago = Date { year: 2026, month: 2, day: 28 };
    let hundred_days_ago = Date { year: 2025, month: 12, day: 5 };
    assert_eq!(days_before(today(), yesterday), 1);
    assert_eq!(days_before(today(), fifteen_days_ago), 15);
    assert_eq!(days_before(today(), hundred_days_ago), 100);

    let daily = vec![
        row(yesterday, 1000, 1),
        row(fifteen_days_ago, 2000, 1),
        row(hundred_days_ago, 3000, 1),
    ];
    let stats = Statistics::compute(&daily, today());

    assert_eq!(stats.total_spent_last_365_days, 6000);
    assert_eq!(stats.contracts_last_365_days, 3);
    assert_eq!(stats.total_spent_last_30_days, 3000);
    assert_eq!(stats.contracts_last_30_days, 2);
    assert_eq!(stats.total_spent_last_7_days, 1000);
    assert_eq!(stats.contracts_last_7_days, 1);
}

#[test]
fn test_compute_statistics_old_contracts_excluded() {
    let yesterday = Date { year: 2026, month: 3, day: 14 };
    let four_hundred_days_ago = Date { year: 2025, month: 2, day: 8 };
    assert_eq!(days_before(today(), four_hundred_days_ago), 400);

    let daily = vec![
        row(four_hundred_days_ago, 5000, 1),
        row(yesterday, 1000, 1),
    ];
    let stats = Statistics::compute(&daily, today());

    assert_eq!(stats.total_spent_last_365_days, 1000);
    assert_eq!(stats.contracts_last_365_days, 1);
}

#[test]
fn window_boundary_is_inclusive() {
    // a row exactly 7 days old is inside the trailing 7-day window
    let week_ago = Date { year: 2026, month: 3, day: 8 };
    assert_eq!(days_before(today(), week_ago), 7);
    let stats = Statistics::compute(&vec![row(week_ago, 500, 1)], today());
    assert_eq!(stats.total_spent_last_7_days, 500);
    assert_eq!(stats.contracts_last_7_days, 1);
    // the store query puts no upper bound on the window, so a future-dated
    // row counts too
    let tomorrow = Date { year: 2026, month: 3, day: 16 };
    let stats = Statistics::compute(&vec![row(tomorrow, 100, 1)], today());
    assert_eq!(stats.total_spent_last_7_days, 100);
}

#[test]
fn day_numbers_rise_one_per_day() {
    let feb28 = Date { year: 2024, month: 2, day: 28 };
    let feb29 = Date { year: 2024, month: 2, day: 29 };
    let mar1 = Date { year: 2024, month: 3, day: 1 };
    assert_eq!(feb28.day_number() + 1, feb29.day_number());
    assert_eq!(feb29.day_number() + 1, mar1.day_number());
    let dec31 = Date { year: 2023, month: 12, day: 31 };
    let jan1 = Date { year: 2024, month: 1, day: 1 };
    assert_eq!(dec31.day_number() + 1, jan1.day_number());
}
