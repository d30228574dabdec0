use loki_cli::aggregate::{end_label, parse_record, top_rows, Aggregation, CommitAggregator};
use loki_cli::dates::{timestamp_label, Date};
use loki_cli::error::StatsError;
use loki_cli::graph::{bar_length, parse_graph_line, render_graph, BAR_WIDTH};
use loki_cli::text::parse_i64;
use loki_cli::timerange::{resolve_time_range, validate_stats_options, RepoStatsOptions, TimeRange};

fn date(y: i32, m: u32, d: u32) -> Date {
    Date::from_ymd(y, m, d).unwrap()
}

// 2024-03-31 12:00:00 UTC
const NOW: i64 = 1_711_886_400;

fn unbounded() -> TimeRange {
    resolve_time_range(&RepoStatsOptions::default(), NOW).unwrap()
}

#[test]
fn dates_have_day_numbers_and_labels() {
    assert_eq!(date(1970, 1, 1).epoch_day, 0);
    assert_eq!(date(2005, 9, 10).epoch_day, 13036);
    assert_eq!(date(2024, 1, 1).label(), Some(String::from("2024-01-01")));
    assert!(Date::from_ymd(2023, 2, 29).is_none());
    assert_eq!(date(2024, 1, 1).start_timestamp(), 1_704_067_200);
    assert_eq!(date(2024, 1, 1).end_timestamp(), 1_704_153_599);
    assert_eq!(timestamp_label(NOW), Some(String::from("2024-03-31")));
}

#[test]
fn range_without_options_is_unbounded() {
    let r = unbounded();
    assert_eq!(r.start_ts, None);
    assert_eq!(r.end_ts, i64::MAX);
    assert_eq!(r.start_label, "initial commit");
    assert_eq!(r.end_label, "latest commit");
    assert!(r.end_is_latest);
}

#[test]
fn range_rejects_days_with_weeks() {
    let mut o = RepoStatsOptions::default();
    o.days = Some(3);
    o.weeks = Some(1);
    assert_eq!(resolve_time_range(&o, NOW).err(), Some(StatsError::ConflictingWindows));
}

#[test]
fn range_rejects_zero_months() {
    let mut o = RepoStatsOptions::default();
    o.months = Some(0);
    assert_eq!(resolve_time_range(&o, NOW).err(), Some(StatsError::ZeroMonths));
}

#[test]
fn range_rejects_zero_days_and_weeks() {
    let mut o = RepoStatsOptions::default();
    o.days = Some(0);
    assert_eq!(resolve_time_range(&o, NOW).err(), Some(StatsError::ZeroDays));
    let mut o = RepoStatsOptions::default();
    o.weeks = Some(0);
    assert_eq!(resolve_time_range(&o, NOW).err(), Some(StatsError::ZeroWeeks));
}

#[test]
fn range_rejects_from_after_to() {
    let mut o = RepoStatsOptions::default();
    o.from = Some(date(2024, 2, 2));
    o.to = Some(date(2024, 2, 1));
    assert_eq!(resolve_time_range(&o, NOW).err(), Some(StatsError::StartAfterEnd));
}

#[test]
fn range_rejects_from_in_the_future() {
    let mut o = RepoStatsOptions::default();
    o.from = Some(date(2024, 4, 1));
    assert_eq!(resolve_time_range(&o, NOW).err(), Some(StatsError::StartAfterEnd));
}

#[test]
fn range_from_to_is_whole_days() {
    let mut o = RepoStatsOptions::default();
    o.from = Some(date(2024, 1, 1));
    o.to = Some(date(2024, 1, 31));
    let r = resolve_time_range(&o, NOW).unwrap();
    assert_eq!(r.start_ts, Some(1_704_067_200));
    assert_eq!(r.end_ts, 1_706_745_599);
    assert_eq!(r.start_label, "2024-01-01");
    assert_eq!(r.end_label, "2024-01-31");
    assert!(!r.end_is_latest);
}

#[test]
fn range_days_counts_back_from_now() {
    let mut o = RepoStatsOptions::default();
    o.days = Some(3);
    let r = resolve_time_range(&o, NOW).unwrap();
    assert_eq!(r.start_ts, Some(NOW - 3 * 86400));
    assert_eq!(r.start_label, "2024-03-28 (last 3 days)");
    let mut o = RepoStatsOptions::default();
    o.days = Some(1);
    let r = resolve_time_range(&o, NOW).unwrap();
    assert_eq!(r.start_label, "2024-03-30 (last 1 day)");
}

#[test]
fn range_weeks_counts_back_from_to() {
    let mut o = RepoStatsOptions::default();
    o.weeks = Some(2);
    o.to = Some(date(2024, 1, 31));
    let r = resolve_time_range(&o, NOW).unwrap();
    assert_eq!(r.start_ts, Some(1_706_745_599 - 14 * 86400));
    assert_eq!(r.start_label, "2024-01-17 (last 2 weeks)");
}

#[test]
fn range_months_clamps_to_month_end() {
    let mut o = RepoStatsOptions::default();
    o.months = Some(1);
    let r = resolve_time_range(&o, NOW).unwrap();
    assert_eq!(r.start_label, "2024-02-29 (last 1 month)");
    assert_eq!(r.start_ts, Some(date(2024, 2, 29).start_timestamp()));
    let mut o = RepoStatsOptions::default();
    o.months = Some(3);
    let r = resolve_time_range(&o, NOW).unwrap();
    assert_eq!(r.start_label, "2023-12-31 (last 3 months)");
}

#[test]
fn range_days_far_back_is_out_of_range() {
    let mut o = RepoStatsOptions::default();
    o.days = Some(u32::MAX);
    assert_eq!(resolve_time_range(&o, NOW).err(), Some(StatsError::DateOutOfRange));
}

#[test]
fn zero_top_is_rejected() {
    let mut o = RepoStatsOptions::default();
    o.top = Some(0);
    assert_eq!(validate_stats_options(&o, NOW).err(), Some(StatsError::ZeroTop));
    o.top = Some(1);
    assert!(validate_stats_options(&o, NOW).is_ok());
}

#[test]
fn records_parse_and_fail_fast() {
    let rec = parse_record("1700000000\tAda Lovelace\t ada@example.com \n").unwrap().unwrap();
    assert_eq!(rec.timestamp, 1_700_000_000);
    assert_eq!(rec.name, "Ada Lovelace");
    assert_eq!(rec.email, "ada@example.com");
    assert!(parse_record("   ").unwrap().is_none());
    assert_eq!(
        parse_record("1700000000\tAda").err(),
        Some(StatsError::MalformedRecord(String::from("1700000000\tAda")))
    );
    assert_eq!(
        parse_record("\tAda\tada@x").err(),
        Some(StatsError::MalformedRecord(String::from("Ada\tada@x")))
    );
    assert_eq!(
        parse_record("soon\tAda\tada@x").err(),
        Some(StatsError::BadTimestamp(String::from("soon")))
    );
    let rec = parse_record("-5\t\t \tx").unwrap().unwrap();
    assert_eq!(rec.timestamp, -5);
    assert_eq!(rec.name, "");
    assert_eq!(rec.email, "x");
}

#[test]
fn integers_parse_like_std() {
    assert_eq!(parse_i64("+42"), Some(42));
    assert_eq!(parse_i64("-9223372036854775808"), Some(i64::MIN));
    assert_eq!(parse_i64("9223372036854775807"), Some(i64::MAX));
    assert_eq!(parse_i64("9223372036854775808"), None);
    assert_eq!(parse_i64("-"), None);
    assert_eq!(parse_i64(""), None);
    assert_eq!(parse_i64("1 "), None);
}

#[test]
fn no_matching_commits_is_explicit() {
    let range = unbounded();
    let mut agg = CommitAggregator::new(&range, &vec![String::from("nobody")], &Vec::new());
    agg.add_line("1700000000\tAda\tada@example.com").unwrap();
    agg.add_line("").unwrap();
    assert_eq!(agg.total(), 0);
    assert!(matches!(agg.finish(), Aggregation::NoCommits));
}

#[test]
fn aggregation_counts_sorts_and_labels() {
    let range = unbounded();
    let mut agg = CommitAggregator::new(&range, &Vec::new(), &Vec::new());
    for line in [
        "1700000300\tbob\talias@x.com",
        "1700000200\tbob\tbob@x.com",
        "1700000100\tcarol\tcarol@x.com",
        "1700000000\t\tzed@x.com",
        "1699999900\tcarol\tcarol@x.com",
        "1699999800\tbob\tbob@x.com",
    ] {
        agg.add_line(line).unwrap();
    }
    match agg.finish() {
        Aggregation::Tally(t) => {
            assert_eq!(t.total, 6);
            assert_eq!(
                t.entries,
                vec![
                    (String::from("alias@x.com"), 3),
                    (String::from("carol@x.com"), 2),
                    (String::from("zed@x.com"), 1),
                ]
            );
            assert_eq!(
                t.labels,
                vec![
                    String::from("bob <alias@x.com>"),
                    String::from("carol <carol@x.com>"),
                    String::from("zed@x.com"),
                ]
            );
            assert_eq!(t.latest_day, Some(19675));
            assert_eq!(end_label(&range, t.latest_day), "2023-11-14 (latest commit)");
            let rows = top_rows(&t, Some(2));
            assert_eq!(
                rows,
                vec![
                    (String::from("bob <alias@x.com>"), 3),
                    (String::from("carol <carol@x.com>"), 2),
                ]
            );
        }
        Aggregation::NoCommits => panic!("commits were counted"),
    }
}

#[test]
fn aggregation_filters_by_window_inclusive() {
    let mut o = RepoStatsOptions::default();
    o.from = Some(date(2023, 11, 14));
    o.to = Some(date(2023, 11, 14));
    let range = resolve_time_range(&o, NOW).unwrap();
    let mut agg = CommitAggregator::new(&range, &Vec::new(), &Vec::new());
    agg.add_line("1700006399\ta\ta@x").unwrap();
    agg.add_line("1700006400\tb\tb@x").unwrap();
    agg.add_line("1699920000\tc\tc@x").unwrap();
    agg.add_line("1699919999\td\td@x").unwrap();
    assert_eq!(agg.total(), 2);
    assert_eq!(end_label(&range, None), "2023-11-14");
}

#[test]
fn aggregation_errors_on_malformed_line() {
    let range = unbounded();
    let mut agg = CommitAggregator::new(&range, &Vec::new(), &Vec::new());
    assert!(matches!(agg.add_line("garbage"), Err(StatsError::MalformedRecord(_))));
    assert_eq!(
        agg.add_line("9223372036854775807\ta\ta@x"),
        Err(StatsError::TimestampOutOfRange(i64::MAX))
    );
}

#[test]
fn ties_are_broken_by_key() {
    let range = unbounded();
    let mut agg = CommitAggregator::new(&range, &Vec::new(), &Vec::new());
    agg.add_line("3\tb\tb@x").unwrap();
    agg.add_line("2\ta\ta@x").unwrap();
    match agg.finish() {
        Aggregation::Tally(t) => {
            assert_eq!(t.entries[0].0, "a@x");
            assert_eq!(t.entries[1].0, "b@x");
        }
        Aggregation::NoCommits => panic!("commits were counted"),
    }
}

#[test]
fn bars_are_proportional_with_a_floor() {
    assert_eq!(BAR_WIDTH, 40);
    assert_eq!(bar_length(10, 10), 40);
    assert_eq!(bar_length(5, 10), 20);
    assert_eq!(bar_length(1, 1000), 1);
    assert_eq!(bar_length(0, 10), 0);
}

#[test]
fn graph_lines_are_exact() {
    let rows = vec![(String::from("bob <b@x>"), 4), (String::from("a@x"), 1)];
    let lines = render_graph(&rows);
    assert_eq!(lines.len(), 2);
    assert_eq!(lines[0], format!("{} (4) bob <b@x>", "#".repeat(40)));
    assert_eq!(lines[1], format!("{}{} (1) a@x", "#".repeat(10), " ".repeat(30)));
}

#[test]
fn graph_round_trips_counts() {
    let rows = vec![
        (String::from("x (7) y"), 1234567),
        (String::from(""), 3),
        (String::from("a) b"), 1),
    ];
    let lines = render_graph(&rows);
    let back: Vec<(String, usize)> = lines.iter().map(|l| parse_graph_line(l).unwrap()).collect();
    assert_eq!(back, rows);
    assert_eq!(parse_graph_line("too short"), None);
}
