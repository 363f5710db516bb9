use ktimetracker::datetime::{now_epoch, parse_civil, parse_datetime, CivilDateTime, DateError};
use ktimetracker::duration::{decimal_string, format_duration};
use ktimetracker::report::{
    error_response, no_activity_sentinel, render_current, render_summary_table, resolve_display,
    Action, ActivityInfo,
};
use ktimetracker::timeline::Timeline;

#[test]
fn durations_render_as_h_m_s_with_zero_units_omitted() {
    assert_eq!(format_duration(0), "0s");
    assert_eq!(format_duration(59), "59s");
    assert_eq!(format_duration(60), "1m");
    assert_eq!(format_duration(61), "1m 1s");
    assert_eq!(format_duration(3600), "1h");
    assert_eq!(format_duration(3601), "1h 1s");
    assert_eq!(format_duration(3661), "1h 1m 1s");
    assert_eq!(format_duration(7322), "2h 2m 2s");
    assert_eq!(format_duration(86400), "24h");
}

#[test]
fn decimal_rendering_is_plain_base_ten() {
    assert_eq!(decimal_string(0), "0");
    assert_eq!(decimal_string(7), "7");
    assert_eq!(decimal_string(10), "10");
    assert_eq!(decimal_string(12345), "12345");
    assert_eq!(decimal_string(1000000), "1000000");
}

#[test]
fn parse_accepts_the_three_documented_shapes() {
    assert_eq!(
        parse_civil("2024-01-15 10:30:05"),
        Some(CivilDateTime {
            year: 2024,
            month: 1,
            day: 15,
            hour: 10,
            minute: 30,
            second: 5
        })
    );
    assert_eq!(
        parse_civil("2024-01-15"),
        Some(CivilDateTime {
            year: 2024,
            month: 1,
            day: 15,
            hour: 0,
            minute: 0,
            second: 0
        })
    );
    assert_eq!(
        parse_civil("15/01/2024"),
        Some(CivilDateTime {
            year: 2024,
            month: 1,
            day: 15,
            hour: 0,
            minute: 0,
            second: 0
        })
    );
}

#[test]
fn parse_rejects_malformed_and_impossible_dates() {
    assert_eq!(parse_civil("not-a-date"), None);
    assert_eq!(parse_civil(""), None);
    assert_eq!(parse_civil("2024-1-5"), None);
    assert_eq!(parse_civil("2024/01/15"), None);
    assert_eq!(parse_civil("2024-13-01"), None);
    assert_eq!(parse_civil("2024-00-10"), None);
    assert_eq!(parse_civil("2024-01-32"), None);
    assert_eq!(parse_civil("2023-02-29"), None);
    assert_eq!(parse_civil("2024-01-15 24:00:00"), None);
    assert_eq!(parse_civil("2024-01-15 10:60:00"), None);
    assert_eq!(parse_civil("2024-01-15T10:30:05"), None);
    assert_eq!(parse_civil("32/01/2024"), None);
}

#[test]
fn parse_knows_leap_years() {
    assert!(parse_civil("2024-02-29").is_some());
    assert!(parse_civil("2000-02-29").is_some());
    assert_eq!(parse_civil("1900-02-29"), None);
    assert_eq!(parse_civil("2100-02-29"), None);
}

#[test]
fn parse_datetime_reports_bad_format_exactly_on_rejected_text() {
    assert_eq!(parse_datetime("not-a-date"), Err(DateError::BadFormat));
    assert_eq!(parse_datetime("2024-02-30"), Err(DateError::BadFormat));
    assert!(parse_datetime("2024-01-15").is_ok());
    assert!(parse_datetime("2024-01-15 10:30:05").is_ok());
}

#[test]
fn parsed_consecutive_days_are_a_day_apart() {
    let d1 = parse_datetime("2024-01-15").unwrap();
    let d2 = parse_datetime("2024-01-16").unwrap();
    assert_eq!(d2 - d1, 86400);
    let t1 = parse_datetime("2024-01-15 00:00:00").unwrap();
    assert_eq!(t1, d1);
    let t2 = parse_datetime("2024-01-15 01:02:03").unwrap();
    assert_eq!(t2 - t1, 3723);
}

#[test]
fn malformed_start_time_yields_error_and_leaves_storage_unmodified() {
    let mut t = Timeline::new();
    t.switch_activity("a", 100);
    let before: Vec<(String, i64, Option<i64>)> = t
        .records()
        .iter()
        .map(|r| (r.name.clone(), r.start, r.end))
        .collect();

    // A Summary request whose start_time does not parse never reaches the
    // timeline; the client gets a single error line.
    let start_time = "not-a-date";
    let response = match parse_datetime(start_time) {
        Ok(_) => panic!("malformed date must not parse"),
        Err(_) => error_response("Failed to parse start_time"),
    };
    assert_eq!(response, "Error: Failed to parse start_time\n");

    let after: Vec<(String, i64, Option<i64>)> = t
        .records()
        .iter()
        .map(|r| (r.name.clone(), r.start, r.end))
        .collect();
    assert_eq!(before, after);
}

#[test]
fn clock_reads_nonnegative_epoch_seconds() {
    assert!(now_epoch() >= 0);
}

#[test]
fn current_report_lists_name_description_and_elapsed() {
    assert_eq!(
        render_current("Work", "Deep work", Some(3661)),
        "Current Activity: Work\nDescription: Deep work\nElapsed Time: 1h 1m 1s\n"
    );
    assert_eq!(
        render_current("No current activity", "", None),
        "Current Activity: No current activity\nDescription: \nElapsed Time: N/A\n"
    );
}

#[test]
fn summary_table_sizes_columns_to_content() {
    let rows = vec![
        ("Work".to_string(), "1h".to_string()),
        ("VeryLongActivityName".to_string(), "59s".to_string()),
    ];
    let expected = "---------------------+--------\n\
                    Activity             | Duration\n\
                    ---------------------+--------\n\
                    Work                 | 1h      \n\
                    VeryLongActivityName | 59s     \n\
                    ---------------------+--------\n";
    assert_eq!(render_summary_table(&rows), expected);
}

#[test]
fn empty_summary_table_is_headers_between_separators() {
    let rows: Vec<(String, String)> = Vec::new();
    let expected = "---------+--------\n\
                    Activity | Duration\n\
                    ---------+--------\n\
                    ---------+--------\n";
    assert_eq!(render_summary_table(&rows), expected);
}

#[test]
fn unknown_activities_fall_back_to_their_identifier() {
    let (name, desc) = resolve_display(
        "uuid-1234".to_string(),
        ActivityInfo {
            name: String::new(),
            description: "ignored".to_string(),
        },
    );
    assert_eq!(name, "uuid-1234");
    assert_eq!(desc, "");

    let (name, desc) = resolve_display(
        "uuid-1234".to_string(),
        ActivityInfo {
            name: "Work".to_string(),
            description: "Deep work".to_string(),
        },
    );
    assert_eq!(name, "Work");
    assert_eq!(desc, "Deep work");
}

#[test]
fn the_no_activity_sentinel_matches_the_protocol() {
    assert_eq!(no_activity_sentinel(), "No current activity");
}

#[test]
fn actions_carry_their_window_bounds() {
    let a = Action::Summary {
        start_time: Some("2024-01-15".to_string()),
        end_time: None,
    };
    match a {
        Action::Summary {
            start_time,
            end_time,
        } => {
            assert_eq!(start_time.as_deref(), Some("2024-01-15"));
            assert!(end_time.is_none());
        }
        Action::Current => panic!("expected a summary request"),
    }
    assert!(matches!(Action::Current, Action::Current));
}

#[test]
fn error_lines_carry_the_message() {
    assert_eq!(error_response("boom"), "Error: boom\n");
    assert_eq!(error_response(""), "Error: \n");
}
