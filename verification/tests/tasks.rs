use chrono::NaiveDate;
use chrono::Utc;
use tasks::DateFormatError;
use tasks::Task;

#[test]
fn test_task_creation_with_valid_date() {
    let description = "Test task";
    let deadline = "2024-12-31";
    let task = Task::new(1, description, deadline);

    assert_eq!(task.id, 1);
    assert_eq!(task.description, description);
    assert!(task.created <= Utc::now().timestamp());
    assert!(task.deadline > task.created);
    assert!(!task.completed);
}

#[test]
fn test_task_creation_with_past_date() {
    let description = "Test task";
    let past_date = "2000-01-01";
    let task = Task::new(2, description, past_date);

    assert_eq!(task.id, 2);
    assert_eq!(task.description, description);
    assert!(task.created <= Utc::now().timestamp());
    assert!(task.deadline > task.created);
    assert!(!task.completed);
}

#[test]
fn test_task_creation_with_invalid_date() {
    let description = "Test task";
    let invalid_date = "invalid-date";
    let task = Task::new(3, description, invalid_date);

    assert_eq!(task.id, 3);
    assert_eq!(task.description, description);
    assert!(task.created <= Utc::now().timestamp());
    assert!(task.deadline > task.created);
    assert!(!task.completed);
}

#[test]
fn test_parse_date_with_valid_date() {
    let valid_date = "2024-12-31";
    let parsed_date = Task::parse_date(valid_date).unwrap();
    let expected_date = NaiveDate::from_ymd_opt(2024, 12, 31)
        .and_then(|d| d.and_hms_opt(0, 0, 0))
        .unwrap()
        .and_utc()
        .timestamp();

    assert_eq!(parsed_date, expected_date);
}

#[test]
fn test_parse_date_with_invalid_date() {
    let invalid_date = "invalid-date";
    let parsed_date = Task::parse_date(invalid_date);

    assert!(parsed_date.is_err());
}

#[test]
fn parse_date_exact_timestamp() {
    assert_eq!(Task::parse_date("2024-12-31"), Ok(1735603200));
    assert_eq!(Task::parse_date("1970-01-01"), Ok(0));
    assert_eq!(Task::parse_date("1970-01-02"), Ok(86400));
    assert_eq!(Task::parse_date("2000-01-01"), Ok(946684800));
}

#[test]
fn parse_date_agrees_with_chrono() {
    let cases = [
        (1999, 12, 31, "1999-12-31"),
        (2000, 2, 29, "2000-02-29"),
        (2024, 2, 29, "2024-02-29"),
        (2026, 10, 12, "2026-10-12"),
        (9999, 12, 31, "9999-12-31"),
        (0, 1, 1, "0000-01-01"),
    ];
    for (y, m, d, text) in cases {
        let expected = NaiveDate::from_ymd_opt(y, m, d)
            .and_then(|date| date.and_hms_opt(0, 0, 0))
            .unwrap()
            .and_utc()
            .timestamp();
        assert_eq!(Task::parse_date(text), Ok(expected));
    }
}

#[test]
fn parse_date_rejects_wrong_separator() {
    assert!(Task::parse_date("2024:12:31").is_err());
    assert!(Task::parse_date("2024/12/31").is_err());
    assert!(Task::parse_date("2024-12.31").is_err());
}

#[test]
fn parse_date_rejects_wrong_shape() {
    assert!(Task::parse_date("").is_err());
    assert!(Task::parse_date("2024-1-31").is_err());
    assert!(Task::parse_date("24-12-31").is_err());
    assert!(Task::parse_date("2024-12-3").is_err());
    assert!(Task::parse_date("2024-12-311").is_err());
    assert!(Task::parse_date("2024-12-3a").is_err());
    assert!(Task::parse_date("12-31-2024").is_err());
    assert!(Task::parse_date(" 2024-12-31").is_err());
}

#[test]
fn parse_date_rejects_impossible_days() {
    assert!(Task::parse_date("2024-13-01").is_err());
    assert!(Task::parse_date("2024-00-15").is_err());
    assert!(Task::parse_date("2024-01-00").is_err());
    assert!(Task::parse_date("2024-01-32").is_err());
    assert!(Task::parse_date("2024-02-30").is_err());
    assert!(Task::parse_date("2023-02-29").is_err());
    assert!(Task::parse_date("1900-02-29").is_err());
    assert!(Task::parse_date("2024-04-31").is_err());
}

#[test]
fn parse_date_handles_leap_years() {
    assert!(Task::parse_date("2024-02-29").is_ok());
    assert!(Task::parse_date("2000-02-29").is_ok());
    assert_eq!(Task::parse_date("2023-02-29"), Err(DateFormatError));
}

#[test]
fn parse_date_error_value_and_message() {
    let err = Task::parse_date("invalid-date").unwrap_err();
    assert_eq!(err, DateFormatError);
    assert_eq!(
        err.message(),
        "not a calendar date in year-month-day form"
    );
}

#[test]
fn future_deadline_is_kept() {
    let created = 1_000_000_000;
    let task = Task::new_at(1, "Test task", "2024-12-31", created);

    assert_eq!(task.id, 1);
    assert_eq!(task.description, "Test task");
    assert_eq!(task.created, created);
    assert_eq!(task.deadline, 1735603200);
    assert!(task.deadline > task.created);
    assert!(!task.completed);
}

#[test]
fn past_deadline_falls_back_one_day() {
    let created = 1_700_000_000;
    let task = Task::new_at(2, "Test task", "2000-01-01", created);

    assert_eq!(task.created, created);
    assert_eq!(task.deadline, created + 86400);
    assert!(!task.completed);
}

#[test]
fn unparseable_deadline_falls_back_one_day() {
    let created = 1_700_000_000;
    let task = Task::new_at(3, "Test task", "invalid-date", created);

    assert_eq!(task.created, created);
    assert_eq!(task.deadline, created + 86400);
    assert!(!task.completed);
}

#[test]
fn deadline_equal_to_creation_falls_back() {
    let midnight = 1735603200;
    let task = Task::new_at(4, "Test task", "2024-12-31", midnight);
    assert_eq!(task.deadline, midnight + 86400);

    let just_before = Task::new_at(5, "Test task", "2024-12-31", midnight - 1);
    assert_eq!(just_before.deadline, midnight);
}

#[test]
fn description_and_id_stored_verbatim() {
    let task = Task::new_at(u64::MAX, "", "2100-01-01", 0);
    assert_eq!(task.id, u64::MAX);
    assert_eq!(task.description, "");

    let spaced = Task::new_at(7, "  padded  text  ", "not a date", 5);
    assert_eq!(spaced.description, "  padded  text  ");
    assert_eq!(spaced.deadline, 5 + 86400);
}

#[test]
fn epoch_creation_gets_day_one_fallback() {
    let task = Task::new_at(8, "Test task", "1960-01-01", 0);
    assert_eq!(task.created, 0);
    assert_eq!(task.deadline, 86400);
}
