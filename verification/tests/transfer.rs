use pomodoro::domain::{AppData, TimerStatus};
use pomodoro::storage::Store;
use pomodoro::transfer::{
    csv_cell, export_destination_check, export_size_check, prepare_replacement, sessions_csv,
    timestamp_text,
};

#[test]
fn csv_escapes_text_and_neutralizes_spreadsheet_formulas() {
    assert_eq!(csv_cell("A,\"B\"\nC"), "\"A,\"\"B\"\"\nC\"");
    assert_eq!(csv_cell("=1+1"), "\"'=1+1\"");
    assert_eq!(csv_cell("  @SUM(A1)"), "\"'  @SUM(A1)\"");
    let mut data = AppData::default();
    data.create_task("Report", 1, 0);
    data.start_or_resume(1_000);
    data.skip(2_000);
    let csv = sessions_csv(&data);
    assert!(csv.contains("1970-01-01T00:00:01+00:00"));
    assert!(csv.contains("skipped"));
}

#[test]
fn a_csv_line_carries_every_field_of_a_session() {
    let mut data = AppData::default();
    data.create_task("Report", 1, 0);
    let id = data.tasks[0].id.clone();
    data.select_task(Some(id.clone()));
    data.start_or_resume(0);
    data.skip(30_000);
    let csv = sessions_csv(&data);
    let lines: Vec<&str> = csv.split("\r\n").collect();
    assert_eq!(
        lines[0],
        "id,phase,task_id,task_title,duration_seconds,started_at_utc,ended_at_utc,outcome"
    );
    assert_eq!(
        lines[1],
        format!(
            "\"{}\",\"focus\",\"{id}\",\"Report\",\"30\",\"1970-01-01T00:00:00+00:00\",\"1970-01-01T00:00:30+00:00\",\"skipped\"",
            data.sessions[0].id
        )
    );
    assert_eq!(lines[2], "");
    assert_eq!(csv_cell("\tx"), "\"'\tx\"");
    assert_eq!(csv_cell("-"), "\"'-\"");
    assert_eq!(csv_cell("a-b"), "\"a-b\"");
}

#[test]
fn a_moment_chrono_cannot_represent_is_written_as_milliseconds() {
    assert_eq!(timestamp_text(i64::MAX), i64::MAX.to_string());
    assert_eq!(timestamp_text(0), "1970-01-01T00:00:00+00:00");
}

#[test]
fn exports_fit_the_import_limit_and_stay_out_of_the_data_folder() {
    assert_eq!(export_size_check(100), Ok(()));
    assert!(export_size_check(32 * 1024 * 1024 + 1).unwrap_err().contains("32 MiB"));
    assert!(export_destination_check("/data/app", Some("/data/app")).is_err());
    assert!(export_destination_check("/data/app/backups", Some("/data/app")).is_err());
    assert_eq!(export_destination_check("/data/application", Some("/data/app")), Ok(()));
    assert_eq!(export_destination_check("/home/me", None), Ok(()));
}

#[test]
fn replacement_needs_a_writable_store_and_an_idle_timer() {
    let store = Store::new("/data");
    let mut current = AppData::default();
    current.banner_restore = Some(true);
    let mut imported = AppData::default();
    imported.create_task("After", 2, 20);
    let next = prepare_replacement(&store, &current, &imported).unwrap();
    assert_eq!(next.tasks[0].title, "After");
    assert_eq!(next.banner_restore, Some(true));

    current.create_task("Before", 1, 10);
    let id = current.tasks[0].id.clone();
    current.select_task(Some(id));
    current.start_or_resume(10);
    assert_eq!(current.timer.status, TimerStatus::Running);
    assert_eq!(
        prepare_replacement(&store, &current, &imported).unwrap_err(),
        "Reset the current interval before replacing your data."
    );
    let mut closed = Store::new("/data");
    closed.close();
    assert!(prepare_replacement(&closed, &AppData::default(), &imported)
        .unwrap_err()
        .contains("protected"));
}
