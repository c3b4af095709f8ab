use pomodoro::schema::DecodeError;
use pomodoro::storage::{backup_file_name, obsolete_backups, SavePlan, Store};

#[test]
fn the_store_lives_in_its_data_directory() {
    let store = Store::new("/home/someone/.local/share/app.pomodoro.timer");
    assert_eq!(store.path(), "/home/someone/.local/share/app.pomodoro.timer/pomodoro.json");
    assert_eq!(store.directory(), "/home/someone/.local/share/app.pomodoro.timer");
    let trailing = Store::new("/data/");
    assert_eq!(trailing.path(), "/data/pomodoro.json");
    assert_eq!(trailing.directory(), "/data");
    assert!(store.is_writable());
    assert_eq!(store.ensure_writable(), Ok(()));
}

#[test]
fn a_newer_store_closes_the_store_to_writing() {
    let mut store = Store::new("/data");
    store.note_decoded(&Err(DecodeError::FutureVersion(2)));
    assert!(!store.is_writable());
    assert_eq!(
        store.ensure_writable(),
        Err("The local data file is protected. Repair it and restart Pomodoro before importing or clearing data.".to_string())
    );
    assert_eq!(store.save_plan(true), SavePlan::Skip);
}

#[test]
fn an_older_store_is_backed_up_at_the_first_save_only() {
    let mut store = Store::new("/data");
    store.note_decoded(&Ok(true));
    assert!(store.migration_pending());
    assert_eq!(store.save_plan(true), SavePlan::Write { backup_first: true });
    assert_eq!(store.save_plan(false), SavePlan::Write { backup_first: false });
    store.note_saved();
    assert_eq!(store.save_plan(true), SavePlan::Write { backup_first: false });
    store.note_decoded(&Err(DecodeError::Invalid("broken".into())));
    assert!(store.is_writable());
}

#[test]
fn an_unreadable_store_is_kept_under_a_dated_name() {
    let mut store = Store::new("/data");
    assert_eq!(store.aside_path(1_234), "/data/pomodoro.unreadable-1234.json");
    let data = store.after_set_aside(true, 1_234);
    assert!(data.tasks.is_empty());
    assert_eq!(
        data.recovered_store.as_deref(),
        Some("pomodoro.unreadable-1234.json")
    );
    assert!(store.is_writable());

    let lost = store.after_set_aside(false, 1_234);
    assert_eq!(lost.recovered_store, Some(String::new()));
    assert!(!store.is_writable(), "nothing may be saved over the only copy");
    assert_eq!(store.closed_store_data().recovered_store, Some(String::new()));
}

#[test]
fn recovery_point_names_sort_as_their_times() {
    assert_eq!(
        backup_file_name(42, "u"),
        "pomodoro-00000000000000000042-u.json"
    );
    assert_eq!(
        backup_file_name(-5, "u"),
        "pomodoro--0000000000000000005-u.json"
    );
    assert_eq!(
        backup_file_name(i64::MIN, "u"),
        "pomodoro--9223372036854775808-u.json"
    );
    assert!(backup_file_name(9, "z") < backup_file_name(10, "a"));
}

#[test]
fn rotation_keeps_the_five_newest_and_leaves_other_files_alone() {
    let names: Vec<String> = [
        "pomodoro-00000000000000000005-e.json",
        "notes.txt",
        "pomodoro-00000000000000000001-a.json",
        "pomodoro-00000000000000000003-c.json",
        "pomodoro-00000000000000000006-f.json",
        "pomodoro-00000000000000000002-b.json",
        "pomodoro-00000000000000000004-d.json",
        "pomodoro-00000000000000000000-new.json",
    ]
    .iter()
    .map(|n| n.to_string())
    .collect();
    let removed = obsolete_backups(&names, "pomodoro-00000000000000000000-new.json");
    // The new point sorts first here, as after a clock that went back, and
    // is kept all the same; of the others the four newest stay.
    assert_eq!(
        removed,
        [
            "pomodoro-00000000000000000001-a.json",
            "pomodoro-00000000000000000002-b.json",
        ]
    );
    assert!(obsolete_backups(&names[..3].to_vec(), "x").is_empty());
}

#[test]
fn recovery_points_made_in_the_same_millisecond_get_different_names() {
    let first = backup_file_name(100, "67e55044-10b1-426f-9247-bb680e5fe0c8");
    let second = backup_file_name(100, "0b4f7a36-4a55-4f3e-9b57-3c5c2ad1e2f0");
    assert_ne!(first, second);
    assert_eq!(
        first,
        "pomodoro-00000000000000000100-67e55044-10b1-426f-9247-bb680e5fe0c8.json"
    );
}

#[test]
fn temporary_files_get_hidden_names() {
    assert_eq!(
        pomodoro::storage::temporary_file_name("67e55044-10b1-426f-9247-bb680e5fe0c8"),
        ".pomodoro-67e55044-10b1-426f-9247-bb680e5fe0c8.tmp"
    );
}
