use pomodoro::paths::starts_with_path;
use pomodoro::quiet::{read_banners_args, show_banners_from, write_banners_args, written_from};
use pomodoro::system::without_the_bundle;

fn vars(list: &[(&str, &str)]) -> Vec<(String, String)> {
    list.iter()
        .map(|(name, value)| (name.to_string(), value.to_string()))
        .collect()
}

fn change<'a>(changes: &'a [(String, Option<String>)], name: &str) -> Option<&'a Option<String>> {
    changes
        .iter()
        .find(|(changed, _)| changed == name)
        .map(|(_, value)| value)
}

#[test]
fn only_what_points_into_the_bundle_is_taken_out() {
    let appdir = "/tmp/.mount_PomoXYZ";
    let changes = without_the_bundle(
        &vars(&[
            (
                "LD_LIBRARY_PATH",
                "/tmp/.mount_PomoXYZ/usr/lib:/home/me/pipewire/lib",
            ),
            (
                "GSETTINGS_SCHEMA_DIR",
                "/tmp/.mount_PomoXYZ/usr/share/glib-2.0/schemas",
            ),
            (
                "PATH",
                "/tmp/.mount_PomoXYZ/usr/bin:/usr/local/bin:/usr/bin",
            ),
            ("HOME", "/home/me"),
            ("GDK_BACKEND", "x11"),
        ]),
        appdir,
    );

    assert_eq!(
        change(&changes, "LD_LIBRARY_PATH"),
        Some(&Some("/home/me/pipewire/lib".to_string()))
    );
    assert_eq!(change(&changes, "GSETTINGS_SCHEMA_DIR"), Some(&None));
    assert_eq!(
        change(&changes, "PATH"),
        Some(&Some("/usr/local/bin:/usr/bin".to_string()))
    );
    assert_eq!(change(&changes, "HOME"), None, "untouched, not rewritten");
    assert_eq!(change(&changes, "GDK_BACKEND"), None);
}

#[test]
fn a_directory_that_merely_starts_with_the_same_letters_is_not_the_bundle() {
    let changes = without_the_bundle(
        &vars(&[(
            "XDG_DATA_DIRS",
            "/tmp/.mount_PomoXYZ-other/share:/usr/share",
        )]),
        "/tmp/.mount_PomoXYZ",
    );
    assert!(changes.is_empty());
}

#[test]
fn entries_are_kept_in_order_and_paths_compare_by_component() {
    let appdir = "/tmp/.mount_PomodXYZ";
    let changes = without_the_bundle(
        &vars(&[
            ("PATH", "/usr/bin:/bin"),
            ("XDG_DATA_DIRS", "/tmp/.mount_PomodXYZ/usr/share::/usr/share"),
        ]),
        appdir,
    );
    assert_eq!(
        changes,
        vec![("XDG_DATA_DIRS".to_string(), Some(":/usr/share".to_string()))]
    );
    assert!(starts_with_path("/a/b/c", "/a/b"));
    assert!(starts_with_path("/a/b", "/a/b/"));
    assert!(starts_with_path("/a//b/./c", "/a/b"));
    assert!(!starts_with_path("/a/bc", "/a/b"));
    assert!(!starts_with_path("a/b", "/a"));
}

#[test]
fn the_banner_setting_is_read_and_written_through_gsettings() {
    assert_eq!(read_banners_args(), ["get", "org.gnome.desktop.notifications", "show-banners"]);
    assert_eq!(
        write_banners_args(false),
        ["set", "org.gnome.desktop.notifications", "show-banners", "false"]
    );
    assert_eq!(show_banners_from(true, "true\n"), Some(true));
    assert_eq!(show_banners_from(true, " false "), Some(false));
    assert_eq!(show_banners_from(true, "maybe"), None);
    assert_eq!(show_banners_from(false, "true"), None);
    assert_eq!(written_from(true, "ignored"), Ok(()));
    assert_eq!(
        written_from(false, "  No such schema\n"),
        Err("gsettings refused to set org.gnome.desktop.notifications show-banners: No such schema".to_string())
    );
}
