use pomodoro::sound::theme::{
    data_home_from, find_event_file, inherits, parse_theme_name, safe_theme_name,
    system_sounds_from, theme_chain, theme_name_from, EXTENSION_COUNT,
};
use pomodoro::sound::Cue;
use std::collections::HashSet;

const SYSTEM_SOUNDS: &str = "/usr/share/sounds";

fn system_sounds() -> Vec<String> {
    vec![SYSTEM_SOUNDS.to_string()]
}

/// The file for a cue's own id, in a theme that inherits from nothing.
fn find_sound_file(
    cue: Cue,
    theme: Option<&str>,
    data_home: Option<&str>,
    exists: impl Fn(&str) -> bool,
) -> Option<String> {
    find_event_file(
        cue.event_id(),
        &theme_chain(theme, |_: &str| None),
        data_home,
        &system_sounds(),
        &exists,
    )
}

fn only(paths: &[&str]) -> impl Fn(&str) -> bool {
    let present: HashSet<String> = paths.iter().map(|p| p.to_string()).collect();
    move |path: &str| present.contains(path)
}

#[test]
fn the_users_theme_is_searched_before_the_systems_and_the_stock_themes_last() {
    let home = "/home/someone/.local/share";
    let everywhere = [
        "/home/someone/.local/share/sounds/Ocean/complete.oga",
        "/home/someone/.local/share/sounds/Ocean/stereo/complete.oga",
        "/usr/share/sounds/Ocean/stereo/complete.oga",
        "/usr/share/sounds/Yaru/stereo/complete.oga",
        "/usr/share/sounds/freedesktop/stereo/complete.oga",
    ];
    for (index, expected) in everywhere.iter().enumerate() {
        let found = find_sound_file(
            Cue::TaskDone,
            Some("Ocean"),
            Some(home),
            only(&everywhere[index..]),
        );
        assert_eq!(found, Some(expected.to_string()));
    }
    assert_eq!(
        find_sound_file(Cue::TaskDone, Some("Ocean"), Some(home), only(&[])),
        None
    );
}

#[test]
fn a_custom_theme_keeps_its_files_directly_in_the_theme_directory() {
    let found = find_sound_file(
        Cue::TaskDone,
        Some("__custom"),
        Some("/home/someone/.local/share"),
        only(&[
            "/home/someone/.local/share/sounds/__custom/complete.ogg",
            "/usr/share/sounds/freedesktop/stereo/complete.oga",
        ]),
    );
    assert_eq!(
        found,
        Some("/home/someone/.local/share/sounds/__custom/complete.ogg".to_string())
    );
}

#[test]
fn without_a_theme_or_a_data_home_the_stock_themes_are_still_searched() {
    let stock = "/usr/share/sounds/freedesktop/stereo/complete.oga";
    assert_eq!(
        find_sound_file(Cue::TaskDone, None, None, only(&[stock])),
        Some(stock.to_string())
    );
    let system = "/usr/share/sounds/Ocean/stereo/complete.oga";
    assert_eq!(
        find_sound_file(Cue::TaskDone, Some("Ocean"), None, only(&[system, stock])),
        Some(system.to_string())
    );
}

#[test]
fn within_a_directory_oga_comes_before_ogg_and_ogg_before_wav() {
    let directory = "/usr/share/sounds/freedesktop/stereo";
    let all = [
        format!("{directory}/complete.oga"),
        format!("{directory}/complete.ogg"),
        format!("{directory}/complete.wav"),
    ];
    let all: Vec<&str> = all.iter().map(String::as_str).collect();
    for index in 0..all.len() {
        assert_eq!(
            find_sound_file(Cue::TaskDone, None, None, only(&all[index..])),
            Some(all[index].to_string())
        );
    }
    let yaru_wav = "/usr/share/sounds/Yaru/stereo/complete.wav";
    assert_eq!(
        find_sound_file(Cue::TaskDone, None, None, only(&[yaru_wav, all[0]])),
        Some(yaru_wav.to_string())
    );
}

#[test]
fn a_theme_name_that_could_leave_the_sounds_directory_is_not_used() {
    let home = "/home/someone/.local/share";
    for name in ["../../../etc", "..", "a/b", "/etc", "Yaru/../..", ""] {
        let asked = std::cell::RefCell::new(Vec::new());
        let found = find_sound_file(Cue::TaskDone, Some(name), Some(home), |path: &str| {
            asked.borrow_mut().push(path.to_string());
            false
        });
        assert_eq!(found, None);
        let asked = asked.into_inner();
        assert_eq!(asked.len(), 2 * 3 * EXTENSION_COUNT, "{name:?}: {asked:?}");
        assert!(
            asked.iter().all(|path| {
                ["Yaru", "freedesktop"].iter().any(|stock| {
                    path.starts_with(&format!("{home}/sounds/{stock}/"))
                        || path.starts_with(&format!("{SYSTEM_SOUNDS}/{stock}/"))
                })
            }),
            "{name:?} was looked for: {asked:?}"
        );
    }
}

#[test]
fn the_theme_name_is_what_gsettings_printed_without_its_quotes() {
    assert_eq!(parse_theme_name("'Yaru'\n"), Some("Yaru".to_string()));
    assert_eq!(
        parse_theme_name("'__custom'\n"),
        Some("__custom".to_string())
    );
    assert_eq!(parse_theme_name("\"it's\"\n"), Some("it's".to_string()));
    assert_eq!(parse_theme_name("''\n"), None);
    assert_eq!(parse_theme_name(""), None);
    assert_eq!(parse_theme_name("'../../etc'\n"), None);
    assert_eq!(parse_theme_name("'a/b'\n"), None);
}

#[test]
fn the_data_home_is_xdg_data_home_or_dot_local_share() {
    let os = |text: &str| Some(text.to_string());
    assert_eq!(
        data_home_from(os("/data"), os("/home/someone")),
        Some("/data".to_string())
    );
    assert_eq!(
        data_home_from(None, os("/home/someone")),
        Some("/home/someone/.local/share".to_string())
    );
    assert_eq!(
        data_home_from(os("data"), os("/home/someone")),
        Some("/home/someone/.local/share".to_string())
    );
    assert_eq!(
        data_home_from(os(""), os("/home/someone")),
        Some("/home/someone/.local/share".to_string())
    );
    assert_eq!(data_home_from(None, None), None);
    assert_eq!(data_home_from(None, os("somewhere")), None);
}

#[test]
fn the_system_sounds_are_in_each_of_xdg_data_dirs() {
    let os = |text: &str| Some(text.to_string());
    let paths = |list: &[&str]| list.iter().map(|p| p.to_string()).collect::<Vec<_>>();
    assert_eq!(
        system_sounds_from(os("/run/current-system/sw/share:/usr/share")),
        paths(&["/run/current-system/sw/share/sounds", "/usr/share/sounds"])
    );
    let default = paths(&["/usr/local/share/sounds", "/usr/share/sounds"]);
    assert_eq!(system_sounds_from(None), default);
    assert_eq!(system_sounds_from(os("")), default);
    assert_eq!(
        system_sounds_from(os("share:/usr/share::/usr/share")),
        paths(&["/usr/share/sounds"])
    );

    let nix = "/run/current-system/sw/share/sounds/freedesktop/stereo/complete.oga";
    assert_eq!(
        find_event_file(
            "complete",
            &theme_chain(None, |_: &str| None),
            None,
            &system_sounds_from(os("/run/current-system/sw/share:/usr/share")),
            &only(&[nix])
        ),
        Some(nix.to_string())
    );
}

#[test]
fn a_theme_is_searched_along_what_it_inherits_from_and_the_stock_themes_last() {
    let index = |theme: &str| match theme {
        "Mine" => {
            Some("[Sound Theme]\nName=Mine\nInherits=Ocean, Deep\nDirectories=.\n".to_string())
        }
        "Ocean" => Some("Inherits = Yaru".to_string()),
        "Deep" => Some("Inherits=Mine,../../etc".to_string()),
        _ => None,
    };
    assert_eq!(
        theme_chain(Some("Mine"), index),
        ["Mine", "Ocean", "Deep", "Yaru", "freedesktop"]
    );
    assert_eq!(theme_chain(None, |_: &str| None), ["Yaru", "freedesktop"]);
    assert_eq!(theme_chain(Some("../x"), |_: &str| None), ["Yaru", "freedesktop"]);

    let deep = "/usr/share/sounds/Deep/stereo/complete.oga";
    assert_eq!(
        find_event_file(
            "complete",
            &theme_chain(Some("Mine"), index),
            None,
            &system_sounds(),
            &only(&[deep])
        ),
        Some(deep.to_string())
    );
}

#[test]
fn inherits_reads_every_inherits_line_and_skips_unsafe_names() {
    assert_eq!(inherits("Inherits=a, b\r\nInherits = c\nInheritsX=d\n"), ["a", "b", "c"]);
    assert_eq!(inherits("Inherits=.., x/y, ok"), ["ok"]);
    assert!(inherits("Name=Nothing").is_empty());
    assert_eq!(safe_theme_name("Yaru"), Some("Yaru"));
    assert_eq!(safe_theme_name("a..b"), None);
}

#[test]
fn a_chain_is_cut_short_and_a_failed_query_names_no_theme() {
    let endless = |theme: &str| Some(format!("Inherits={theme}x"));
    let chain = theme_chain(Some("t"), endless);
    assert_eq!(chain.len(), 8 + 2);
    assert_eq!(chain[0], "t");
    assert_eq!(theme_name_from(false, "'Yaru'"), None);
    assert_eq!(theme_name_from(true, "'Yaru'"), Some("Yaru".to_string()));
}

#[test]
fn a_data_directory_written_two_ways_is_searched_once() {
    assert_eq!(
        system_sounds_from(Some("/usr/share/:/usr//share".to_string())),
        vec!["/usr/share/sounds".to_string()]
    );
    assert!(pomodoro::paths::same_path("/usr//share/", "/usr/share"));
    assert!(!pomodoro::paths::same_path("/usr/share", "/usr/shared"));
}
