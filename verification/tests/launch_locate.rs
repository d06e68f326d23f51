//! Tests for the launcher decisions and the path locator.

use typora_launcher::Platform;
use typora_launcher::auto_detect_typora_path;
use typora_launcher::fixed_candidates;
use typora_launcher::launch_typora_command;
use typora_launcher::launch_typora_outcome;
use typora_launcher::open_url_outcome;
use typora_launcher::registry_choice;
use typora_launcher::registry_dir_join;
use typora_launcher::url_spawn_plan;

#[test]
fn launch_unset_is_configuration_missing() {
    let r = launch_typora_command(&None);
    let err = r.unwrap_err();
    assert_eq!(err, "请先配置 Typora 路径");
    assert!(err.contains("配置 Typora 路径"));
}

#[test]
fn launch_empty_behaves_as_unset() {
    let r = launch_typora_command(&Some(String::new()));
    assert_eq!(r, Err(String::from("请先配置 Typora 路径")));
}

#[test]
fn launch_configured_spawns_that_path() {
    let r = launch_typora_command(&Some(String::from("/usr/bin/true")));
    assert_eq!(r, Ok(String::from("/usr/bin/true")));
}

#[test]
fn launch_does_not_validate_the_path() {
    let r = launch_typora_command(&Some(String::from("/nonexistent/binary")));
    assert_eq!(r, Ok(String::from("/nonexistent/binary")));
}

#[test]
fn launch_outcome_success() {
    assert_eq!(launch_typora_outcome(None), Ok(()));
}

#[test]
fn launch_outcome_wraps_os_error() {
    let r = launch_typora_outcome(Some("No such file or directory (os error 2)"));
    assert_eq!(
        r,
        Err(String::from(
            "无法启动 Typora: No such file or directory (os error 2)。请检查路径是否正确。"
        ))
    );
}

#[test]
fn open_url_outcome_success_or_spawn_failure() {
    assert_eq!(open_url_outcome(None), Ok(()));
    assert_eq!(
        open_url_outcome(Some("boom")),
        Err(String::from("无法打开浏览器: boom"))
    );
}

#[test]
fn url_plan_windows() {
    let plan = url_spawn_plan(Platform::Windows, "https://typora.io").unwrap();
    assert_eq!(plan.program, "cmd");
    assert_eq!(plan.args, vec!["/C", "start", "", "https://typora.io"]);
}

#[test]
fn url_plan_macos() {
    let plan = url_spawn_plan(Platform::MacOs, "https://typora.io").unwrap();
    assert_eq!(plan.program, "open");
    assert_eq!(plan.args, vec!["https://typora.io"]);
}

#[test]
fn url_plan_linux() {
    let plan = url_spawn_plan(Platform::Linux, "https://typora.io").unwrap();
    assert_eq!(plan.program, "xdg-open");
    assert_eq!(plan.args, vec!["https://typora.io"]);
}

#[test]
fn url_plan_other_platform_has_no_command() {
    assert!(url_spawn_plan(Platform::Other, "https://typora.io").is_none());
}

#[test]
fn url_plan_passes_any_string_verbatim() {
    let odd = ["", "not a url", "a;rm -rf /;\"'`|&<>", "https://a b?c=d&e"];
    for url in odd {
        let plan = url_spawn_plan(Platform::Linux, url).unwrap();
        assert_eq!(plan.args, vec![url.to_string()]);
    }
}

#[test]
fn fixed_candidates_windows_order() {
    let c = fixed_candidates(
        Platform::Windows,
        "C:\\Users\\alice",
        "C:\\Users\\alice\\AppData\\Local",
    );
    assert_eq!(
        c,
        vec![
            String::from("C:\\Program Files\\Typora\\Typora.exe"),
            String::from("C:\\Program Files (x86)\\Typora\\Typora.exe"),
            String::from("C:\\Users\\alice\\AppData\\Local\\Programs\\Typora\\Typora.exe"),
            String::from("C:\\Users\\alice\\AppData\\Local\\Typora\\Typora.exe"),
        ]
    );
}

#[test]
fn fixed_candidates_macos_and_others() {
    assert_eq!(
        fixed_candidates(Platform::MacOs, "", ""),
        vec![String::from("/Applications/Typora.app/Contents/MacOS/Typora")]
    );
    assert_eq!(fixed_candidates(Platform::Linux, "", ""), Vec::<String>::new());
    assert_eq!(fixed_candidates(Platform::Other, "", ""), Vec::<String>::new());
}

#[test]
fn registry_dir_join_strips_trailing_backslashes() {
    assert_eq!(registry_dir_join("C:\\Typora\\"), "C:\\Typora\\Typora.exe");
    assert_eq!(registry_dir_join("C:\\Typora"), "C:\\Typora\\Typora.exe");
    assert_eq!(registry_dir_join("C:\\Typora\\\\\\"), "C:\\Typora\\Typora.exe");
    assert_eq!(registry_dir_join(""), "\\Typora.exe");
}

#[test]
fn registry_choice_machine_default_wins() {
    let r = registry_choice(
        Some(String::from("C:\\reg\\Typora.exe")),
        Some(String::from("C:\\dir\\Typora.exe")),
        true,
        Some(String::from("C:\\user\\Typora.exe")),
    );
    assert_eq!(r, Some(String::from("C:\\reg\\Typora.exe")));
}

#[test]
fn registry_choice_falls_back_in_order() {
    let joined = Some(String::from("C:\\dir\\Typora.exe"));
    let user = Some(String::from("C:\\user\\Typora.exe"));
    assert_eq!(registry_choice(None, joined.clone(), true, user.clone()), joined);
    assert_eq!(registry_choice(None, joined, false, user.clone()), user);
    assert_eq!(registry_choice(None, None, false, None), None);
}

#[test]
fn auto_detect_prefers_existing_registry_path() {
    let candidates = vec![String::from("C:\\Program Files\\Typora\\Typora.exe")];
    let exists = vec![true];
    let r = auto_detect_typora_path(
        &Some(String::from("D:\\Typora\\Typora.exe")),
        true,
        &candidates,
        &exists,
    );
    assert_eq!(r, Some(String::from("D:\\Typora\\Typora.exe")));
}

#[test]
fn auto_detect_skips_missing_registry_path() {
    let candidates = vec![
        String::from("C:\\Program Files\\Typora\\Typora.exe"),
        String::from("C:\\Program Files (x86)\\Typora\\Typora.exe"),
    ];
    let exists = vec![false, true];
    let r = auto_detect_typora_path(
        &Some(String::from("D:\\gone\\Typora.exe")),
        false,
        &candidates,
        &exists,
    );
    assert_eq!(
        r,
        Some(String::from("C:\\Program Files (x86)\\Typora\\Typora.exe"))
    );
}

#[test]
fn auto_detect_first_existing_fixed_path_without_registry() {
    let candidates = fixed_candidates(
        Platform::Windows,
        "C:\\Users\\alice",
        "C:\\Users\\alice\\AppData\\Local",
    );
    let exists = vec![false, false, true, true];
    let r = auto_detect_typora_path(&None, false, &candidates, &exists);
    assert_eq!(
        r,
        Some(String::from(
            "C:\\Users\\alice\\AppData\\Local\\Programs\\Typora\\Typora.exe"
        ))
    );
}

#[test]
fn auto_detect_absent_when_nothing_exists() {
    let candidates = fixed_candidates(Platform::MacOs, "", "");
    let exists = vec![false];
    assert_eq!(auto_detect_typora_path(&None, false, &candidates, &exists), None);
    let none: Vec<String> = Vec::new();
    let no_flags: Vec<bool> = Vec::new();
    assert_eq!(auto_detect_typora_path(&None, false, &none, &no_flags), None);
}

#[test]
fn auto_detect_is_idempotent() {
    let candidates = vec![
        String::from("/Applications/Typora.app/Contents/MacOS/Typora"),
    ];
    let exists = vec![true];
    let first = auto_detect_typora_path(&None, false, &candidates, &exists);
    let second = auto_detect_typora_path(&None, false, &candidates, &exists);
    assert_eq!(first, second);
    assert_eq!(
        first,
        Some(String::from("/Applications/Typora.app/Contents/MacOS/Typora"))
    );
}
