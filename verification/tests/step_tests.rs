use ti_toolbox_core::builds::{keil_wait_step, KeilWaitAction, KEIL_LOG_TIMEOUT_MS};
use ti_toolbox_core::configure::{launcher_actions, FileUpdate, LauncherAction};
use ti_toolbox_core::discovery::{keil_mdk_keys, keil_mdk_value, sdk_search_roots};

fn update(path: &str) -> FileUpdate {
    FileUpdate { path: path.into(), content: format!("new {path}"), backup: format!("{path}.ti-toolbox.bak") }
}

#[test]
fn backs_up_a_launcher_file_only_before_its_first_change() {
    let updates = vec![update("a.bat"), update("b.cfg")];
    let (actions, updated, backups) = launcher_actions(&updates, &vec![false, true]);
    assert_eq!(updated, ["a.bat", "b.cfg"]);
    assert_eq!(backups, ["a.bat.ti-toolbox.bak"]);
    assert_eq!(actions.len(), 3);
    assert!(matches!(&actions[0], LauncherAction::Backup(p, b) if p == "a.bat" && b == "a.bat.ti-toolbox.bak"));
    assert!(matches!(&actions[1], LauncherAction::Write(p, c) if p == "a.bat" && c == "new a.bat"));
    assert!(matches!(&actions[2], LauncherAction::Write(p, _) if p == "b.cfg"));
    let (actions, _, backups) = launcher_actions(&updates, &vec![true, true]);
    assert_eq!(actions.len(), 2);
    assert!(backups.is_empty());
}

#[test]
fn waits_for_the_keil_log_until_it_is_complete_or_too_late() {
    let step = keil_wait_step(Some((5, "Build")), 0, 0);
    assert_eq!(step.show_from, Some(0));
    assert_eq!(step.shown, 5);
    assert!(matches!(step.action, KeilWaitAction::Wait));
    let done = keil_wait_step(Some((30, "Build Time Elapsed:  00:00:01")), 5, 400);
    assert_eq!(done.show_from, Some(5));
    assert!(matches!(done.action, KeilWaitAction::Finished));
    let shorter = keil_wait_step(Some((3, "abc")), 5, 400);
    assert_eq!(shorter.show_from, Some(0));
    assert_eq!(shorter.shown, 3);
    let same = keil_wait_step(Some((5, "Build")), 5, 400);
    assert_eq!(same.show_from, None);
    let late = keil_wait_step(None, 5, KEIL_LOG_TIMEOUT_MS);
    assert!(matches!(late.action, KeilWaitAction::TimedOut(ref m) if m == "等待 Keil 构建日志超时"));
    assert_eq!(late.shown, 5);
}

#[test]
fn names_the_places_searched_for_sdks_and_keil() {
    assert_eq!(sdk_search_roots(), [r"C:\ti", r"D:\ti"]);
    assert_eq!(
        keil_mdk_keys(),
        [r"HKLM\SOFTWARE\WOW6432Node\Keil\Products\MDK", r"HKLM\SOFTWARE\Keil\Products\MDK"]
    );
    assert_eq!(keil_mdk_value(), "Path");
}
