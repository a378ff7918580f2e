use ti_toolbox_core::registry::choose_keil_tool_slot;
use ti_toolbox_core::sysconfig::render_keil_sysconfig_files;

#[test]
fn keeps_existing_keil_tools_and_reuses_an_equivalent_sysconfig_entry() {
    let registry = r#"
Mtx0    REG_SZ    User Tool
Mex0    REG_SZ    C:\tools\user.exe
Mtx1    REG_SZ    Sysconfig v1.26.2
Mex1    REG_SZ    "D:\ti\ccs2100\sysconfig_1.26.2\nw\nw.exe" "D:\ti\ccs2100\sysconfig_1.26.2"
"#;
    assert_eq!(
        choose_keil_tool_slot(
            registry,
            r#""D:\ti\ccs2100\sysconfig_1.26.2\nw\nw.exe" "D:\ti\ccs2100\sysconfig_1.26.2""#,
        ),
        Some((1, true))
    );

    let without_sysconfig = "Mtx0    REG_SZ    User Tool\nMex0    REG_SZ    C:\\tools\\user.exe";
    assert_eq!(
        choose_keil_tool_slot(without_sysconfig, "sysconfig-command"),
        Some((1, false))
    );
}

#[test]
fn updates_the_sdk_keil_sysconfig_files_with_selected_paths() {
    let bat = "@echo off\r\nset SYSCFG_PATH=old\\sysconfig_cli.bat\r\necho ready\r\n";
    let cfg = "[Old]\r\nCommand=old\r\nInitial Folder=old\r\nArguments=keep\r\n";
    let (updated_bat, updated_cfg) = render_keil_sysconfig_files(
        bat,
        cfg,
        r"D:\ti\mspm0_sdk_2_10_00_04",
        "2.10.00.04",
        r"D:\ti\sysconfig_1.26.2",
    )
    .unwrap();

    assert!(updated_bat.contains(r#"set SYSCFG_PATH="D:\ti\sysconfig_1.26.2\sysconfig_cli.bat""#));
    assert!(updated_cfg.contains("[Sysconfig v1.26.2 - MSPM0 SDK v2_10_00_04]"));
    assert!(updated_cfg.contains(r#"Command="D:\ti\sysconfig_1.26.2\nw\nw.exe" "D:\ti\sysconfig_1.26.2""#));
    assert!(updated_cfg.contains(r"Initial Folder=D:\ti\mspm0_sdk_2_10_00_04"));
    assert!(updated_cfg.contains("Arguments=keep"));
}

#[test]
fn rendering_the_launcher_files_again_changes_nothing() {
    let bat = "@echo off\r\nset SYSCFG_PATH=\"C:\\old\\sysconfig_cli.bat\"\r\ncall %SYSCFG_PATH%\r\n";
    let cfg = "[Sysconfig v1.0 - MSPM0 SDK v1_00]\nCommand=\"old\"\nInitial Folder=C:\\old";
    let sdk = r"D:\ti\mspm0_sdk_2_10_00_04";
    let sysconfig = r"D:\ti\sysconfig_1.26.2";
    let (bat1, cfg1) = render_keil_sysconfig_files(bat, cfg, sdk, "2.10.00.04", sysconfig).unwrap();
    assert_ne!(bat1, bat);
    assert!(bat1.ends_with("\r\n"));
    assert!(!cfg1.ends_with('\n'));
    let (bat2, cfg2) = render_keil_sysconfig_files(&bat1, &cfg1, sdk, "2.10.00.04", sysconfig).unwrap();
    assert_eq!(bat2, bat1);
    assert_eq!(cfg2, cfg1);
}
