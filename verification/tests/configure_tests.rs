use ti_toolbox_core::configure::{
    backup_path, keil_settings_keys, keil_sysconfig_plan, keil_tool_slot_for, launcher_paths, launcher_updates,
    tool_menu_key,
};
use ti_toolbox_core::{configure_keil_sysconfig, KeilSysConfigRequest};

fn request(depth: u8) -> KeilSysConfigRequest {
    KeilSysConfigRequest {
        sdk_path: r"D:\ti\mspm0_sdk_2_10_00_04".into(),
        keil_path: r"D:\Keil_v5".into(),
        sysconfig_path: r"D:\ti\sysconfig_1.26.2".into(),
        search_depth: depth,
    }
}

#[test]
fn plans_the_keil_tools_entry() {
    let plan = keil_sysconfig_plan(
        &request(2),
        Ok("2.10.00.04".into()),
        Ok(r"D:\Keil_v5\UV4\UV4.exe".into()),
        Some(r"D:\ti\sysconfig_1.26.2".into()),
    )
    .unwrap();
    assert_eq!(plan.command, r#""D:\ti\sysconfig_1.26.2\nw\nw.exe" "D:\ti\sysconfig_1.26.2""#);
    assert_eq!(plan.title, "TI工具箱 SysConfig - SDK 2.10.00.04");
    assert_eq!(plan.arguments, r##"--compiler keil -s ".metadata\product.json" "#E""##);
    assert_eq!(
        keil_sysconfig_plan(&request(2), Ok("v".into()), Ok("u".into()), None).err().unwrap(),
        "SysConfig 路径无效：未找到 nw/nw.exe"
    );
    assert_eq!(
        keil_sysconfig_plan(&request(7), Ok("v".into()), Ok("u".into()), None).err().unwrap(),
        "工具目录搜索层级只能是 0–4"
    );

    assert_eq!(keil_settings_keys().len(), 3);
    assert_eq!(tool_menu_key(r"HKCU\Software\Keil\UVision5"), r"HKCU\Software\Keil\UVision5\ToolM");
    assert_eq!(
        keil_tool_slot_for(&plan, &None, &Ok(String::new())).unwrap_err(),
        "未找到 Keil 用户配置；请先启动一次 Keil µVision，再重新执行一键配置"
    );
    let registry = "Mtx0    REG_SZ    User Tool\nMex0    REG_SZ    C:\\tools\\user.exe".to_string();
    let (slot, equivalent) = keil_tool_slot_for(&plan, &Some("k".into()), &Ok(registry)).unwrap();
    assert_eq!((slot, equivalent), (1, false));

    let (result, writes) = configure_keil_sysconfig(&plan, slot, equivalent, vec![], vec![]);
    assert!(result.changed);
    assert_eq!(result.slot, 1);
    let names: Vec<_> = writes.iter().map(|w| w.name.as_str()).collect();
    assert_eq!(names, ["Mfg1", "Mid1", "Mex1", "Mag1", "Mtx1"]);
    assert_eq!(writes[0].kind, "REG_DWORD");
    assert_eq!(writes[0].value, "2304");
    assert_eq!(writes[2].value, plan.command);

    let (same, none) = configure_keil_sysconfig(&plan, 3, true, vec![], vec![]);
    assert!(!same.changed);
    assert_eq!(same.title, "已存在等效 SysConfig 工具");
    assert!(none.is_empty());
}

#[test]
fn updates_only_the_launcher_files_that_change() {
    let plan = keil_sysconfig_plan(
        &request(2),
        Ok("2.10.00.04".into()),
        Ok("uv4".into()),
        Some(r"D:\ti\sysconfig_1.26.2".into()),
    )
    .unwrap();
    let (bat_path, cfg_path) = launcher_paths(&plan.sdk_path);
    assert_eq!(bat_path, r"D:\ti\mspm0_sdk_2_10_00_04\tools\keil\syscfg.bat");
    assert_eq!(backup_path(&bat_path), r"D:\ti\mspm0_sdk_2_10_00_04\tools\keil\syscfg.bat.ti-toolbox.bak");
    let bat = "set SYSCFG_PATH=\"D:\\ti\\sysconfig_1.26.2\\sysconfig_cli.bat\"\n".to_string();
    let cfg = "[Old]\r\nCommand=old\r\nInitial Folder=old\r\n".to_string();
    let updates = launcher_updates(&plan, Ok(bat), Ok(cfg)).unwrap();
    assert_eq!(updates.len(), 1);
    assert_eq!(updates[0].path, cfg_path);
    assert!(updates[0].content.contains("[Sysconfig v1.26.2 - MSPM0 SDK v2_10_00_04]"));
    assert_eq!(launcher_updates(&plan, Err("unreadable".into()), Ok(String::new())).err().unwrap(), "unreadable");
    assert_eq!(
        launcher_updates(&plan, Ok("echo\n".into()), Ok(String::new())).err().unwrap(),
        "配置文件缺少 set SYSCFG_PATH= 配置项"
    );
}
