use ti_toolbox_core::builds::{
    built_project, ccs_build_arguments, ccs_build_dir, ccs_failed_build_report, ccs_import, ccs_import_arguments,
    ccs_normal_build, ccs_project_root, ccs_run_arguments, ccs_tool_paths, check_ccs_import, check_gmake,
    keep_validation_copy, keil_build_plan, keil_log_complete, latest_build_dir, strict_link_plan, unique_temp_dir,
    validate_ccs_build, validate_keil_build, BuildDirCandidate,
};
use ti_toolbox_core::{cleanup_validation_copy, validate_project_build, validate_project_build_with_progress, ProjectKind};

#[test]
fn only_cleans_its_own_validation_directory() {
    let temp = r"C:\Users\me\AppData\Local\Temp";
    let validation = unique_temp_dir(temp, "ccs-validation", "1700000000");
    assert_eq!(validation, r"C:\Users\me\AppData\Local\Temp\ti-toolbox-ccs-validation-1700000000");
    assert!(cleanup_validation_copy(&validation, temp).is_ok());
    assert_eq!(
        cleanup_validation_copy(r"C:\Users\me\AppData\Local\Temp\ti-toolbox-unrelated-1", temp).unwrap_err(),
        "拒绝清理非 TI工具箱 临时验证目录"
    );
    assert!(cleanup_validation_copy(r"D:\ti-toolbox-ccs-validation-1", temp).is_err());
    assert!(cleanup_validation_copy(r"C:\Users\me\AppData\Local\TempX\ti-toolbox-ccs-validation-1", temp).is_err());
}

#[test]
fn checks_the_depth_before_the_project() {
    assert_eq!(validate_project_build_with_progress(5, Ok(ProjectKind::Ccs)).unwrap_err(), "工具目录搜索层级只能是 0–4");
    assert_eq!(validate_project_build_with_progress(4, Ok(ProjectKind::Keil)).unwrap(), ProjectKind::Keil);
    assert_eq!(validate_project_build(Err("工程路径不存在".into())).unwrap_err(), "工程路径不存在");
}

#[test]
fn plans_a_ccs_validation() {
    let (server, gmake) = ccs_tool_paths(Ok(r"C:\ti\ccs2100\ccs\eclipse\ccs-serverc.exe".into())).unwrap();
    assert_eq!(server, r"C:\ti\ccs2100\ccs\eclipse\ccs-serverc.exe");
    assert_eq!(gmake, r"C:\ti\ccs2100\ccs\utils/bin/gmake.exe");
    assert_eq!(check_gmake(&gmake, false).unwrap_err(), r"CCS 缺少构建工具：C:\ti\ccs2100\ccs\utils/bin/gmake.exe");
    assert_eq!(ccs_project_root(r"D:\p\demo.projectspec", false).unwrap(), r"D:\p");
    let import = ccs_import(r"D:\p", None, true, r"C:\Temp\ti-toolbox-ccs-validation-1");
    assert!(!import.uses_temp_project);
    assert_eq!(ccs_import_arguments(&import), ["-ccs.location", r"D:\p"]);
    let copy = ccs_import(r"D:\p", Some(r"D:\p\demo.projectspec".into()), true, r"C:\T");
    assert!(copy.uses_temp_project);
    assert_eq!(copy.workspace, r"C:\T\workspace");
    assert_eq!(ccs_import_arguments(&copy), ["-ccs.location", r"D:\p\demo.projectspec", "-ccs.copyIntoWorkspace"]);
    assert_eq!(built_project(&copy, "demo", r"D:\p"), r"C:\T\workspace\demo");
    assert_eq!(built_project(&import, "demo", r"D:\p"), r"D:\p");
    let args = ccs_run_arguments(r"C:\T\metadata", r"C:\T\workspace", "com.ti.ccs.apps.buildProject", &ccs_build_arguments("demo", "clean"));
    assert_eq!(args[0], "-nosplash");
    assert_eq!(args[9..], ["-ccs.projects", "demo", "-ccs.buildType", "clean", "-ccs.listProblems"]);
    assert_eq!(check_ccs_import(false, "boom").unwrap_err(), "CCS 导入工程失败：\nboom");
}

#[test]
fn judges_ccs_builds() {
    let (ok, log) = ccs_normal_build(true, "clean", true, "0 out of 1 projects have errors");
    assert!(ok);
    assert_eq!(log, "clean\n0 out of 1 projects have errors");
    let (ok, _) = ccs_normal_build(true, "clean", true, "1 out of 1 projects have errors");
    assert!(!ok);
    let failed = ccs_failed_build_report(log.clone());
    assert!(!failed.success);
    assert_eq!(failed.summary, "CCS Clean + Full Build 失败");
    let passed = validate_ccs_build(&log, true, "linked", true, r"C:\T\workspace\demo", r"C:\T");
    assert!(passed.success);
    assert_eq!(passed.validated_project_path.as_deref(), Some(r"C:\T\workspace\demo"));
    assert_eq!(passed.cleanup_path.as_deref(), Some(r"C:\T"));
    assert!(keep_validation_copy(&Ok(passed), true));
    let unresolved = validate_ccs_build(&log, false, "error: unresolved symbols remain", true, "b", "t");
    assert_eq!(unresolved.summary, "CCS 普通构建通过，但严格链接发现未定义符号");
    assert_eq!(unresolved.cleanup_path, None);
    assert!(!keep_validation_copy(&Ok(unresolved), true));
    let in_place = validate_ccs_build(&log, true, "", false, "b", "t");
    assert_eq!(in_place.validated_project_path, None);
    assert!(!keep_validation_copy(&Err("x".into()), true));
    assert_eq!(
        ccs_build_dir(Ok(None)).unwrap_err(),
        "CCS 构建成功，但未找到生成的 makefile/ccsObjs.opt"
    );
}

#[test]
fn links_strictly_in_the_build_directory() {
    let makefile = "demo.out: $(OBJS)\n\t\"tiarmclang\" -Wl,-m\"demo.map\" -Wl,--rom_model -o \"demo.out\" $(ORDERED_OBJS)\n";
    let plan = strict_link_plan(Ok(makefile.into()), r"D:\p\Debug", r"C:\T").unwrap();
    assert_eq!(plan.makefile, r"C:\T\strict-validation.mk");
    assert_eq!(plan.arguments, ["-f", r"C:\T\strict-validation.mk", "ti-toolbox-strict-validation.out", "-r", "-O"]);
    assert_eq!(plan.cleanup[1], r"D:\p\Debug\ti-toolbox-strict-validation.out");
    assert_eq!(plan.cleanup.len(), 4);
    assert_eq!(strict_link_plan(Err("gone".into()), "d", "t").err().unwrap(), "无法读取 CCS makefile：gone");
}

#[test]
fn picks_the_newest_build_directory() {
    let candidates = vec![
        BuildDirCandidate { modified: 5, path: "a".into() },
        BuildDirCandidate { modified: 9, path: "b".into() },
        BuildDirCandidate { modified: 9, path: "c".into() },
    ];
    assert_eq!(latest_build_dir(&candidates), Some("b".to_string()));
    assert_eq!(latest_build_dir(&vec![]), None);
}

#[test]
fn plans_and_judges_a_keil_build() {
    let plan = keil_build_plan(Ok(r"C:\Keil_v5\UV4\UV4.exe".into()), r"D:\p", false, Ok(Some(r"D:\p\keil\demo.uvprojx".into()))).unwrap();
    assert_eq!(plan.log_path, r"D:\p\keil\ti-toolbox-keil-build.log");
    assert_eq!(plan.arguments, ["-b", r"D:\p\keil\demo.uvprojx", "-o", r"D:\p\keil\ti-toolbox-keil-build.log"]);
    assert_eq!(
        keil_build_plan(Ok("uv4".into()), r"D:\p", false, Ok(None)).err().unwrap(),
        "Keil 工程中未找到 .uvprojx"
    );
    let log = "\".\\Objects\\demo.axf\" - 0 Error(s), 0 Warning(s).\nBuild Time Elapsed: 00:00:01";
    assert!(keil_log_complete(log));
    assert!(!keil_log_complete("compiling..."));
    let report = validate_keil_build(log.to_string(), r"D:\p\ti-toolbox-keil-build.log");
    assert!(report.success);
    assert_eq!(report.summary, "Keil 构建通过");
    assert_eq!(report.log_path.as_deref(), Some(r"D:\p\ti-toolbox-keil-build.log"));
}
