use ti_toolbox_core::inspect::KeilFileRef;
use ti_toolbox_core::inspection::{
    ccs_sources, detect_project, inspect_ccs, inspect_keil, inspect_project, keil_file_refs, keil_project_file,
    local_source_entry, mentions_config_header, sort_files_by_path, CcsProjectData, ListedEntry, PathFacts,
    ProjectDocuments, SourceEntry,
};
use ti_toolbox_core::{ProjectFile, ProjectKind};

fn file(path: &str, group: &str, kind: &str) -> ProjectFile {
    ProjectFile { path: path.into(), group: group.into(), file_type: kind.into() }
}

fn dir_facts(cproject: bool, projectspec: bool, uvprojx: bool) -> PathFacts {
    PathFacts {
        is_file: false,
        is_dir: true,
        has_cproject: cproject,
        projectspec_found: Ok(projectspec),
        uvprojx_found: Ok(uvprojx),
    }
}

#[test]
fn detects_ccs_and_keil_projects_from_a_directory() {
    assert_eq!(detect_project("ccs", &dir_facts(true, false, false)).unwrap(), ProjectKind::Ccs);
    assert_eq!(detect_project("keil", &dir_facts(false, false, true)).unwrap(), ProjectKind::Keil);
    assert!(detect_project("mixed", &dir_facts(false, true, true)).is_err());
}

#[test]
fn detects_project_files_by_extension() {
    let file_facts = PathFacts {
        is_file: true,
        is_dir: false,
        has_cproject: false,
        projectspec_found: Ok(false),
        uvprojx_found: Ok(false),
    };
    assert_eq!(detect_project(r"D:\p\demo.uvprojx", &file_facts).unwrap(), ProjectKind::Keil);
    assert_eq!(detect_project(r"D:\p\demo.projectspec", &file_facts).unwrap(), ProjectKind::Ccs);
    assert_eq!(
        detect_project(r"D:\p\demo.txt", &file_facts).unwrap_err(),
        "请选择 CCS/Keil 工程目录或工程文件"
    );
    let missing = PathFacts {
        is_file: false,
        is_dir: false,
        has_cproject: false,
        projectspec_found: Ok(false),
        uvprojx_found: Ok(false),
    };
    assert_eq!(detect_project("nowhere", &missing).unwrap_err(), "工程路径不存在");
    assert_eq!(
        detect_project("empty", &dir_facts(false, false, false)).unwrap_err(),
        "未找到 CCS 的 .cproject/.projectspec 或 Keil 的 .uvprojx"
    );
    let unreadable = PathFacts {
        is_file: false,
        is_dir: true,
        has_cproject: false,
        projectspec_found: Err("denied".into()),
        uvprojx_found: Ok(true),
    };
    assert_eq!(detect_project("x", &unreadable).unwrap_err(), "denied");
}

fn cproject_text(defines: &[&str], includes: &[&str], extra: &str) -> String {
    let values =
        |vs: &[&str]| vs.iter().map(|v| format!(r#"<listOptionValue value="{v}"/>"#)).collect::<String>();
    format!(
        r#"<cproject><option superClass="compiler.DEFINE">{}</option><option superClass="compiler.INCLUDE_PATH">{}</option>{extra}</cproject>"#,
        values(defines),
        values(includes)
    )
}

fn listed(relative: &str, is_dir: bool, mentions: bool) -> ListedEntry {
    ListedEntry {
        relative: relative.into(),
        name: relative.rsplit('/').next().unwrap().into(),
        is_dir,
        mentions_config_header: mentions,
    }
}

fn ccs_data(cproject: String, entries: Vec<ListedEntry>) -> CcsProjectData {
    CcsProjectData {
        root: r"D:\work\blinky".into(),
        cproject_text: cproject,
        project_text: Some("<projectDescription><name>Blinky</name></projectDescription>".into()),
        listing: Ok(entries),
        generated_config_c: Ok(true),
        generated_config_h: Ok(true),
    }
}

#[test]
fn inspects_a_ccs_project_for_conversion() {
    let data = ccs_data(
        cproject_text(&["APP_DEBUG", "__MSPM0G3507__", "APP_DEBUG"], &["${PROJECT_ROOT}/include"], ""),
        vec![listed("main.c", false, false)],
    );
    let result = inspect_project(ProjectDocuments::Ccs(data)).unwrap();
    assert_eq!(result.name, "Blinky");
    assert_eq!(result.device, "MSPM0G3507");
    assert_eq!(result.defines, ["APP_DEBUG", "__MSPM0G3507__"]);
    assert_eq!(result.include_paths, ["${PROJECT_ROOT}/include"]);
    assert_eq!(result.files.len(), 1);
    assert_eq!(result.kind, ProjectKind::Ccs);
    assert_eq!(result.target_kind, ProjectKind::Keil);
    assert!(result.warnings.is_empty());
}

#[test]
fn ccs_project_name_falls_back_to_the_directory() {
    let mut data = ccs_data(cproject_text(&["__MSPM0G3507__"], &[], ""), vec![]);
    data.project_text = None;
    assert_eq!(inspect_ccs(&data).unwrap().name, "blinky");
    data.project_text = Some("<projectDescription>".into());
    assert_eq!(inspect_ccs(&data).unwrap().name, "blinky");
}

#[test]
fn refuses_a_ccs_project_without_a_device() {
    let data = ccs_data(cproject_text(&[], &[], ""), vec![]);
    assert_eq!(inspect_ccs(&data).unwrap_err(), "无法从 CCS 工程识别 MSPM0 芯片");
}

#[test]
fn reports_an_unparsable_cproject_and_a_failed_listing() {
    let data = ccs_data("<cproject>".into(), vec![]);
    assert!(inspect_ccs(&data).unwrap_err().starts_with(".cproject 无法解析："));
    let mut data = ccs_data(cproject_text(&["__MSPM0G3507__"], &[], ""), vec![]);
    data.listing = Err("denied".into());
    assert_eq!(inspect_ccs(&data).unwrap_err(), "denied");
    let mut data = ccs_data(cproject_text(&[], &[], ""), vec![]);
    data.listing = Err("denied".into());
    assert_eq!(inspect_ccs(&data).unwrap_err(), "无法从 CCS 工程识别 MSPM0 芯片");
}

#[test]
fn ignores_ccs_source_directories_excluded_from_build() {
    let entries = r#"<storageModule><sourceEntries><entry excluding="Drivers/DISABLED" flags="VALUE_WORKSPACE_PATH|RESOLVED" kind="sourcePath" name=""/></sourceEntries></storageModule>"#;
    let text = cproject_text(&["__MSPM0G3507__"], &[], entries);
    let cp = ti_toolbox_core::inspection::ProjectDocuments::Ccs(ccs_data(
        text.clone(),
        vec![
            listed("Drivers", true, false),
            listed("Drivers/ACTIVE", true, false),
            listed("Drivers/ACTIVE/active.c", false, false),
            listed("Drivers/DISABLED", true, false),
            listed("Drivers/DISABLED/disabled.c", false, false),
            listed("Drivers/DISABLED/disabled.h", false, false),
            listed("Debug", true, false),
            listed("Debug/main.c", false, false),
            listed("notes.txt", false, false),
        ],
    ));
    let result = inspect_project(cp).unwrap();
    let paths: Vec<_> = result.files.iter().map(|f| f.path.as_str()).collect();
    assert_eq!(paths, ["Drivers/ACTIVE/active.c", "Drivers/DISABLED/disabled.h"]);

    let exclusions = vec!["drivers/disabled".to_string()];
    let active = local_source_entry("Drivers/ACTIVE/active.c", "active.c", false, &exclusions);
    assert!(matches!(active, SourceEntry::File(ref f) if f.path.ends_with("active.c")));
    let disabled = local_source_entry("Drivers/DISABLED/disabled.c", "disabled.c", false, &exclusions);
    assert!(matches!(disabled, SourceEntry::Skip));
    let header = local_source_entry("Drivers/DISABLED/disabled.h", "disabled.h", false, &exclusions);
    assert!(matches!(header, SourceEntry::File(ref f) if f.file_type == "header"));
    assert!(matches!(local_source_entry("Debug", "Debug", true, &exclusions), SourceEntry::Skip));
    assert!(matches!(local_source_entry("Drivers", "Drivers", true, &exclusions), SourceEntry::Descend));
    assert!(matches!(local_source_entry("notes.txt", "notes.txt", false, &exclusions), SourceEntry::Skip));
}

#[test]
fn ccs_sources_leave_out_skipped_directories() {
    let sources = ccs_sources(
        &vec![
            listed("src", true, false),
            listed("src/main.c", false, true),
            listed(".git/hooks/pre-commit.c", false, false),
            listed("app/Release/out.c", false, false),
            listed("app/Releases/keep.c", false, false),
        ],
        &vec![],
    );
    let paths: Vec<_> = sources.iter().map(|s| s.file.path.as_str()).collect();
    assert_eq!(paths, ["src/main.c", "app/Releases/keep.c"]);
    assert!(sources[0].mentions_config_header);
}

#[test]
fn warns_when_a_received_ccs_project_lacks_generated_sysconfig_files() {
    let mut data = ccs_data(
        cproject_text(&["__MSPM0G3507__"], &[], ""),
        vec![
            listed("main.c", false, mentions_config_header("#include \"ti_msp_dl_config.h\"")),
            listed("demo.syscfg", false, false),
        ],
    );
    data.generated_config_c = Ok(false);
    let result = inspect_ccs(&data).unwrap();
    assert!(result
        .warnings
        .iter()
        .any(|warning| warning.contains("ti_msp_dl_config.c/h") && warning.contains("发送方")));
}

#[test]
fn warns_about_ccs_startup_files_and_sorts_by_path() {
    let data = ccs_data(
        cproject_text(&["__MSPM0G3507__"], &[], ""),
        vec![listed("startup_mspm0g350x_ticlang.c", false, false), listed("main.c", false, false)],
    );
    let result = inspect_ccs(&data).unwrap();
    assert_eq!(result.files[0].path, "main.c");
    assert_eq!(
        result.warnings,
        ["startup_mspm0g350x_ticlang.c 是 CCS 启动文件，转换时将替换为目标工具链版本"]
    );
}

#[test]
fn sorts_files_stably_by_path() {
    let sorted = sort_files_by_path(vec![
        file("b.c", "1", "source"),
        file("a.c", "2", "source"),
        file("b.c", "3", "source"),
    ]);
    let order: Vec<_> = sorted.iter().map(|f| (f.path.as_str(), f.group.as_str())).collect();
    assert_eq!(order, [("a.c", "2"), ("b.c", "1"), ("b.c", "3")]);
}

const KEIL_DOCUMENT: &str = r#"<?xml version="1.0" encoding="UTF-8" standalone="no" ?>
<Project>
  <Targets>
    <Target>
      <TargetName>Blinky</TargetName>
      <TargetCommonOption><Device>MSPM0G3507</Device></TargetCommonOption>
      <Define>APP_DEBUG;__MSPM0G3507__</Define>
      <IncludePath>.;include</IncludePath>
      <Groups>
        <Group>
          <GroupName>App</GroupName>
          <Files>
            <File><FileName>main.c</FileName><FileType>1</FileType><FilePath>main.c</FilePath></File>
          </Files>
        </Group>
      </Groups>
    </Target>
  </Targets>
</Project>"#;

#[test]
fn inspects_a_keil_project_for_conversion() {
    let refs: Vec<KeilFileRef> = keil_file_refs(r"D:\work\Blinky.uvprojx", KEIL_DOCUMENT).unwrap();
    assert_eq!(refs.len(), 1);
    let files: Vec<ProjectFile> = refs.iter().map(|r| keil_project_file(r, None)).collect();
    assert_eq!(files[0].path, "main.c");
    let result = inspect_keil(r"D:\work\Blinky.uvprojx", KEIL_DOCUMENT, vec![]).unwrap();
    assert_eq!(result.name, "Blinky");
    assert_eq!(result.device, "MSPM0G3507");
    assert_eq!(result.files[0].group, "App");
    assert_eq!(result.files[0].path, "main.c");
    assert_eq!(result.defines, ["APP_DEBUG", "__MSPM0G3507__"]);
    assert_eq!(result.include_paths, [".", "include"]);
    assert_eq!(result.target_kind, ProjectKind::Ccs);
}

#[test]
fn reports_an_unparsable_keil_project() {
    assert!(keil_file_refs("a.uvprojx", "<Project>").unwrap_err().starts_with(".uvprojx 无法解析："));
    assert!(inspect_keil("a.uvprojx", "not xml", vec![]).unwrap_err().starts_with(".uvprojx 无法解析："));
    let shown = inspect_keil(r"D:\work\Blinky.uvprojx", KEIL_DOCUMENT, vec![Some(r"src\main.c".into())]).unwrap();
    assert_eq!(shown.files[0].path, "src/main.c");
}

#[test]
fn keil_file_paths_are_shown_with_forward_slashes() {
    let entry = KeilFileRef {
        raw_path: r"..\src\main.c".into(),
        resolved: r"D:\work\src\main.c".into(),
        group: "App".into(),
        file_type: "source".into(),
    };
    assert_eq!(keil_project_file(&entry, None).path, "../src/main.c");
    assert_eq!(keil_project_file(&entry, Some(r"src\main.c")).path, "src/main.c");
}

#[test]
fn projectspec_inspection_needs_a_device() {
    let path = r"D:\p\demo.projectspec";
    let text = r#"<projectSpec><project name="demo"/></projectSpec>"#;
    assert_eq!(
        inspect_project(ProjectDocuments::CcsProjectSpec(path.into(), text.into())).unwrap_err(),
        ".projectspec 缺少器件"
    );
    let text = r#"<projectSpec><project device="MSPM0G3507"><file path="main.c"/><file path="notes.txt"/></project></projectSpec>"#;
    let result = inspect_project(ProjectDocuments::CcsProjectSpec(path.into(), text.into())).unwrap();
    assert_eq!(result.name, "demo");
    assert_eq!(result.device, "MSPM0G3507");
    assert_eq!(result.files.len(), 1);
}
