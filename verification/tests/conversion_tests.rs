use ti_toolbox_core::ccs_project::{ccs_file_nodes, ccs_project_document, generate_ccs};
use ti_toolbox_core::convert::{
    check_copied, check_template, conversion_report, conversion_resources, copied_file, ensure_output_available,
    existing_generated, files_to_copy, generated_candidates, generated_file, generated_source,
    make_sysconfig_header_armclang_compatible, resolve_source_file, safe_source_path, source_root, staging_path,
    sysconfig_outputs_needed, template_root, CopiedFile,
};
use ti_toolbox_core::keil_project::{
    generate_keil, keil_defines, keil_include_paths, keil_library_path, keil_project_document, keil_project_head,
    keil_windows_path, replace_keil_groups, set_pack_id,
};
use ti_toolbox_core::xml::{no_namespace, element_text, find_element, XmlElement, XmlNode};
use ti_toolbox_core::{ProjectFile, ProjectInspection, ProjectKind, ResourceInfo};

fn el(name: &str, attributes: &[(&str, &str)], children: Vec<XmlNode>) -> XmlElement {
    XmlElement {
        name: name.to_string(),
        attributes: attributes.iter().map(|(k, v)| (k.to_string(), v.to_string())).collect(),
        children,
        namespace: no_namespace(),
    }
}

fn node(e: XmlElement) -> XmlNode {
    XmlNode::Element(e)
}

fn text(name: &str, value: &str) -> XmlNode {
    node(el(name, &[], vec![XmlNode::Text(value.to_string())]))
}

fn chars(s: &str) -> Vec<char> {
    s.chars().collect()
}

fn text_of(xml: &XmlElement, name: &str) -> Option<String> {
    element_text(xml, &chars(name)).map(|v| v.into_iter().collect())
}

fn copied(relative: &str, group: &str, kind: &str) -> CopiedFile {
    CopiedFile { relative: relative.into(), group: group.into(), file_type: kind.into() }
}

fn inspection(kind: ProjectKind, files: Vec<ProjectFile>) -> ProjectInspection {
    ProjectInspection {
        kind,
        target_kind: if kind == ProjectKind::Ccs { ProjectKind::Keil } else { ProjectKind::Ccs },
        name: "Blinky demo".into(),
        device: "MSPM0G3507".into(),
        files,
        include_paths: vec![],
        defines: vec!["APP_DEBUG".into()],
        warnings: vec!["inspected".into()],
    }
}

fn file(path: &str, group: &str, kind: &str) -> ProjectFile {
    ProjectFile { path: path.into(), group: group.into(), file_type: kind.into() }
}

#[test]
fn keeps_copied_files_inside_src() {
    assert_eq!(safe_source_path("main.c"), r"src\main.c");
    assert_eq!(safe_source_path("Drivers/./gpio.c"), r"src\Drivers\gpio.c");
    assert_eq!(safe_source_path("../shared/util.c"), r"src/external\shared\util.c");
    assert_eq!(safe_source_path(r"C:\lib\x.h"), r"src/external\lib\x.h");
    assert_eq!(safe_source_path("/abs/y.c"), r"src/external\abs\y.c");
    let c = copied_file(r"src\Drivers\gpio.c", &file("Drivers/gpio.c", "Source", "source"));
    assert_eq!(c.relative, "src/Drivers/gpio.c");
}

#[test]
fn strips_verbatim_prefixes_from_keil_paths() {
    assert_eq!(keil_windows_path(r"\\?\C:\ti\sdk\driverlib.a"), r"C:\ti\sdk\driverlib.a");
    assert_eq!(keil_windows_path(r"\\?\UNC\server\share\lib.a"), r"\\server\share\lib.a");
    assert_eq!(keil_windows_path("C:/ti/sdk/driverlib.a"), r"C:\ti\sdk\driverlib.a");
    assert_eq!(
        keil_library_path(r"C:\sdk\empty\keil", r"..\..\lib\driverlib.a"),
        r"C:\sdk\empty\keil\../../lib/driverlib.a"
    );
}

#[test]
fn checks_output_and_names_the_staging_directory() {
    assert_eq!(ensure_output_available(r"D:\out\proj", false, false, Ok(false)).unwrap(), Some(r"D:\out".to_string()));
    assert_eq!(ensure_output_available(r"D:\out\proj", true, true, Ok(false)).unwrap(), None);
    assert_eq!(
        ensure_output_available(r"D:\out\proj", true, true, Ok(true)).unwrap_err(),
        "输出目录必须为空，工具不会覆盖已有文件"
    );
    assert_eq!(ensure_output_available(r"D:\out\proj", true, false, Ok(false)).unwrap_err(), "输出路径已存在且不是目录");
    assert_eq!(staging_path(r"D:\out\proj", "42"), r"D:\out\.proj.ti-toolbox-42");
    assert_eq!(
        template_root(r"D:\sdk", "MSPM0G3507"),
        r"D:\sdk\examples/nortos\LP_MSPM0G3507\driverlib/empty"
    );
    assert_eq!(check_template(false, "MSPM0G3507").unwrap_err(), "SDK 中没有 MSPM0G3507 的官方 NoRTOS empty 模板");
    assert_eq!(source_root(r"D:\p\demo.uvprojx", false).unwrap(), r"D:\p");
}

#[test]
fn requires_a_pack_that_supports_the_device() {
    let ccs = inspection(ProjectKind::Ccs, vec![]);
    let pack = Ok(("P".to_string(), "1.0".to_string(), vec!["MSPM0L1306".to_string()]));
    assert_eq!(
        conversion_resources(&ccs, Ok("2.10".into()), pack).unwrap_err(),
        "所选 Pack 不支持器件 MSPM0G3507"
    );
    let pack = Ok(("P".to_string(), "1.0".to_string(), vec!["MSPM0G3507".to_string()]));
    assert!(conversion_resources(&ccs, Ok("2.10".into()), pack).unwrap().is_some());
    let keil = inspection(ProjectKind::Keil, vec![]);
    assert!(conversion_resources(&keil, Ok("2.10".into()), Err("no pack".into())).unwrap().is_none());
}

#[test]
fn skips_startup_files_and_regenerated_sysconfig_outputs() {
    let keil = inspection(
        ProjectKind::Keil,
        vec![
            file("startup_mspm0g350x_uvision.s", "Device", "source"),
            file("main.c", "App", "source"),
            file("demo.syscfg", "SysConfig", "syscfg"),
            file("Generated/ti_msp_dl_config.c", "App", "source"),
        ],
    );
    let kept: Vec<_> = files_to_copy(&keil).into_iter().map(|f| f.path).collect();
    assert_eq!(kept, ["main.c", "demo.syscfg"]);
    let ccs = inspection(ProjectKind::Ccs, vec![file("ti_msp_dl_config.c", "Source", "source")]);
    assert_eq!(files_to_copy(&ccs).len(), 1);
    assert_eq!(check_copied(&vec![]).unwrap_err(), "源工程没有可转换的 C/C++、头文件、汇编或 SysConfig 文件");
}

#[test]
fn resolves_keil_sources_next_to_the_project_file() {
    let found = Ok(Some(r"D:\p\keil\demo.uvprojx".to_string()));
    assert_eq!(
        resolve_source_file(ProjectKind::Keil, r"D:\p", r"..\src\main.c", false, &found, true).unwrap(),
        r"D:\p\keil\..\src\main.c"
    );
    assert_eq!(
        resolve_source_file(ProjectKind::Keil, r"D:\p", "main.c", true, &found, true).unwrap(),
        r"D:\p\main.c"
    );
    assert_eq!(
        resolve_source_file(ProjectKind::Keil, r"D:\p", "main.c", false, &Ok(None), false).unwrap_err(),
        "未找到 Keil 工程文件"
    );
}

#[test]
fn ccs_to_keil_includes_sysconfig_files_generated_under_debug() {
    let files = vec![copied("src/main.c", "Source", "source"), copied("src/project.syscfg", "SysConfig", "syscfg")];
    assert!(sysconfig_outputs_needed(&files, &vec![true, false]));
    assert!(!sysconfig_outputs_needed(&vec![copied("src/main.c", "Source", "source")], &vec![false]));
    assert_eq!(existing_generated(&files, "ti_msp_dl_config.h"), None);
    let candidates = generated_candidates(r"D:\in", "ti_msp_dl_config.h");
    assert_eq!(candidates[1], r"D:\in\Debug/syscfg\ti_msp_dl_config.h");
    assert_eq!(
        generated_source(Ok(None), "ti_msp_dl_config.c").unwrap_err(),
        "工程使用 SysConfig，但未找到 ti_msp_dl_config.c；请先在 CCS 中构建一次工程，再重新转换"
    );
    let g = generated_file("ti_msp_dl_config.h", "header");
    assert_eq!(g.relative, "src/generated/ti_msp_dl_config.h");
    assert_eq!(g.group, "SysConfig");

    let header = "#if defined(__ti_version__)\n#define SYSCONFIG_WEAK __attribute__((weak))\n#elif defined(__GNUC__)\n#define SYSCONFIG_WEAK __attribute__((weak))\n#endif\n";
    let updated = make_sysconfig_header_armclang_compatible(header, "h").unwrap().unwrap();
    assert!(updated.contains("defined(__GNUC__) || defined(__clang__) || defined(__ARMCC_VERSION)"));
    assert_eq!(make_sysconfig_header_armclang_compatible(&updated, "h").unwrap(), None);
    assert_eq!(
        make_sysconfig_header_armclang_compatible("SYSCONFIG_WEAK", "h").unwrap_err(),
        "h 中的 SYSCONFIG_WEAK 定义无法自动兼容 ArmClang"
    );
    assert_eq!(make_sysconfig_header_armclang_compatible("int x;", "h").unwrap(), None);
}

const KEIL_TEMPLATE: &str = r#"<?xml version="1.0" encoding="UTF-8" standalone="no" ?>
<Project xmlns:xsi="http://www.w3.org/2001/XMLSchema-instance" xsi:noNamespaceSchemaLocation="project_projx.xsd">
  <Targets>
    <Target>
      <TargetName>empty</TargetName>
      <OutputName>empty</OutputName>
      <TargetCommonOption><Device>x</Device><Vendor>TI</Vendor></TargetCommonOption>
      <Define></Define>
      <IncludePath></IncludePath>
      <ScatterFile></ScatterFile>
      <Misc>..\lib\driverlib.a</Misc>
      <RunUserProg1>1</RunUserProg1>
      <Groups><Group>old</Group></Groups>
    </Target>
  </Targets>
</Project>"#;

fn keil_template() -> XmlElement {
    el(
        "Project",
        &[],
        vec![node(el(
            "Target",
            &[],
            vec![
                text("TargetName", "empty"),
                text("OutputName", "empty"),
                node(el("TargetCommonOption", &[], vec![text("Device", "x"), text("Vendor", "TI")])),
                text("Define", ""),
                text("IncludePath", ""),
                text("ScatterFile", ""),
                text("Misc", r"..\lib\driverlib.a"),
                text("RunUserProg1", "1"),
                node(el("Groups", &[], vec![text("Group", "old")])),
            ],
        ))],
    )
}

#[test]
fn converts_the_sample_ccs_project_to_keil() {
    let ins = inspection(ProjectKind::Ccs, vec![]);
    let resources = ResourceInfo {
        sdk_version: "2.10.00.04".into(),
        pack_name: "MSPM0G1X0X_G3X0X_DFP".into(),
        pack_version: "1.3.1".into(),
        devices: vec!["MSPM0G3507".into()],
    };
    let files = vec![copied("src/main.c", "Source", "source"), copied("src/ti_msp_dl_config.h", "SysConfig", "header")];
    assert!(keil_project_head("<Project>", &ins, &resources, r"D:\sdk", &files).unwrap_err().starts_with("Keil 模板无法解析："));
    let head = keil_project_head(KEIL_TEMPLATE, &ins, &resources, r"D:\sdk", &files).unwrap();
    assert_eq!(text_of(&head, "TargetName").as_deref(), Some("Blinky_demo_keil"));
    assert_eq!(text_of(&head, "Device").as_deref(), Some("MSPM0G3507"));
    assert_eq!(text_of(&head, "PackID").as_deref(), Some("TexasInstruments.MSPM0G1X0X_G3X0X_DFP.1.3.1"));
    assert_eq!(text_of(&head, "Define").as_deref(), Some("APP_DEBUG;__MSPM0G3507__"));
    assert_eq!(
        text_of(&head, "IncludePath").as_deref(),
        Some(r".;D:\sdk\source;D:\sdk\source\third_party\CMSIS\Core\Include;src")
    );
    let (bytes, written, _) = generate_keil(
        keil_project_head(KEIL_TEMPLATE, &ins, &resources, r"D:\sdk", &files).unwrap(),
        &ins,
        &files,
        "startup_mspm0g350x_uvision.s",
        "mspm0g3507.sct",
        None,
    )
    .unwrap();
    let written_text = String::from_utf8(bytes).unwrap();
    assert!(written_text.starts_with("<?xml"));
    assert!(written_text.contains("<ScatterFile>./mspm0g3507.sct</ScatterFile>"));
    assert!(written_text.contains("<TargetName>Blinky_demo_keil</TargetName>"));
    assert!(written_text.contains("xmlns:xsi=\"http://www.w3.org/2001/XMLSchema-instance\""));
    assert_eq!(written[0], "Blinky_demo_keil.uvprojx");
    let (xml, generated, warnings) = keil_project_document(
        head,
        &ins,
        &files,
        "startup_mspm0g350x_uvision.s",
        "mspm0g3507.sct",
        Some(r"\\?\D:\sdk\lib\driverlib.a".into()),
    )
    .unwrap();
    assert_eq!(generated, ["Blinky_demo_keil.uvprojx", "startup_mspm0g350x_uvision.s", "mspm0g3507.sct"]);
    assert!(warnings.is_empty());
    assert_eq!(text_of(&xml, "Misc").as_deref(), Some(r#""D:\sdk\lib\driverlib.a""#));
    assert_eq!(text_of(&xml, "ScatterFile").as_deref(), Some("./mspm0g3507.sct"));
    assert_eq!(text_of(&xml, "RunUserProg1").as_deref(), Some("1"));
    let groups = find_element(&xml, &chars("Groups")).unwrap();
    let names: Vec<String> = groups
        .children
        .iter()
        .filter_map(|n| match n {
            XmlNode::Element(g) => element_text(g, &chars("GroupName")).map(|v| v.into_iter().collect()),
            _ => None,
        })
        .collect();
    assert_eq!(names, ["Device", "Source", "SysConfig"]);
    assert_eq!(text_of(groups, "FilePath").as_deref(), Some("startup_mspm0g350x_uvision.s"));
}

#[test]
fn keil_projects_with_sysconfig_turn_off_the_prebuild_step() {
    let ins = inspection(ProjectKind::Ccs, vec![]);
    let files = vec![copied("src/demo.syscfg", "SysConfig", "syscfg")];
    let (xml, _, warnings) = keil_project_document(keil_template(), &ins, &files, "s.s", "m.sct", None).unwrap();
    assert_eq!(text_of(&xml, "RunUserProg1").as_deref(), Some("0"));
    assert_eq!(warnings.len(), 1);
    assert_eq!(text_of(&xml, "Misc").as_deref(), Some(r"..\lib\driverlib.a"));
    let bare = el("Project", &[], vec![]);
    assert_eq!(generate_keil(bare, &ins, &files, "s.s", "m.sct", None).unwrap_err(), "模板缺少 ScatterFile");
    let groupless = el("Project", &[], vec![text("ScatterFile", "")]);
    assert_eq!(replace_keil_groups(groupless, &files, &chars("s.s")).unwrap_err(), "Keil 模板缺少 Groups");
}

#[test]
fn inserts_a_pack_id_after_the_vendor() {
    let xml = el("Project", &[], vec![node(el("TargetCommonOption", &[], vec![text("Device", "d"), text("Vendor", "TI"), text("Cpu", "M0")]))]);
    let updated = set_pack_id(xml, &chars("TexasInstruments.P.1")).unwrap();
    let common = find_element(&updated, &chars("TargetCommonOption")).unwrap();
    let order: Vec<String> = common
        .children
        .iter()
        .filter_map(|n| match n {
            XmlNode::Element(e) => Some(e.name.clone()),
            _ => None,
        })
        .collect();
    assert_eq!(order, ["Device", "Vendor", "PackID", "Cpu"]);
    assert_eq!(set_pack_id(el("Project", &[], vec![]), &chars("x")).unwrap_err(), "Keil 模板缺少 TargetCommonOption");
    let defines = keil_defines(&vec!["B".into(), "A".into(), "B".into()], "MSPM0G3507");
    assert_eq!(defines, ["A", "B", "__MSPM0G3507__"]);
    let includes = keil_include_paths(&vec![copied("src/a/x.c", "S", "source")], "C:/sdk");
    assert_eq!(includes, [".", r"C:\sdk\source", r"C:\sdk\source\third_party\CMSIS\Core\Include", "src", "src/a"]);
}

#[test]
fn converts_the_sample_keil_project_to_ccs() {
    let ins = inspection(ProjectKind::Keil, vec![]);
    let template = el(
        "projectSpec",
        &[],
        vec![node(el(
            "project",
            &[("name", "empty"), ("compilerBuildOptions", "-O2")],
            vec![node(el("file", &[("path", "empty.c")], vec![])), text("configuration", "x")],
        ))],
    );
    let files = vec![
        copied("src/app/main.c", "App", "source"),
        copied("src/empty.c", "App", "source"),
        copied("src/demo.syscfg", "SysConfig", "syscfg"),
    ];
    let template_text = r#"<projectSpec><project name="empty" compilerBuildOptions="-O2"><file path="empty.c"/><configuration>x</configuration></project></projectSpec>"#;
    let (bytes, written, _) = generate_ccs(template_text, &ins, &files).unwrap();
    let written_text = String::from_utf8(bytes).unwrap();
    assert!(written_text.starts_with("<?xml"));
    assert!(written_text.contains("name=\"Blinky_demo_ccs\""));
    assert!(!written_text.contains("path=\"empty.c\""));
    assert_eq!(written, ["Blinky_demo_ccs.projectspec"]);
    assert!(generate_ccs("<projectSpec>", &ins, &files).unwrap_err().starts_with("CCS 模板无法解析："));
    assert_eq!(generate_ccs("<projectSpec/>", &ins, &files).unwrap_err(), "CCS 模板缺少 project 节点");
    let (xml, generated, warnings) = ccs_project_document(template, &ins, &files).unwrap();
    assert_eq!(generated, ["Blinky_demo_ccs.projectspec"]);
    assert_eq!(warnings.len(), 1);
    let project = find_element(&xml, &chars("project")).unwrap();
    let attr = |k: &str| project.attributes.iter().find(|(n, _)| n == k).map(|(_, v)| v.clone());
    assert_eq!(attr("name").as_deref(), Some("Blinky_demo_ccs"));
    assert_eq!(attr("title").as_deref(), Some("Blinky demo"));
    assert_eq!(attr("device").as_deref(), Some("MSPM0G3507"));
    assert_eq!(
        attr("compilerBuildOptions").as_deref(),
        Some("-O2\n            -DAPP_DEBUG\n            -I${PROJECT_ROOT}/src\n            -I${PROJECT_ROOT}/src/app")
    );
    let entries: Vec<&XmlElement> = project
        .children
        .iter()
        .filter_map(|n| match n {
            XmlNode::Element(e) if e.name == "file" => Some(e),
            _ => None,
        })
        .collect();
    assert_eq!(entries.len(), 3);
    let value = |e: &XmlElement, k: &str| e.attributes.iter().find(|(n, _)| n == k).map(|(_, v)| v.clone());
    assert_eq!(value(entries[0], "openOnCreation").as_deref(), Some("true"));
    assert_eq!(value(entries[1], "openOnCreation").as_deref(), Some("false"));
    assert_eq!(value(entries[0], "targetDirectory").as_deref(), Some("src/app"));
    assert_eq!(value(entries[2], "targetDirectory"), None);
    assert!(ccs_project_document(el("projectSpec", &[], vec![]), &ins, &files).is_err());
    assert_eq!(ccs_file_nodes(&files).len(), 3);
}

#[test]
fn reports_generated_files_sorted_once() {
    let ins = inspection(ProjectKind::Keil, vec![]);
    let report = conversion_report(
        &ins,
        r"D:\out",
        vec!["b.projectspec".into()],
        vec!["src/main.c".into(), "b.projectspec".into()],
        vec!["generated".into()],
    );
    assert_eq!(report.generated_files, ["b.projectspec", "src/main.c"]);
    assert_eq!(report.warnings, ["inspected", "generated"]);
    assert_eq!(report.target_kind, ProjectKind::Ccs);
}
