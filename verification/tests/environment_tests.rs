use ti_toolbox_core::discovery::{
    discover_pack, discover_sdk, discover_sysconfig, find_pack_candidate, latest_by_version, normalize_sysconfig_path,
    pack_file_candidate, pack_search_dirs, registry_string_value, selected_pack, sysconfig_entry, sysconfig_probe_paths,
    PackCandidate, SdkFound, SysConfigEntry,
};
use ti_toolbox_core::environment::{EnvironmentFindings, KeilFindings};
use ti_toolbox_core::pack::{validate_pack, validate_sdk};
use ti_toolbox_core::tools::{
    ccs_search_roots, keil_search_roots, locate_ccs_server, locate_toolchains, locate_uv4, scan_tool_entries,
    special_candidate, DirEntryFacts, ToolProbe,
};
use ti_toolbox_core::xml::{no_namespace, XmlElement, XmlNode};
use ti_toolbox_core::{
    discover_environment, discover_keil_environment, validate_development_resources, validate_resources,
    validate_toolchains, EnvironmentRequest, KeilEnvironmentRequest, ProjectInspection, ProjectKind,
};

fn el(name: &str, attributes: &[(&str, &str)], children: Vec<XmlNode>) -> XmlElement {
    XmlElement {
        name: name.to_string(),
        attributes: attributes.iter().map(|(k, v)| (k.to_string(), v.to_string())).collect(),
        children,
        namespace: no_namespace(),
    }
}

fn pdsc(name: &str, version: &str, devices: &[&str]) -> XmlElement {
    el(
        "package",
        &[],
        vec![
            XmlNode::Element(el("name", &[], vec![XmlNode::Text(name.into())])),
            XmlNode::Element(el("releases", &[], vec![XmlNode::Element(el("release", &[("version", version)], vec![]))])),
            XmlNode::Element(el(
                "devices",
                &[],
                vec![XmlNode::Element(el(
                    "family",
                    &[],
                    devices.iter().map(|d| XmlNode::Element(el("device", &[("Dname", d)], vec![]))).collect(),
                ))],
            )),
        ],
    )
}

fn probe(selected: &str, is_file: bool, is_dir: bool, special: bool, search: Result<Option<String>, String>) -> ToolProbe {
    ToolProbe { selected: selected.into(), is_file, is_dir, special_is_file: special, search }
}

#[test]
fn validates_user_selected_sdk_and_pack() {
    let sdk = validate_sdk(r"D:\sdk\.metadata/product.json", Some(r#"{"name":"mspm0_sdk","version":"2.10.00.04"}"#));
    let pack = validate_pack(&pdsc("MSPM0_DFP", "1.3.1", &["MSPM0G3507"]));
    let info = validate_resources(sdk, pack).unwrap();
    assert_eq!(info.sdk_version, "2.10.00.04");
    assert_eq!(info.pack_version, "1.3.1");
    assert_eq!(info.devices, ["MSPM0G3507"]);
}

#[test]
fn refuses_other_sdks_and_empty_packs() {
    assert_eq!(
        validate_sdk("p", Some(r#"{"name":"other","version":"1"}"#)).unwrap_err(),
        "所选目录不是 MSPM0 SDK"
    );
    assert_eq!(validate_sdk("p", Some(r#"{"name":"mspm0_sdk"}"#)).unwrap_err(), "SDK product.json 缺少版本号");
    assert_eq!(validate_sdk(r"D:\x", None).unwrap_err(), r"SDK 无效：未找到 D:\x");
    assert!(validate_sdk("p", Some("not json")).unwrap_err().starts_with("SDK product.json 无法解析："));
    assert_eq!(validate_pack(&pdsc("P", "1", &[])).unwrap_err(), "Pack PDSC 未声明任何器件");
    let devices = validate_pack(&pdsc("P", "1", &["MSPM0G3507", "MSPM0G1507", "MSPM0G3507"])).unwrap().2;
    assert_eq!(devices, ["MSPM0G1507", "MSPM0G3507"]);
}

#[test]
fn accepts_ccs_and_keil_install_roots() {
    let ccs = probe(r"D:\ti\ccs\theia", false, true, true, Ok(None));
    let keil = probe(r"D:\Keil_v5", false, true, false, Ok(Some(r"D:\Keil_v5\UV4\UV4.exe".into())));
    validate_toolchains(&ccs, &keil).unwrap();
    assert_eq!(
        locate_ccs_server(&ccs, 2).unwrap(),
        r"D:\ti\ccs\theia\../eclipse/ccs-serverc.exe"
    );
    assert_eq!(special_candidate(ti_toolbox_core::tools::Tool::Keil, r"D:\Keil_v5"), None);
}

#[test]
fn searches_tool_directories_only_to_the_selected_depth() {
    let nested = probe(r"D:\root", false, true, false, Ok(None));
    assert_eq!(
        locate_uv4(&nested, 2).unwrap_err(),
        r"Keil 路径无效：在 D:\root 向下 2 级未找到 UV4.exe"
    );
    assert_eq!(locate_toolchains(&nested, &nested, 5).unwrap_err(), "工具目录搜索层级只能是 0–4");

    let entries = vec![
        DirEntryFacts { name: "one".into(), path: r"D:\root\one".into(), is_file: false, is_dir: true },
        DirEntryFacts { name: "uv4.EXE".into(), path: r"D:\root\uv4.EXE".into(), is_file: true, is_dir: false },
    ];
    assert_eq!(scan_tool_entries(&entries, "UV4.exe", true), Ok(r"D:\root\uv4.EXE".to_string()));
    let dirs_only = vec![DirEntryFacts { name: "one".into(), path: r"D:\root\one".into(), is_file: false, is_dir: true }];
    assert_eq!(scan_tool_entries(&dirs_only, "UV4.exe", true), Err(vec![r"D:\root\one".to_string()]));
    assert_eq!(scan_tool_entries(&dirs_only, "UV4.exe", false), Err(vec![]));
}

#[test]
fn reports_an_unreadable_tool_search_root() {
    let unreadable = probe(r"D:\missing", false, true, false, Err(r"无法搜索工具目录 D:\missing：denied".into()));
    assert_eq!(locate_uv4(&unreadable, 2).unwrap_err(), r"无法搜索工具目录 D:\missing：denied");
    let absent = probe(r"D:\missing", false, false, false, Ok(None));
    assert_eq!(locate_uv4(&absent, 2).unwrap_err(), r"Keil 路径不存在：D:\missing");
    let wrong_file = probe(r"D:\tools\notepad.exe", true, false, false, Ok(None));
    assert_eq!(
        locate_uv4(&wrong_file, 2).unwrap_err(),
        "Keil 路径无效：请选择 UV4.exe 或其上级目录"
    );
    let right_file = probe(r"D:\Keil_v5\UV4\uv4.exe", true, false, false, Ok(None));
    assert_eq!(locate_uv4(&right_file, 2).unwrap(), r"D:\Keil_v5\UV4\uv4.exe");
}

#[test]
fn tries_tool_roots_in_order() {
    let roots = ccs_search_roots(r"E:\ccs", 1);
    assert_eq!(roots, [(r"E:\ccs".to_string(), 1), (r"C:\ti".to_string(), 4), (r"D:\ti".to_string(), 4)]);
    assert_eq!(ccs_search_roots("", 1).len(), 2);
    let roots = keil_search_roots("", Some(r"C:\Keil_v5\ARM"), 2);
    assert_eq!(
        roots,
        [(r"C:\Keil_v5".to_string(), 2), (r"C:\Keil_v5".to_string(), 2), (r"D:\Keil_v5".to_string(), 2)]
    );
}

#[test]
fn picks_the_latest_version_last_among_equals() {
    let versions: Vec<String> = ["1.2.0", "1.10.0", "1.9.9", "1.10.0"].iter().map(|v| v.to_string()).collect();
    assert_eq!(latest_by_version(&versions), Some(3));
    assert_eq!(latest_by_version(&Vec::new()), None);
    let sdks = vec![
        SdkFound { path: r"C:\ti\mspm0_sdk_2_01".into(), version: "2.01.00.03".into() },
        SdkFound { path: r"C:\ti\mspm0_sdk_2_10".into(), version: "2.10.00.04".into() },
    ];
    assert_eq!(discover_sdk("", &None, &sdks).unwrap().path, r"C:\ti\mspm0_sdk_2_10");
    assert_eq!(discover_sdk(r"E:\sdk", &Some("1.0".into()), &sdks).unwrap().path, r"E:\sdk");
    assert_eq!(discover_sdk(r"E:\sdk", &None, &sdks).unwrap().version, "2.10.00.04");
}

fn candidate(path: &str, version: &str, installed: bool) -> PackCandidate {
    PackCandidate { path: path.into(), name: "MSPM0G1X0X_G3X0X_DFP".into(), version: version.into(), installed }
}

#[test]
fn discovers_an_installed_pack_for_the_project_device() {
    let (installed_dirs, web_dirs) = pack_search_dirs(Some(r"D:\Keil_v5\UV4\UV4.exe"));
    assert_eq!(
        installed_dirs,
        [r"D:\Keil_v5\ARM\PACK\TexasInstruments", r"D:\Keil_v5\ARM\Packs\TexasInstruments"]
    );
    assert_eq!(web_dirs, [r"D:\Keil_v5\ARM\PACK\.Web", r"D:\Keil_v5\ARM\Packs\.Web"]);

    let description = validate_pack(&pdsc("MSPM0G1X0X_G3X0X_DFP", "1.3.1", &["MSPM0G3507"]));
    let found = pack_file_candidate(
        r"D:\Keil_v5\ARM\Packs\TexasInstruments\MSPM0G1X0X_G3X0X_DFP\1.3.1\TexasInstruments.MSPM0G1X0X_G3X0X_DFP.pdsc",
        r"D:\Keil_v5\ARM\Packs\TexasInstruments",
        true,
        &description,
        "MSPM0G3507",
    )
    .unwrap();
    assert_eq!(found.path, r"D:\Keil_v5\ARM\Packs\TexasInstruments\MSPM0G1X0X_G3X0X_DFP\1.3.1");
    assert!(pack_file_candidate(r"D:\x\readme.txt", r"D:\x", true, &description, "MSPM0G3507").is_none());
    assert!(pack_file_candidate(r"D:\x\a.PDSC", r"D:\x", false, &description, "MSPM0L1306").is_none());

    let web = candidate(r"D:\Keil_v5\ARM\PACK\.Web\TexasInstruments.MSPM0G1X0X_G3X0X_DFP.pdsc", "9.9.9", false);
    let chosen = discover_pack(None, vec![None, Some(found)], vec![Some(web)]).unwrap();
    assert!(chosen.installed);
    assert_eq!(chosen.version, "1.3.1");

    let web = candidate(r"D:\Keil_v5\ARM\PACK\.Web\TexasInstruments.MSPM0G1X0X_G3X0X_DFP.pdsc", "9.9.9", false);
    let catalog = discover_pack(None, vec![None, None], vec![Some(web)]).unwrap();
    assert!(!catalog.installed);
    assert_eq!(catalog.version, "9.9.9");
}

#[test]
fn prefers_a_selected_installed_pack() {
    let description = validate_pack(&pdsc("MSPM0G1X0X_G3X0X_DFP", "1.3.1", &["MSPM0G3507"]));
    let selected = selected_pack(r"D:\Keil_v5\ARM\Packs\TI\1.3.1", &description, "MSPM0G3507").unwrap();
    assert!(selected.installed);
    let other = candidate(r"D:\Keil_v5\ARM\PACK\TexasInstruments\x", "2.0.0", true);
    assert_eq!(discover_pack(Some(selected), vec![Some(other)], vec![]).unwrap().version, "1.3.1");
    assert!(selected_pack("", &description, "MSPM0G3507").is_none());
    let downloaded = selected_pack(r"D:\Downloads\TI.pack", &description, "MSPM0G3507").unwrap();
    assert!(!downloaded.installed);
    let newer = candidate(r"D:\Keil_v5\ARM\PACK\TexasInstruments\x", "2.0.0", true);
    assert_eq!(discover_pack(Some(downloaded), vec![Some(newer)], vec![]).unwrap().version, "2.0.0");
    let latest = find_pack_candidate(vec![candidate("a", "1.3.1", true), candidate("b", "1.10.0", true)]).unwrap();
    assert_eq!(latest.path, "b");
}

#[test]
fn normalizes_sysconfig_selections() {
    let root = r"D:\ti\sysconfig_1.26.2";
    let files: Vec<String> = vec![r"D:\ti\sysconfig_1.26.2\nw\nw.exe".into(), r"D:\ti\sysconfig_1.26.2\sysconfig_cli.bat".into()];
    assert_eq!(normalize_sysconfig_path(root, &files), Some(root.to_string()));
    let mut with_exe = files.clone();
    with_exe.push(r"D:\ti\sysconfig_1.26.2\nw\nw.exe".into());
    assert_eq!(normalize_sysconfig_path(r"D:\ti\sysconfig_1.26.2\nw\nw.exe", &with_exe), Some(root.to_string()));
    assert_eq!(normalize_sysconfig_path(r"D:\ti\sysconfig_1.26.2\nw", &files), Some(root.to_string()));
    assert_eq!(normalize_sysconfig_path(r"D:\elsewhere", &files), None);
    let probes = sysconfig_probe_paths(root);
    assert!(probes.contains(&r"D:\ti\sysconfig_1.26.2\nw\nw.exe".to_string()));
    assert_eq!(sysconfig_entry("sysconfig_1.26.2", true, true, true, 0), SysConfigEntry::Candidate);
    assert_eq!(sysconfig_entry("ccs2100", true, false, false, 1), SysConfigEntry::Descend);
    assert_eq!(sysconfig_entry("ccs2100", true, false, false, 0), SysConfigEntry::Skip);
    assert_eq!(sysconfig_entry("sysconfig_1.26.2", false, true, true, 2), SysConfigEntry::Skip);
    let candidates = vec![r"C:\ti\sysconfig_1.20.0".to_string(), r"C:\ti\sysconfig_1.26.2".to_string()];
    assert_eq!(discover_sysconfig(None, &candidates), Some(r"C:\ti\sysconfig_1.26.2".to_string()));
    assert_eq!(discover_sysconfig(Some("E:\\s".into()), &candidates), Some("E:\\s".to_string()));
}

#[test]
fn reads_registry_strings() {
    let output = "\r\nHKEY_LOCAL_MACHINE\\SOFTWARE\\Keil\\Products\\MDK\r\n    Path    REG_SZ    C:\\Keil_v5\\ARM\r\n";
    assert_eq!(registry_string_value(output, "Path"), Some(r"C:\Keil_v5\ARM".to_string()));
    assert_eq!(registry_string_value(output, "Version"), None);
}

fn inspection(kind: ProjectKind) -> ProjectInspection {
    ProjectInspection {
        kind,
        target_kind: if kind == ProjectKind::Ccs { ProjectKind::Keil } else { ProjectKind::Ccs },
        name: "demo".into(),
        device: "MSPM0G3507".into(),
        files: vec![],
        include_paths: vec![],
        defines: vec![],
        warnings: vec![],
    }
}

fn request(depth: u8) -> EnvironmentRequest {
    EnvironmentRequest {
        project_path: "p".into(),
        sdk_path: String::new(),
        pack_path: String::new(),
        ccs_path: String::new(),
        keil_path: String::new(),
        sysconfig_path: String::new(),
        search_depth: depth,
    }
}

#[test]
fn reports_the_environment_of_a_ccs_project() {
    let found = EnvironmentFindings {
        sdk: Some(SdkFound { path: r"C:\ti\mspm0_sdk_2_10_00_04".into(), version: "2.10.00.04".into() }),
        ccs: Some(r"C:\ti\ccs2100\ccs\eclipse\ccs-serverc.exe".into()),
        keil: Some(r"D:\Keil_v5\UV4\UV4.exe".into()),
        pack: Some(candidate(r"D:\Keil_v5\ARM\Packs\TI\1.3.1", "1.3.1", true)),
        sysconfig: Some(r"C:\ti\sysconfig_1.26.2".into()),
    };
    let d = discover_environment(&request(2), Ok(inspection(ProjectKind::Ccs)), &found).unwrap();
    assert_eq!(d.pack_download_url.as_deref(), Some("https://www.keil.arm.com/packs/mspm0g1x0x_g3x0x_dfp-texasinstruments/boards/"));
    assert!(d.pack_installed);
    assert_eq!(d.keil_path.as_deref(), Some(r"D:\Keil_v5"));
    assert_eq!(d.ccs_path.as_deref(), Some(r"C:\ti\ccs2100\ccs"));
    assert_eq!(d.sysconfig_executable.as_deref(), Some(r"C:\ti\sysconfig_1.26.2\nw\nw.exe"));
    assert!(d.warnings.is_empty());
}

#[test]
fn warns_about_each_missing_piece() {
    let found = EnvironmentFindings { sdk: None, ccs: None, keil: None, pack: None, sysconfig: None };
    let d = discover_environment(&request(2), Ok(inspection(ProjectKind::Ccs)), &found).unwrap();
    assert_eq!(d.warnings.len(), 5);
    assert_eq!(d.warnings[3], "未找到支持 MSPM0G3507 的 Pack；请从 Keil 官网下载后手动选择");
    assert_eq!(d.pack_download_url.as_deref(), Some("https://www.keil.arm.com/packs/?q=MSPM0G3507"));
    let k = discover_environment(&request(2), Ok(inspection(ProjectKind::Keil)), &found).unwrap();
    assert_eq!(k.warnings.len(), 4);
    assert_eq!(k.warnings[2], "未找到 Keil；仍可转换，但不能执行源工程构建验证");
    assert_eq!(k.pack_download_url, None);
    assert_eq!(discover_environment(&request(5), Ok(inspection(ProjectKind::Ccs)), &found).unwrap_err(), "工具目录搜索层级只能是 0–4");
    assert_eq!(discover_environment(&request(2), Err("bad".into()), &found).unwrap_err(), "bad");
}

#[test]
fn discovers_keil_environment_without_a_project() {
    let found = KeilFindings {
        sdk: Some(SdkFound { path: r"D:\mspm0_sdk_2_10_00_04".into(), version: "2.10.00.04".into() }),
        keil: Some(r"D:\Keil_v5\UV4\UV4.exe".into()),
        sysconfig: Some(r"D:\sysconfig_1.26.2".into()),
    };
    let request = KeilEnvironmentRequest {
        sdk_path: String::new(),
        keil_path: String::new(),
        sysconfig_path: String::new(),
        search_depth: 2,
    };
    let d = discover_keil_environment(&request, &found).unwrap();
    assert_eq!(d.sdk_version.as_deref(), Some("2.10.00.04"));
    assert!(d.keil_executable.as_deref().is_some_and(|p| p.ends_with("UV4.exe")));
    assert!(d.sysconfig_executable.as_deref().is_some_and(|p| p.ends_with("nw.exe")));
    assert!(d.warnings.is_empty());
    let none = KeilFindings { sdk: None, keil: None, sysconfig: None };
    assert_eq!(discover_keil_environment(&request, &none).unwrap().warnings.len(), 3);
}

#[test]
fn validates_development_resources_in_order() {
    let ccs = probe(r"D:\ti\ccs\theia", false, true, true, Ok(None));
    let keil = probe(r"D:\Keil_v5", false, true, false, Ok(Some(r"D:\Keil_v5\UV4\UV4.exe".into())));
    let pack = validate_pack(&pdsc("P", "1.0", &["MSPM0G3507"]));
    let v = validate_development_resources(Ok("2.10".into()), pack, &ccs, &keil, 2).unwrap();
    assert_eq!(v.keil_executable, r"D:\Keil_v5\UV4\UV4.exe");
    let pack = validate_pack(&pdsc("P", "1.0", &["MSPM0G3507"]));
    assert_eq!(
        validate_development_resources(Err("sdk".into()), pack, &ccs, &keil, 9).unwrap_err(),
        "sdk"
    );
    let pack = validate_pack(&pdsc("P", "1.0", &["MSPM0G3507"]));
    assert_eq!(
        validate_development_resources(Ok("2.10".into()), pack, &ccs, &keil, 9).unwrap_err(),
        "工具目录搜索层级只能是 0–4"
    );
}
