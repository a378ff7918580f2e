use ti_toolbox_core::keil_project::keil_library_path;
use ti_toolbox_core::pack::{is_pdsc_entry, pack_archive_error, pdsc_entry_text, sdk_name_check, sdk_version_of};
use ti_toolbox_core::outside::ZipReadFailure;
use ti_toolbox_core::winpath::{file_name_of, path_join};

fn chars(s: &str) -> Vec<char> {
    s.chars().collect()
}

fn text(v: Vec<char>) -> String {
    v.into_iter().collect()
}

#[test]
fn joins_paths_the_way_windows_does() {
    assert_eq!(text(path_join(&chars(r"C:\sdk"), &chars("lib"))), r"C:\sdk\lib");
    assert_eq!(text(path_join(&chars(r"C:\sdk"), &chars(r"D:\other\x.a"))), r"D:\other\x.a");
    assert_eq!(text(path_join(&chars(r"C:\sdk"), &chars(r"\root\x.a"))), r"C:\root\x.a");
    assert_eq!(text(path_join(&chars(r"C:\sdk"), &chars(r"\\server\share\x.a"))), r"\\server\share\x.a");
    assert_eq!(text(path_join(&chars("C:"), &chars("x"))), "C:x");
    assert_eq!(keil_library_path(r"C:\sdk\keil", r"D:\libs\driverlib.a"), "D:/libs/driverlib.a");
}

#[test]
fn file_names_skip_current_directory_components() {
    assert_eq!(file_name_of(&chars("x.uvprojx/.")).map(text).as_deref(), Some("x.uvprojx"));
    assert_eq!(file_name_of(&chars("a/./b.c")).map(text).as_deref(), Some("b.c"));
    assert_eq!(file_name_of(&chars("./")), None);
    assert_eq!(file_name_of(&chars("a/..")), None);
    assert_eq!(file_name_of(&chars("C:")), None);
    assert_eq!(file_name_of(&chars(r"C:\x\main.c")).map(text).as_deref(), Some("main.c"));
}

#[test]
fn judges_sdk_members_and_pack_entries() {
    assert_eq!(sdk_name_check(Ok(Some("mspm0_sdk".into()))), Ok(()));
    assert_eq!(sdk_name_check(Ok(Some("other".into()))).unwrap_err(), "所选目录不是 MSPM0 SDK");
    assert_eq!(sdk_name_check(Ok(None)).unwrap_err(), "所选目录不是 MSPM0 SDK");
    assert_eq!(sdk_name_check(Err("bad".into())).unwrap_err(), "SDK product.json 无法解析：bad");
    assert_eq!(sdk_version_of(Ok(Some("2.10".into()))).unwrap(), "2.10");
    assert_eq!(sdk_version_of(Ok(None)).unwrap_err(), "SDK product.json 缺少版本号");
    assert!(is_pdsc_entry("TI.MSPM0_DFP.PDSC"));
    assert!(!is_pdsc_entry("readme.pdsc.txt"));
    assert_eq!(pack_archive_error("eof"), "Pack 不是有效压缩包：eof");
    assert_eq!(pdsc_entry_text(Ok("<package/>".into())).unwrap(), "<package/>");
    assert_eq!(pdsc_entry_text(Err(ZipReadFailure::Entry("gone".into()))).unwrap_err(), "gone");
    assert_eq!(pdsc_entry_text(Err(ZipReadFailure::Content("utf8".into()))).unwrap_err(), "无法读取 Pack PDSC：utf8");
}
