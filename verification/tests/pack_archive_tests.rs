use std::io::Write;

use ti_toolbox_core::pack::pdsc_from_pack_archive;
use zip::write::SimpleFileOptions;
use zip::ZipWriter;

fn archive(entries: &[(&str, &str)]) -> Vec<u8> {
    let mut writer = ZipWriter::new(std::io::Cursor::new(Vec::new()));
    for (name, content) in entries {
        writer.start_file(*name, SimpleFileOptions::default()).unwrap();
        writer.write_all(content.as_bytes()).unwrap();
    }
    writer.finish().unwrap().into_inner()
}

#[test]
fn reads_the_pdsc_entry_of_a_pack_archive() {
    let bytes = archive(&[
        ("readme.txt", "not this"),
        ("TexasInstruments.MSPM0G1X0X_G3X0X_DFP.PDSC", "<package><name>MSPM0G1X0X_G3X0X_DFP</name></package>"),
        ("other.pdsc", "<package/>"),
    ]);
    assert_eq!(
        pdsc_from_pack_archive(&bytes).unwrap(),
        "<package><name>MSPM0G1X0X_G3X0X_DFP</name></package>"
    );
}

#[test]
fn reports_a_pack_archive_without_a_pdsc() {
    let bytes = archive(&[("readme.txt", "text")]);
    assert_eq!(pdsc_from_pack_archive(&bytes).unwrap_err(), "Pack 中未找到 .pdsc");
}

#[test]
fn reports_bytes_that_are_not_a_pack_archive() {
    let error = pdsc_from_pack_archive(b"plain text, not an archive").unwrap_err();
    assert!(error.starts_with("Pack 不是有效压缩包："));
}
