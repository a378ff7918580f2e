use ti_toolbox_core::pack::validate_pack_text;

#[test]
fn reads_a_pack_description_from_pdsc_text() {
    let pdsc = r#"<?xml version="1.0" encoding="UTF-8"?>
<package schemaVersion="1.7.7" xmlns:xs="http://www.w3.org/2001/XMLSchema-instance">
  <vendor>TexasInstruments</vendor>
  <name>MSPM0G1X0X_G3X0X_DFP</name>
  <releases><release version="1.3.1">notes</release></releases>
  <devices><family><device Dname="MSPM0G3507"/><device Dname="MSPM0G1507"/></family></devices>
</package>"#;
    let (name, version, devices) = validate_pack_text(pdsc).unwrap();
    assert_eq!(name, "MSPM0G1X0X_G3X0X_DFP");
    assert_eq!(version, "1.3.1");
    assert_eq!(devices, ["MSPM0G1507", "MSPM0G3507"]);
}

#[test]
fn reports_pdsc_text_that_does_not_parse() {
    assert!(validate_pack_text("<package>").unwrap_err().starts_with("Pack PDSC 无法解析："));
    assert_eq!(validate_pack_text("<package/>").unwrap_err(), "Pack PDSC 缺少名称");
}
