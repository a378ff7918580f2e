use ti_toolbox_core::validation::{keil_log_succeeded, strict_makefile};

#[test]
fn makes_a_separate_strict_ccs_link_target() {
    let makefile = r#"
demo.out: $(OBJS) $(GEN_CMDS)
	"tiarmclang.exe" -Wl,-m"demo.map" -Wl,--xml_link_info="demo_linkInfo.xml" -Wl,--rom_model -o "demo.out" $(ORDERED_OBJS)
"#;
    let (patched, target, artifacts) = strict_makefile(makefile).unwrap();

    assert_eq!(target, "ti-toolbox-strict-validation.out");
    assert!(patched.contains("-Wl,--unused_section_elimination=off"));
    assert!(patched.contains("ti-toolbox-strict-validation.map"));
    assert!(patched.contains("ti-toolbox-strict-validation_linkInfo.xml"));
    assert!(!patched.contains("-o \"demo.out\""));
    assert_eq!(artifacts.len(), 3);
}

#[test]
fn judges_keil_build_from_its_log_not_process_exit_code() {
    assert!(keil_log_succeeded(
        r#"".\Objects\demo.axf" - 0 Error(s), 0 Warning(s).
Build Time Elapsed: 00:00:01"#
    ));
    assert!(!keil_log_succeeded(
        r#"Error: L6218E: Undefined symbol TrackN.
".\Objects\demo.axf" - 1 Error(s), 0 Warning(s).
Build Time Elapsed: 00:00:01"#
    ));
}
