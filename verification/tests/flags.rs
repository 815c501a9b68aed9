use kute::flags::{
    angle_backend_switch, chromium_flags, color_profile_switch, feature_enabled, has_flag, merge_feature_lists,
    switch_action, SwitchAction,
};

fn strings(list: &[&str]) -> Vec<String> {
    list.iter().map(|s| s.to_string()).collect()
}

#[test]
fn angle_backends() {
    assert_eq!(angle_backend_switch("D3D11"), Some("d3d11"));
    assert_eq!(angle_backend_switch("D3D11on12"), Some("d3d11on12"));
    assert_eq!(angle_backend_switch("OpenGL"), Some("gl"));
    assert_eq!(angle_backend_switch("Vulkan"), Some("vulkan"));
    assert_eq!(angle_backend_switch("Default"), None);
    assert_eq!(angle_backend_switch("d3d11"), None);
}

#[test]
fn color_profiles() {
    assert_eq!(color_profile_switch("sRGB"), Some("srgb"));
    assert_eq!(color_profile_switch("Display P3 D65"), Some("display-p3-d65"));
    assert_eq!(color_profile_switch("Extended sRGB"), Some("extended-srgb"));
    assert_eq!(color_profile_switch("scRGB linear"), Some("scrgb-linear"));
    assert_eq!(color_profile_switch("HDR10"), Some("hdr10"));
    assert_eq!(color_profile_switch("Default"), None);
}

#[test]
fn flags_outside_a_bench_run() {
    let flags = chromium_flags(strings(&["--a"]), None, true, "Vulkan", "HDR10");
    assert_eq!(
        flags,
        strings(&[
            "--a",
            "--disable-frame-rate-limit",
            "--use-angle=vulkan",
            "--force-color-profile=hdr10",
            "--enable-features=KuteRawInputMovementOnly",
        ])
    );
    let flags = chromium_flags(vec![], None, false, "Default", "Default");
    assert_eq!(flags, strings(&["--enable-features=KuteRawInputMovementOnly"]));
}

#[test]
fn flags_of_a_bench_run_replace_the_fps_uncap() {
    let flags = chromium_flags(strings(&["--a"]), Some(strings(&["--bench"])), true, "Default", "sRGB");
    assert_eq!(
        flags,
        strings(&["--a", "--bench", "--force-color-profile=srgb", "--enable-features=KuteRawInputMovementOnly"])
    );
}

#[test]
fn has_flag_is_exact() {
    let flags = strings(&["--raise-timer-frequency", "--x=1"]);
    assert!(has_flag(&flags, "--raise-timer-frequency"));
    assert!(!has_flag(&flags, "--x"));
    assert!(!has_flag(&vec![], "--x"));
}

#[test]
fn features_enabled_and_disabled() {
    let flags = strings(&["--enable-features=A,B:param/1", "--disable-features=C"]);
    assert!(feature_enabled(&flags, "A"));
    assert!(feature_enabled(&flags, "B"));
    assert!(!feature_enabled(&flags, "C"));
    assert!(!feature_enabled(&flags, "D"));
    let flags = strings(&["--enable-features=A", "--disable-features=X,A"]);
    assert!(!feature_enabled(&flags, "A"));
}

#[test]
fn raw_input_feature_on_by_default() {
    let flags = chromium_flags(vec![], None, true, "Default", "Default");
    assert!(feature_enabled(&flags, "KuteRawInputMovementOnly"));
    let flags = chromium_flags(strings(&["--disable-features=KuteRawInputMovementOnly"]), None, true, "Default", "Default");
    assert!(!feature_enabled(&flags, "KuteRawInputMovementOnly"));
}

#[test]
fn feature_lists_merge() {
    assert_eq!(merge_feature_lists("A,B", "B,C"), "A,B,C");
    assert_eq!(merge_feature_lists("", "C,,D"), "C,D");
    assert_eq!(merge_feature_lists("A,,B,", ""), "A,B");
    assert_eq!(merge_feature_lists("", ""), "");
    assert_eq!(merge_feature_lists("A", "C,C"), "A,C");
}

#[test]
fn merging_twice_changes_nothing() {
    let once = merge_feature_lists("A,B", "B,C,D");
    assert_eq!(merge_feature_lists(&once, "B,C,D"), once);
}

#[test]
fn switches() {
    assert_eq!(
        switch_action("--enable-features=X"),
        SwitchAction::MergeList { key: "enable-features".to_string(), value: "X".to_string() }
    );
    assert_eq!(
        switch_action("--disable-features=Y,Z"),
        SwitchAction::MergeList { key: "disable-features".to_string(), value: "Y,Z".to_string() }
    );
    assert_eq!(
        switch_action("--use-angle=gl"),
        SwitchAction::WithValue { key: "use-angle".to_string(), value: "gl".to_string() }
    );
    assert_eq!(
        switch_action("----a=b=c"),
        SwitchAction::WithValue { key: "a".to_string(), value: "b=c".to_string() }
    );
    assert_eq!(switch_action("--no-sandbox"), SwitchAction::Bare { name: "no-sandbox".to_string() });
    assert_eq!(switch_action("-x"), SwitchAction::Bare { name: "-x".to_string() });
}
