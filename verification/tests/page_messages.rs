use kute::present::{next_request, poll, PollOutcome};
use kute::page_messages::{
    args_message, fps_info_message, host_features, launch_args_line, present_fps_message,
    social_script_source, ThrottleState,
};

#[test]
fn host_feature_lists() {
    assert_eq!(host_features(false), vec!["matchmaker", "dev-proof", "kute-icons", "script-manager"]);
    assert_eq!(host_features(true), vec!["matchmaker", "dev-proof", "kute-icons", "script-manager", "audio-log"]);
}

#[test]
fn launch_args() {
    assert_eq!(launch_args_line(&vec![]), None);
    assert_eq!(launch_args_line(&vec!["kute://join".to_string(), "x".to_string()]), Some("kute://join x".to_string()));
}

#[test]
fn args_messages_are_json() {
    let message = args_message("a \"quoted\" arg\n");
    assert_eq!(message, "{\"args\":\"a \\\"quoted\\\" arg\\n\"}");
    let value: serde_json::Value = serde_json::from_str(&message).unwrap();
    assert_eq!(value["args"], "a \"quoted\" arg\n");
}

#[test]
fn fps_messages() {
    assert_eq!(present_fps_message(0), "{\"presentFps\":0}");
    assert_eq!(present_fps_message(240), "{\"presentFps\":240}");
    assert_eq!(fps_info_message(u64::MAX), "{\"fpsInfo\":18446744073709551615}");
}

#[test]
fn social_scripts() {
    assert_eq!(
        social_script_source("alert(1)"),
        "if (window === window.top && location.href.includes(\"krunker.io/social.html\")) {\nalert(1)\n}"
    );
}

#[test]
fn throttling_is_sent_only_on_change() {
    let mut state = ThrottleState::new();
    assert!(!state.set(1.0f32.to_bits()));
    assert!(state.set(4.0f32.to_bits()));
    assert!(!state.set(4.0f32.to_bits()));
    assert!(state.set(1.0f32.to_bits()));
}

#[test]
fn present_hook_protocol() {
    assert_eq!(next_request(0), 1);
    assert_eq!(next_request(u64::MAX), 0);
    assert_eq!(poll(5, 5, 999_000_000), PollOutcome::Answered);
    assert_eq!(poll(4, 5, 150_000_000), PollOutcome::Wait);
    assert_eq!(poll(4, 5, 150_000_001), PollOutcome::GiveUp);
}

#[test]
fn args_escape_control_characters() {
    assert_eq!(args_message("\u{8}\t\u{c}\r\\\u{1}\u{1f}é"), "{\"args\":\"\\b\\t\\f\\r\\\\\\u0001\\u001fé\"}");
}
