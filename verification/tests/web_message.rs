use kute::web_message::{classify_web_value, parse_web_message, MessageContext, ThrottleSource, WebCommand, WebValue};

fn page() -> MessageContext {
    MessageContext { frame_is_krunker: true, bench_active: false, bench_hook: false, audio_log_build: false }
}

#[test]
fn set_config_with_fps_limit() {
    let command = parse_web_message("set-config, gameFpsLimit, 144", page());
    assert_eq!(
        command,
        WebCommand::SetConfig { setting: "gameFpsLimit".to_string(), value: "144".to_string(), fps_limit: Some(144) }
    );
}

#[test]
fn set_config_other_setting_has_no_fps_limit() {
    let command = parse_web_message("set-config, fov, 90", page());
    assert_eq!(command, WebCommand::SetConfig { setting: "fov".to_string(), value: "90".to_string(), fps_limit: None });
}

#[test]
fn set_config_fps_limit_that_is_no_number() {
    let command = parse_web_message("set-config, gameFpsLimit, fast", page());
    assert_eq!(
        command,
        WebCommand::SetConfig { setting: "gameFpsLimit".to_string(), value: "fast".to_string(), fps_limit: None }
    );
}

#[test]
fn parts_are_trimmed() {
    let command = parse_web_message("  set-config ,  fov  , 90 ", page());
    assert_eq!(command, WebCommand::SetConfig { setting: "fov".to_string(), value: "90".to_string(), fps_limit: None });
}

#[test]
fn wrong_number_of_parts_is_ignored() {
    assert_eq!(parse_web_message("set-config, fov", page()), WebCommand::Ignore);
    assert_eq!(parse_web_message("get-info, now", page()), WebCommand::Ignore);
    assert_eq!(parse_web_message("", page()), WebCommand::Ignore);
    assert_eq!(parse_web_message("unknown", page()), WebCommand::Ignore);
}

#[test]
fn simple_commands() {
    assert_eq!(parse_web_message("get-info", page()), WebCommand::GetInfo);
    assert_eq!(parse_web_message("get-specs", page()), WebCommand::GetSpecs);
    assert_eq!(parse_web_message("get-present", page()), WebCommand::GetPresent);
    assert_eq!(parse_web_message("get-present-intervals", page()), WebCommand::GetPresentIntervals);
    assert_eq!(parse_web_message("close", page()), WebCommand::Close);
    assert_eq!(parse_web_message("restart", page()), WebCommand::Restart);
    assert_eq!(parse_web_message("bring-to-front", page()), WebCommand::BringToFront);
    assert_eq!(parse_web_message("hard-reload", page()), WebCommand::HardReload);
    assert_eq!(parse_web_message("clear-cache", page()), WebCommand::ClearCache);
    assert_eq!(parse_web_message("ping", page()), WebCommand::Ping);
    assert_eq!(parse_web_message("ping-regions", page()), WebCommand::PingRegions);
}

#[test]
fn boolean_arguments_default_to_false() {
    assert_eq!(parse_web_message("obs-plugin, true", page()), WebCommand::ObsPlugin { install: true });
    assert_eq!(parse_web_message("obs-plugin, yes", page()), WebCommand::ObsPlugin { install: false });
    assert_eq!(parse_web_message("drag, true", page()), WebCommand::Drag { menu_open: true });
    assert_eq!(parse_web_message("drag, false", page()), WebCommand::Drag { menu_open: false });
    assert_eq!(parse_web_message("toggle-rboost, TRUE", page()), WebCommand::RampBoost { enabled: false });
    assert_eq!(parse_web_message("toggle-rboost, true", page()), WebCommand::RampBoost { enabled: true });
}

#[test]
fn throttle_sources() {
    assert_eq!(parse_web_message("throttle, off", page()), WebCommand::Throttle { source: ThrottleSource::Off });
    assert_eq!(parse_web_message("throttle, game", page()), WebCommand::Throttle { source: ThrottleSource::Game });
    assert_eq!(parse_web_message("throttle, menu", page()), WebCommand::Throttle { source: ThrottleSource::Menu });
    assert_eq!(parse_web_message("throttle, anything", page()), WebCommand::Throttle { source: ThrottleSource::Menu });
}

#[test]
fn click_needs_two_numbers() {
    assert_eq!(parse_web_message("click, 10, -20", page()), WebCommand::Click { x: 10, y: -20 });
    assert_eq!(parse_web_message("click, +7, 0", page()), WebCommand::Click { x: 7, y: 0 });
    assert_eq!(parse_web_message("click, 10, y", page()), WebCommand::Ignore);
    assert_eq!(parse_web_message("click, 2147483648, 1", page()), WebCommand::Ignore);
    assert_eq!(parse_web_message("click, -2147483648, 1", page()), WebCommand::Click { x: i32::MIN, y: 1 });
}

#[test]
fn dev_proof_sizes() {
    let hash = "0123456789abcdef0123456789abcdef";
    let command = parse_web_message(&format!("dev-proof, nonce, game, {hash}"), page());
    assert_eq!(
        command,
        WebCommand::DevProof { nonce: "nonce".to_string(), game: "game".to_string(), hash: hash.to_string(), sane: true }
    );
    let command = parse_web_message("dev-proof, nonce, game, short", page());
    assert!(matches!(command, WebCommand::DevProof { sane: false, .. }));
    let long_nonce = "n".repeat(65);
    let command = parse_web_message(&format!("dev-proof, {long_nonce}, game, {hash}"), page());
    assert!(matches!(command, WebCommand::DevProof { sane: false, .. }));
    // sizes are bytes: 32 bytes of "é" are 16 characters
    let command = parse_web_message(&format!("dev-proof, nonce, game, {}", "é".repeat(16)), page());
    assert!(matches!(command, WebCommand::DevProof { sane: true, .. }));
}

#[test]
fn open_and_open_url() {
    assert_eq!(parse_web_message("open, swapper", page()), WebCommand::Open { target: "swapper".to_string() });
    assert_eq!(
        parse_web_message("open-url, https://kute.lol", page()),
        WebCommand::OpenUrl { url: "https://kute.lol".to_string() }
    );
}

#[test]
fn rpc_update_state() {
    assert_eq!(
        parse_web_message("rpc-update, Hardpoint, Sandstorm", page()),
        WebCommand::RpcUpdate { state: "Hardpoint on Sandstorm".to_string() }
    );
}

#[test]
fn telemetry_is_split_at_the_first_space() {
    let command = parse_web_message("telemetry crash {\"a\": 1, \"b\": 2}", page());
    assert_eq!(
        command,
        WebCommand::Telemetry { kind: "crash".to_string(), report: "{\"a\": 1, \"b\": 2}".to_string() }
    );
    assert_eq!(parse_web_message("telemetry crash", page()), WebCommand::Ignore);
}

#[test]
fn telemetry_cap() {
    let report = "x".repeat(64 * 1024);
    assert!(matches!(parse_web_message(&format!("telemetry k {report}"), page()), WebCommand::Telemetry { .. }));
    let report = "x".repeat(64 * 1024 + 1);
    assert_eq!(parse_web_message(&format!("telemetry k {report}"), page()), WebCommand::Ignore);
}

#[test]
fn icon_urls_need_json() {
    assert_eq!(
        parse_web_message("icon-urls {\"slot\": \"https://x\"}", page()),
        WebCommand::IconUrls { json: "{\"slot\": \"https://x\"}".to_string() }
    );
    assert_eq!(parse_web_message("icon-urls {not json", page()), WebCommand::Ignore);
}

#[test]
fn set_config_json() {
    assert_eq!(
        parse_web_message("set-config-json matchmaker {\"region\": \"eu\"}", page()),
        WebCommand::SetConfigJson { setting: "matchmaker".to_string(), json: "{\"region\": \"eu\"}".to_string() }
    );
    assert_eq!(parse_web_message("set-config-json matchmaker {", page()), WebCommand::Ignore);
    assert_eq!(parse_web_message("set-config-json matchmaker", page()), WebCommand::Ignore);
}

#[test]
fn audio_log_only_in_the_test_build() {
    assert_eq!(parse_web_message("audio-log {}", page()), WebCommand::Ignore);
    let build = MessageContext { audio_log_build: true, ..page() };
    assert_eq!(parse_web_message("audio-log {}", build), WebCommand::AudioLogPage { json: "{}".to_string() });
    let long = "x".repeat(8 * 1024 + 1);
    assert_eq!(parse_web_message(&format!("audio-log {long}"), build), WebCommand::Ignore);
}

#[test]
fn managers_only_from_krunker() {
    let message = "scripts-list {}";
    assert_eq!(parse_web_message(message, page()), WebCommand::QueueManager { message: message.to_string() });
    let other = MessageContext { frame_is_krunker: false, ..page() };
    assert_eq!(parse_web_message(message, other), WebCommand::Ignore);
    assert_eq!(parse_web_message("swapper-list", other), WebCommand::Ignore);
    assert_eq!(
        parse_web_message("swapper-list", page()),
        WebCommand::QueueManager { message: "swapper-list".to_string() }
    );
}

#[test]
fn accounts_lose_their_prefix() {
    assert_eq!(
        parse_web_message("accounts-remove {\"username\": \"a\"}", page()),
        WebCommand::Accounts { request: "remove {\"username\": \"a\"}".to_string() }
    );
}

#[test]
fn bench_messages() {
    assert_eq!(parse_web_message("bench-sample-start", page()), WebCommand::Ignore);
    let hooked = MessageContext { bench_hook: true, ..page() };
    assert_eq!(parse_web_message("bench-sample-start", hooked), WebCommand::DiscardPresentIntervals);
    assert_eq!(
        parse_web_message("bench-finish {\"fps\": 200}", page()),
        WebCommand::BenchFinish { result: "{\"fps\": 200}".to_string() }
    );
}

#[test]
fn bench_matrix_checks() {
    assert_eq!(
        parse_web_message("run-bench-matrix [\"limit=0\", \"hook=1,flip.2\"]", page()),
        WebCommand::RunBenchMatrix { configs: vec!["limit=0".to_string(), "hook=1,flip.2".to_string()] }
    );
    assert_eq!(parse_web_message("run-bench-matrix [\"a b\"]", page()), WebCommand::Ignore);
    assert_eq!(parse_web_message("run-bench-matrix [\"a;rm\"]", page()), WebCommand::Ignore);
    let nine: Vec<String> = (0..9).map(|i| format!("\"c{i}\"")).collect();
    assert_eq!(parse_web_message(&format!("run-bench-matrix [{}]", nine.join(",")), page()), WebCommand::Ignore);
    let running = MessageContext { bench_active: true, ..page() };
    assert_eq!(parse_web_message("run-bench-matrix [\"a\"]", running), WebCommand::Ignore);
    // not a list of strings: no configuration at all, which is harmless
    assert_eq!(parse_web_message("run-bench-matrix nope", page()), WebCommand::RunBenchMatrix { configs: vec![] });
}

#[test]
fn set_config_values() {
    assert_eq!(classify_web_value("true"), WebValue::Bool(true));
    assert_eq!(classify_web_value("false"), WebValue::Bool(false));
    assert_eq!(classify_web_value("-42"), WebValue::Int(-42));
    assert_eq!(classify_web_value("+42"), WebValue::Int(42));
    assert_eq!(classify_web_value("9223372036854775807"), WebValue::Int(i64::MAX));
    assert_eq!(classify_web_value("-9223372036854775808"), WebValue::Int(i64::MIN));
    assert_eq!(classify_web_value("9223372036854775808"), WebValue::Other);
    assert_eq!(classify_web_value("1.5"), WebValue::Other);
    assert_eq!(classify_web_value("True"), WebValue::Other);
    assert_eq!(classify_web_value(""), WebValue::Other);
    assert_eq!(classify_web_value("-"), WebValue::Other);
}
