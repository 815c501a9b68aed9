use kute::managers::{
    payload_flag, payload_text, accounts_answers,
    account_username,
    accounts_request, manager_error, manager_target, scripts_reply, scripts_request, swapper_reply, swapper_request,
    upload_error, AccountsRequest, Manager, ManagerReply, ScriptsCommand, SwapperCommand,
};

#[test]
fn account_commands() {
    assert_eq!(accounts_request("list"), AccountsRequest::List);
    assert_eq!(accounts_request("add {\"u\":1}"), AccountsRequest::Add { payload: "{\"u\":1}".to_string() });
    assert_eq!(accounts_request("migrate []"), AccountsRequest::Migrate { payload: "[]".to_string() });
    assert_eq!(accounts_request("remove {}"), AccountsRequest::Remove { payload: "{}".to_string() });
    assert_eq!(accounts_request("login {}"), AccountsRequest::Login { payload: "{}".to_string() });
    assert_eq!(accounts_request("login"), AccountsRequest::Login { payload: String::new() });
    assert_eq!(accounts_request("steal {}"), AccountsRequest::Nothing);
}

#[test]
fn account_payload_cap() {
    let payload = "x".repeat(64 * 1024);
    assert_eq!(accounts_request(&format!("add {payload}")), AccountsRequest::Add { payload: payload.clone() });
    let payload = "x".repeat(64 * 1024 + 1);
    assert_eq!(accounts_request(&format!("list {payload}")), AccountsRequest::Nothing);
}

#[test]
fn manager_targets() {
    assert_eq!(manager_target("scripts-list {}"), Some((Manager::Scripts, "list {}".to_string())));
    assert_eq!(manager_target("swapper-upload {\"a\":1}"), Some((Manager::Swapper, "upload {\"a\":1}".to_string())));
    assert_eq!(manager_target("accounts-list"), None);
    assert_eq!(manager_target("scripts"), None);
}

#[test]
fn scripts_commands() {
    assert_eq!(scripts_request("list"), Some((ScriptsCommand::List, "{}".to_string())));
    assert_eq!(scripts_request("read {\"key\":\"a\"}"), Some((ScriptsCommand::Read, "{\"key\":\"a\"}".to_string())));
    assert_eq!(scripts_request("reveal {}"), Some((ScriptsCommand::Reveal, "{}".to_string())));
    assert_eq!(scripts_request("write {broken"), None);
    assert_eq!(scripts_request("format {}"), None);
}

#[test]
fn swapper_commands() {
    assert_eq!(swapper_request("list"), Some((SwapperCommand::List, "{}".to_string())));
    assert_eq!(swapper_request("mkdir {\"path\":\"css\"}"), Some((SwapperCommand::Mkdir, "{\"path\":\"css\"}".to_string())));
    assert_eq!(swapper_request("upload {\"path\":\"a\",\"data\":\"\"}").map(|r| r.0), Some(SwapperCommand::Upload));
    assert_eq!(swapper_request("upload [1,"), None);
    assert_eq!(swapper_request("nuke {}"), None);
}

#[test]
fn replies() {
    assert_eq!(scripts_reply(ScriptsCommand::Read, false), ManagerReply::Source);
    assert_eq!(scripts_reply(ScriptsCommand::Prefs, false), ManagerReply::Nothing);
    assert_eq!(scripts_reply(ScriptsCommand::Reveal, true), ManagerReply::Nothing);
    assert_eq!(scripts_reply(ScriptsCommand::Write, true), ManagerReply::ProblemsOnly);
    assert_eq!(scripts_reply(ScriptsCommand::Write, false), ManagerReply::List);
    assert_eq!(scripts_reply(ScriptsCommand::Delete, false), ManagerReply::List);
    assert_eq!(swapper_reply(SwapperCommand::Upload), ManagerReply::Uploaded);
    assert_eq!(swapper_reply(SwapperCommand::Reveal), ManagerReply::Nothing);
    assert_eq!(swapper_reply(SwapperCommand::Move), ManagerReply::List);
}

#[test]
fn manager_errors() {
    assert_eq!(manager_error(&vec![]), None);
    assert_eq!(manager_error(&vec!["a".to_string()]), Some("a".to_string()));
    assert_eq!(manager_error(&vec!["a".to_string(), "b".to_string()]), Some("a\nb".to_string()));
    assert_eq!(upload_error("css/main.css", "too big"), "css/main.css: too big");
}

#[test]
fn account_usernames() {
    assert_eq!(account_username("{\"username\":\"kute\"}"), Some("kute".to_string()));
    assert_eq!(account_username("{\"username\":\"a\\\"b\",\"x\":1}"), Some("a\"b".to_string()));
    assert_eq!(account_username("{\"username\":3}"), None);
    assert_eq!(account_username("{\"name\":\"kute\"}"), None);
    assert_eq!(account_username("[\"kute\"]"), None);
    assert_eq!(account_username("not json"), None);
}

#[test]
fn payload_fields() {
    let payload = "{\"key\":\"social/a.js\",\"noList\":true,\"enabled\":false,\"n\":1,\"s\":\"true\"}";
    assert_eq!(payload_text(payload, "key"), "social/a.js");
    assert_eq!(payload_text(payload, "n"), "");
    assert_eq!(payload_text(payload, "missing"), "");
    assert_eq!(payload_text("[1]", "key"), "");
    assert_eq!(payload_flag(payload, "noList"), Some(true));
    assert_eq!(payload_flag(payload, "enabled"), Some(false));
    assert_eq!(payload_flag(payload, "s"), None);
    assert_eq!(payload_flag(payload, "missing"), None);
}

#[test]
fn account_answers() {
    assert!(accounts_answers(&accounts_request("list")));
    assert!(accounts_answers(&accounts_request("remove {}")));
    assert!(accounts_answers(&accounts_request("login not json")));
    assert!(!accounts_answers(&accounts_request("delete {}")));
    assert!(!accounts_answers(&accounts_request(&format!("add {}", "x".repeat(64 * 1024 + 1)))));
}
