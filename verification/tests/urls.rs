use kute::urls::{
    documents_subpath_of, is_krunker_frame_url, is_mod_page, lobby_url, popup_goes_to_main, resource_action,
    url_may_open, ResourceAction,
};

#[test]
fn mod_pages() {
    assert!(is_mod_page("https://krunker.io/?mod=Sandbox"));
    assert!(is_mod_page("https://krunker.io?mod=Sandbox"));
    assert!(is_mod_page("https://krunker.io/?game=x&mod"));
    assert!(!is_mod_page("https://krunker.io/?game=x#mod=1"));
    assert!(!is_mod_page("https://krunker.io/?model=1"));
    assert!(!is_mod_page("https://krunker.io/mod=1"));
    assert!(!is_mod_page("http://krunker.io/?mod=1"));
    assert!(!is_mod_page("https://krunker.io"));
}

#[test]
fn popups_for_mod_pages_go_to_the_main_window() {
    assert!(popup_goes_to_main("https://krunker.io/?mod=a", true));
    assert!(!popup_goes_to_main("https://krunker.io/?mod=a", false));
    assert!(!popup_goes_to_main("https://krunker.io/social.html", true));
}

#[test]
fn next_lobby() {
    assert_eq!(lobby_url("https://krunker.io/?game=FRA:abc"), "https://krunker.io/?exclude=FRA:abc");
    assert_eq!(lobby_url("https://krunker.io/?game= "), "https://krunker.io/");
    assert_eq!(lobby_url("https://krunker.io/"), "https://krunker.io/");
}

#[test]
fn links_that_open() {
    let allowed = vec!["https://kute.lol/".to_string(), "https://github.com/NullDev/".to_string()];
    assert!(url_may_open("https://kute.lol/faq", &allowed));
    assert!(url_may_open("https://kute.lol", &allowed));
    assert!(url_may_open("https://github.com/NullDev/Kute", &allowed));
    assert!(!url_may_open("https://evil.example/", &allowed));
    assert!(!url_may_open("https://kute.lol/a b", &allowed));
    assert!(!url_may_open("https://kute.lol/\"x", &allowed));
    assert!(!url_may_open("https://kute.lol/\u{3000}", &allowed));
    assert!(!url_may_open("https://kute.lol/x", &vec![]));
}

#[test]
fn krunker_frames() {
    assert!(is_krunker_frame_url("https://krunker.io/", true));
    assert!(!is_krunker_frame_url("http://krunker.io/", true));
    assert!(!is_krunker_frame_url("https://krunker.io/", false));
}

#[test]
fn resource_requests() {
    assert_eq!(resource_action("https://matchmaker.krunker.io/game-info?game=x", true), ResourceAction::SignalGameUpdated);
    assert_eq!(resource_action("https://krunker.io/lobby-ranked", false), ResourceAction::SignalGameUpdated);
    assert_eq!(resource_action("https://ads.example/game-info", true), ResourceAction::Cancel);
    assert_eq!(resource_action("https://krunker.io/img/a.png", false), ResourceAction::Continue);
}

#[test]
fn documents_subpaths() {
    assert_eq!(documents_subpath_of("blocklist"), Some("user_blocklist.json"));
    assert_eq!(documents_subpath_of("swapper"), Some("swapper"));
    assert_eq!(documents_subpath_of("userscripts"), Some("scripts"));
    assert_eq!(documents_subpath_of("scripts"), None);
}
