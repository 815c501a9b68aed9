use kute::keys::{forwarded_key, key_action, message_route, KeyAction, MessageRoute, VK_F11, VK_F12, VK_F4, VK_F5, VK_F6, VK_F9};

#[test]
fn forwarded_keys() {
    assert_eq!(forwarded_key(true, 0x73, false), Some(VK_F4));
    assert_eq!(forwarded_key(true, 0x7B, false), Some(VK_F12));
    assert_eq!(forwarded_key(false, 0x73, false), None);
    assert_eq!(forwarded_key(true, 0x78, false), None);
    assert_eq!(forwarded_key(true, 0x78, true), Some(VK_F9));
    assert_eq!(forwarded_key(true, 0x41, true), None);
}

#[test]
fn key_actions() {
    assert_eq!(key_action(VK_F4, true, false), KeyAction::NewLobby);
    assert_eq!(key_action(VK_F6, true, false), KeyAction::Nothing);
    assert_eq!(key_action(VK_F6, false, false), KeyAction::NewLobby);
    assert_eq!(key_action(VK_F5, false, false), KeyAction::Reload);
    assert_eq!(key_action(VK_F9, false, false), KeyAction::Nothing);
    assert_eq!(key_action(VK_F9, false, true), KeyAction::MarkAudio);
    assert_eq!(key_action(VK_F11, false, false), KeyAction::ToggleFullscreen);
    assert_eq!(key_action(VK_F12, false, false), KeyAction::DevTools);
}

#[test]
fn message_routes() {
    assert_eq!(message_route(false, true, false), MessageRoute::NotOurs);
    assert_eq!(message_route(true, false, false), MessageRoute::Drop);
    assert_eq!(message_route(true, true, true), MessageRoute::Drop);
    assert_eq!(message_route(true, true, false), MessageRoute::Handle);
}
