//! The client's keys (F4 new lobby, F5 reload, F6 matchmaker, F9 audio mark, F11 fullscreen, F12
//! devtools) and which page messages reach the client.
use vstd::prelude::*;

verus! {

/// Windows virtual key codes, as CEF reports them.
pub const VK_F4: u16 = 0x73;
pub const VK_F5: u16 = 0x74;
pub const VK_F6: u16 = 0x75;
pub const VK_F9: u16 = 0x78;
pub const VK_F11: u16 = 0x7A;
pub const VK_F12: u16 = 0x7B;

/// The key the client reacts to on a key event, if any: only raw key downs of F4, F5, F6, F11 and
/// F12, and F9 in the audio test build. The page still receives the key either way.
pub open spec fn forwarded_key_of(raw_key_down: bool, code: i32, audio_log_build: bool) -> Option<u16> {
    if !raw_key_down {
        None
    } else if audio_log_build && code == VK_F9 {
        Some(VK_F9)
    } else if code == VK_F4 || code == VK_F5 || code == VK_F6 || code == VK_F11 || code == VK_F12 {
        Some(code as u16)
    } else {
        None
    }
}

/// The key the client reacts to on a key event (see `forwarded_key_of`).
pub fn forwarded_key(raw_key_down: bool, code: i32, audio_log_build: bool) -> (key: Option<u16>)
    ensures
        key == forwarded_key_of(raw_key_down, code, audio_log_build),
{
    if !raw_key_down {
        None
    } else if audio_log_build && code == 0x78 {
        Some(VK_F9)
    } else if code == 0x73 || code == 0x74 || code == 0x75 || code == 0x7A || code == 0x7B {
        Some(code as u16)
    } else {
        None
    }
}

/// What a client key does.
#[derive(Clone, Copy, PartialEq, Eq, Structural, Debug)]
pub enum KeyAction {
    /// Nothing (F6 while the page's matchmaker handles it, or any other key).
    Nothing,
    /// Throttle off, load a new lobby, release the pointer.
    NewLobby,
    /// Mark the audio log and have the page dump its audio state.
    MarkAudio,
    /// Throttle off, reload, release the pointer.
    Reload,
    /// Toggle fullscreen.
    ToggleFullscreen,
    /// Open the devtools.
    DevTools,
}

/// What a client key does: F6 is the page's own when the matchmaker is on, and otherwise loads a new
/// lobby like F4; F9 only exists in the audio test build.
pub open spec fn key_action_of(key: u16, matchmaker: bool, audio_log_build: bool) -> KeyAction {
    if key == VK_F6 && matchmaker {
        KeyAction::Nothing
    } else if key == VK_F4 || key == VK_F6 {
        KeyAction::NewLobby
    } else if audio_log_build && key == VK_F9 {
        KeyAction::MarkAudio
    } else if key == VK_F5 {
        KeyAction::Reload
    } else if key == VK_F11 {
        KeyAction::ToggleFullscreen
    } else if key == VK_F12 {
        KeyAction::DevTools
    } else {
        KeyAction::Nothing
    }
}

/// What a client key does (see `key_action_of`).
pub fn key_action(key: u16, matchmaker: bool, audio_log_build: bool) -> (action: KeyAction)
    ensures
        action == key_action_of(key, matchmaker, audio_log_build),
{
    if key == VK_F6 && matchmaker {
        KeyAction::Nothing
    } else if key == VK_F4 || key == VK_F6 {
        KeyAction::NewLobby
    } else if audio_log_build && key == VK_F9 {
        KeyAction::MarkAudio
    } else if key == VK_F5 {
        KeyAction::Reload
    } else if key == VK_F11 {
        KeyAction::ToggleFullscreen
    } else if key == VK_F12 {
        KeyAction::DevTools
    } else {
        KeyAction::Nothing
    }
}

/// What becomes of a process message from the renderer.
#[derive(Clone, Copy, PartialEq, Eq, Structural, Debug)]
pub enum MessageRoute {
    /// Not a page message: left to others.
    NotOurs,
    /// A page message of a frame that is not the main frame of the main browser: taken and dropped.
    Drop,
    /// A page message of the main frame of the main browser: handled.
    Handle,
}

/// Only the main frame of the main browser talks to the client.
pub open spec fn message_route_of(is_page_message: bool, is_main_frame: bool, is_popup: bool) -> MessageRoute {
    if !is_page_message {
        MessageRoute::NotOurs
    } else if !is_main_frame || is_popup {
        MessageRoute::Drop
    } else {
        MessageRoute::Handle
    }
}

/// What becomes of a process message from the renderer (see `message_route_of`).
pub fn message_route(is_page_message: bool, is_main_frame: bool, is_popup: bool) -> (route: MessageRoute)
    ensures
        route == message_route_of(is_page_message, is_main_frame, is_popup),
{
    if !is_page_message {
        MessageRoute::NotOurs
    } else if !is_main_frame || is_popup {
        MessageRoute::Drop
    } else {
        MessageRoute::Handle
    }
}

/// The shortcuts the client reacts to: a raw key down is handed on exactly when it is F4 (0x73), F5
/// (0x74), F6 (0x75), F11 (0x7A) or F12 (0x7B), or F9 (0x78) in the audio test build; what is handed
/// on is the key that was pressed, and without the matchmaker every such key has an action. Nothing
/// but a raw key down is handed on.
pub proof fn lemma_forwarded_keys(code: i32, audio_log_build: bool)
    ensures
        forwarded_key_of(false, code, audio_log_build) is None,
        (forwarded_key_of(true, code, audio_log_build) is Some) <==> (code == 0x73 || code == 0x74 || code == 0x75
            || code == 0x7A || code == 0x7B || (audio_log_build && code == 0x78)),
        forall|k: u16| forwarded_key_of(true, code, audio_log_build) == Some(k) ==> k as i32 == code && key_action_of(
            k,
            false,
            audio_log_build,
        ) != KeyAction::Nothing,
{
}

/// What each shortcut does: F4 and F6 open a new lobby (F6 leaves it to the page's matchmaker when
/// that is on), F5 reloads, F11 toggles fullscreen, F12 opens the devtools, F9 marks the audio log in
/// the audio test build.
pub proof fn lemma_key_actions(matchmaker: bool, audio_log_build: bool)
    ensures
        key_action_of(0x73, matchmaker, audio_log_build) == KeyAction::NewLobby,
        key_action_of(0x75, matchmaker, audio_log_build) == if matchmaker {
            KeyAction::Nothing
        } else {
            KeyAction::NewLobby
        },
        key_action_of(0x74, matchmaker, audio_log_build) == KeyAction::Reload,
        key_action_of(0x7A, matchmaker, audio_log_build) == KeyAction::ToggleFullscreen,
        key_action_of(0x7B, matchmaker, audio_log_build) == KeyAction::DevTools,
        key_action_of(0x78, matchmaker, audio_log_build) == if audio_log_build {
            KeyAction::MarkAudio
        } else {
            KeyAction::Nothing
        },
{
}


/// Only a page message of the main frame of the main browser is handled; any other page message is
/// dropped, and a message that is no page message is left to others.
pub proof fn lemma_message_routes(is_page_message: bool, is_main_frame: bool, is_popup: bool)
    ensures
        (message_route_of(is_page_message, is_main_frame, is_popup) == MessageRoute::Handle) <==> (is_page_message
            && is_main_frame && !is_popup),
        (message_route_of(is_page_message, is_main_frame, is_popup) == MessageRoute::NotOurs) <==> !is_page_message,
{
}

} // verus!
