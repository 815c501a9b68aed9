//! The decisions of the Kute client: how messages from the game page are routed, how chromium flags are
//! assembled and merged, how windows are placed and restored, and the text of the audio test log.
pub mod audio;
pub mod flags;
pub mod json;
pub mod keys;
pub mod managers;
pub mod page_messages;
pub mod prefs;
pub mod present;
pub mod text;
pub mod trace;
pub mod urls;
pub mod web_message;
pub mod window_state;
