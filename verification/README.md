# kute

The decisions of the Kute Krunker client, written in Verus and proved against their contracts.

- `src/` is the verified library: how the messages the game page posts are read and routed
  (`web_message`, `managers`, `keys`, `urls`), how chromium's flags are assembled and merged
  (`flags`), the preferences the client sets in chromium's profile (`prefs`), where windows go and
  when the client quits (`window_state`), the present hook's request protocol (`present`), what is
  posted to the page (`page_messages`), and the audio test build's log and trace (`audio`,
  `trace`). The few calls into serde_json sit behind the trusted wrappers of `json`.
- `tests/` runs the library on concrete values.
- `app/` is the Windows program around it: CEF, Win32, files, threads and Discord. It hands the
  library plain values and acts on what comes back.
