//! What the client posts to the page, and the few decisions around it: the host's info, the arguments
//! another instance hands over, the FPS counters, the social userscripts, and CPU throttling that is
//! only sent when the rate changes.
use crate::json::{json_quote, json_string_literal};
use crate::text::{decimal, push_decimal};
use vstd::prelude::*;

verus! {

broadcast use vstd::string::group_string_axioms;

/// The features this host offers the page.
pub open spec fn host_feature_list(audio_log_build: bool) -> Seq<Seq<char>> {
    let common = seq!["matchmaker"@, "dev-proof"@, "kute-icons"@, "script-manager"@];
    if audio_log_build {
        common.push("audio-log"@)
    } else {
        common
    }
}

/// The features this host offers the page (see `host_feature_list`).
pub fn host_features(audio_log_build: bool) -> (features: Vec<&'static str>)
    ensures
        features@.map_values(|f: &str| f@) == host_feature_list(audio_log_build),
{
    let mut features: Vec<&'static str> = Vec::new();
    features.push("matchmaker");
    features.push("dev-proof");
    features.push("kute-icons");
    features.push("script-manager");
    if audio_log_build {
        features.push("audio-log");
    }
    assert(features@.map_values(|f: &str| f@) =~= host_feature_list(audio_log_build));
    features
}

/// The launch arguments as the page gets them: joined with spaces, and none when there are none.
pub open spec fn launch_args_text(args: Seq<Seq<char>>) -> Option<Seq<char>> {
    if args.len() == 0 {
        None
    } else {
        Some(crate::flags::join(args, " "@))
    }
}

/// The launch arguments as the page gets them (see `launch_args_text`).
pub fn launch_args_line(args: &Vec<String>) -> (line: Option<String>)
    ensures
        match line {
            Some(l) => launch_args_text(args@.map_values(|a: String| a@)) == Some(l@),
            None => launch_args_text(args@.map_values(|a: String| a@)) is None,
        },
{
    let ghost all = args@.map_values(|a: String| a@);
    if args.len() == 0 {
        return None;
    }
    let mut joined = String::new();
    let mut i: usize = 0;
    assert(all.take(0) =~= Seq::<Seq<char>>::empty());
    while i < args.len()
        invariant
            all == args@.map_values(|a: String| a@),
            i <= args.len(),
            joined@ == crate::flags::join(all.take(i as int), " "@),
        decreases args.len() - i,
    {
        let ghost before = joined@;
        assert(all.take(i + 1).drop_last() =~= all.take(i as int));
        assert(all.take(i + 1).last() == all[i as int]);
        if i > 0 {
            joined.append(" ");
        }
        joined.append(args[i].as_str());
        proof {
            if i == 0 {
                assert(all.take(1)[0] == all[0]);
                assert(joined@ =~= all[0]);
            } else {
                assert(joined@ =~= before + " "@ + all[i as int]);
            }
        }
        i = i + 1;
    }
    assert(all.take(i as int) =~= all);
    Some(joined)
}

/// The message that hands another instance's arguments to the page: {"args": "<arguments>"}.
pub fn args_message(args: &str) -> (message: String)
    ensures
        message@ == "{\"args\":"@ + json_string_literal(args@) + "}"@,
{
    let mut message = "{\"args\":".to_owned();
    let literal = json_quote(args);
    message.append(literal.as_str());
    message.append("}");
    message
}

/// {"presentFps":<fps>}: the frames per second at the swap chain.
pub fn present_fps_message(fps: u64) -> (message: String)
    ensures
        message@ == "{\"presentFps\":"@ + decimal(fps as nat) + "}"@,
{
    let mut message = "{\"presentFps\":".to_owned();
    push_decimal(&mut message, fps);
    message.append("}");
    message
}

/// {"fpsInfo":<fps>}: the FPS counter's value.
pub fn fps_info_message(fps: u64) -> (message: String)
    ensures
        message@ == "{\"fpsInfo\":"@ + decimal(fps as nat) + "}"@,
{
    let mut message = "{\"fpsInfo\":".to_owned();
    push_decimal(&mut message, fps);
    message.append("}");
    message
}

/// The message of F9 in the audio test build: the page dumps its audio state.
pub const AUDIO_MARK_MESSAGE: &'static str = "{\"audioMark\":true}";

/// The message that tells the page a lobby request went out.
pub const GAME_UPDATED_MESSAGE: &'static str = "game-updated";

/// A social userscript as a document script: it runs only in the top window of Krunker's social page.
pub open spec fn social_script_text(script: Seq<char>) -> Seq<char> {
    "if (window === window.top && location.href.includes(\"krunker.io/social.html\")) {\n"@ + script + "\n}"@
}

/// A social userscript as a document script (see `social_script_text`).
pub fn social_script_source(script: &str) -> (source: String)
    ensures
        source@ == social_script_text(script@),
{
    let mut source = "if (window === window.top && location.href.includes(\"krunker.io/social.html\")) {\n".to_owned();
    source.append(script);
    source.append("\n}");
    source
}

/// The CPU throttling rate last sent to chromium, as the bits of its `f32`. Sending the same rate
/// again would restart chromium's throttling thread for nothing.
#[derive(Clone, Copy, PartialEq, Eq, Structural, Debug)]
pub struct ThrottleState {
    pub last_bits: u32,
}

impl ThrottleState {
    /// Chromium starts unthrottled: the rate 1.0 (`1.0f32.to_bits()`).
    pub fn new() -> (state: ThrottleState)
        ensures
            state.last_bits == 0x3f80_0000,
    {
        ThrottleState { last_bits: 0x3f80_0000 }
    }

    /// A rate (by its bits) is to be set: true when it is to be sent (see `throttle_step`).
    pub fn set(&mut self, bits: u32) -> (send: bool)
        ensures
            (*final(self), send) == throttle_step(*old(self), bits),
    {
        let previous = self.last_bits;
        self.last_bits = bits;
        previous != bits
    }
}

/// Setting a rate: it is sent when it differs from the one set last, and it is remembered either way.
pub open spec fn throttle_step(state: ThrottleState, bits: u32) -> (ThrottleState, bool) {
    (ThrottleState { last_bits: bits }, state.last_bits != bits)
}

/// Setting the same rate twice in a row sends it at most once: the second set sends nothing.
pub proof fn lemma_throttle_repeat_silent(state: ThrottleState, bits: u32)
    ensures
        !throttle_step(throttle_step(state, bits).0, bits).1,
{
}


/// The page gets the host's features: the matchmaker, the dev proof, the Kute icons and the script
/// manager always, the audio log exactly in the audio test build.
pub proof fn lemma_host_features(audio_log_build: bool)
    ensures
        host_feature_list(audio_log_build).contains("matchmaker"@),
        host_feature_list(audio_log_build).contains("dev-proof"@),
        host_feature_list(audio_log_build).contains("kute-icons"@),
        host_feature_list(audio_log_build).contains("script-manager"@),
        host_feature_list(audio_log_build).contains("audio-log"@) == audio_log_build,
{
    reveal_strlit("matchmaker");
    reveal_strlit("dev-proof");
    reveal_strlit("kute-icons");
    reveal_strlit("script-manager");
    reveal_strlit("audio-log");
    let list = host_feature_list(audio_log_build);
    assert(list[0] == "matchmaker"@);
    assert(list[1] == "dev-proof"@);
    assert(list[2] == "kute-icons"@);
    assert(list[3] == "script-manager"@);
    if audio_log_build {
        assert(list[4] == "audio-log"@);
    } else {
        assert forall|i: int| 0 <= i < list.len() implies list[i] != "audio-log"@ by {
            assert("audio-log"@.len() == 9);
            assert("matchmaker"@.len() == 10 && "kute-icons"@.len() == 10 && "script-manager"@.len() == 14);
            assert("dev-proof"@[0] != "audio-log"@[0]);
        }
    }
}


/// The launch arguments the page gets: none without arguments, else all of them in order, one space
/// between each two; a single argument goes as it is.
pub proof fn lemma_launch_args(args: Seq<Seq<char>>, a: Seq<char>, b: Seq<char>)
    ensures
        args.len() == 0 <==> launch_args_text(args) is None,
        launch_args_text(seq![a]) == Some(a),
        launch_args_text(seq![a, b]) == Some(a + " "@ + b),
{
    assert(seq![a, b].drop_last() =~= seq![a]);
}

} // verus!
