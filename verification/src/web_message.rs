//! The messages the game page posts to the client ("set-config, fov, 90", "telemetry <kind> <json>", ...)
//! and what each one asks the client to do. Routing, the size caps and the checks on the arguments are
//! decided here; carrying the command out (files, CEF, Discord) is up to the caller.
use crate::json::{is_json_text, json_parses, json_string_list, parse_string_list};
use crate::text::{
    bool_text, byte_len, has_prefix, byte_len_exec, chars_of, eq_chars, i64_text, parse_bool, parse_i32, parse_i64, parse_u64,
    split_all, split_all_exec, split_once, split_once_exec, str_strip_prefix, string_from, strip_prefix, trim,
    trim_exec, u64_text, i32_text, views, decimal, lemma_decimal_parses,
};
use vstd::prelude::*;

verus! {

broadcast use vstd::string::group_string_axioms;

/// What the page's throttle message asks for: no throttling, the in-game rate or the in-menu rate.
#[derive(PartialEq, Eq, Structural, Clone, Copy, Debug)]
pub enum ThrottleSource {
    Off,
    Game,
    Menu,
}

/// The facts about the sender that decide whether a message is acted on.
#[derive(Clone, Copy, Debug)]
pub struct MessageContext {
    /// The frame that sent the message shows Krunker itself over https.
    pub frame_is_krunker: bool,
    /// A bench run is going on in this process.
    pub bench_active: bool,
    /// The bench run of this process measures through the present hook.
    pub bench_hook: bool,
    /// This is the audio test build.
    pub audio_log_build: bool,
}

/// A value of a "set-config" message, as far as the client reads it without floating point:
/// `true`/`false`, a whole number, or something else (a decimal number or a text).
#[derive(PartialEq, Eq, Structural, Clone, Copy, Debug)]
pub enum WebValue {
    Bool(bool),
    Int(i64),
    Other,
}

/// What a message from the page asks for.
#[derive(PartialEq, Eq, Debug)]
pub enum WebCommand {
    /// Nothing: an unknown message, or one that failed its checks.
    Ignore,
    /// "telemetry <kind> <report>": a report for the server.
    Telemetry { kind: String, report: String },
    /// "icon-urls <json>": the images the player pointed the icon slots at.
    IconUrls { json: String },
    /// "audio-log <json>" (audio test build only): one line or block of the log.
    AudioLogPage { json: String },
    /// "set-config-json <setting> <json>": a setting whose value is an object.
    SetConfigJson { setting: String, json: String },
    /// "scripts-..." or "swapper-...": a command for the userscript or swapper manager, queued whole.
    QueueManager { message: String },
    /// "accounts-<command> <json>": a command for the account manager (without the prefix).
    Accounts { request: String },
    /// "bench-sample-start" during a bench run with the present hook: drop what the hook collected.
    DiscardPresentIntervals,
    /// "bench-finish <result>".
    BenchFinish { result: String },
    /// "run-bench-matrix <json array>": the bench configurations to run one after the other.
    RunBenchMatrix { configs: Vec<String> },
    /// "set-config, <setting>, <value>": the FPS limit is handed on when the setting is the game's.
    SetConfig { setting: String, value: String, fps_limit: Option<u64> },
    /// "obs-plugin, <bool>".
    ObsPlugin { install: bool },
    /// "get-info".
    GetInfo,
    /// "dev-proof, <nonce>, <game>, <hash>": `sane` when the arguments have the sizes a proof is made for.
    DevProof { nonce: String, game: String, hash: String, sane: bool },
    /// "drag, <bool>": true means the menu is open and the pointer is free.
    Drag { menu_open: bool },
    /// "throttle, <status>".
    Throttle { source: ThrottleSource },
    /// "get-specs".
    GetSpecs,
    /// "get-present".
    GetPresent,
    /// "get-present-intervals".
    GetPresentIntervals,
    /// "click, <x>, <y>".
    Click { x: i32, y: i32 },
    /// "close".
    Close,
    /// "restart".
    Restart,
    /// "bring-to-front".
    BringToFront,
    /// "hard-reload".
    HardReload,
    /// "clear-cache".
    ClearCache,
    /// "open, <target>".
    Open { target: String },
    /// "open-url, <url>".
    OpenUrl { url: String },
    /// "rpc-update, <part1>, <part2>": the Discord state line.
    RpcUpdate { state: String },
    /// "toggle-rboost, <bool>".
    RampBoost { enabled: bool },
    /// "ping".
    Ping,
    /// "ping-regions".
    PingRegions,
}

/// `WebCommand` with its texts as character sequences.
pub enum WebRequest {
    Ignore,
    Telemetry { kind: Seq<char>, report: Seq<char> },
    IconUrls { json: Seq<char> },
    AudioLogPage { json: Seq<char> },
    SetConfigJson { setting: Seq<char>, json: Seq<char> },
    QueueManager { message: Seq<char> },
    Accounts { request: Seq<char> },
    DiscardPresentIntervals,
    BenchFinish { result: Seq<char> },
    RunBenchMatrix { configs: Seq<Seq<char>> },
    SetConfig { setting: Seq<char>, value: Seq<char>, fps_limit: Option<u64> },
    ObsPlugin { install: bool },
    GetInfo,
    DevProof { nonce: Seq<char>, game: Seq<char>, hash: Seq<char>, sane: bool },
    Drag { menu_open: bool },
    Throttle { source: ThrottleSource },
    GetSpecs,
    GetPresent,
    GetPresentIntervals,
    Click { x: i32, y: i32 },
    Close,
    Restart,
    BringToFront,
    HardReload,
    ClearCache,
    Open { target: Seq<char> },
    OpenUrl { url: Seq<char> },
    RpcUpdate { state: Seq<char> },
    RampBoost { enabled: bool },
    Ping,
    PingRegions,
}

impl View for WebCommand {
    type V = WebRequest;

    open spec fn view(&self) -> WebRequest {
        match self {
            WebCommand::Ignore => WebRequest::Ignore,
            WebCommand::Telemetry { kind, report } => WebRequest::Telemetry { kind: kind@, report: report@ },
            WebCommand::IconUrls { json } => WebRequest::IconUrls { json: json@ },
            WebCommand::AudioLogPage { json } => WebRequest::AudioLogPage { json: json@ },
            WebCommand::SetConfigJson { setting, json } => WebRequest::SetConfigJson {
                setting: setting@,
                json: json@,
            },
            WebCommand::QueueManager { message } => WebRequest::QueueManager { message: message@ },
            WebCommand::Accounts { request } => WebRequest::Accounts { request: request@ },
            WebCommand::DiscardPresentIntervals => WebRequest::DiscardPresentIntervals,
            WebCommand::BenchFinish { result } => WebRequest::BenchFinish { result: result@ },
            WebCommand::RunBenchMatrix { configs } => WebRequest::RunBenchMatrix {
                configs: configs@.map_values(|c: String| c@),
            },
            WebCommand::SetConfig { setting, value, fps_limit } => WebRequest::SetConfig {
                setting: setting@,
                value: value@,
                fps_limit: *fps_limit,
            },
            WebCommand::ObsPlugin { install } => WebRequest::ObsPlugin { install: *install },
            WebCommand::GetInfo => WebRequest::GetInfo,
            WebCommand::DevProof { nonce, game, hash, sane } => WebRequest::DevProof {
                nonce: nonce@,
                game: game@,
                hash: hash@,
                sane: *sane,
            },
            WebCommand::Drag { menu_open } => WebRequest::Drag { menu_open: *menu_open },
            WebCommand::Throttle { source } => WebRequest::Throttle { source: *source },
            WebCommand::GetSpecs => WebRequest::GetSpecs,
            WebCommand::GetPresent => WebRequest::GetPresent,
            WebCommand::GetPresentIntervals => WebRequest::GetPresentIntervals,
            WebCommand::Click { x, y } => WebRequest::Click { x: *x, y: *y },
            WebCommand::Close => WebRequest::Close,
            WebCommand::Restart => WebRequest::Restart,
            WebCommand::BringToFront => WebRequest::BringToFront,
            WebCommand::HardReload => WebRequest::HardReload,
            WebCommand::ClearCache => WebRequest::ClearCache,
            WebCommand::Open { target } => WebRequest::Open { target: target@ },
            WebCommand::OpenUrl { url } => WebRequest::OpenUrl { url: url@ },
            WebCommand::RpcUpdate { state } => WebRequest::RpcUpdate { state: state@ },
            WebCommand::RampBoost { enabled } => WebRequest::RampBoost { enabled: *enabled },
            WebCommand::Ping => WebRequest::Ping,
            WebCommand::PingRegions => WebRequest::PingRegions,
        }
    }
}

// ---------------------------------------------------------------------------------------------
// The values of "set-config"
// ---------------------------------------------------------------------------------------------

/// How a "set-config" value is read: a bool first, then a whole number, else something else.
pub open spec fn web_value(text: Seq<char>) -> WebValue {
    match bool_text(text) {
        Some(b) => WebValue::Bool(b),
        None => match i64_text(text) {
            Some(v) => WebValue::Int(v),
            None => WebValue::Other,
        },
    }
}

/// How a "set-config" value is read: `true`/`false`, then an `i64`, else something else.
pub fn classify_web_value(text: &str) -> (value: WebValue)
    ensures
        value == web_value(text@),
{
    let chars = chars_of(text);
    match parse_bool(&chars) {
        Some(b) => WebValue::Bool(b),
        None => match parse_i64(&chars) {
            Some(v) => WebValue::Int(v),
            None => WebValue::Other,
        },
    }
}

// ---------------------------------------------------------------------------------------------
// The messages with a prefix and a payload
// ---------------------------------------------------------------------------------------------

/// A bench configuration only holds letters, digits and `=`, `,`, `.`: it ends up on a command line.
pub open spec fn harmless_config(config: Seq<char>) -> bool {
    forall|i: int|
        0 <= i < config.len() ==> {
            let c = #[trigger] config[i];
            ('a' <= c && c <= 'z') || ('A' <= c && c <= 'Z') || ('0' <= c && c <= '9') || c == '=' || c
                == ',' || c == '.'
        }
}

/// Every configuration is harmless.
pub open spec fn all_harmless(configs: Seq<Seq<char>>) -> bool {
    forall|i: int| 0 <= i < configs.len() ==> harmless_config(#[trigger] configs[i])
}

/// What "run-bench-matrix <json>" starts: nothing during a bench run, nor for more than eight
/// configurations or one that is not harmless. Text that is no JSON array of strings counts as none.
pub open spec fn bench_matrix_request(rest: Seq<char>, bench_active: bool) -> WebRequest {
    let configs = match json_string_list(rest) {
        Some(list) => list,
        None => Seq::<Seq<char>>::empty(),
    };
    if !bench_active && configs.len() <= 8 && all_harmless(configs) {
        WebRequest::RunBenchMatrix { configs }
    } else {
        WebRequest::Ignore
    }
}

/// The request of a message that starts with one of the prefixed commands, `None` when it starts
/// with none of them. Sizes are in bytes, like `str::len`.
pub open spec fn prefixed_request(msg: Seq<char>, ctx: MessageContext) -> Option<WebRequest> {
    if strip_prefix(msg, "telemetry "@) is Some {
        let rest = strip_prefix(msg, "telemetry "@)->0;
        Some(
            match split_once(rest, " "@) {
                Some((kind, report)) => if byte_len(report) <= 64 * 1024 {
                    WebRequest::Telemetry { kind, report }
                } else {
                    WebRequest::Ignore
                },
                None => WebRequest::Ignore,
            },
        )
    } else if strip_prefix(msg, "icon-urls "@) is Some {
        let rest = strip_prefix(msg, "icon-urls "@)->0;
        Some(
            if byte_len(rest) <= 16 * 1024 && is_json_text(rest) {
                WebRequest::IconUrls { json: rest }
            } else {
                WebRequest::Ignore
            },
        )
    } else if ctx.audio_log_build && strip_prefix(msg, "audio-log "@) is Some {
        let rest = strip_prefix(msg, "audio-log "@)->0;
        Some(
            if byte_len(rest) <= 8 * 1024 {
                WebRequest::AudioLogPage { json: rest }
            } else {
                WebRequest::Ignore
            },
        )
    } else if strip_prefix(msg, "set-config-json "@) is Some {
        let rest = strip_prefix(msg, "set-config-json "@)->0;
        Some(
            match split_once(rest, " "@) {
                Some((setting, value)) => if byte_len(value) <= 16 * 1024 && is_json_text(value) {
                    WebRequest::SetConfigJson { setting, json: value }
                } else {
                    WebRequest::Ignore
                },
                None => WebRequest::Ignore,
            },
        )
    } else if strip_prefix(msg, "scripts-"@) is Some {
        let rest = strip_prefix(msg, "scripts-"@)->0;
        Some(
            if ctx.frame_is_krunker && byte_len(rest) <= 5 * 1024 * 1024 {
                WebRequest::QueueManager { message: msg }
            } else {
                WebRequest::Ignore
            },
        )
    } else if strip_prefix(msg, "swapper-"@) is Some {
        let rest = strip_prefix(msg, "swapper-"@)->0;
        Some(
            if ctx.frame_is_krunker && byte_len(rest) <= 48 * 1024 * 1024 {
                WebRequest::QueueManager { message: msg }
            } else {
                WebRequest::Ignore
            },
        )
    } else if strip_prefix(msg, "accounts-"@) is Some {
        let rest = strip_prefix(msg, "accounts-"@)->0;
        Some(WebRequest::Accounts { request: rest })
    } else if msg == "bench-sample-start"@ {
        Some(
            if ctx.bench_hook {
                WebRequest::DiscardPresentIntervals
            } else {
                WebRequest::Ignore
            },
        )
    } else if strip_prefix(msg, "bench-finish "@) is Some {
        let rest = strip_prefix(msg, "bench-finish "@)->0;
        Some(WebRequest::BenchFinish { result: rest })
    } else if strip_prefix(msg, "run-bench-matrix "@) is Some {
        let rest = strip_prefix(msg, "run-bench-matrix "@)->0;
        Some(bench_matrix_request(rest, ctx.bench_active))
    } else {
        None
    }
}

/// Whether every character of the configuration is a letter, a digit or one of `=`, `,`, `.`.
pub fn is_harmless_config(config: &String) -> (res: bool)
    ensures
        res == harmless_config(config@),
{
    let chars = chars_of(config.as_str());
    let mut i: usize = 0;
    while i < chars.len()
        invariant
            chars@ == config@,
            i <= chars.len(),
            forall|k: int| 0 <= k < i ==> {
                let c = #[trigger] chars@[k];
                ('a' <= c && c <= 'z') || ('A' <= c && c <= 'Z') || ('0' <= c && c <= '9') || c == '='
                    || c == ',' || c == '.'
            },
        decreases chars.len() - i,
    {
        let c = chars[i];
        if !(('a' <= c && c <= 'z') || ('A' <= c && c <= 'Z') || ('0' <= c && c <= '9') || c == '=' || c
            == ',' || c == '.') {
            return false;
        }
        i = i + 1;
    }
    true
}

/// What "run-bench-matrix <json>" starts.
fn bench_matrix_command(rest: &str, bench_active: bool) -> (command: WebCommand)
    ensures
        command@ == bench_matrix_request(rest@, bench_active),
{
    let configs = match parse_string_list(rest) {
        Some(list) => list,
        None => Vec::new(),
    };
    let ghost seen = configs@.map_values(|c: String| c@);
    proof {
        if json_string_list(rest@) is None {
            assert(seen =~= Seq::<Seq<char>>::empty());
        }
        let spec_configs = match json_string_list(rest@) {
            Some(list) => list,
            None => Seq::<Seq<char>>::empty(),
        };
        assert(spec_configs == seen);
    }
    if bench_active || configs.len() > 8 {
        return WebCommand::Ignore;
    }
    let mut i: usize = 0;
    while i < configs.len()
        invariant
            seen == configs@.map_values(|c: String| c@),
            seen == match json_string_list(rest@) {
                Some(list) => list,
                None => Seq::<Seq<char>>::empty(),
            },
            !bench_active,
            configs.len() <= 8,
            i <= configs.len(),
            forall|k: int| 0 <= k < i ==> harmless_config(#[trigger] seen[k]),
        decreases configs.len() - i,
    {
        if !is_harmless_config(&configs[i]) {
            assert(!harmless_config(seen[i as int]));
            assert(!(forall|k: int| 0 <= k < seen.len() ==> harmless_config(#[trigger] seen[k])));
            return WebCommand::Ignore;
        }
        i = i + 1;
    }
    WebCommand::RunBenchMatrix { configs }
}

/// The command of a message that starts with one of the prefixed commands; `n` is its number of
/// characters.
fn prefixed_command(message: &str, n: usize, ctx: MessageContext) -> (res: Option<WebCommand>)
    requires
        n == message@.len(),
    ensures
        match res {
            Some(command) => prefixed_request(message@, ctx) == Some(command@),
            None => prefixed_request(message@, ctx) is None,
        },
{
    let space = chars_of(" ");
    if let Some(rest) = str_strip_prefix(message, n, &chars_of("telemetry ")) {
        let rest_chars = chars_of(rest);
        return Some(
            match split_once_exec(&rest_chars, &space) {
                Some((kind, report)) => if byte_len_exec(&report) <= 64 * 1024 {
                    WebCommand::Telemetry { kind: string_from(&kind), report: string_from(&report) }
                } else {
                    WebCommand::Ignore
                },
                None => WebCommand::Ignore,
            },
        );
    }
    if let Some(rest) = str_strip_prefix(message, n, &chars_of("icon-urls ")) {
        return Some(
            if rest.as_bytes().len() <= 16 * 1024 && json_parses(rest) {
                WebCommand::IconUrls { json: rest.to_owned() }
            } else {
                WebCommand::Ignore
            },
        );
    }
    if ctx.audio_log_build {
        if let Some(rest) = str_strip_prefix(message, n, &chars_of("audio-log ")) {
            return Some(
                if rest.as_bytes().len() <= 8 * 1024 {
                    WebCommand::AudioLogPage { json: rest.to_owned() }
                } else {
                    WebCommand::Ignore
                },
            );
        }
    }
    if let Some(rest) = str_strip_prefix(message, n, &chars_of("set-config-json ")) {
        let rest_chars = chars_of(rest);
        return Some(
            match split_once_exec(&rest_chars, &space) {
                Some((setting, value)) => {
                    let value_text = string_from(&value);
                    if byte_len_exec(&value) <= 16 * 1024 && json_parses(value_text.as_str()) {
                        WebCommand::SetConfigJson { setting: string_from(&setting), json: value_text }
                    } else {
                        WebCommand::Ignore
                    }
                },
                None => WebCommand::Ignore,
            },
        );
    }
    if let Some(rest) = str_strip_prefix(message, n, &chars_of("scripts-")) {
        return Some(
            if ctx.frame_is_krunker && rest.as_bytes().len() <= 5 * 1024 * 1024 {
                WebCommand::QueueManager { message: message.to_owned() }
            } else {
                WebCommand::Ignore
            },
        );
    }
    if let Some(rest) = str_strip_prefix(message, n, &chars_of("swapper-")) {
        return Some(
            if ctx.frame_is_krunker && rest.as_bytes().len() <= 48 * 1024 * 1024 {
                WebCommand::QueueManager { message: message.to_owned() }
            } else {
                WebCommand::Ignore
            },
        );
    }
    if let Some(rest) = str_strip_prefix(message, n, &chars_of("accounts-")) {
        return Some(WebCommand::Accounts { request: rest.to_owned() });
    }
    let bench_start = chars_of("bench-sample-start");
    if n == bench_start.len() {
        if let Some(rest) = str_strip_prefix(message, n, &bench_start) {
            proof {
                assert(message@.subrange(0, n as int) =~= message@);
            }
            return Some(
                if ctx.bench_hook {
                    WebCommand::DiscardPresentIntervals
                } else {
                    WebCommand::Ignore
                },
            );
        }
    }
    proof {
        if message@ == "bench-sample-start"@ {
            assert(message@.subrange(0, n as int) =~= message@);
        }
    }
    if let Some(rest) = str_strip_prefix(message, n, &chars_of("bench-finish ")) {
        return Some(WebCommand::BenchFinish { result: rest.to_owned() });
    }
    if let Some(rest) = str_strip_prefix(message, n, &chars_of("run-bench-matrix ")) {
        return Some(bench_matrix_command(rest, ctx.bench_active));
    }
    None
}

// ---------------------------------------------------------------------------------------------
// The messages made of parts: "<command>, <argument>, ..."
// ---------------------------------------------------------------------------------------------

/// The parts of a message: split at every ", ", each part trimmed.
pub open spec fn message_parts(msg: Seq<char>) -> Seq<Seq<char>> {
    split_all(msg, ", "@).map_values(|part: Seq<char>| trim(part))
}

/// What `value.parse::<bool>().unwrap_or(false)` gives.
pub open spec fn flag_text(value: Seq<char>) -> bool {
    bool_text(value) == Some(true)
}

/// The source of the throttle rate a "throttle" status asks for.
pub open spec fn throttle_source(status: Seq<char>) -> ThrottleSource {
    if status == "off"@ {
        ThrottleSource::Off
    } else if status == "game"@ {
        ThrottleSource::Game
    } else {
        ThrottleSource::Menu
    }
}

/// The request of a message made of parts. Sizes are in bytes, like `str::len`.
pub open spec fn parts_request(parts: Seq<Seq<char>>) -> WebRequest {
    let n = parts.len();
    if n == 3 && parts[0] == "set-config"@ {
        WebRequest::SetConfig {
            setting: parts[1],
            value: parts[2],
            fps_limit: if parts[1] == "gameFpsLimit"@ {
                u64_text(parts[2])
            } else {
                None
            },
        }
    } else if n == 2 && parts[0] == "obs-plugin"@ {
        WebRequest::ObsPlugin { install: flag_text(parts[1]) }
    } else if n == 1 && parts[0] == "get-info"@ {
        WebRequest::GetInfo
    } else if n == 4 && parts[0] == "dev-proof"@ {
        WebRequest::DevProof {
            nonce: parts[1],
            game: parts[2],
            hash: parts[3],
            sane: byte_len(parts[1]) <= 64 && byte_len(parts[2]) <= 32 && byte_len(parts[3]) == 32,
        }
    } else if n == 2 && parts[0] == "drag"@ {
        WebRequest::Drag { menu_open: flag_text(parts[1]) }
    } else if n == 2 && parts[0] == "throttle"@ {
        WebRequest::Throttle { source: throttle_source(parts[1]) }
    } else if n == 1 && parts[0] == "get-specs"@ {
        WebRequest::GetSpecs
    } else if n == 1 && parts[0] == "get-present"@ {
        WebRequest::GetPresent
    } else if n == 1 && parts[0] == "get-present-intervals"@ {
        WebRequest::GetPresentIntervals
    } else if n == 3 && parts[0] == "click"@ {
        match (i32_text(parts[1]), i32_text(parts[2])) {
            (Some(x), Some(y)) => WebRequest::Click { x, y },
            _ => WebRequest::Ignore,
        }
    } else if n == 1 && parts[0] == "close"@ {
        WebRequest::Close
    } else if n == 1 && parts[0] == "restart"@ {
        WebRequest::Restart
    } else if n == 1 && parts[0] == "bring-to-front"@ {
        WebRequest::BringToFront
    } else if n == 1 && parts[0] == "hard-reload"@ {
        WebRequest::HardReload
    } else if n == 1 && parts[0] == "clear-cache"@ {
        WebRequest::ClearCache
    } else if n == 2 && parts[0] == "open"@ {
        WebRequest::Open { target: parts[1] }
    } else if n == 2 && parts[0] == "open-url"@ {
        WebRequest::OpenUrl { url: parts[1] }
    } else if n == 3 && parts[0] == "rpc-update"@ {
        WebRequest::RpcUpdate { state: parts[1] + " on "@ + parts[2] }
    } else if n == 2 && parts[0] == "toggle-rboost"@ {
        WebRequest::RampBoost { enabled: flag_text(parts[1]) }
    } else if n == 1 && parts[0] == "ping"@ {
        WebRequest::Ping
    } else if n == 1 && parts[0] == "ping-regions"@ {
        WebRequest::PingRegions
    } else {
        WebRequest::Ignore
    }
}

/// What a message from the page asks for: the prefixed commands first, in the order the client
/// checks them, then the commands made of parts.
pub open spec fn web_request(msg: Seq<char>, ctx: MessageContext) -> WebRequest {
    match prefixed_request(msg, ctx) {
        Some(request) => request,
        None => parts_request(message_parts(msg)),
    }
}

/// Whether the part holds exactly the text `word`.
fn is_word(part: &Vec<char>, word: &str) -> (res: bool)
    ensures
        res == (part@ == word@),
{
    eq_chars(part, &chars_of(word))
}

/// The command of a message made of parts.
fn parts_command(parts: &Vec<Vec<char>>) -> (command: WebCommand)
    ensures
        command@ == parts_request(views(parts@)),
{
    let ghost v = views(parts@);
    let n = parts.len();
    assert(v.len() == n);
    if n == 0 {
        return WebCommand::Ignore;
    }
    assert(v[0] == parts@[0]@);
    let head = &parts[0];
    if n == 3 && is_word(head, "set-config") {
        assert(v[1] == parts@[1]@ && v[2] == parts@[2]@);
        let fps_limit = if is_word(&parts[1], "gameFpsLimit") {
            parse_u64(&parts[2])
        } else {
            None
        };
        return WebCommand::SetConfig {
            setting: string_from(&parts[1]),
            value: string_from(&parts[2]),
            fps_limit,
        };
    }
    if n == 2 && is_word(head, "obs-plugin") {
        assert(v[1] == parts@[1]@);
        return WebCommand::ObsPlugin { install: parse_bool(&parts[1]) == Some(true) };
    }
    if n == 1 && is_word(head, "get-info") {
        return WebCommand::GetInfo;
    }
    if n == 4 && is_word(head, "dev-proof") {
        assert(v[1] == parts@[1]@ && v[2] == parts@[2]@ && v[3] == parts@[3]@);
        let sane = byte_len_exec(&parts[1]) <= 64 && byte_len_exec(&parts[2]) <= 32 && byte_len_exec(&parts[3])
            == 32;
        return WebCommand::DevProof {
            nonce: string_from(&parts[1]),
            game: string_from(&parts[2]),
            hash: string_from(&parts[3]),
            sane,
        };
    }
    if n == 2 && is_word(head, "drag") {
        assert(v[1] == parts@[1]@);
        return WebCommand::Drag { menu_open: parse_bool(&parts[1]) == Some(true) };
    }
    if n == 2 && is_word(head, "throttle") {
        assert(v[1] == parts@[1]@);
        let source = if is_word(&parts[1], "off") {
            ThrottleSource::Off
        } else if is_word(&parts[1], "game") {
            ThrottleSource::Game
        } else {
            ThrottleSource::Menu
        };
        return WebCommand::Throttle { source };
    }
    if n == 1 && is_word(head, "get-specs") {
        return WebCommand::GetSpecs;
    }
    if n == 1 && is_word(head, "get-present") {
        return WebCommand::GetPresent;
    }
    if n == 1 && is_word(head, "get-present-intervals") {
        return WebCommand::GetPresentIntervals;
    }
    if n == 3 && is_word(head, "click") {
        assert(v[1] == parts@[1]@ && v[2] == parts@[2]@);
        return match (parse_i32(&parts[1]), parse_i32(&parts[2])) {
            (Some(x), Some(y)) => WebCommand::Click { x, y },
            _ => WebCommand::Ignore,
        };
    }
    if n == 1 && is_word(head, "close") {
        return WebCommand::Close;
    }
    if n == 1 && is_word(head, "restart") {
        return WebCommand::Restart;
    }
    if n == 1 && is_word(head, "bring-to-front") {
        return WebCommand::BringToFront;
    }
    if n == 1 && is_word(head, "hard-reload") {
        return WebCommand::HardReload;
    }
    if n == 1 && is_word(head, "clear-cache") {
        return WebCommand::ClearCache;
    }
    if n == 2 && is_word(head, "open") {
        assert(v[1] == parts@[1]@);
        return WebCommand::Open { target: string_from(&parts[1]) };
    }
    if n == 2 && is_word(head, "open-url") {
        assert(v[1] == parts@[1]@);
        return WebCommand::OpenUrl { url: string_from(&parts[1]) };
    }
    if n == 3 && is_word(head, "rpc-update") {
        assert(v[1] == parts@[1]@ && v[2] == parts@[2]@);
        let mut state = string_from(&parts[1]);
        state.append(" on ");
        let second = string_from(&parts[2]);
        state.append(second.as_str());
        return WebCommand::RpcUpdate { state };
    }
    if n == 2 && is_word(head, "toggle-rboost") {
        assert(v[1] == parts@[1]@);
        return WebCommand::RampBoost { enabled: parse_bool(&parts[1]) == Some(true) };
    }
    if n == 1 && is_word(head, "ping") {
        return WebCommand::Ping;
    }
    if n == 1 && is_word(head, "ping-regions") {
        return WebCommand::PingRegions;
    }
    WebCommand::Ignore
}

/// The parts of a message: split at every ", ", each part trimmed.
pub fn split_message(message: &Vec<char>) -> (parts: Vec<Vec<char>>)
    ensures
        views(parts@) == message_parts(message@),
{
    let separator = chars_of(", ");
    proof {
        reveal_strlit(", ");
    }
    let raw = split_all_exec(message, &separator);
    let ghost raw_views = views(raw@);
    let mut parts: Vec<Vec<char>> = Vec::new();
    let mut i: usize = 0;
    while i < raw.len()
        invariant
            raw_views == views(raw@),
            i <= raw.len(),
            views(parts@) == raw_views.take(i as int).map_values(|part: Seq<char>| trim(part)),
        decreases raw.len() - i,
    {
        let ghost before = views(parts@);
        let piece = trim_exec(&raw[i]);
        let ghost piece_view = piece@;
        parts.push(piece);
        i = i + 1;
        assert(views(parts@) =~= before.push(piece_view));
        assert(raw_views.take(i as int).map_values(|part: Seq<char>| trim(part)) =~= before.push(piece_view));
    }
    assert(raw_views.take(i as int) =~= raw_views);
    parts
}

/// What a message from the page asks for (`handle_web_message` decides by this).
pub fn parse_web_message(message: &str, ctx: MessageContext) -> (command: WebCommand)
    ensures
        command@ == web_request(message@, ctx),
{
    let n = message.unicode_len();
    match prefixed_command(message, n, ctx) {
        Some(command) => command,
        None => {
            let chars = chars_of(message);
            let parts = split_message(&chars);
            parts_command(&parts)
        },
    }
}

// ---------------------------------------------------------------------------------------------
// What holds of every message
// ---------------------------------------------------------------------------------------------

/// The userscript and swapper managers write files: a frame that is not Krunker never reaches them,
/// whatever it sends.
pub proof fn lemma_managers_only_from_krunker(msg: Seq<char>, ctx: MessageContext)
    requires
        !ctx.frame_is_krunker,
    ensures
        !(web_request(msg, ctx) is QueueManager),
{
}

/// The page's audio log only reaches the audio test build.
pub proof fn lemma_audio_log_only_in_test_build(msg: Seq<char>, ctx: MessageContext)
    requires
        !ctx.audio_log_build,
    ensures
        !(web_request(msg, ctx) is AudioLogPage),
{
}

/// Every payload the client acts on is within its cap (in bytes) and, where the client reads it as
/// JSON, is JSON; a bench matrix only runs outside a bench run, with at most eight harmless
/// configurations.
pub proof fn lemma_payload_caps(msg: Seq<char>, ctx: MessageContext)
    ensures
        match web_request(msg, ctx) {
            WebRequest::Telemetry { report, .. } => byte_len(report) <= 64 * 1024,
            WebRequest::IconUrls { json } => byte_len(json) <= 16 * 1024 && is_json_text(json),
            WebRequest::AudioLogPage { json } => byte_len(json) <= 8 * 1024,
            WebRequest::SetConfigJson { json, .. } => byte_len(json) <= 16 * 1024 && is_json_text(json),
            WebRequest::QueueManager { message } => ctx.frame_is_krunker && (has_prefix(message, "scripts-"@)
                || has_prefix(message, "swapper-"@)),
            WebRequest::RunBenchMatrix { configs } => !ctx.bench_active && configs.len() <= 8 && all_harmless(
                configs,
            ),
            WebRequest::DevProof { nonce, game, hash, sane } => sane == (byte_len(nonce) <= 64 && byte_len(game)
                <= 32 && byte_len(hash) == 32),
            _ => true,
        },
{
}

/// The FPS limit of "set-config, gameFpsLimit, <n>": the number written in decimal is handed on as
/// the present hook's target, every number included (0, the default, lifts the limit); no other
/// setting hands on a limit.
pub proof fn lemma_fps_limit(n: u64, setting: Seq<char>, value: Seq<char>)
    ensures
        parts_request(seq!["set-config"@, "gameFpsLimit"@, decimal(n as nat)]) == (WebRequest::SetConfig {
            setting: "gameFpsLimit"@,
            value: decimal(n as nat),
            fps_limit: Some(n),
        }),
        setting != "gameFpsLimit"@ ==> parts_request(seq!["set-config"@, setting, value]) == (WebRequest::SetConfig {
            setting,
            value,
            fps_limit: None,
        }),
{
    lemma_decimal_parses(n);
}

/// What each command made of parts asks for: each word names its own command, with the parts after
/// it as its arguments; a flag is on only for "true"; "throttle" picks the rate for "off", "game"
/// and else the menu; a command with the wrong number of parts is ignored.
#[verifier::rlimit(60)]
pub proof fn lemma_page_commands(a: Seq<char>, b: Seq<char>)
    ensures
        parts_request(seq!["get-info"@]) == WebRequest::GetInfo,
        parts_request(seq!["get-specs"@]) == WebRequest::GetSpecs,
        parts_request(seq!["get-present"@]) == WebRequest::GetPresent,
        parts_request(seq!["get-present-intervals"@]) == WebRequest::GetPresentIntervals,
        parts_request(seq!["close"@]) == WebRequest::Close,
        parts_request(seq!["restart"@]) == WebRequest::Restart,
        parts_request(seq!["bring-to-front"@]) == WebRequest::BringToFront,
        parts_request(seq!["hard-reload"@]) == WebRequest::HardReload,
        parts_request(seq!["clear-cache"@]) == WebRequest::ClearCache,
        parts_request(seq!["ping"@]) == WebRequest::Ping,
        parts_request(seq!["ping-regions"@]) == WebRequest::PingRegions,
        parts_request(seq!["open"@, a]) == (WebRequest::Open { target: a }),
        parts_request(seq!["open-url"@, a]) == (WebRequest::OpenUrl { url: a }),
        parts_request(seq!["rpc-update"@, a, b]) == (WebRequest::RpcUpdate { state: a + " on "@ + b }),
        parts_request(seq!["toggle-rboost"@, a]) == (WebRequest::RampBoost { enabled: a == "true"@ }),
        parts_request(seq!["drag"@, a]) == (WebRequest::Drag { menu_open: a == "true"@ }),
        parts_request(seq!["obs-plugin"@, a]) == (WebRequest::ObsPlugin { install: a == "true"@ }),
        parts_request(seq!["throttle"@, "off"@]) == (WebRequest::Throttle { source: ThrottleSource::Off }),
        parts_request(seq!["throttle"@, "game"@]) == (WebRequest::Throttle { source: ThrottleSource::Game }),
        a != "off"@ && a != "game"@ ==> parts_request(seq!["throttle"@, a]) == (WebRequest::Throttle {
            source: ThrottleSource::Menu,
        }),
        parts_request(seq!["get-info"@, a]) == WebRequest::Ignore,
        parts_request(seq!["open"@]) == WebRequest::Ignore,
        parts_request(seq!["set-config"@, a]) == WebRequest::Ignore,
{
    reveal_strlit("set-config");
    reveal_strlit("gameFpsLimit");
    reveal_strlit("obs-plugin");
    reveal_strlit("get-info");
    reveal_strlit("dev-proof");
    reveal_strlit("drag");
    reveal_strlit("throttle");
    reveal_strlit("get-specs");
    reveal_strlit("get-present");
    reveal_strlit("get-present-intervals");
    reveal_strlit("click");
    reveal_strlit("close");
    reveal_strlit("restart");
    reveal_strlit("bring-to-front");
    reveal_strlit("hard-reload");
    reveal_strlit("clear-cache");
    reveal_strlit("open");
    reveal_strlit("open-url");
    reveal_strlit("rpc-update");
    reveal_strlit("toggle-rboost");
    reveal_strlit("ping");
    reveal_strlit("ping-regions");
    reveal_strlit("off");
    reveal_strlit("game");
    reveal_strlit("true");
    reveal_strlit("false");
    assert("set-config"@.len() == 10 && "set-config"@[0] == 's');
    assert("gameFpsLimit"@.len() == 12 && "gameFpsLimit"@[0] == 'g');
    assert("obs-plugin"@.len() == 10 && "obs-plugin"@[0] == 'o');
    assert("get-info"@.len() == 8 && "get-info"@[0] == 'g');
    assert("dev-proof"@.len() == 9 && "dev-proof"@[0] == 'd');
    assert("drag"@.len() == 4 && "drag"@[0] == 'd');
    assert("throttle"@.len() == 8 && "throttle"@[0] == 't');
    assert("get-specs"@.len() == 9 && "get-specs"@[0] == 'g');
    assert("get-present"@.len() == 11 && "get-present"@[0] == 'g');
    assert("get-present-intervals"@.len() == 21 && "get-present-intervals"@[0] == 'g');
    assert("click"@.len() == 5 && "click"@[0] == 'c');
    assert("close"@.len() == 5 && "close"@[0] == 'c');
    assert("restart"@.len() == 7 && "restart"@[0] == 'r');
    assert("bring-to-front"@.len() == 14 && "bring-to-front"@[0] == 'b');
    assert("hard-reload"@.len() == 11 && "hard-reload"@[0] == 'h');
    assert("clear-cache"@.len() == 11 && "clear-cache"@[0] == 'c');
    assert("open"@.len() == 4 && "open"@[0] == 'o');
    assert("open-url"@.len() == 8 && "open-url"@[0] == 'o');
    assert("rpc-update"@.len() == 10 && "rpc-update"@[0] == 'r');
    assert("toggle-rboost"@.len() == 13 && "toggle-rboost"@[0] == 't');
    assert("ping"@.len() == 4 && "ping"@[0] == 'p');
    assert("ping-regions"@.len() == 12 && "ping-regions"@[0] == 'p');
    assert("off"@.len() == 3 && "off"@[0] == 'o');
    assert("game"@.len() == 4 && "game"@[0] == 'g');
    assert("true"@.len() == 4 && "true"@[0] == 't');
    assert("false"@.len() == 5 && "false"@[0] == 'f');
}

/// "click, <x>, <y>" clicks at the point the two decimal numbers give, for every point of the view.
#[verifier::rlimit(60)]
pub proof fn lemma_click(x: i32, y: i32)
    requires
        x >= 0,
        y >= 0,
    ensures
        parts_request(seq!["click"@, decimal(x as nat), decimal(y as nat)]) == (WebRequest::Click { x, y }),
{
    reveal_strlit("set-config");
    reveal_strlit("gameFpsLimit");
    reveal_strlit("obs-plugin");
    reveal_strlit("get-info");
    reveal_strlit("dev-proof");
    reveal_strlit("drag");
    reveal_strlit("throttle");
    reveal_strlit("get-specs");
    reveal_strlit("get-present");
    reveal_strlit("get-present-intervals");
    reveal_strlit("click");
    reveal_strlit("close");
    reveal_strlit("restart");
    reveal_strlit("bring-to-front");
    reveal_strlit("hard-reload");
    reveal_strlit("clear-cache");
    reveal_strlit("open");
    reveal_strlit("open-url");
    reveal_strlit("rpc-update");
    reveal_strlit("toggle-rboost");
    reveal_strlit("ping");
    reveal_strlit("ping-regions");
    reveal_strlit("off");
    reveal_strlit("game");
    reveal_strlit("true");
    reveal_strlit("false");
    assert("set-config"@.len() == 10 && "set-config"@[0] == 's');
    assert("gameFpsLimit"@.len() == 12 && "gameFpsLimit"@[0] == 'g');
    assert("obs-plugin"@.len() == 10 && "obs-plugin"@[0] == 'o');
    assert("get-info"@.len() == 8 && "get-info"@[0] == 'g');
    assert("dev-proof"@.len() == 9 && "dev-proof"@[0] == 'd');
    assert("drag"@.len() == 4 && "drag"@[0] == 'd');
    assert("throttle"@.len() == 8 && "throttle"@[0] == 't');
    assert("get-specs"@.len() == 9 && "get-specs"@[0] == 'g');
    assert("get-present"@.len() == 11 && "get-present"@[0] == 'g');
    assert("get-present-intervals"@.len() == 21 && "get-present-intervals"@[0] == 'g');
    assert("click"@.len() == 5 && "click"@[0] == 'c');
    assert("close"@.len() == 5 && "close"@[0] == 'c');
    assert("restart"@.len() == 7 && "restart"@[0] == 'r');
    assert("bring-to-front"@.len() == 14 && "bring-to-front"@[0] == 'b');
    assert("hard-reload"@.len() == 11 && "hard-reload"@[0] == 'h');
    assert("clear-cache"@.len() == 11 && "clear-cache"@[0] == 'c');
    assert("open"@.len() == 4 && "open"@[0] == 'o');
    assert("open-url"@.len() == 8 && "open-url"@[0] == 'o');
    assert("rpc-update"@.len() == 10 && "rpc-update"@[0] == 'r');
    assert("toggle-rboost"@.len() == 13 && "toggle-rboost"@[0] == 't');
    assert("ping"@.len() == 4 && "ping"@[0] == 'p');
    assert("ping-regions"@.len() == 12 && "ping-regions"@[0] == 'p');
    assert("off"@.len() == 3 && "off"@[0] == 'o');
    assert("game"@.len() == 4 && "game"@[0] == 'g');
    assert("true"@.len() == 4 && "true"@[0] == 't');
    assert("false"@.len() == 5 && "false"@[0] == 'f');
    crate::text::lemma_decimal_parses_i32(x);
    crate::text::lemma_decimal_parses_i32(y);
}


/// A message that starts with `p` is stripped of it.
proof fn lemma_strip_start(p: Seq<char>, rest: Seq<char>)
    ensures
        strip_prefix(p + rest, p) == Some(rest),
{
    assert((p + rest).subrange(0, p.len() as int) =~= p);
    assert((p + rest).subrange(p.len() as int, (p + rest).len() as int) =~= rest);
}

/// A message that starts with `p` does not start with a `q` that differs from `p` at `k`.
proof fn lemma_other_start(p: Seq<char>, rest: Seq<char>, q: Seq<char>, k: int)
    requires
        0 <= k < p.len(),
        k < q.len(),
        p[k] != q[k],
    ensures
        strip_prefix(p + rest, q) is None,
{
    if has_prefix(p + rest, q) {
        assert((p + rest).subrange(0, q.len() as int)[k] == (p + rest)[k]);
    }
}

/// The messages with a prefix: each prefix names its own command and hands it what follows, within
/// the command's size cap (and, for JSON payloads, when the payload is JSON); past the cap the
/// message is ignored. The file managers are reached only from Krunker's own frame.
#[verifier::rlimit(60)]
pub proof fn lemma_prefixed_commands(ctx: MessageContext, word: Seq<char>, text: Seq<char>)
    requires
        forall|i: int| 0 <= i < word.len() ==> word[i] != ' ',
    ensures
        web_request("telemetry "@ + word + " "@ + text, ctx) == if byte_len(text) <= 64 * 1024 {
            WebRequest::Telemetry { kind: word, report: text }
        } else {
            WebRequest::Ignore
        },
        web_request("icon-urls "@ + text, ctx) == if byte_len(text) <= 16 * 1024 && is_json_text(text) {
            WebRequest::IconUrls { json: text }
        } else {
            WebRequest::Ignore
        },
        ctx.audio_log_build ==> web_request("audio-log "@ + text, ctx) == if byte_len(text) <= 8 * 1024 {
            WebRequest::AudioLogPage { json: text }
        } else {
            WebRequest::Ignore
        },
        web_request("set-config-json "@ + word + " "@ + text, ctx) == if byte_len(text) <= 16 * 1024 && is_json_text(
            text,
        ) {
            WebRequest::SetConfigJson { setting: word, json: text }
        } else {
            WebRequest::Ignore
        },
        web_request("scripts-"@ + text, ctx) == if ctx.frame_is_krunker && byte_len(text) <= 5 * 1024 * 1024 {
            WebRequest::QueueManager { message: "scripts-"@ + text }
        } else {
            WebRequest::Ignore
        },
        web_request("swapper-"@ + text, ctx) == if ctx.frame_is_krunker && byte_len(text) <= 48 * 1024 * 1024 {
            WebRequest::QueueManager { message: "swapper-"@ + text }
        } else {
            WebRequest::Ignore
        },
        web_request("accounts-"@ + text, ctx) == (WebRequest::Accounts { request: text }),
        web_request("bench-finish "@ + text, ctx) == (WebRequest::BenchFinish { result: text }),
        web_request("bench-sample-start"@, ctx) == if ctx.bench_hook {
            WebRequest::DiscardPresentIntervals
        } else {
            WebRequest::Ignore
        },
{
    reveal_strlit("telemetry ");
    reveal_strlit("icon-urls ");
    reveal_strlit("audio-log ");
    reveal_strlit("set-config-json ");
    reveal_strlit("scripts-");
    reveal_strlit("swapper-");
    reveal_strlit("accounts-");
    reveal_strlit("bench-sample-start");
    reveal_strlit("bench-finish ");
    reveal_strlit("run-bench-matrix ");
    reveal_strlit(" ");
    let tel = "telemetry "@;
    let icon = "icon-urls "@;
    let audio = "audio-log "@;
    let scj = "set-config-json "@;
    let scripts = "scripts-"@;
    let swapper = "swapper-"@;
    let accounts = "accounts-"@;
    let finish = "bench-finish "@;
    // telemetry
    assert(tel + word + " "@ + text =~= tel + (word + " "@ + text));
    lemma_strip_start(tel, word + " "@ + text);
    crate::text::lemma_split_at_first(word, ' ', text);
    assert(" "@ =~= seq![' ']);
    assert(word + seq![' '] + text =~= word + " "@ + text);
    assert(split_once(word + " "@ + text, " "@) == Some((word, text)));
    // icon-urls
    lemma_strip_start(icon, text);
    lemma_other_start(icon, text, tel, 0);
    // audio-log
    lemma_strip_start(audio, text);
    lemma_other_start(audio, text, tel, 0);
    lemma_other_start(audio, text, icon, 0);
    // set-config-json
    assert(scj + word + " "@ + text =~= scj + (word + " "@ + text));
    lemma_strip_start(scj, word + " "@ + text);
    lemma_other_start(scj, word + " "@ + text, tel, 0);
    lemma_other_start(scj, word + " "@ + text, icon, 0);
    lemma_other_start(scj, word + " "@ + text, audio, 0);
    // scripts-
    lemma_strip_start(scripts, text);
    lemma_other_start(scripts, text, tel, 0);
    lemma_other_start(scripts, text, icon, 0);
    lemma_other_start(scripts, text, audio, 0);
    lemma_other_start(scripts, text, scj, 1);
    // swapper-
    lemma_strip_start(swapper, text);
    lemma_other_start(swapper, text, tel, 0);
    lemma_other_start(swapper, text, icon, 0);
    lemma_other_start(swapper, text, audio, 0);
    lemma_other_start(swapper, text, scj, 1);
    lemma_other_start(swapper, text, scripts, 1);
    // accounts-
    lemma_strip_start(accounts, text);
    lemma_other_start(accounts, text, tel, 0);
    lemma_other_start(accounts, text, icon, 0);
    lemma_other_start(accounts, text, audio, 1);
    lemma_other_start(accounts, text, scj, 0);
    lemma_other_start(accounts, text, scripts, 0);
    lemma_other_start(accounts, text, swapper, 0);
    // bench-finish
    lemma_strip_start(finish, text);
    lemma_other_start(finish, text, tel, 0);
    lemma_other_start(finish, text, icon, 0);
    lemma_other_start(finish, text, audio, 0);
    lemma_other_start(finish, text, scj, 0);
    lemma_other_start(finish, text, scripts, 0);
    lemma_other_start(finish, text, swapper, 0);
    lemma_other_start(finish, text, accounts, 0);
    assert((finish + text)[6] != "bench-sample-start"@[6]);
    // bench-sample-start
    let start = "bench-sample-start"@;
    assert(start =~= start + Seq::<char>::empty());
    lemma_other_start(start, Seq::<char>::empty(), tel, 0);
    lemma_other_start(start, Seq::<char>::empty(), icon, 0);
    lemma_other_start(start, Seq::<char>::empty(), audio, 0);
    lemma_other_start(start, Seq::<char>::empty(), scj, 0);
    lemma_other_start(start, Seq::<char>::empty(), scripts, 0);
    lemma_other_start(start, Seq::<char>::empty(), swapper, 0);
    lemma_other_start(start, Seq::<char>::empty(), accounts, 0);
}

} // verus!
