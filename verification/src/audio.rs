//! The text of the audio test build's log (`Downloads\kute-audio-log.txt`): its lines, the marks the
//! tester sets with F9, the sound devices, and the audio warnings copied from chromium's own log.
use crate::text::{chars_of, contains, contains_exec, push_decimal, push_zero_padded, split_all, split_all_exec, sub_chars, string_from, trim, trim_exec, views, decimal, zero_padded};
use crate::json::{entry_value, entry_value_of, json_object_entries, json_string_value, object_entries, pair_views, string_value};
use vstd::prelude::*;
use vstd::string::StringSliceAdditionalSpecFns;

verus! {

broadcast use vstd::string::group_string_axioms;

/// The name of the log file in the Downloads folder.
pub const LOG_FILE_NAME: &'static str = "kute-audio-log.txt";

/// The folder is a bare drive, a letter and a colon ("C:"): Windows joins a name to it without a
/// separator ("C:name" is relative to that drive's current folder).
pub open spec fn bare_drive(dir: Seq<char>) -> bool {
    &&& dir.len() == 2
    &&& dir[1] == ':'
    &&& (('a' <= dir[0] && dir[0] <= 'z') || ('A' <= dir[0] && dir[0] <= 'Z'))
}

/// The log file in the Downloads folder `downloads_dir`, joined the way Windows joins a file name
/// to a folder: a backslash goes between the two unless the folder is empty, already ends in a
/// separator (`\` or `/`), or is a bare drive.
pub open spec fn log_path_text(downloads_dir: Seq<char>) -> Seq<char> {
    let separator = if downloads_dir.len() == 0 || downloads_dir.last() == '\\' || downloads_dir.last() == '/'
        || bare_drive(downloads_dir) {
        ""@
    } else {
        "\\"@
    };
    downloads_dir + separator + "kute-audio-log.txt"@
}

/// The log file in the Downloads folder `downloads_dir` (see `log_path_text`).
pub fn log_path(downloads_dir: &str) -> (path: String)
    ensures
        path@ == log_path_text(downloads_dir@),
{
    let chars = chars_of(downloads_dir);
    let n = chars.len();
    let drive = n == 2 && chars[1] == ':' && (('a' <= chars[0] && chars[0] <= 'z') || ('A' <= chars[0] && chars[0] <= 'Z'));
    let mut path = downloads_dir.to_owned();
    if n > 0 && chars[n - 1] != '\\' && chars[n - 1] != '/' && !drive {
        path.append("\\");
    }
    path.append(LOG_FILE_NAME);
    proof {
        reveal_strlit("kute-audio-log.txt");
        reveal_strlit("\\");
        reveal_strlit("");
    }
    assert(path@ =~= log_path_text(downloads_dir@));
    path
}

/// The label of an `EndpointFormFactor` value of mmdeviceapi.h, for the form factors a player plays through.
pub open spec fn form_factor_label(value: u32) -> Seq<char> {
    if value == 0 {
        " [speakers]"@
    } else if value == 1 {
        " [line out]"@
    } else if value == 2 {
        " [headphones]"@
    } else if value == 3 {
        " [headset]"@
    } else if value == 4 {
        " [handset]"@
    } else if value == 8 {
        " [spdif]"@
    } else if value == 9 {
        " [hdmi]"@
    } else {
        ""@
    }
}

/// EndpointFormFactor of mmdeviceapi.h, only the ones a player would play through.
pub fn form_factor(value: u32) -> (label: String)
    ensures
        label@ == form_factor_label(value),
{
    let text = match value {
        0 => " [speakers]",
        1 => " [line out]",
        2 => " [headphones]",
        3 => " [headset]",
        4 => " [handset]",
        8 => " [spdif]",
        9 => " [hdmi]",
        _ => "",
    };
    text.to_owned()
}

/// The words of chromium's audio warnings ("SyncReader::Read timed out, audio glitch count=").
pub open spec fn audio_words() -> Seq<Seq<char>> {
    seq!["udio"@, "glitch"@, "SyncReader"@, "edia"@, "underrun"@]
}

/// A line of chromium's log is about audio: it holds one of `audio_words`.
pub open spec fn audio_line(entry: Seq<char>) -> bool {
    exists|i: int| 0 <= i < audio_words().len() && contains(entry, #[trigger] audio_words()[i])
}

/// Whether a line of chromium's log is about audio (see `audio_line`).
pub fn is_audio_line(entry: &str) -> (res: bool)
    ensures
        res == audio_line(entry@),
{
    let chars = chars_of(entry);
    let words = ["udio", "glitch", "SyncReader", "edia", "underrun"];
    let mut i: usize = 0;
    while i < 5
        invariant
            chars@ == entry@,
            i <= 5,
            words@.map_values(|w: &str| w@) == audio_words(),
            forall|k: int| 0 <= k < i ==> !contains(entry@, #[trigger] audio_words()[k]),
        decreases 5 - i,
    {
        if contains_exec(&chars, &chars_of(words[i])) {
            assert(audio_words()[i as int] == words@[i as int]@);
            return true;
        }
        i = i + 1;
    }
    false
}

/// The mark line of the `number`-th F9.
pub open spec fn mark_text(number: nat) -> Seq<char> {
    "########## MARK "@ + decimal(number) + ": the tester heard a cut here ##########"@
}

/// F9: the tester heard a cut. The lines that mark it in the log, the `marks_so_far + 1`-th mark,
/// with an empty line before and after.
pub fn mark(marks_so_far: u32) -> (lines: Vec<String>)
    requires
        marks_so_far < u32::MAX,
    ensures
        lines@.map_values(|l: String| l@) == seq![""@, mark_text(marks_so_far as nat + 1), ""@],
{
    let number = marks_so_far + 1;
    let mut text = "########## MARK ".to_owned();
    push_decimal(&mut text, number as u64);
    text.append(": the tester heard a cut here ##########");
    let mut lines: Vec<String> = Vec::new();
    lines.push(String::new());
    lines.push(text);
    lines.push(String::new());
    proof {
        reveal_strlit("");
        assert(lines@[0]@ =~= ""@);
        assert(lines@[2]@ =~= ""@);
        assert(lines@[1]@ =~= mark_text(marks_so_far as nat + 1));
    }
    assert(lines@.map_values(|l: String| l@) =~= seq![""@, mark_text(marks_so_far as nat + 1), ""@]);
    lines
}

/// A time of day as the log writes it: "hh:mm:ss.mmm".
pub open spec fn stamp_text(hour: u16, minute: u16, second: u16, millis: u16) -> Seq<char> {
    zero_padded(hour as nat, 2) + ":"@ + zero_padded(minute as nat, 2) + ":"@ + zero_padded(second as nat, 2)
        + "."@ + zero_padded(millis as nat, 3)
}

/// A time of day as the log writes it (see `stamp_text`).
pub fn format_stamp(hour: u16, minute: u16, second: u16, millis: u16) -> (stamp: String)
    ensures
        stamp@ == stamp_text(hour, minute, second, millis),
{
    let mut stamp = String::new();
    push_zero_padded(&mut stamp, hour as u64, 2);
    stamp.append(":");
    push_zero_padded(&mut stamp, minute as u64, 2);
    stamp.append(":");
    push_zero_padded(&mut stamp, second as u64, 2);
    stamp.append(".");
    push_zero_padded(&mut stamp, millis as u64, 3);
    stamp
}

/// One line of the log: "[<stamp>] <text>".
pub fn log_line(stamp: &str, text: &str) -> (line: String)
    ensures
        line@ == "["@ + stamp@ + "] "@ + text@,
{
    let mut line = "[".to_owned();
    line.append(stamp);
    line.append("] ");
    line.append(text);
    line
}

/// The first line of the log: the build, the bundle and the day it started.
pub open spec fn header_text(version: Seq<char>, bundle: Seq<char>, year: u16, month: u16, day: u16) -> Seq<char> {
    "kute audio test build "@ + version + ", bundle "@ + bundle + ", started "@ + zero_padded(year as nat, 4)
        + "-"@ + zero_padded(month as nat, 2) + "-"@ + zero_padded(day as nat, 2)
}

/// The first line of the log (see `header_text`).
pub fn header_line(version: &str, bundle: &str, year: u16, month: u16, day: u16) -> (line: String)
    ensures
        line@ == header_text(version@, bundle@, year, month, day),
{
    let mut line = "kute audio test build ".to_owned();
    line.append(version);
    line.append(", bundle ");
    line.append(bundle);
    line.append(", started ");
    push_zero_padded(&mut line, year as u64, 4);
    line.append("-");
    push_zero_padded(&mut line, month as u64, 2);
    line.append("-");
    push_zero_padded(&mut line, day as u64, 2);
    line
}

/// The line of a sound device: its name, " (default)" when it is the default output, and its format.
pub open spec fn device_text(name: Seq<char>, default_name: Seq<char>, format: Seq<char>) -> Seq<char> {
    name + (if default_name.len() > 0 && name == default_name {
        " (default)"@
    } else {
        ""@
    }) + format
}

/// The line of a sound device (see `device_text`).
pub fn device_line(name: &str, default_name: &str, format: &str) -> (line: String)
    ensures
        line@ == device_text(name@, default_name@, format@),
{
    let mut line = name.to_owned();
    let name_chars = chars_of(name);
    let default_chars = chars_of(default_name);
    if default_chars.len() > 0 && crate::text::eq_chars(&name_chars, &default_chars) {
        line.append(" (default)");
    } else {
        line.append("");
    }
    line.append(format);
    line
}

/// The default output device as last seen, and the line a change makes: a device switching away and
/// back silences everything for a moment. The first device seen is no change.
pub open spec fn default_device_step(last: Seq<char>, current: Seq<char>) -> (Seq<char>, Option<Seq<char>>) {
    if current != last {
        (
            current,
            if last.len() > 0 {
                Some("default output device changed: "@ + last + " -> "@ + current)
            } else {
                None
            },
        )
    } else {
        (last, None)
    }
}

/// The default output device to remember and the line to log, if any (see `default_device_step`).
pub fn default_device_change(last: &str, current: &str) -> (res: (String, Option<String>))
    ensures
        (res.0@, match res.1 {
            Some(line) => Some(line@),
            None => None,
        }) == default_device_step(last@, current@),
{
    if crate::text::eq_chars(&chars_of(current), &chars_of(last)) {
        return (last.to_owned(), None);
    }
    let line = if last.unicode_len() > 0 {
        let mut line = "default output device changed: ".to_owned();
        line.append(last);
        line.append(" -> ");
        line.append(current);
        Some(line)
    } else {
        None
    };
    (current.to_owned(), line)
}

/// The page's timeline line: "page: " and its entries, separated by spaces.
pub open spec fn page_text(entries: Seq<Seq<char>>) -> Seq<char> {
    "page: "@ + crate::flags::join(entries, " "@)
}

/// The page's timeline line (see `page_text`).
pub fn page_line(entries: &Vec<String>) -> (line: String)
    ensures
        line@ == page_text(entries@.map_values(|e: String| e@)),
{
    let ghost all = entries@.map_values(|e: String| e@);
    let mut joined = String::new();
    let mut i: usize = 0;
    assert(all.take(0) =~= Seq::<Seq<char>>::empty());
    while i < entries.len()
        invariant
            all == entries@.map_values(|e: String| e@),
            i <= entries.len(),
            joined@ == crate::flags::join(all.take(i as int), " "@),
        decreases entries.len() - i,
    {
        let ghost before = joined@;
        assert(all.take(i + 1).drop_last() =~= all.take(i as int));
        assert(all.take(i + 1).last() == all[i as int]);
        if i > 0 {
            joined.append(" ");
        }
        joined.append(entries[i].as_str());
        proof {
            if i == 0 {
                assert(all.take(1)[0] == all[0]);
                assert(joined@ =~= all[0]);
            } else {
                assert(joined@ =~= before + " "@ + all[i as int]);
            }
        }
        i = i + 1;
    }
    assert(all.take(i as int) =~= all);
    let mut line = "page: ".to_owned();
    line.append(joined.as_str());
    line
}

/// The lines of a block's data: one per entry of an object, "    key = value", or the value itself
/// on one line.
pub open spec fn data_lines(data: Seq<char>, data_entries: Option<Seq<(Seq<char>, Seq<char>)>>) -> Seq<Seq<char>> {
    match data_entries {
        Some(entries) => entries.map_values(|e: (Seq<char>, Seq<char>)| "    "@ + e.0 + " = "@ + e.1),
        None => seq!["    "@ + data],
    }
}

/// A block of the page (the Krunker settings, the page's audio setup): an empty line, its title,
/// its data, an empty line.
pub open spec fn section_block(
    title: Seq<char>,
    data: Seq<char>,
    data_entries: Option<Seq<(Seq<char>, Seq<char>)>>,
) -> Seq<Seq<char>> {
    seq![""@, "== "@ + title + " =="@] + data_lines(data, data_entries) + seq![""@]
}

/// The entries of a timeline message as "key=value".
pub open spec fn timeline_entries(entries: Seq<(Seq<char>, Seq<char>)>) -> Seq<Seq<char>> {
    entries.map_values(|e: (Seq<char>, Seq<char>)| e.0 + "="@ + e.1)
}

/// The title of a block: the string its "section" entry holds.
pub open spec fn section_title(entries: Seq<(Seq<char>, Seq<char>)>) -> Option<Seq<char>> {
    match entry_value(entries, "section"@) {
        Some(value) => json_string_value(value),
        None => None,
    }
}

/// The data of a block: its "data" entry, `null` without one.
pub open spec fn section_data(entries: Seq<(Seq<char>, Seq<char>)>) -> Seq<char> {
    match entry_value(entries, "data"@) {
        Some(value) => value,
        None => "null"@,
    }
}

/// The log lines of one message of the page ("audio-log <json>"): an object with a string
/// "section" is a block; any other object is one timeline line of its entries; anything else is one
/// line of the text as it came.
pub open spec fn page_log_lines(json: Seq<char>) -> Seq<Seq<char>> {
    match json_object_entries(json) {
        Some(entries) => match section_title(entries) {
            Some(title) => {
                let data = section_data(entries);
                section_block(title, data, json_object_entries(data))
            },
            None => seq![page_text(timeline_entries(entries))],
        },
        None => seq![page_text(seq![json])],
    }
}

/// Optional pairs of texts by their characters.
pub open spec fn opt_pair_views(pairs: Option<Vec<(String, String)>>) -> Option<Seq<(Seq<char>, Seq<char>)>> {
    match pairs {
        Some(entries) => Some(pair_views(entries@)),
        None => None,
    }
}

/// The lines of a block (see `section_block`); `data_entries` are the entries of `data` where it is
/// an object.
pub fn section_lines(title: &str, data: &str, data_entries: Option<Vec<(String, String)>>) -> (lines: Vec<String>)
    ensures
        lines@.map_values(|l: String| l@) == section_block(
            title@,
            data@,
            opt_pair_views(data_entries),
        ),
{
    let ghost entry_views = opt_pair_views(data_entries);
    let mut lines: Vec<String> = Vec::new();
    lines.push(String::new());
    let mut heading = "== ".to_owned();
    heading.append(title);
    heading.append(" ==");
    lines.push(heading);
    proof {
        reveal_strlit("");
        assert(lines@[0]@ =~= ""@);
        assert(lines@[1]@ =~= "== "@ + title@ + " =="@);
    }
    assert(lines@.map_values(|l: String| l@) =~= seq![""@, "== "@ + title@ + " =="@]);
    let ghost head = lines@.map_values(|l: String| l@);
    match data_entries {
        Some(entries) => {
            let ghost all = pair_views(entries@);
            let mut i: usize = 0;
            while i < entries.len()
                invariant
                    all == pair_views(entries@),
                    entry_views == Some(all),
                    i <= entries.len(),
                    lines@.map_values(|l: String| l@) == head + data_lines(data@, Some(all)).take(i as int),
                decreases entries.len() - i,
            {
                let ghost before = lines@.map_values(|l: String| l@);
                let mut line = "    ".to_owned();
                line.append(entries[i].0.as_str());
                line.append(" = ");
                line.append(entries[i].1.as_str());
                lines.push(line);
                assert(data_lines(data@, Some(all))[i as int] == "    "@ + all[i as int].0 + " = "@ + all[i as int].1);
                assert(lines@.map_values(|l: String| l@) =~= before.push(data_lines(data@, Some(all))[i as int]));
                assert(data_lines(data@, Some(all)).take(i + 1) =~= data_lines(data@, Some(all)).take(i as int).push(
                    data_lines(data@, Some(all))[i as int],
                ));
                i = i + 1;
            }
            assert(data_lines(data@, Some(all)).take(i as int) =~= data_lines(data@, Some(all)));
        },
        None => {
            let mut line = "    ".to_owned();
            line.append(data);
            lines.push(line);
            assert(lines@.map_values(|l: String| l@) =~= head + data_lines(data@, None));
        },
    }
    let ghost body = lines@.map_values(|l: String| l@);
    lines.push(String::new());
    assert(lines@[lines@.len() - 1]@ =~= ""@);
    assert(lines@.map_values(|l: String| l@) =~= body + seq![""@]);
    lines
}

/// The timeline line of a message's entries: "page: " and the entries as "key=value".
pub fn timeline_line(entries: &Vec<(String, String)>) -> (line: String)
    ensures
        line@ == page_text(timeline_entries(pair_views(entries@))),
{
    let ghost all = pair_views(entries@);
    let mut parts: Vec<String> = Vec::new();
    let mut i: usize = 0;
    while i < entries.len()
        invariant
            all == pair_views(entries@),
            i <= entries.len(),
            parts@.map_values(|p: String| p@) == timeline_entries(all).take(i as int),
        decreases entries.len() - i,
    {
        let ghost before = parts@.map_values(|p: String| p@);
        let mut part = entries[i].0.clone();
        part.append("=");
        part.append(entries[i].1.as_str());
        parts.push(part);
        assert(parts@.map_values(|p: String| p@) =~= before.push(timeline_entries(all)[i as int]));
        assert(timeline_entries(all).take(i + 1) =~= timeline_entries(all).take(i as int).push(timeline_entries(all)[i as int]));
        i = i + 1;
    }
    assert(timeline_entries(all).take(i as int) =~= timeline_entries(all));
    page_line(&parts)
}

/// The log lines of one message of the page (see `page_log_lines`).
pub fn page_lines(json: &str) -> (lines: Vec<String>)
    ensures
        lines@.map_values(|l: String| l@) == page_log_lines(json@),
{
    match object_entries(json) {
        Some(entries) => {
            let title = match entry_value_of(&entries, "section") {
                Some(value) => string_value(value.as_str()),
                None => None,
            };
            match title {
                Some(title) => {
                    let data = match entry_value_of(&entries, "data") {
                        Some(value) => value,
                        None => "null".to_owned(),
                    };
                    let data_entries = object_entries(data.as_str());
                    section_lines(title.as_str(), data.as_str(), data_entries)
                },
                None => {
                    let line = timeline_line(&entries);
                    let mut lines: Vec<String> = Vec::new();
                    lines.push(line);
                    assert(lines@.map_values(|l: String| l@) =~= page_log_lines(json@));
                    lines
                },
            }
        },
        None => {
            let mut whole: Vec<String> = Vec::new();
            whole.push(json.to_owned());
            let line = page_line(&whole);
            assert(whole@.map_values(|e: String| e@) =~= seq![json@]);
            let mut lines: Vec<String> = Vec::new();
            lines.push(line);
            assert(lines@.map_values(|l: String| l@) =~= page_log_lines(json@));
            lines
        },
    }
}

/// The line of the audio service process starting (`started`) or still being alive.
pub open spec fn service_text(started: bool, pid: u32) -> Seq<char> {
    (if started {
        "audio service started, pid "@
    } else {
        "audio service alive, pid "@
    }) + decimal(pid as nat)
}

/// The line of the audio service process (see `service_text`).
pub fn service_line(started: bool, pid: u32) -> (line: String)
    ensures
        line@ == service_text(started, pid),
{
    let mut line = if started {
        "audio service started, pid ".to_owned()
    } else {
        "audio service alive, pid ".to_owned()
    };
    push_decimal(&mut line, pid as u64);
    line
}

// ---------------------------------------------------------------------------------------------
// Chromium's own log
// ---------------------------------------------------------------------------------------------

/// `s` without one trailing carriage return.
pub open spec fn strip_cr(s: Seq<char>) -> Seq<char> {
    if s.len() > 0 && s.last() == '\r' {
        s.drop_last()
    } else {
        s
    }
}

/// The lines of `s` (`str::lines`): split at '\n', a carriage return before a '\n' dropped, and no
/// empty line after a final line break (nor for an empty text).
pub open spec fn text_lines(s: Seq<char>) -> Seq<Seq<char>> {
    let pieces = split_all(s, "\n"@);
    let n = if pieces.len() > 0 && pieces.last().len() == 0 {
        pieces.len() - 1
    } else {
        pieces.len() as int
    };
    Seq::new(
        n as nat,
        |i: int|
            if i < pieces.len() - 1 {
                strip_cr(pieces[i])
            } else {
                pieces[i]
            },
    )
}

/// The lines about audio, in order.
pub open spec fn audio_lines(lines: Seq<Seq<char>>) -> Seq<Seq<char>>
    decreases lines.len(),
{
    if lines.len() == 0 {
        lines
    } else if audio_line(lines.last()) {
        audio_lines(lines.drop_last()).push(lines.last())
    } else {
        audio_lines(lines.drop_last())
    }
}

/// The log lines copied from a new piece of chromium's log: its first 50 lines about audio, trimmed,
/// after "chromium: ".
pub open spec fn copied_lines(fresh: Seq<char>) -> Seq<Seq<char>> {
    let found = audio_lines(text_lines(fresh));
    let kept = if found.len() > 50 {
        found.take(50)
    } else {
        found
    };
    kept.map_values(|entry: Seq<char>| "chromium: "@ + trim(entry))
}

/// Where reading resumes in chromium's log: at `offset`, or at the start when the log is shorter
/// than that (it was rotated or deleted).
pub open spec fn resume_at(log_len: nat, offset: nat) -> nat {
    if log_len < offset {
        0
    } else {
        offset
    }
}

/// One look at chromium's log (`text`, read whole) after `offset` bytes were seen: the new offset
/// (the log's length) and the lines to copy from what is new. `offset` has to fall between two
/// characters of the log where the log is that long.
pub fn tail_step(text: &str, offset: usize) -> (res: (usize, Vec<String>))
    requires
        offset > text.spec_bytes().len() || vstd::utf8::is_char_boundary(text.spec_bytes(), offset as int),
    ensures
        res.0 == text.spec_bytes().len(),
        res.1@.map_values(|l: String| l@) == copied_lines(
            vstd::utf8::decode_utf8(
                text.spec_bytes().subrange(
                    resume_at(text.spec_bytes().len(), offset as nat) as int,
                    text.spec_bytes().len() as int,
                ),
            ),
        ),
{
    broadcast use vstd::utf8::group_utf8_lib;

    let len = text.as_bytes().len();
    let start = if len < offset {
        0
    } else {
        offset
    };
    proof {
        assert(vstd::utf8::is_char_boundary(text.spec_bytes(), 0));
    }
    let (_, fresh) = text.split_at(start);
    proof {
        vstd::utf8::encode_utf8_decode_utf8(fresh@);
    }
    let lines = split_lines(&chars_of(fresh));
    let ghost all = views(lines@);
    let mut found: Vec<String> = Vec::new();
    let mut i: usize = 0;
    assert(all.take(0) =~= Seq::<Seq<char>>::empty());
    while i < lines.len() && found.len() < 50
        invariant
            all == views(lines@),
            i <= lines.len(),
            found.len() <= 50,
            found@.map_values(|l: String| l@) == audio_lines(all.take(i as int)).map_values(
                |entry: Seq<char>| "chromium: "@ + trim(entry),
            ),
            found.len() == audio_lines(all.take(i as int)).len(),
        decreases lines.len() - i,
    {
        let ghost before = found@.map_values(|l: String| l@);
        assert(all.take(i + 1).drop_last() =~= all.take(i as int));
        assert(all.take(i + 1).last() == all[i as int]);
        let entry = string_from(&lines[i]);
        if is_audio_line(entry.as_str()) {
            let mut line = "chromium: ".to_owned();
            let trimmed = string_from(&trim_exec(&lines[i]));
            line.append(trimmed.as_str());
            found.push(line);
            assert(found@.map_values(|l: String| l@) =~= before.push("chromium: "@ + trim(all[i as int])));
            assert(audio_lines(all.take(i + 1)).map_values(|entry: Seq<char>| "chromium: "@ + trim(entry))
                =~= audio_lines(all.take(i as int)).map_values(|entry: Seq<char>| "chromium: "@ + trim(entry)).push(
                "chromium: "@ + trim(all[i as int]),
            ));
        }
        i = i + 1;
    }
    proof {
        let whole = audio_lines(all);
        lemma_audio_lines_prefix(all, i as int);
        if found.len() < 50 {
            assert(all.take(i as int) =~= all);
        } else {
            assert(whole.take(50) =~= audio_lines(all.take(i as int)));
        }
        assert(all == text_lines(fresh@));
    }
    (len, found)
}

/// The lines about audio of a prefix are a prefix of the lines about audio.
proof fn lemma_audio_lines_prefix(lines: Seq<Seq<char>>, i: int)
    requires
        0 <= i <= lines.len(),
    ensures
        audio_lines(lines.take(i)).len() <= audio_lines(lines).len(),
        audio_lines(lines).subrange(0, audio_lines(lines.take(i)).len() as int) == audio_lines(lines.take(i)),
    decreases lines.len() - i,
{
    if i == lines.len() {
        assert(lines.take(i) =~= lines);
        let a = audio_lines(lines);
        assert(a.subrange(0, a.len() as int) =~= a);
    } else {
        lemma_audio_lines_prefix(lines, i + 1);
        assert(lines.take(i + 1).drop_last() =~= lines.take(i));
        let small = audio_lines(lines.take(i));
        let big = audio_lines(lines.take(i + 1));
        let all = audio_lines(lines);
        assert(all.subrange(0, small.len() as int) =~= big.subrange(0, small.len() as int));
        if audio_line(lines.take(i + 1).last()) {
            assert(big.subrange(0, small.len() as int) =~= small);
        } else {
            assert(big.subrange(0, small.len() as int) =~= small);
        }
    }
}

/// The lines of `s` (see `text_lines`).
pub fn split_lines(s: &Vec<char>) -> (lines: Vec<Vec<char>>)
    ensures
        views(lines@) == text_lines(s@),
{
    let newline = chars_of("\n");
    proof {
        reveal_strlit("\n");
    }
    let pieces = split_all_exec(s, &newline);
    let ghost p = views(pieces@);
    let n = if pieces.len() > 0 && pieces[pieces.len() - 1].len() == 0 {
        pieces.len() - 1
    } else {
        pieces.len()
    };
    let mut lines: Vec<Vec<char>> = Vec::new();
    let mut i: usize = 0;
    while i < n
        invariant
            p == views(pieces@),
            p == split_all(s@, "\n"@),
            n <= pieces.len(),
            n == if p.len() > 0 && p.last().len() == 0 { p.len() - 1 } else { p.len() as int },
            i <= n,
            views(lines@) == text_lines(s@).take(i as int),
        decreases n - i,
    {
        let ghost before = views(lines@);
        let piece = &pieces[i];
        let line = if i + 1 < pieces.len() && piece.len() > 0 && piece[piece.len() - 1] == '\r' {
            sub_chars(piece, 0, piece.len() - 1)
        } else {
            sub_chars(piece, 0, piece.len())
        };
        proof {
            assert(p[i as int] == piece@);
            assert(piece@.subrange(0, piece@.len() as int) =~= piece@);
            if i + 1 < pieces.len() && piece@.len() > 0 && piece@.last() == '\r' {
                assert(piece@.subrange(0, piece@.len() - 1) =~= piece@.drop_last());
            }
        }
        let ghost line_view = line@;
        lines.push(line);
        i = i + 1;
        assert(views(lines@) =~= before.push(line_view));
        assert(text_lines(s@).take(i as int) =~= text_lines(s@).take(i - 1).push(line_view));
    }
    assert(text_lines(s@).take(n as int) =~= text_lines(s@));
    lines
}


/// The default output device: a change of device logs one line naming the old and the new one,
/// unless no device was seen before; the same device logs nothing; the device seen last is always
/// the current one.
pub proof fn lemma_default_device_steps(last: Seq<char>, current: Seq<char>)
    ensures
        default_device_step(last, current).0 == current,
        current == last ==> default_device_step(last, current).1 is None,
        current != last && last.len() > 0 ==> default_device_step(last, current).1 == Some(
            "default output device changed: "@ + last + " -> "@ + current,
        ),
        last.len() == 0 ==> default_device_step(last, current).1 is None,
{
}

/// The form factors a player plays through have their labels; the others have none.
pub proof fn lemma_form_factor_labels(value: u32)
    ensures
        form_factor_label(0) == " [speakers]"@,
        form_factor_label(1) == " [line out]"@,
        form_factor_label(2) == " [headphones]"@,
        form_factor_label(3) == " [headset]"@,
        form_factor_label(4) == " [handset]"@,
        form_factor_label(8) == " [spdif]"@,
        form_factor_label(9) == " [hdmi]"@,
        !(value <= 4 || value == 8 || value == 9) ==> form_factor_label(value) == ""@,
{
}


/// A time of day in the log is "hh:mm:ss.mmm": twelve characters, the separators in their places,
/// and each field reads back as the hour, minute, second and millisecond it was made of.
pub proof fn lemma_stamp_fields(hour: u16, minute: u16, second: u16, millis: u16)
    requires
        hour < 100,
        minute < 100,
        second < 100,
        millis < 1000,
    ensures
        ({
            let t = stamp_text(hour, minute, second, millis);
            &&& t.len() == 12
            &&& t[2] == ':' && t[5] == ':' && t[8] == '.'
            &&& crate::text::digits_value(t.subrange(0, 2)) == hour
            &&& crate::text::digits_value(t.subrange(3, 5)) == minute
            &&& crate::text::digits_value(t.subrange(6, 8)) == second
            &&& crate::text::digits_value(t.subrange(9, 12)) == millis
        }),
{
    reveal_strlit(":");
    reveal_strlit(".");
    crate::text::lemma_zero_padded(hour as nat, 2);
    crate::text::lemma_zero_padded(minute as nat, 2);
    crate::text::lemma_zero_padded(second as nat, 2);
    crate::text::lemma_zero_padded(millis as nat, 3);
    let t = stamp_text(hour, minute, second, millis);
    assert(t.subrange(0, 2) =~= zero_padded(hour as nat, 2));
    assert(t.subrange(3, 5) =~= zero_padded(minute as nat, 2));
    assert(t.subrange(6, 8) =~= zero_padded(second as nat, 2));
    assert(t.subrange(9, 12) =~= zero_padded(millis as nat, 3));
}

/// The `number`-th mark names its number: it reads back from the digits after "########## MARK ".
pub proof fn lemma_mark_number(number: nat)
    ensures
        crate::text::digits_value(mark_text(number).subrange(16, 16 + decimal(number).len() as int)) == number,
        mark_text(number).subrange(0, 16) == "########## MARK "@,
{
    reveal_strlit("########## MARK ");
    crate::text::lemma_decimal_parses_nat(number);
    let t = mark_text(number);
    assert(t.subrange(16, 16 + decimal(number).len() as int) =~= decimal(number));
    assert(t.subrange(0, 16) =~= "########## MARK "@);
}


/// The lines about audio are lines of the log, each about audio; without any, there are none.
proof fn lemma_audio_lines_elements(lines: Seq<Seq<char>>)
    ensures
        audio_lines(lines).len() <= lines.len(),
        forall|k: int|
            0 <= k < audio_lines(lines).len() ==> audio_line(#[trigger] audio_lines(lines)[k]) && lines.contains(
                audio_lines(lines)[k],
            ),
        (forall|j: int| 0 <= j < lines.len() ==> !audio_line(#[trigger] lines[j])) ==> audio_lines(lines).len() == 0,
    decreases lines.len(),
{
    if lines.len() > 0 {
        let rest = lines.drop_last();
        lemma_audio_lines_elements(rest);
        let found = audio_lines(lines);
        assert forall|k: int| 0 <= k < found.len() implies audio_line(#[trigger] found[k]) && lines.contains(found[k]) by {
            if k < audio_lines(rest).len() {
                assert(found[k] == audio_lines(rest)[k]);
                let j = choose|j: int| 0 <= j < rest.len() && rest[j] == audio_lines(rest)[k];
                assert(lines[j] == rest[j]);
            } else {
                assert(found[k] == lines.last());
                assert(lines[lines.len() - 1] == lines.last());
            }
        }
        if forall|j: int| 0 <= j < lines.len() ==> !audio_line(#[trigger] lines[j]) {
            assert forall|j: int| 0 <= j < rest.len() implies !audio_line(#[trigger] rest[j]) by {
                assert(rest[j] == lines[j]);
            }
            assert(!audio_line(lines[lines.len() - 1]));
        }
    }
}

/// What is copied from a new piece of chromium's log: at most 50 lines; each is "chromium: " and a
/// line of the piece that is about audio, trimmed; all of them when there are no more than 50; none
/// when no line is about audio.
pub proof fn lemma_copied_lines(fresh: Seq<char>)
    ensures
        ({
            let lines = text_lines(fresh);
            let copied = copied_lines(fresh);
            &&& copied.len() <= 50
            &&& forall|i: int| 0 <= i < copied.len() ==> exists|j: int|
                0 <= j < lines.len() && audio_line(#[trigger] lines[j]) && #[trigger] copied[i] == "chromium: "@ + trim(
                    lines[j],
                )
            &&& (audio_lines(lines).len() <= 50 ==> copied.len() == audio_lines(lines).len())
            &&& ((forall|j: int| 0 <= j < lines.len() ==> !audio_line(#[trigger] lines[j])) ==> copied.len() == 0)
        }),
{
    let lines = text_lines(fresh);
    let found = audio_lines(lines);
    lemma_audio_lines_elements(lines);
    let kept = if found.len() > 50 {
        found.take(50)
    } else {
        found
    };
    let copied = copied_lines(fresh);
    assert forall|i: int| 0 <= i < copied.len() implies exists|j: int|
        0 <= j < lines.len() && audio_line(#[trigger] lines[j]) && #[trigger] copied[i] == "chromium: "@ + trim(lines[j]) by {
        assert(kept[i] == found[i]);
        assert(lines.contains(found[i]));
        let j = choose|j: int| 0 <= j < lines.len() && lines[j] == found[i];
        assert(audio_line(lines[j]));
    }
}


/// The log file is the Downloads folder followed by "kute-audio-log.txt", with one backslash
/// between them where the folder is a plain path that does not end in a separator.
pub proof fn lemma_log_path_shape(downloads_dir: Seq<char>)
    ensures
        ({
            let path = log_path_text(downloads_dir);
            let n = downloads_dir.len() as int;
            &&& path.subrange(0, n) == downloads_dir
            &&& path.subrange(path.len() - 18, path.len() as int) == "kute-audio-log.txt"@
            &&& (n > 0 && downloads_dir.last() != '\\' && downloads_dir.last() != '/' && !bare_drive(downloads_dir)
                ==> path.len() == n + 19 && path[n] == '\\')
            &&& (n == 0 || downloads_dir.last() == '\\' || downloads_dir.last() == '/' || bare_drive(downloads_dir)
                ==> path.len() == n + 18)
        }),
{
    reveal_strlit("kute-audio-log.txt");
    reveal_strlit("\\");
    reveal_strlit("");
    let path = log_path_text(downloads_dir);
    let n = downloads_dir.len() as int;
    assert(path.subrange(0, n) =~= downloads_dir);
    assert(path.subrange(path.len() - 18, path.len() as int) =~= "kute-audio-log.txt"@);
}

/// A message of the page that is no JSON object is one line of the timeline as it came; an object
/// with a string "section" is a block framed by empty lines under its title; any other object is
/// one timeline line.
pub proof fn lemma_page_log_shapes(json: Seq<char>)
    ensures
        match json_object_entries(json) {
            None => page_log_lines(json) == seq!["page: "@ + json],
            Some(entries) => match section_title(entries) {
                None => page_log_lines(json).len() == 1 && crate::text::has_prefix(page_log_lines(json)[0], "page: "@),
                Some(title) => {
                    let lines = page_log_lines(json);
                    &&& lines.len() >= 3
                    &&& lines[0] == ""@ && lines[1] == "== "@ + title + " =="@ && lines.last() == ""@
                },
            },
        },
{
    reveal_strlit("page: ");
    reveal_strlit("");
    assert(crate::flags::join(seq![json], " "@) == json);
    if let Some(entries) = json_object_entries(json) {
        if section_title(entries) is None {
            let line = page_text(timeline_entries(entries));
            assert(line.subrange(0, 6) =~= "page: "@);
        } else {
            let data = section_data(entries);
            let d = data_lines(data, json_object_entries(data));
            if let Some(es) = json_object_entries(data) {
                assert(d.len() == es.len());
            }
        }
    }
}

} // verus!
