use kute::audio::{
    default_device_change, device_line, form_factor, format_stamp, header_line, is_audio_line, log_line, log_path, mark, page_lines, section_lines, timeline_line, page_line,
    service_line, tail_step,
};

#[test]
fn form_factors() {
    assert_eq!(form_factor(0), " [speakers]");
    assert_eq!(form_factor(1), " [line out]");
    assert_eq!(form_factor(2), " [headphones]");
    assert_eq!(form_factor(3), " [headset]");
    assert_eq!(form_factor(4), " [handset]");
    assert_eq!(form_factor(8), " [spdif]");
    assert_eq!(form_factor(9), " [hdmi]");
    assert_eq!(form_factor(5), "");
    assert_eq!(form_factor(u32::MAX), "");
}

#[test]
fn audio_lines() {
    assert!(is_audio_line("SyncReader::Read timed out, audio glitch count=3"));
    assert!(is_audio_line("AudioOutputDevice"));
    assert!(is_audio_line("media::AudioRendererImpl underrun"));
    assert!(is_audio_line("Media session"));
    assert!(!is_audio_line("GPU process launched"));
    assert!(!is_audio_line(""));
}

#[test]
fn marks_count_from_one() {
    assert_eq!(mark(0), vec!["".to_string(), "########## MARK 1: the tester heard a cut here ##########".to_string(), "".to_string()]);
    assert_eq!(mark(41)[1], "########## MARK 42: the tester heard a cut here ##########");
}

#[test]
fn stamps_and_lines() {
    assert_eq!(format_stamp(9, 5, 3, 7), "09:05:03.007");
    assert_eq!(format_stamp(23, 59, 59, 999), "23:59:59.999");
    assert_eq!(log_line("09:05:03.007", "hello"), "[09:05:03.007] hello");
    assert_eq!(header_line("1.2.3", "45", 2025, 3, 7), "kute audio test build 1.2.3, bundle 45, started 2025-03-07");
    assert_eq!(service_line(true, 1234), "audio service started, pid 1234");
    assert_eq!(service_line(false, 0), "audio service alive, pid 0");
}

#[test]
fn device_lines() {
    assert_eq!(device_line("Speakers", "Speakers", ", 48000 Hz"), "Speakers (default), 48000 Hz");
    assert_eq!(device_line("Headset", "Speakers", ""), "Headset");
    assert_eq!(device_line("", "", ""), "");
}

#[test]
fn default_device_changes() {
    assert_eq!(default_device_change("", "Speakers"), ("Speakers".to_string(), None));
    assert_eq!(default_device_change("Speakers", "Speakers"), ("Speakers".to_string(), None));
    assert_eq!(
        default_device_change("Speakers", "Headset"),
        ("Headset".to_string(), Some("default output device changed: Speakers -> Headset".to_string()))
    );
}

#[test]
fn page_line_joins_entries() {
    assert_eq!(page_line(&vec!["a=1".to_string(), "b=\"x\"".to_string()]), "page: a=1 b=\"x\"");
    assert_eq!(page_line(&vec![]), "page: ");
}

#[test]
fn tailing_chromium_log() {
    let text = "[1] GPU ready\n[2] audio glitch  \r\n[3] Media stalled\n";
    let (offset, lines) = tail_step(text, 0);
    assert_eq!(offset, text.len());
    assert_eq!(lines, vec!["chromium: [2] audio glitch".to_string(), "chromium: [3] Media stalled".to_string()]);
    let (offset, lines) = tail_step(text, offset);
    assert_eq!(offset, text.len());
    assert!(lines.is_empty());
    // the log shrank: read from the start again
    let (offset, lines) = tail_step("underrun", 1000);
    assert_eq!(offset, 8);
    assert_eq!(lines, vec!["chromium: underrun".to_string()]);
}

#[test]
fn tailing_keeps_fifty_lines() {
    let text = "audio\n".repeat(60);
    let (_, lines) = tail_step(&text, 0);
    assert_eq!(lines.len(), 50);
}

#[test]
fn log_file_in_downloads() {
    assert_eq!(log_path("C:\\Users\\me\\Downloads"), "C:\\Users\\me\\Downloads\\kute-audio-log.txt");
    assert_eq!(log_path("C:\\Users\\me\\Downloads\\"), "C:\\Users\\me\\Downloads\\kute-audio-log.txt");
    assert_eq!(log_path("D:/Downloads/"), "D:/Downloads/kute-audio-log.txt");
    assert_eq!(log_path(""), "kute-audio-log.txt");
    assert_eq!(log_path("C:"), "C:kute-audio-log.txt");
    assert_eq!(log_path("d:"), "d:kute-audio-log.txt");
    assert_eq!(log_path("1:"), "1:\\kute-audio-log.txt");
}

fn pairs(entries: &[(&str, &str)]) -> Vec<(String, String)> {
    entries.iter().map(|(k, v)| (k.to_string(), v.to_string())).collect()
}

#[test]
fn page_blocks_and_timeline() {
    assert_eq!(
        page_lines("{\"section\":\"krunker settings\",\"data\":{\"volume\":0.5,\"music\":false}}"),
        vec!["", "== krunker settings ==", "    music = false", "    volume = 0.5", ""]
    );
    assert_eq!(page_lines("{\"section\":\"setup\"}"), vec!["", "== setup ==", "    null", ""]);
    assert_eq!(page_lines("{\"section\":\"setup\",\"data\":[1, 2]}"), vec!["", "== setup ==", "    [1,2]", ""]);
    assert_eq!(page_lines("{\"event\":\"suspend\",\"state\":\"running\"}"), vec!["page: event=\"suspend\" state=\"running\""]);
    assert_eq!(page_lines("{\"section\":3,\"t\":1}"), vec!["page: section=3 t=1"]);
    assert_eq!(page_lines("{}"), vec!["page: "]);
    assert_eq!(page_lines("not json"), vec!["page: not json"]);
    assert_eq!(page_lines("[1,2]"), vec!["page: [1,2]"]);
}

#[test]
fn section_and_timeline_pieces() {
    assert_eq!(
        section_lines("t", "{}", Some(pairs(&[("a", "1"), ("b", "\"x\"")]))),
        vec!["", "== t ==", "    a = 1", "    b = \"x\"", ""]
    );
    assert_eq!(section_lines("t", "7", None), vec!["", "== t ==", "    7", ""]);
    assert_eq!(timeline_line(&pairs(&[("a", "1"), ("b", "2")])), "page: a=1 b=2");
    assert_eq!(timeline_line(&pairs(&[])), "page: ");
}
