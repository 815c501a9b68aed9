use kute::trace::{
    capture_line, capture_name, chunk_bytes, finish_line, footer_bytes, trace_events, Phase, TraceRecorder,
};

#[test]
fn recorder_captures_once_per_recording() {
    let mut recorder = TraceRecorder::new();
    assert!(!recorder.capture());
    recorder.start();
    assert!(recorder.capture());
    assert_eq!(recorder.phase, Phase::Capturing);
    assert!(!recorder.capture());
    recorder.start();
    assert!(recorder.capture());
}

#[test]
fn only_the_first_dropouts_capture() {
    let mut recorder = TraceRecorder::new();
    recorder.start();
    assert!(recorder.dropout());
    recorder.start();
    assert!(recorder.dropout());
    recorder.start();
    assert!(!recorder.dropout());
    assert_eq!(recorder.automatic, 3);
    assert_eq!(recorder.phase, Phase::Recording);
}

#[test]
fn events_between_the_brackets() {
    assert_eq!(trace_events(b"{\"value\":[{\"a\":1},{\"b\":[2]}]}"), Some(b"{\"a\":1},{\"b\":[2]}".to_vec()));
    assert_eq!(trace_events(b"{\"value\":[]}"), None);
    assert_eq!(trace_events(b"{\"value\":[x]}"), Some(b"x".to_vec()));
    assert_eq!(trace_events(b"no brackets"), None);
    assert_eq!(trace_events(b"] then ["), None);
}

#[test]
fn trace_file_is_one_json_document() {
    let mut file = Vec::new();
    file.extend(chunk_bytes(true, &b"{\"a\":1}".to_vec()));
    file.extend(chunk_bytes(false, &b"{\"b\":2}".to_vec()));
    file.extend(footer_bytes());
    let text = String::from_utf8(file).unwrap();
    assert_eq!(text, "{\"traceEvents\":[\n{\"a\":1},\n{\"b\":2}\n]}\n");
    let value: serde_json::Value = serde_json::from_str(&text).unwrap();
    assert_eq!(value["traceEvents"].as_array().unwrap().len(), 2);
}

#[test]
fn capture_texts() {
    assert_eq!(capture_name(7, 5, 0), "kute-audio-trace-07-05-00.json");
    assert_eq!(
        capture_line("kute-audio-trace-07-05-00.json", "F9", 4000),
        "audio trace: saving kute-audio-trace-07-05-00.json (F9), 4 s of the cut follow"
    );
    assert_eq!(finish_line(true, "C:\\t.json"), "audio trace written: C:\\t.json");
    assert_eq!(finish_line(false, "t.json"), "audio trace empty: t.json");
}

#[test]
fn one_capture_between_starts() {
    let mut recorder = TraceRecorder::new();
    recorder.start();
    let mut taken = 0;
    for key in [false, true, true, false, true, false, false] {
        let took = if key { recorder.capture() } else { recorder.dropout() };
        if took {
            taken += 1;
        }
    }
    assert_eq!(taken, 1);
    assert_eq!(recorder.phase, Phase::Capturing);
}
