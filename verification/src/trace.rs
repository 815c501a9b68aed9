//! The audio trace of the audio test build: when chromium's ring of audio events is saved, which
//! part of a `Tracing.dataCollected` event goes into the file, and the file's JSON envelope.
use crate::text::{decimal, push_decimal, push_zero_padded, zero_padded};
use vstd::prelude::*;

verus! {

broadcast use vstd::string::group_string_axioms;

/// The phase of the trace recorder.
#[derive(Clone, Copy, PartialEq, Eq, Structural, Debug)]
pub enum Phase {
    Off,
    Recording,
    Capturing,
}

/// How many dropouts the page reports that capture on their own: a cut of 20 s reports one a
/// second, two captures are plenty.
pub const MAX_AUTOMATIC: u32 = 2;

/// The trace recorder: its phase and the number of dropouts the page reported.
#[derive(Clone, Copy, PartialEq, Eq, Structural, Debug)]
pub struct TraceRecorder {
    pub phase: Phase,
    pub automatic: u32,
}

impl TraceRecorder {
    /// Not recording, no dropout seen.
    pub fn new() -> (recorder: TraceRecorder)
        ensures
            recorder.phase == Phase::Off,
            recorder.automatic == 0,
    {
        TraceRecorder { phase: Phase::Off, automatic: 0 }
    }

    /// Tracing was (re)started: recording.
    pub fn start(&mut self)
        ensures
            final(self).phase == Phase::Recording,
            final(self).automatic == old(self).automatic,
    {
        self.phase = Phase::Recording;
    }

    /// F9 or a dropout asks for a capture: it is taken only while recording, and the recorder then
    /// captures until tracing starts again. True when a capture is taken.
    pub fn capture(&mut self) -> (taken: bool)
        ensures
            (*final(self), taken) == request_step(*old(self), true),
            taken == (old(self).phase == Phase::Recording),
            final(self).phase == if taken {
                Phase::Capturing
            } else {
                old(self).phase
            },
            final(self).automatic == old(self).automatic,
    {
        if self.phase != Phase::Recording {
            return false;
        }
        self.phase = Phase::Capturing;
        true
    }

    /// A dropout the page reported: the first `MAX_AUTOMATIC` ones (the count wraps like the atomic
    /// counter it stands for) ask for a capture. True when a capture is taken.
    pub fn dropout(&mut self) -> (taken: bool)
        ensures
            (*final(self), taken) == request_step(*old(self), false),
            final(self).automatic == (if old(self).automatic == u32::MAX {
                0
            } else {
                old(self).automatic + 1
            }),
            taken == (old(self).automatic < MAX_AUTOMATIC && old(self).phase == Phase::Recording),
            final(self).phase == if taken {
                Phase::Capturing
            } else {
                old(self).phase
            },
    {
        let before = self.automatic;
        self.automatic = if before == u32::MAX {
            0
        } else {
            before + 1
        };
        if before < MAX_AUTOMATIC {
            self.capture()
        } else {
            false
        }
    }
}

/// What a request for a capture does to the recorder, and whether it takes one: F9 (`key`) captures
/// while recording; a dropout the page reported does so only while fewer than `MAX_AUTOMATIC`
/// dropouts came before it.
pub open spec fn request_step(recorder: TraceRecorder, key: bool) -> (TraceRecorder, bool) {
    let automatic = if key {
        recorder.automatic
    } else if recorder.automatic == u32::MAX {
        0
    } else {
        (recorder.automatic + 1) as u32
    };
    let taken = recorder.phase == Phase::Recording && (key || recorder.automatic < MAX_AUTOMATIC);
    (
        TraceRecorder { phase: if taken {
            Phase::Capturing
        } else {
            recorder.phase
        }, automatic },
        taken,
    )
}

/// How many of the requests, one after the other, take a capture (`true` is F9, `false` a dropout).
pub open spec fn captures_taken(recorder: TraceRecorder, requests: Seq<bool>) -> nat
    decreases requests.len(),
{
    if requests.len() == 0 {
        0
    } else {
        let (next, taken) = request_step(recorder, requests[0]);
        (if taken {
            1nat
        } else {
            0nat
        }) + captures_taken(next, requests.drop_first())
    }
}

/// A recorder that is not recording takes no capture, whatever is asked of it.
proof fn lemma_no_capture_unless_recording(recorder: TraceRecorder, requests: Seq<bool>)
    requires
        recorder.phase != Phase::Recording,
    ensures
        captures_taken(recorder, requests) == 0,
    decreases requests.len(),
{
    if requests.len() > 0 {
        lemma_no_capture_unless_recording(request_step(recorder, requests[0]).0, requests.drop_first());
    }
}

/// One trace per start: between two starts of tracing, the requests (F9 and dropouts, in any
/// number and order) take at most one capture.
pub proof fn lemma_one_capture_per_start(recorder: TraceRecorder, requests: Seq<bool>)
    ensures
        captures_taken(recorder, requests) <= 1,
    decreases requests.len(),
{
    if requests.len() > 0 {
        let (next, taken) = request_step(recorder, requests[0]);
        if taken {
            lemma_no_capture_unless_recording(next, requests.drop_first());
        } else {
            lemma_one_capture_per_start(next, requests.drop_first());
        }
    }
}

/// The first index of `b` in `s`.
pub open spec fn first_byte(s: Seq<u8>, b: u8) -> Option<int>
    decreases s.len(),
{
    if s.len() == 0 {
        None
    } else {
        match first_byte(s.drop_last(), b) {
            Some(i) => Some(i),
            None => if s.last() == b {
                Some(s.len() - 1)
            } else {
                None
            },
        }
    }
}

/// The last index of `b` in `s`.
pub open spec fn last_byte(s: Seq<u8>, b: u8) -> Option<int>
    decreases s.len(),
{
    if s.len() == 0 {
        None
    } else if s.last() == b {
        Some(s.len() - 1)
    } else {
        last_byte(s.drop_last(), b)
    }
}

/// The events of a `Tracing.dataCollected` event ({"value":[{event},{event},...]}): what stands
/// between the first '[' and the last ']', when that is not empty. It goes into the file unparsed.
pub open spec fn events_of(params: Seq<u8>) -> Option<Seq<u8>> {
    match (first_byte(params, 0x5b), last_byte(params, 0x5d)) {
        (Some(start), Some(end)) => if end > start + 1 {
            Some(params.subrange(start + 1, end))
        } else {
            None
        },
        _ => None,
    }
}

proof fn lemma_first_byte(s: Seq<u8>, b: u8, i: int)
    requires
        0 <= i <= s.len(),
        forall|k: int| 0 <= k < i ==> s[k] != b,
    ensures
        i < s.len() && s[i] == b ==> first_byte(s.take(i + 1), b) == Some(i),
        first_byte(s.take(i), b) is None,
    decreases i,
{
    if i > 0 {
        lemma_first_byte(s, b, i - 1);
        assert(s.take(i).drop_last() =~= s.take(i - 1));
    } else {
        assert(s.take(0).len() == 0);
    }
    if i < s.len() {
        assert(s.take(i + 1).drop_last() =~= s.take(i));
    }
}

proof fn lemma_last_byte(s: Seq<u8>, b: u8, j: int)
    requires
        0 <= j <= s.len(),
        forall|k: int| j <= k < s.len() ==> s[k] != b,
    ensures
        last_byte(s, b) == last_byte(s.take(j), b),
    decreases s.len() - j,
{
    if j < s.len() {
        lemma_last_byte(s, b, j + 1);
        assert(s.take(j + 1).drop_last() =~= s.take(j));
    } else {
        assert(s.take(j) =~= s);
    }
}

/// The events of a `Tracing.dataCollected` event (see `events_of`).
pub fn trace_events(params: &[u8]) -> (events: Option<Vec<u8>>)
    ensures
        match events {
            Some(e) => events_of(params@) == Some(e@),
            None => events_of(params@) is None,
        },
{
    let n = params.len();
    let mut start: usize = 0;
    while start < n && params[start] != 0x5b
        invariant
            n == params@.len(),
            start <= n,
            forall|k: int| 0 <= k < start ==> params@[k] != 0x5b,
        decreases n - start,
    {
        start = start + 1;
    }
    proof {
        lemma_first_byte(params@, 0x5b, start as int);
        if start < n {
            assert(params@.take(start + 1) =~= params@.take(start + 1));
            lemma_first_byte_extends(params@, 0x5b, start as int + 1);
        } else {
            assert(params@.take(n as int) =~= params@);
        }
    }
    if start == n {
        return None;
    }
    let mut end: usize = n;
    while end > 0 && params[end - 1] != 0x5d
        invariant
            n == params@.len(),
            end <= n,
            forall|k: int| end <= k < n ==> params@[k] != 0x5d,
        decreases end,
    {
        end = end - 1;
    }
    proof {
        lemma_last_byte(params@, 0x5d, end as int);
        if end > 0 {
            assert(params@.take(end as int).last() == params@[end - 1]);
        }
    }
    if end == 0 {
        return None;
    }
    let close = end - 1;
    if close > start + 1 {
        let mut events: Vec<u8> = Vec::new();
        let mut k = start + 1;
        while k < close
            invariant
                n == params@.len(),
                start + 1 <= k <= close < n,
                events@ == params@.subrange(start + 1, k as int),
            decreases close - k,
        {
            events.push(params[k]);
            k = k + 1;
            assert(events@ =~= params@.subrange(start + 1, k as int));
        }
        Some(events)
    } else {
        None
    }
}

/// A first occurrence found in a prefix stays the first occurrence in the whole.
proof fn lemma_first_byte_extends(s: Seq<u8>, b: u8, i: int)
    requires
        0 <= i <= s.len(),
        first_byte(s.take(i), b) is Some,
    ensures
        first_byte(s, b) == first_byte(s.take(i), b),
    decreases s.len() - i,
{
    if i < s.len() {
        assert(s.take(i + 1).drop_last() =~= s.take(i));
        lemma_first_byte_extends(s, b, i + 1);
    } else {
        assert(s.take(i) =~= s);
    }
}

/// The bytes that open a trace file.
pub open spec fn trace_header() -> Seq<u8> {
    "{\"traceEvents\":[\n"@.map_values(|c: char| c as u8)
}

/// The bytes that close a trace file.
pub open spec fn trace_footer() -> Seq<u8> {
    seq![0x0au8, 0x5du8, 0x7du8, 0x0au8]
}

/// The bytes between two chunks of events.
pub open spec fn chunk_separator() -> Seq<u8> {
    seq![0x2cu8, 0x0au8]
}

/// The bytes written for one chunk of events: the header before the first chunk of a file, a
/// separator before every later one.
pub open spec fn chunk_text(first: bool, events: Seq<u8>) -> Seq<u8> {
    if first {
        trace_header() + events
    } else {
        chunk_separator() + events
    }
}

fn push_bytes(out: &mut Vec<u8>, bytes: &Vec<u8>)
    ensures
        final(out)@ == old(out)@ + bytes@,
{
    let mut i: usize = 0;
    while i < bytes.len()
        invariant
            i <= bytes.len(),
            out@ == old(out)@ + bytes@.subrange(0, i as int),
        decreases bytes.len() - i,
    {
        out.push(bytes[i]);
        i = i + 1;
        assert(out@ =~= old(out)@ + bytes@.subrange(0, i as int));
    }
    assert(bytes@.subrange(0, bytes@.len() as int) =~= bytes@);
}

/// The bytes to write for a chunk of events (see `chunk_text`); `first` when the file was just created.
pub fn chunk_bytes(first: bool, events: &Vec<u8>) -> (bytes: Vec<u8>)
    ensures
        bytes@ == chunk_text(first, events@),
{
    let mut bytes: Vec<u8> = Vec::new();
    if first {
        let header: Vec<u8> = vec![0x7b, 0x22, 0x74, 0x72, 0x61, 0x63, 0x65, 0x45, 0x76, 0x65, 0x6e, 0x74, 0x73, 0x22, 0x3a, 0x5b, 0x0a];
        proof {
            reveal_strlit("{\"traceEvents\":[\n");
            assert(header@ =~= trace_header());
        }
        push_bytes(&mut bytes, &header);
    } else {
        bytes.push(0x2c);
        bytes.push(0x0a);
        assert(bytes@ =~= chunk_separator());
    }
    push_bytes(&mut bytes, events);
    assert(Seq::<u8>::empty() + chunk_text(first, events@) =~= chunk_text(first, events@));
    bytes
}

/// The bytes that close a trace file.
pub fn footer_bytes() -> (bytes: Vec<u8>)
    ensures
        bytes@ == trace_footer(),
{
    let bytes: Vec<u8> = vec![0x0a, 0x5d, 0x7d, 0x0a];
    assert(bytes@ =~= trace_footer());
    bytes
}

/// The chunks joined with the separator between them.
pub open spec fn joined_chunks(chunks: Seq<Seq<u8>>) -> Seq<u8>
    decreases chunks.len(),
{
    if chunks.len() == 0 {
        Seq::empty()
    } else if chunks.len() == 1 {
        chunks[0]
    } else {
        joined_chunks(chunks.drop_last()) + chunk_separator() + chunks.last()
    }
}

/// What a trace file holds once the chunks are written one by one: the first with the header, each
/// later one after a separator.
pub open spec fn written_chunks(chunks: Seq<Seq<u8>>) -> Seq<u8>
    decreases chunks.len(),
{
    if chunks.len() == 0 {
        Seq::empty()
    } else {
        written_chunks(chunks.drop_last()) + chunk_text(chunks.len() == 1, chunks.last())
    }
}

/// A finished trace file is one JSON document: the chunks written one after the other, then the
/// footer, are the header, the events separated by commas, and the footer.
pub proof fn lemma_trace_file_envelope(chunks: Seq<Seq<u8>>)
    requires
        chunks.len() > 0,
    ensures
        written_chunks(chunks) + trace_footer() == trace_header() + joined_chunks(chunks) + trace_footer(),
    decreases chunks.len(),
{
    if chunks.len() == 1 {
        assert(written_chunks(chunks.drop_last()) =~= Seq::<u8>::empty());
        assert(written_chunks(chunks) =~= trace_header() + chunks[0]);
    } else {
        lemma_trace_file_envelope(chunks.drop_last());
        let before = chunks.drop_last();
        assert(written_chunks(before) + trace_footer() == trace_header() + joined_chunks(before) + trace_footer());
        assert(written_chunks(before) =~= trace_header() + joined_chunks(before)) by {
            let a = written_chunks(before);
            let b = trace_header() + joined_chunks(before);
            assert(a.len() == b.len());
            assert forall|k: int| 0 <= k < a.len() implies a[k] == b[k] by {
                assert((a + trace_footer())[k] == (b + trace_footer())[k]);
            }
        }
        assert(written_chunks(chunks) + trace_footer() =~= trace_header() + joined_chunks(chunks) + trace_footer());
    }
}

/// The name of a capture taken at hh:mm:ss.
pub open spec fn capture_name_text(hour: u16, minute: u16, second: u16) -> Seq<char> {
    "kute-audio-trace-"@ + zero_padded(hour as nat, 2) + "-"@ + zero_padded(minute as nat, 2) + "-"@
        + zero_padded(second as nat, 2) + ".json"@
}

/// The name of a capture taken at hh:mm:ss (see `capture_name_text`).
pub fn capture_name(hour: u16, minute: u16, second: u16) -> (name: String)
    ensures
        name@ == capture_name_text(hour, minute, second),
{
    let mut name = "kute-audio-trace-".to_owned();
    push_zero_padded(&mut name, hour as u64, 2);
    name.append("-");
    push_zero_padded(&mut name, minute as u64, 2);
    name.append("-");
    push_zero_padded(&mut name, second as u64, 2);
    name.append(".json");
    name
}

/// The log line of a capture: its name, why it was taken, and the seconds of the cut recorded after it.
pub fn capture_line(name: &str, reason: &str, after_key_ms: u32) -> (line: String)
    ensures
        line@ == "audio trace: saving "@ + name@ + " ("@ + reason@ + "), "@ + decimal((after_key_ms / 1000) as nat)
            + " s of the cut follow"@,
{
    let mut line = "audio trace: saving ".to_owned();
    line.append(name);
    line.append(" (");
    line.append(reason);
    line.append("), ");
    push_decimal(&mut line, (after_key_ms / 1000) as u64);
    line.append(" s of the cut follow");
    line
}

/// The log line of a finished capture: whether anything was written, and where.
pub fn finish_line(written: bool, path: &str) -> (line: String)
    ensures
        line@ == "audio trace "@ + (if written {
            "written"@
        } else {
            "empty"@
        }) + ": "@ + path@,
{
    let mut line = "audio trace ".to_owned();
    if written {
        line.append("written");
    } else {
        line.append("empty");
    }
    line.append(": ");
    line.append(path);
    line
}


/// `first_byte` finds the first `b`.
proof fn lemma_first_byte_is_first(s: Seq<u8>, b: u8, i: int)
    requires
        0 <= i < s.len(),
        s[i] == b,
        forall|k: int| 0 <= k < i ==> s[k] != b,
    ensures
        first_byte(s, b) == Some(i),
    decreases s.len(),
{
    if i < s.len() - 1 {
        lemma_first_byte_is_first(s.drop_last(), b, i);
    } else {
        lemma_first_byte_none(s.drop_last(), b);
    }
}

/// Without a `b`, `first_byte` finds none.
proof fn lemma_first_byte_none(s: Seq<u8>, b: u8)
    requires
        forall|k: int| 0 <= k < s.len() ==> s[k] != b,
    ensures
        first_byte(s, b) is None,
    decreases s.len(),
{
    if s.len() > 0 {
        lemma_first_byte_none(s.drop_last(), b);
    }
}

/// `last_byte` finds the last `b`.
proof fn lemma_last_byte_is_last(s: Seq<u8>, b: u8, i: int)
    requires
        0 <= i < s.len(),
        s[i] == b,
        forall|k: int| i < k < s.len() ==> s[k] != b,
    ensures
        last_byte(s, b) == Some(i),
    decreases s.len(),
{
    if i < s.len() - 1 {
        lemma_last_byte_is_last(s.drop_last(), b, i);
    }
}

/// The events of a `Tracing.dataCollected` event are exactly what stands between its first '['
/// and its last ']', when that is not empty; without a '[' there are none.
pub proof fn lemma_trace_events(params: Seq<u8>, start: int, end: int)
    ensures
        (forall|k: int| 0 <= k < params.len() ==> params[k] != 0x5b) ==> events_of(params) is None,
        (0 <= start < end < params.len() && params[start] == 0x5b && params[end] == 0x5d && (forall|k: int|
            0 <= k < start ==> params[k] != 0x5b) && (forall|k: int| end < k < params.len() ==> params[k] != 0x5d))
            ==> events_of(params) == if end > start + 1 {
            Some(params.subrange(start + 1, end))
        } else {
            None
        },
{
    if forall|k: int| 0 <= k < params.len() ==> params[k] != 0x5b {
        lemma_first_byte_none(params, 0x5b);
    }
    if 0 <= start < end < params.len() && params[start] == 0x5b && params[end] == 0x5d && (forall|k: int|
        0 <= k < start ==> params[k] != 0x5b) && (forall|k: int| end < k < params.len() ==> params[k] != 0x5d) {
        lemma_first_byte_is_first(params, 0x5b, start);
        lemma_last_byte_is_last(params, 0x5d, end);
    }
}


/// A capture is named "kute-audio-trace-hh-mm-ss.json": thirty characters whose fields read back as
/// the hour, minute and second it was taken at.
pub proof fn lemma_capture_name_fields(hour: u16, minute: u16, second: u16)
    requires
        hour < 100,
        minute < 100,
        second < 100,
    ensures
        ({
            let name = capture_name_text(hour, minute, second);
            &&& name.len() == 30
            &&& name.subrange(0, 17) == "kute-audio-trace-"@
            &&& name[19] == '-' && name[22] == '-'
            &&& name.subrange(25, 30) == ".json"@
            &&& crate::text::digits_value(name.subrange(17, 19)) == hour
            &&& crate::text::digits_value(name.subrange(20, 22)) == minute
            &&& crate::text::digits_value(name.subrange(23, 25)) == second
        }),
{
    reveal_strlit("kute-audio-trace-");
    reveal_strlit("-");
    reveal_strlit(".json");
    crate::text::lemma_zero_padded(hour as nat, 2);
    crate::text::lemma_zero_padded(minute as nat, 2);
    crate::text::lemma_zero_padded(second as nat, 2);
    let name = capture_name_text(hour, minute, second);
    assert(name.subrange(0, 17) =~= "kute-audio-trace-"@);
    assert(name.subrange(25, 30) =~= ".json"@);
    assert(name.subrange(17, 19) =~= zero_padded(hour as nat, 2));
    assert(name.subrange(20, 22) =~= zero_padded(minute as nat, 2));
    assert(name.subrange(23, 25) =~= zero_padded(second as nat, 2));
}

} // verus!
