use transcribe_rs::chunking::{append_text, ScriptedSink, SmartChunker, SEARCH_WINDOW, TARGET_CHUNK_SIZE};
use transcribe_rs::vad::{FrameClassifier, VAD_FRAME_SIZE};

fn numbered_sink() -> ScriptedSink<f32> {
    ScriptedSink::new((0..8).map(|k| Ok(format!("t{}", k))).collect())
}

/// Calls every frame speech, so the chunker always hard-cuts at the target.
struct AlwaysSpeech;

impl FrameClassifier<f32> for AlwaysSpeech {
    fn classify(&mut self, _frame: &[f32]) -> Option<bool> {
        Some(true)
    }
}

/// Fails on every frame, which the chunker must treat as "not silent".
struct AlwaysFailing;

impl FrameClassifier<f32> for AlwaysFailing {
    fn classify(&mut self, _frame: &[f32]) -> Option<bool> {
        None
    }
}

/// Calls a frame silent exactly when all its samples are zero, and records
/// the length of every frame it is shown.
struct ZeroDetector {
    frame_lens: Vec<usize>,
}

impl FrameClassifier<f32> for ZeroDetector {
    fn classify(&mut self, frame: &[f32]) -> Option<bool> {
        self.frame_lens.push(frame.len());
        Some(!frame.iter().all(|s| *s == 0.0))
    }
}

fn assert_exact_cover(segments: &[(usize, usize)], total: usize) {
    if total == 0 {
        assert!(segments.is_empty());
        return;
    }
    assert!(!segments.is_empty());
    assert_eq!(segments[0].0, 0);
    assert_eq!(segments[segments.len() - 1].1, total);
    for w in segments.windows(2) {
        assert_eq!(w[0].1, w[1].0);
    }
    for seg in segments {
        assert!(seg.0 < seg.1);
    }
}

#[test]
fn empty_input_invokes_nothing() {
    let audio: Vec<f32> = Vec::new();
    let mut vad = AlwaysSpeech;
    let mut sink = numbered_sink();
    let r = SmartChunker::chunk_audio(&audio, &mut vad, &mut sink);
    assert_eq!(r.unwrap(), "");
    assert!(sink.segments.is_empty());
    assert!(sink.chunks.is_empty());
    assert!(sink.reports.is_empty());
}

#[test]
fn short_input_is_one_segment_with_full_progress() {
    // 10 s at 16 kHz: well under one target chunk.
    let audio = vec![0.25f32; 160000];
    let mut vad = AlwaysSpeech;
    let mut sink = numbered_sink();
    let r = SmartChunker::chunk_audio(&audio, &mut vad, &mut sink);
    assert_eq!(r.unwrap(), "t0");
    assert_eq!(sink.segments, vec![(0, 160000)]);
    assert_eq!(sink.chunks.len(), 1);
    assert_eq!(sink.chunks[0], audio);
    assert_eq!(sink.reports, vec![(160000, 160000)]);
    let (done, total) = sink.reports[0];
    let percent = 100.0 * done as f64 / total as f64;
    assert_eq!(percent, 100.0);
}

#[test]
fn speech_everywhere_hard_cuts_at_target() {
    // 100 s of constant signal: no silence anywhere, so every cut lands
    // exactly at the 30 s target and the tail stays whole.
    let total = 1600000;
    let audio = vec![0.5f32; total];
    let mut vad = AlwaysSpeech;
    let mut sink = numbered_sink();
    let r = SmartChunker::chunk_audio(&audio, &mut vad, &mut sink);
    assert_eq!(r.unwrap(), "t0 t1 t2 t3");
    assert_eq!(
        sink.segments,
        vec![(0, 480000), (480000, 960000), (960000, 1440000), (1440000, 1600000)]
    );
    assert_exact_cover(&sink.segments, total);
    assert_eq!(
        sink.reports,
        vec![
            (480000, 1600000),
            (960000, 1600000),
            (1440000, 1600000),
            (1600000, 1600000)
        ]
    );
    for w in sink.reports.windows(2) {
        assert!(w[0].0 <= w[1].0);
    }
}

#[test]
fn classifier_failure_counts_as_speech() {
    // 40 s; the classifier errors on every frame, so the scan recovers by
    // treating each frame as not silent and the chunker hard-cuts.
    let total = 640000;
    let audio = vec![0.0f32; total];
    let mut vad = AlwaysFailing;
    let mut sink = numbered_sink();
    let r = SmartChunker::chunk_audio(&audio, &mut vad, &mut sink);
    assert_eq!(r.unwrap(), "t0 t1");
    assert_eq!(sink.segments, vec![(0, 480000), (480000, 640000)]);
    assert_exact_cover(&sink.segments, total);
}

#[test]
fn silence_in_window_sets_the_cut() {
    // 60 s of a 440 Hz sine with true silence between seconds 28 and 32.
    // The scan starts at the frame boundary at or below 25 s (sample
    // 399840), meets the first all-zero frame at sample 448320, and cuts at
    // its end: sample 448800, i.e. 28.05 s — after second 23, at or before
    // second 32.
    let total = 60 * 16000;
    let mut audio: Vec<f32> = (0..total)
        .map(|n| (n as f32 * 2.0 * std::f32::consts::PI * 440.0 / 16000.0).sin())
        .collect();
    for s in audio.iter_mut().take(32 * 16000).skip(28 * 16000) {
        *s = 0.0;
    }
    let mut vad = ZeroDetector { frame_lens: Vec::new() };
    let mut sink = numbered_sink();
    let r = SmartChunker::chunk_audio(&audio, &mut vad, &mut sink);
    assert!(r.is_ok());

    let first_end = sink.segments[0].1;
    assert_eq!(first_end, 448800);
    assert!(first_end > 23 * 16000);
    assert!(first_end <= 32 * 16000);
    // The cut stays within the search window around the 30 s target.
    assert!(first_end > TARGET_CHUNK_SIZE - SEARCH_WINDOW);
    assert!(first_end <= TARGET_CHUNK_SIZE + SEARCH_WINDOW);
    // Silence is long gone by the second target, so the rest hard-cuts.
    assert_eq!(sink.segments, vec![(0, 448800), (448800, 928800), (928800, 960000)]);
    assert_exact_cover(&sink.segments, total);
    // Every frame shown to the classifier was exactly one frame long.
    assert!(!vad.frame_lens.is_empty());
    assert!(vad.frame_lens.iter().all(|len| *len == VAD_FRAME_SIZE));
}

#[test]
fn planned_segments_match_dispatched_cuts() {
    let total = 60 * 16000;
    let mut audio: Vec<f32> = (0..total)
        .map(|n| (n as f32 * 2.0 * std::f32::consts::PI * 440.0 / 16000.0).sin())
        .collect();
    for s in audio.iter_mut().take(32 * 16000).skip(28 * 16000) {
        *s = 0.0;
    }
    let mut vad = ZeroDetector { frame_lens: Vec::new() };
    let plan = SmartChunker::plan_segments(&audio, &mut vad);
    assert_eq!(plan, vec![(0, 448800), (448800, 928800), (928800, 960000)]);
    assert_exact_cover(&plan, total);
    assert!(SmartChunker::plan_segments(&Vec::<f32>::new(), &mut vad).is_empty());
}

#[test]
fn append_text_separates_with_one_space() {
    let mut acc = String::new();
    append_text(&mut acc, "hello");
    assert_eq!(acc, "hello");
    append_text(&mut acc, "world");
    assert_eq!(acc, "hello world");
    append_text(&mut acc, "");
    assert_eq!(acc, "hello world ");
}

#[test]
fn chunks_are_the_named_slices() {
    let total = 640000;
    let audio: Vec<f32> = (0..total).map(|n| (n % 97) as f32 / 97.0).collect();
    let mut vad = AlwaysSpeech;
    let mut sink = numbered_sink();
    let r = SmartChunker::chunk_audio(&audio, &mut vad, &mut sink);
    assert!(r.is_ok());
    assert_eq!(sink.segments.len(), sink.chunks.len());
    for (seg, chunk) in sink.segments.iter().zip(sink.chunks.iter()) {
        assert_eq!(chunk.as_slice(), &audio[seg.0..seg.1]);
    }
}

#[test]
fn failing_callback_aborts_before_progress() {
    let audio = vec![0.25f32; 160000];
    let mut vad = AlwaysSpeech;
    let mut sink = ScriptedSink::new(vec![Err("processing failed at segment 0".to_string())]);
    let r = SmartChunker::chunk_audio(&audio, &mut vad, &mut sink);
    assert_eq!(r.unwrap_err(), "processing failed at segment 0");
    assert_eq!(sink.segments, vec![(0, 160000)]);
    assert!(sink.reports.is_empty());
}

#[test]
fn failure_on_later_segment_keeps_earlier_progress() {
    let total = 1000000;
    let audio = vec![0.5f32; total];
    let mut vad = AlwaysSpeech;
    let mut sink = ScriptedSink::new(vec![Ok("one".to_string()), Err("processing failed at segment 1".to_string())]);
    let r = SmartChunker::chunk_audio(&audio, &mut vad, &mut sink);
    assert_eq!(r.unwrap_err(), "processing failed at segment 1");
    assert_eq!(sink.segments, vec![(0, 480000), (480000, 960000)]);
    assert_eq!(sink.reports, vec![(480000, 1000000)]);
}

#[test]
fn one_sample_input_is_one_segment() {
    let audio = vec![0.5f32];
    let mut vad = AlwaysSpeech;
    let mut sink = ScriptedSink::new(vec![Ok("dot".to_string())]);
    let r = SmartChunker::chunk_audio(&audio, &mut vad, &mut sink);
    assert_eq!(r.unwrap(), "dot");
    assert_eq!(sink.segments, vec![(0, 1)]);
    assert_eq!(sink.reports, vec![(1, 1)]);
}

#[test]
fn segments_past_the_script_succeed_empty() {
    // Two segments but a one-entry script: the second succeeds with "".
    let total = 500000;
    let audio = vec![0.5f32; total];
    let mut vad = AlwaysSpeech;
    let mut sink = ScriptedSink::new(vec![Ok("head".to_string())]);
    let r = SmartChunker::chunk_audio(&audio, &mut vad, &mut sink);
    assert_eq!(r.unwrap(), "head ");
    assert_eq!(sink.segments, vec![(0, 480000), (480000, 500000)]);
    assert_eq!(sink.texts, vec!["head".to_string(), String::new()]);
}

#[test]
fn empty_texts_join_like_the_running_string() {
    // Four segments returning "", "x", "", "y": the separator is skipped
    // only while nothing has accumulated, so the join is "x  y".
    let total = 3 * 480000 + 100;
    let audio = vec![0.5f32; total];
    let mut vad = AlwaysSpeech;
    let mut sink = ScriptedSink::new(vec![
        Ok(String::new()),
        Ok("x".to_string()),
        Ok(String::new()),
        Ok("y".to_string()),
    ]);
    let r = SmartChunker::chunk_audio(&audio, &mut vad, &mut sink);
    assert_eq!(r.unwrap(), "x  y");
    assert_exact_cover(&sink.segments, total);
}
