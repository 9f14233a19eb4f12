//! The silence-seeking chunker: partitions a long decoded signal into
//! target-duration segments cut at detected pauses, hands each segment to a
//! caller-supplied processing step, joins the returned texts, and reports
//! progress after every segment.

use vstd::prelude::*;

use crate::vad::FrameClassifier;
use crate::vad::VAD_FRAME_SIZE;
use vstd::slice::slice_subrange;
use vstd::slice::slice_to_vec;

verus! {

/// Samples in one target-duration segment: 30 s at the canonical 16 kHz rate.
pub const TARGET_CHUNK_SIZE: usize = 480000;

/// Radius, in samples, of the window searched for silence around the target
/// cut point: 5 s at the canonical rate.
pub const SEARCH_WINDOW: usize = 80000;

/// Consumer of the chunker's output: one `process` call per segment, in
/// order, and one `report_progress` call after each processed segment.
///
/// The four spec functions are the implementor's log of the calls received
/// so far; each method appends the call it stands for and leaves the other
/// logs unchanged. The chunker's contract is stated over these logs and
/// proved against this interface alone; `ScriptedSink` is the library's own
/// implementation of it. `process` may fail; its error aborts the chunking
/// call that made it.
pub trait ChunkSink<S> {
    /// The `(start, end)` pairs of the segments received, in order.
    spec fn segments(&self) -> Seq<(int, int)>;

    /// The sample slices received, in order.
    spec fn chunks(&self) -> Seq<Seq<S>>;

    /// The texts returned by the successful `process` calls, in order.
    spec fn texts(&self) -> Seq<Seq<char>>;

    /// The `(done, total)` progress reports received, in order.
    spec fn reports(&self) -> Seq<(int, int)>;

    /// Process one segment: samples `chunk`, cut from `[start, end)` of the
    /// signal being chunked. Returns the segment's text, or the failure that
    /// aborts the whole chunking call.
    fn process(&mut self, start: usize, end: usize, chunk: Vec<S>) -> (r: Result<String, String>)
        ensures
            final(self).segments() == old(self).segments().push((start as int, end as int)),
            final(self).chunks() == old(self).chunks().push(chunk@),
            final(self).reports() == old(self).reports(),
            (match r {
                Ok(text) => final(self).texts() == old(self).texts().push(text@),
                Err(_) => final(self).texts() == old(self).texts(),
            }),
    ;

    /// Record that `done` of `total` samples have been chunked and processed.
    fn report_progress(&mut self, done: usize, total: usize)
        ensures
            final(self).reports() == old(self).reports().push((done as int, total as int)),
            final(self).segments() == old(self).segments(),
            final(self).chunks() == old(self).chunks(),
            final(self).texts() == old(self).texts(),
    ;
}

/// Structural partition shape: segments are non-empty, in bounds, start at
/// zero, and each begins where the previous one ended.
pub open spec fn seg_chain(segs: Seq<(int, int)>, total: int) -> bool {
    &&& (forall|i: int| 0 <= i < segs.len() ==> 0 <= (#[trigger] segs[i]).0 < segs[i].1 <= total)
    &&& (segs.len() > 0 ==> segs[0].0 == 0)
    &&& (forall|i: int| 0 < i < segs.len() ==> (#[trigger] segs[i]).0 == segs[i - 1].1)
}

/// Sizes the search rules force on each segment: none reaches one frame past
/// the search window, and a segment that stops short of the end of the
/// signal was cut only because more than one target chunk remained, lies
/// within the search window of the target, and ends on a frame boundary
/// relative to its own start.
pub open spec fn seg_sizes(segs: Seq<(int, int)>, total: int) -> bool {
    &&& (forall|i: int| 0 <= i < segs.len() ==> (#[trigger] segs[i]).1 - segs[i].0
        < TARGET_CHUNK_SIZE + SEARCH_WINDOW + VAD_FRAME_SIZE)
    &&& (forall|i: int| 0 <= i < segs.len() && (#[trigger] segs[i]).1 < total ==> {
        &&& total - segs[i].0 > TARGET_CHUNK_SIZE
        &&& segs[i].1 - segs[i].0 > TARGET_CHUNK_SIZE - SEARCH_WINDOW
        &&& (segs[i].1 - segs[i].0) % (VAD_FRAME_SIZE as int) == 0
    })
}

/// The segments exactly cover `[0, total)`: a chain that is empty when the
/// signal is empty and otherwise closes at `total`.
pub open spec fn covers_exactly(segs: Seq<(int, int)>, total: int) -> bool {
    &&& seg_chain(segs, total)
    &&& (total == 0 ==> segs.len() == 0)
    &&& (total > 0 ==> segs.len() > 0 && segs[segs.len() - 1].1 == total)
}

/// The sample slices that `segs` cut out of `audio`.
pub open spec fn chunks_of<S>(audio: Seq<S>, segs: Seq<(int, int)>) -> Seq<Seq<S>> {
    segs.map_values(|s: (int, int)| audio.subrange(s.0, s.1))
}

/// The `(done, total)` progress reports that follow the segments of `segs`.
pub open spec fn progress_reports(segs: Seq<(int, int)>, total: int) -> Seq<(int, int)> {
    segs.map_values(|s: (int, int)| (s.1, total))
}

/// One aggregation step: a space separates the accumulated text from the new
/// piece unless nothing has accumulated yet.
pub open spec fn join_step(acc: Seq<char>, piece: Seq<char>) -> Seq<char> {
    if acc.len() == 0 {
        piece
    } else {
        acc + seq![' '] + piece
    }
}

/// The per-segment texts aggregated in order by `join_step`.
pub open spec fn join_texts(texts: Seq<Seq<char>>) -> Seq<char>
    decreases texts.len(),
{
    if texts.len() == 0 {
        Seq::empty()
    } else {
        join_step(join_texts(texts.drop_last()), texts.last())
    }
}

/// A sink that records every call it receives and answers `process` from a
/// script of responses, one per segment in order; segments past the end of
/// the script succeed with an empty text. It is the ready-made consumer for
/// driving the chunker without a transcription backend.
pub struct ScriptedSink<S> {
    /// The response each `process` call in turn will get.
    pub script: Vec<Result<String, String>>,
    /// The `(start, end)` pairs received, in order.
    pub segments: Vec<(usize, usize)>,
    /// The sample slices received, in order.
    pub chunks: Vec<Vec<S>>,
    /// The texts returned to the chunker by the successful calls, in order.
    pub texts: Vec<String>,
    /// The `(done, total)` progress reports received, in order.
    pub reports: Vec<(usize, usize)>,
}

impl<S> ScriptedSink<S> {
    /// A sink with nothing recorded yet that will answer from `script`.
    pub fn new(script: Vec<Result<String, String>>) -> (r: Self)
        ensures
            r.script == script,
            r.segments@.len() == 0,
            r.chunks@.len() == 0,
            r.texts@.len() == 0,
            r.reports@.len() == 0,
    {
        ScriptedSink {
            script,
            segments: Vec::new(),
            chunks: Vec::new(),
            texts: Vec::new(),
            reports: Vec::new(),
        }
    }
}

impl<S> ChunkSink<S> for ScriptedSink<S> {
    open spec fn segments(&self) -> Seq<(int, int)> {
        self.segments@.map_values(|p: (usize, usize)| (p.0 as int, p.1 as int))
    }

    open spec fn chunks(&self) -> Seq<Seq<S>> {
        self.chunks@.map_values(|c: Vec<S>| c@)
    }

    open spec fn texts(&self) -> Seq<Seq<char>> {
        self.texts@.map_values(|t: String| t@)
    }

    open spec fn reports(&self) -> Seq<(int, int)> {
        self.reports@.map_values(|p: (usize, usize)| (p.0 as int, p.1 as int))
    }

    fn process(&mut self, start: usize, end: usize, chunk: Vec<S>) -> (r: Result<String, String>) {
        let ghost pre = *self;
        let ghost chunk_view = chunk@;
        let k = self.segments.len();
        self.segments.push((start, end));
        self.chunks.push(chunk);
        proof {
            assert(self.segments() =~= pre.segments().push((start as int, end as int)));
            assert(self.chunks() =~= pre.chunks().push(chunk_view));
        }
        let response = if k < self.script.len() {
            match &self.script[k] {
                Ok(text) => Ok(text.clone()),
                Err(failure) => Err(failure.clone()),
            }
        } else {
            Ok(String::new())
        };
        match response {
            Ok(text) => {
                self.texts.push(text.clone());
                proof {
                    assert(self.texts() =~= pre.texts().push(text@));
                }
                Ok(text)
            },
            Err(failure) => Err(failure),
        }
    }

    fn report_progress(&mut self, done: usize, total: usize) {
        let ghost pre = *self;
        self.reports.push((done, total));
        proof {
            assert(self.reports() =~= pre.reports().push((done as int, total as int)));
        }
    }
}

/// Append one segment's text to the running transcription, separated by a
/// single space from any text already present.
pub fn append_text(acc: &mut String, piece: &str)
    ensures
        final(acc)@ == join_step(old(acc)@, piece@),
{
    if !acc.as_str().is_empty() {
        acc.append(" ");
        proof {
            reveal_strlit(" ");
            assert(old(acc)@ + " "@ =~= old(acc)@ + seq![' ']);
        }
    }
    acc.append(piece);
}

proof fn lemma_chain_ordered_pair(segs: Seq<(int, int)>, total: int, i: int, j: int)
    requires
        seg_chain(segs, total),
        0 <= i < j < segs.len(),
    ensures
        segs[i].1 <= segs[j].0,
    decreases j - i,
{
    if j > i + 1 {
        lemma_chain_ordered_pair(segs, total, i, j - 1);
    }
}

/// The law of exact coverage: when the segments cover the signal exactly,
/// every sample index lies in one and only one of them — no gaps, no
/// overlaps.
pub proof fn lemma_covers_exactly_partition(segs: Seq<(int, int)>, total: int, x: int)
    requires
        covers_exactly(segs, total),
        0 <= x < total,
    ensures
        exists|i: int| 0 <= i < segs.len() && (#[trigger] segs[i]).0 <= x < segs[i].1,
        forall|i: int, j: int|
            (0 <= i < segs.len() && 0 <= j < segs.len() && (#[trigger] segs[i]).0 <= x < segs[i].1
                && (#[trigger] segs[j]).0 <= x < segs[j].1) ==> i == j,
    decreases segs.len(),
{
    let n = segs.len() as int;
    if x >= segs[n - 1].0 {
        assert(0 <= n - 1 < segs.len() && segs[n - 1].0 <= x < segs[n - 1].1);
    } else {
        let prefix = segs.drop_last();
        assert(n >= 2) by {
            if n == 1 {
                assert(segs[0].0 == 0);
            }
        }
        assert forall|i: int| 0 <= i < prefix.len() implies 0 <= (#[trigger] prefix[i]).0
            < prefix[i].1 <= segs[n - 1].0 by {
            lemma_chain_ordered_pair(segs, total, i, n - 1);
        }
        assert(covers_exactly(prefix, segs[n - 1].0));
        lemma_covers_exactly_partition(prefix, segs[n - 1].0, x);
        let w = choose|i: int| 0 <= i < prefix.len() && (#[trigger] prefix[i]).0 <= x
            < prefix[i].1;
        assert(0 <= w < segs.len() && segs[w].0 <= x < segs[w].1);
    }
    assert forall|i: int, j: int|
        (0 <= i < segs.len() && 0 <= j < segs.len() && (#[trigger] segs[i]).0 <= x < segs[i].1
            && (#[trigger] segs[j]).0 <= x < segs[j].1) implies i == j by {
        if i < j {
            lemma_chain_ordered_pair(segs, total, i, j);
        } else if j < i {
            lemma_chain_ordered_pair(segs, total, j, i);
        }
    }
}

/// Progress never moves backwards: along a chain the segment ends — and so
/// the `done` values reported after each segment — are non-decreasing, and
/// when the segments cover a non-empty signal exactly, the last report says
/// all of it is done.
pub proof fn lemma_progress_monotone(segs: Seq<(int, int)>, total: int)
    requires
        covers_exactly(segs, total),
    ensures
        forall|i: int, j: int| 0 <= i <= j < segs.len() ==> (#[trigger] segs[i]).1
            <= (#[trigger] segs[j]).1,
        total > 0 ==> progress_reports(segs, total).last() == (total, total),
{
    assert forall|i: int, j: int| 0 <= i <= j < segs.len() implies (#[trigger] segs[i]).1
        <= (#[trigger] segs[j]).1 by {
        if i < j {
            lemma_chain_ordered_pair(segs, total, i, j);
        }
    }
}

/// A signal no longer than one target chunk is never split: the only
/// partition the chunker's contract admits is the whole buffer as one
/// segment, followed by a single progress report of everything done.
pub proof fn lemma_short_signal_single_segment(segs: Seq<(int, int)>, total: int)
    requires
        covers_exactly(segs, total),
        seg_sizes(segs, total),
        0 < total <= TARGET_CHUNK_SIZE,
    ensures
        segs =~= seq![(0int, total)],
        progress_reports(segs, total) =~= seq![(total, total)],
{
    let n = segs.len() as int;
    if n >= 2 {
        lemma_chain_ordered_pair(segs, total, 0, n - 1);
        assert(segs[0].1 < total);
        assert(false);
    }
    assert(segs[0] == (0int, total));
}

proof fn lemma_chunks_of_push<S>(audio: Seq<S>, segs: Seq<(int, int)>, s: (int, int))
    ensures
        chunks_of(audio, segs.push(s)) == chunks_of(audio, segs).push(audio.subrange(s.0, s.1)),
{
    assert(chunks_of(audio, segs.push(s)) =~= chunks_of(audio, segs).push(
        audio.subrange(s.0, s.1),
    ));
}

proof fn lemma_progress_reports_push(segs: Seq<(int, int)>, total: int, s: (int, int))
    ensures
        progress_reports(segs.push(s), total) == progress_reports(segs, total).push((s.1, total)),
{
    assert(progress_reports(segs.push(s), total) =~= progress_reports(segs, total).push(
        (s.1, total),
    ));
}

/// The `(int, int)` views of a sequence of segment pairs.
pub open spec fn seg_views(segs: Seq<(usize, usize)>) -> Seq<(int, int)> {
    segs.map_values(|p: (usize, usize)| (p.0 as int, p.1 as int))
}

/// The silence-seeking chunker.
pub struct SmartChunker;

impl SmartChunker {
    /// Partition `audio` into segments of roughly one target chunk cut at
    /// detected silence, processing and reporting each through `sink` in
    /// order, and return the processed texts joined by single spaces.
    ///
    /// On success the segments handed to the sink exactly cover the signal,
    /// each sized by the search rules, each chunk is precisely the slice its
    /// `(start, end)` pair names, one progress report follows each segment,
    /// and the returned text is the join of the per-segment texts. The first
    /// processing failure is returned as the error, after the failing
    /// segment was handed over but before any progress is reported for it.
    /// Empty input returns an empty text without reaching the sink at all.
    pub fn chunk_audio<S: Copy, C: FrameClassifier<S>, K: ChunkSink<S>>(
        audio: &[S],
        classifier: &mut C,
        sink: &mut K,
    ) -> (r: Result<String, String>)
        ensures
            ({
                let total = audio@.len() as int;
                let segs = final(sink).segments().skip(old(sink).segments().len() as int);
                let texts = final(sink).texts().skip(old(sink).texts().len() as int);
                &&& final(sink).segments() == old(sink).segments() + segs
                &&& final(sink).chunks() == old(sink).chunks() + chunks_of(audio@, segs)
                &&& final(sink).texts() == old(sink).texts() + texts
                &&& seg_chain(segs, total)
                &&& seg_sizes(segs, total)
                &&& match r {
                    Ok(text) => {
                        &&& covers_exactly(segs, total)
                        &&& texts.len() == segs.len()
                        &&& final(sink).reports() == old(sink).reports() + progress_reports(
                            segs,
                            total,
                        )
                        &&& text@ == join_texts(texts)
                    },
                    Err(_) => {
                        &&& segs.len() == texts.len() + 1
                        &&& final(sink).reports() == old(sink).reports() + progress_reports(
                            segs.drop_last(),
                            total,
                        )
                    },
                }
            }),
    {
        let total = audio.len();
        let mut text = String::new();
        let mut start: usize = 0;
        let ghost mut segs: Seq<(int, int)> = Seq::empty();
        let ghost mut texts: Seq<Seq<char>> = Seq::empty();
        while start < total
            invariant
                total == audio@.len(),
                start <= total,
                seg_chain(segs, total as int),
                seg_sizes(segs, total as int),
                segs.len() > 0 ==> segs[segs.len() - 1].1 == start as int,
                segs.len() == 0 ==> start == 0,
                texts.len() == segs.len(),
                sink.segments() == old(sink).segments() + segs,
                sink.chunks() == old(sink).chunks() + chunks_of(audio@, segs),
                sink.texts() == old(sink).texts() + texts,
                sink.reports() == old(sink).reports() + progress_reports(segs, total as int),
                text@ == join_texts(texts),
            decreases total - start,
        {
            let end = Self::find_segment_end(audio, classifier, start);
            let chunk = slice_to_vec(slice_subrange(audio, start, end));
            let processed = sink.process(start, end, chunk);
            proof {
                let s = (start as int, end as int);
                lemma_chunks_of_push(audio@, segs, s);
                lemma_progress_reports_push(segs, total as int, s);
                let prev = segs;
                segs = segs.push(s);
                assert(segs.drop_last() =~= prev);
                assert(sink.segments() =~= old(sink).segments() + segs);
                assert(sink.chunks() =~= old(sink).chunks() + chunks_of(audio@, segs));
            }
            match processed {
                Ok(piece) => {
                    append_text(&mut text, piece.as_str());
                    proof {
                        let prev_texts = texts;
                        texts = texts.push(piece@);
                        assert(texts.drop_last() =~= prev_texts);
                        assert(sink.texts() =~= old(sink).texts() + texts);
                    }
                    start = end;
                    sink.report_progress(start, total);
                    proof {
                        assert(sink.reports() =~= old(sink).reports() + progress_reports(
                            segs,
                            total as int,
                        ));
                    }
                }
                Err(failure) => {
                    proof {
                        assert(segs =~= sink.segments().skip(old(sink).segments().len() as int));
                        assert(texts =~= sink.texts().skip(old(sink).texts().len() as int));
                    }
                    return Err(failure);
                }
            }
        }
        proof {
            assert(segs =~= sink.segments().skip(old(sink).segments().len() as int));
            assert(texts =~= sink.texts().skip(old(sink).texts().len() as int));
            if total > 0 && segs.len() == 0 {
                assert(false);
            }
            if total == 0 && segs.len() > 0 {
                assert(0 <= segs[0].0 < segs[0].1 <= 0);
            }
        }
        Ok(text)
    }

    /// The whole partition up front, without processing anything: the
    /// segment pairs the chunker would dispatch, in order. This is the
    /// boundary search alone, for a caller whose processing step lives
    /// outside the library and who therefore runs the dispatch loop itself.
    pub fn plan_segments<S, C: FrameClassifier<S>>(audio: &[S], classifier: &mut C) -> (segs: Vec<
        (usize, usize),
    >)
        ensures
            covers_exactly(seg_views(segs@), audio@.len() as int),
            seg_sizes(seg_views(segs@), audio@.len() as int),
    {
        let total = audio.len();
        let mut out: Vec<(usize, usize)> = Vec::new();
        let mut start: usize = 0;
        while start < total
            invariant
                total == audio@.len(),
                start <= total,
                seg_chain(seg_views(out@), total as int),
                seg_sizes(seg_views(out@), total as int),
                out@.len() > 0 ==> seg_views(out@)[out@.len() - 1].1 == start as int,
                out@.len() == 0 ==> start == 0,
            decreases total - start,
        {
            let end = Self::find_segment_end(audio, classifier, start);
            proof {
                assert(seg_views(out@.push((start, end))) =~= seg_views(out@).push(
                    (start as int, end as int),
                ));
            }
            out.push((start, end));
            start = end;
        }
        proof {
            let views = seg_views(out@);
            if total > 0 && views.len() == 0 {
                assert(false);
            }
            if total == 0 && views.len() > 0 {
                assert(0 <= views[0].0 < views[0].1 <= 0);
            }
        }
        out
    }

    /// End of the segment that begins at `start`: the whole remaining tail
    /// when at most one target chunk of it is left; otherwise the end of the
    /// first frame the classifier calls silent within the search window
    /// around the target cut point, or the target cut point itself when no
    /// frame there is silent. Frames are aligned to `start`, and a frame the
    /// classifier fails on counts as not known to be silent.
    fn find_segment_end<S, C: FrameClassifier<S>>(
        audio: &[S],
        classifier: &mut C,
        start: usize,
    ) -> (end: usize)
        requires
            start < audio@.len(),
        ensures
            start < end <= audio@.len(),
            end - start < TARGET_CHUNK_SIZE + SEARCH_WINDOW + VAD_FRAME_SIZE,
            audio@.len() - start <= TARGET_CHUNK_SIZE ==> end == audio@.len(),
            audio@.len() - start > TARGET_CHUNK_SIZE ==> {
                &&& end - start > TARGET_CHUNK_SIZE - SEARCH_WINDOW
                &&& (end - start) % (VAD_FRAME_SIZE as int) == 0
            },
    {
        let total = audio.len();
        if total - start <= TARGET_CHUNK_SIZE {
            return total;
        }
        let target_end = start + TARGET_CHUNK_SIZE;
        let search_start = target_end - SEARCH_WINDOW;
        let search_end = if total - target_end > SEARCH_WINDOW {
            target_end + SEARCH_WINDOW
        } else {
            total
        };
        // Align the scan to a whole number of frames past `start`.
        let aligned_start = start + ((search_start - start) / VAD_FRAME_SIZE) * VAD_FRAME_SIZE;
        let mut pos = aligned_start;
        while pos < search_end && total - pos >= VAD_FRAME_SIZE
            invariant
                total == audio@.len(),
                start < total,
                total - start > TARGET_CHUNK_SIZE,
                target_end == start + TARGET_CHUNK_SIZE,
                search_end <= total,
                search_end <= target_end + SEARCH_WINDOW,
                aligned_start <= pos,
                start + (TARGET_CHUNK_SIZE - SEARCH_WINDOW) - VAD_FRAME_SIZE < aligned_start,
                pos <= search_end + VAD_FRAME_SIZE,
                (pos - start) % (VAD_FRAME_SIZE as int) == 0,
            decreases search_end + VAD_FRAME_SIZE - pos,
        {
            let frame = slice_subrange(audio, pos, pos + VAD_FRAME_SIZE);
            match classifier.classify(frame) {
                Some(is_speech) => {
                    if !is_speech {
                        return pos + VAD_FRAME_SIZE;
                    }
                }
                None => {
                    // Inference failed for this frame alone: scan on.
                }
            }
            pos = pos + VAD_FRAME_SIZE;
        }
        target_end
    }
}

} // verus!
